//! A terminal file browser's core: the buffer, cursor and viewport model, the
//! message vocabulary, the filesystem-watch event mapping, the task registry with
//! its supersession rule, the trash register and the update step that drives
//! them.

pub mod buffer;
pub mod viewport;
pub mod message;
pub mod view;
pub mod event;
pub mod watch;
pub mod junkyard;
pub mod order;
pub mod task;
pub mod enumerate;
pub mod paths;
pub mod operation;
pub mod model;
pub mod register;
pub mod update;
pub mod action;
