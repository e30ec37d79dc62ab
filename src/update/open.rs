use vstd::prelude::*;

use crate::action::Action;
use crate::message::{Mode, QuitMode};
use crate::model::Model;
use crate::update::cursor::{get_current_selected_path, selected_path_of};

verus! {

/// Opens the selection in navigation mode: when the session hands its
/// selection over, it quits with the path as payload; else the path is opened.
pub fn open_selected(model: &Model) -> (r: Vec<Action>)
    ensures
        model.mode != Mode::Navigation ==> r@.len() == 0,
        model.mode == Mode::Navigation ==> match selected_path_of(*model) {
            Some(p) => r@.len() == 1 && if model.settings.selection_to_file_on_open is Some
                || model.settings.selection_to_stdout_on_open {
                r@[0] matches Action::Quit(m, Some(s)) && m == QuitMode::FailOnRunningTasks && s@ == p
            } else {
                r@[0] matches Action::Open(s) && s@ == p
            },
            None => r@.len() == 0,
        },
{
    let mut actions: Vec<Action> = Vec::new();
    if model.mode != Mode::Navigation {
        return actions;
    }
    if let Some(selected) = get_current_selected_path(model) {
        if model.settings.selection_to_file_on_open.is_some() || model.settings.selection_to_stdout_on_open {
            actions.push(Action::Quit(QuitMode::FailOnRunningTasks, Some(selected)));
        } else {
            actions.push(Action::Open(selected));
        }
    }
    actions
}

} // verus!
