use vstd::prelude::*;

use crate::buffer::{BufferLine, SignIdentifier};

verus! {

/// Window options that a viewport takes over from the settings.
pub struct WindowSettings {
    pub sign_column_width: usize,
}

/// How line numbers are shown in the gutter.
#[derive(Clone, Copy, Debug, PartialEq, Eq, Structural)]
pub enum LineNumber {
    Absolute,
    Off,
    Relative,
}

impl Default for LineNumber {
    fn default() -> (r: Self)
        ensures
            r == LineNumber::Off,
    {
        LineNumber::Off
    }
}

/// The visible window onto a text buffer.
pub struct ViewPort {
    pub height: usize,
    pub hidden_sign_ids: Vec<SignIdentifier>,
    pub horizontal_index: usize,
    pub line_number: LineNumber,
    pub line_number_width: usize,
    pub sign_column_width: usize,
    pub vertical_index: usize,
    pub width: usize,
}

/// `x`, saturated at the largest `usize`.
pub open spec fn capped(x: int) -> int {
    if x > usize::MAX {
        usize::MAX as int
    } else {
        x
    }
}

/// Number of characters of a line's custom prefix.
pub open spec fn custom_prefix_len(line: &BufferLine) -> int {
    match line.prefix {
        Some(p) => p@.len() as int,
        None => 0,
    }
}

impl ViewPort {
    pub open spec fn line_number_width_spec(&self) -> int {
        match self.line_number {
            LineNumber::Off => 0,
            _ => self.line_number_width as int,
        }
    }

    pub open spec fn prefix_width_spec(&self) -> int {
        capped(self.sign_column_width + self.line_number_width_spec())
    }

    pub open spec fn border_width_spec(&self) -> int {
        if self.prefix_width_spec() > 0 {
            1
        } else {
            0
        }
    }

    pub open spec fn offset_width_spec(&self, line: &BufferLine) -> int {
        capped(
            self.sign_column_width + self.line_number_width_spec() + self.border_width_spec()
                + custom_prefix_len(line),
        )
    }

    pub open spec fn content_width_spec(&self, line: &BufferLine) -> int {
        if self.width < self.offset_width_spec(line) {
            0
        } else {
            self.width - self.offset_width_spec(line)
        }
    }

    /// One column of border between the gutter and the text, if there is a gutter.
    pub fn get_border_width(&self) -> (r: usize)
        ensures
            r == self.border_width_spec(),
    {
        if self.get_prefix_width() > 0 {
            1
        } else {
            0
        }
    }

    /// Columns left for the line's content once gutter, border and prefix are drawn.
    pub fn get_content_width(&self, line: &BufferLine) -> (r: usize)
        ensures
            r == self.content_width_spec(line),
    {
        let offset = self.get_offset_width(line);
        if self.width < offset {
            0
        } else {
            self.width - offset
        }
    }

    pub fn get_line_number_width(&self) -> (r: usize)
        ensures
            r == self.line_number_width_spec(),
    {
        match self.line_number {
            LineNumber::Absolute => self.line_number_width,
            LineNumber::Off => 0,
            LineNumber::Relative => self.line_number_width,
        }
    }

    /// Columns taken before the line's content: signs, numbers, border and prefix.
    pub fn get_offset_width(&self, line: &BufferLine) -> (r: usize)
        ensures
            r == self.offset_width_spec(line),
    {
        let custom_prefix_width: usize = match &line.prefix {
            Some(prefix) => prefix.as_str().unicode_len(),
            None => 0,
        };
        self.get_prefix_width().saturating_add(self.get_border_width()).saturating_add(
            custom_prefix_width,
        )
    }

    /// Columns of the sign column and the line numbers together.
    pub fn get_prefix_width(&self) -> (r: usize)
        ensures
            r == self.prefix_width_spec(),
    {
        self.sign_column_width.saturating_add(self.get_line_number_width())
    }

    pub fn set(&mut self, settings: &WindowSettings)
        ensures
            final(self).sign_column_width == settings.sign_column_width,
            final(self).height == old(self).height,
            final(self).width == old(self).width,
            final(self).vertical_index == old(self).vertical_index,
            final(self).horizontal_index == old(self).horizontal_index,
            final(self).line_number == old(self).line_number,
            final(self).line_number_width == old(self).line_number_width,
            final(self).hidden_sign_ids == old(self).hidden_sign_ids,
    {
        self.sign_column_width = settings.sign_column_width;
    }
}

} // verus!
