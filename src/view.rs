use vstd::prelude::*;

use crate::buffer::TextBuffer;

verus! {

/// `w` spaces.
pub open spec fn spaces(w: nat) -> Seq<char> {
    Seq::new(w, |i: int| ' ')
}

/// A line's text brought to exactly `w` columns: cut after `w` characters, or
/// padded with spaces on the right.
pub open spec fn fitted(c: Seq<char>, w: nat) -> Seq<char> {
    if c.len() >= w {
        c.subrange(0, w as int)
    } else {
        c + spaces((w - c.len()) as nat)
    }
}

/// The text of line `i` of the window, or nothing past the buffer's end.
pub open spec fn window_line(b: TextBuffer, i: int) -> Seq<char> {
    let at = b.view_port.vertical_index + i;
    if at < b.lines@.len() {
        b.lines@[at].content@
    } else {
        Seq::empty()
    }
}

/// Brings `line` to exactly `width` characters: truncated if longer, padded
/// with spaces if shorter.
pub fn correct_line_length(line: &str, width: usize) -> (r: String)
    ensures
        r@ == fitted(line@, width as nat),
        r@.len() == width,
{
    let n = line.unicode_len();
    if n < width {
        let mut out = String::from_str(line);
        let mut k: usize = n;
        proof {
            reveal_strlit(" ");
            assert(out@ =~= line@ + spaces(0));
        }
        while k < width
            invariant
                n <= k <= width,
                n == line@.len(),
                out@ == line@ + spaces((k - n) as nat),
            decreases width - k,
        {
            out.append(" ");
            proof {
                reveal_strlit(" ");
                assert(out@ =~= line@ + spaces((k + 1 - n) as nat));
            }
            k = k + 1;
        }
        out
    } else {
        String::from_str(line.substring_char(0, width))
    }
}

/// The lines a renderer draws for `model`: exactly `height` lines, taken from
/// the first visible line on, each exactly `width` characters wide.
pub fn get_lines(model: &TextBuffer) -> (r: Vec<String>)
    ensures
        r@.len() == model.view_port.height,
        forall|i: int|
            0 <= i < r@.len() ==> r@[i]@ == fitted(
                window_line(*model, i),
                model.view_port.width as nat,
            ),
{
    let height = model.view_port.height;
    let width = model.view_port.width;
    let start = model.view_port.vertical_index;
    let mut out: Vec<String> = Vec::new();
    let mut i: usize = 0;
    while i < height
        invariant
            i <= height,
            height == model.view_port.height,
            width == model.view_port.width,
            start == model.view_port.vertical_index,
            out@.len() == i,
            forall|j: int| 0 <= j < i ==> out@[j]@ == fitted(window_line(*model, j), width as nat),
        decreases height - i,
    {
        let text = if start < model.lines.len() && i < model.lines.len() - start {
            correct_line_length(model.lines[start + i].content.as_str(), width)
        } else {
            correct_line_length("", width)
        };
        proof {
            reveal_strlit("");
        }
        out.push(text);
        i = i + 1;
    }
    out
}

} // verus!
