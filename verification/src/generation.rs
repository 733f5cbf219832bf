//! Taking in what the model writes piece by piece: what counts as output,
//! when to stop, and what the output is once it is complete.

use vstd::prelude::*;
use vstd::string::StringExecFns;
use crate::text::{chars_of, contains, first_line, first_line_of, holds, lines_of,
    split_lines, strip_prefix, text_of, trim, trimmed, without_prefix};

verus! {

/// How many pieces the plain correction takes from the model at most.
pub const MAX_FIX_TOKENS: usize = 128;

/// How many pieces the tool-assisted correction takes from the model at most.
pub const MAX_WIT_TOKENS: usize = 256;

/// How many lines the tool-assisted correction lets the model write.
pub const MAX_WIT_LINES: usize = 10;

/// Which of the two corrections the model writes for.
#[derive(Debug, Clone, Copy, PartialEq, Eq, Structural)]
pub enum Style {
    /// The plain correction: one line of output.
    Fix,
    /// The tool-assisted correction: up to ten lines of output.
    Wit,
}

/// What has been taken in of the model's writing.
#[derive(Debug)]
pub struct OutputFilter {
    style: Style,
    output: String,
    in_thinking: bool,
    after_thinking: bool,
}

/// What has been taken in, as a sequence of characters.
pub struct FilterView {
    pub style: Style,
    pub output: Seq<char>,
    pub in_thinking: bool,
    pub after_thinking: bool,
}

impl View for OutputFilter {
    type V = FilterView;

    closed spec fn view(&self) -> FilterView {
        FilterView {
            style: self.style,
            output: self.output@,
            in_thinking: self.in_thinking,
            after_thinking: self.after_thinking,
        }
    }
}

/// Whether a piece ends the model's turn.
pub open spec fn ends_turn(piece: Seq<char>) -> bool {
    holds(piece, "<|im_end|>"@) || holds(piece, "<|im_start|>"@)
}

/// Whether the output is complete for its style: one line and the start of a
/// second for the plain correction, more than ten lines for the other.
pub open spec fn is_complete(style: Style, output: Seq<char>) -> bool {
    let t = trimmed(output);
    match style {
        Style::Fix => t.len() > 0 && holds(t, "\n"@),
        Style::Wit => t.len() > 0 && lines_of(t).len() > MAX_WIT_LINES,
    }
}

/// What a piece does to what has been taken in, and whether the model is to
/// write on. A piece that ends the turn stops the model and is dropped. A
/// piece with a thinking marker opens or closes the thinking; what the model
/// thinks is dropped, and so is white space right after the thinking. Any
/// other piece is output, and stops the model where it completes the output.
pub open spec fn fed(state: FilterView, piece: Seq<char>) -> (FilterView, bool) {
    if ends_turn(piece) {
        (state, false)
    } else if holds(piece, "<think>"@) {
        (FilterView { in_thinking: true, ..state }, true)
    } else if holds(piece, "</think>"@) {
        (FilterView { in_thinking: false, after_thinking: true, ..state }, true)
    } else if state.in_thinking {
        (state, true)
    } else if state.after_thinking && trimmed(piece).len() == 0 {
        (state, true)
    } else {
        let output = state.output + piece;
        (
            FilterView { output, after_thinking: false, ..state },
            !is_complete(state.style, output),
        )
    }
}

/// Output of the plain correction without the first of the known leading
/// artifacts that it begins with.
pub open spec fn without_fix_artifact(s: Seq<char>) -> Seq<char> {
    match without_prefix(s, "command >"@) {
        Some(rest) => rest,
        None => match without_prefix(s, "command>"@) {
            Some(rest) => rest,
            None => match without_prefix(s, "command 2>&1"@) {
                Some(rest) => rest,
                None => match without_prefix(s, "Command:"@) {
                    Some(rest) => rest,
                    None => s,
                },
            },
        },
    }
}

/// The correction that stands in the model's output, by style. The plain one:
/// the output trimmed, without a leading artifact, its first line, trimmed.
/// The tool-assisted one: the output trimmed, without a leading bar, trimmed.
pub open spec fn correction_of(style: Style, output: Seq<char>) -> Seq<char> {
    let t = trimmed(output);
    match style {
        Style::Fix => trimmed(first_line_of(trimmed(without_fix_artifact(t)))),
        Style::Wit => match without_prefix(t, "|"@) {
            Some(rest) => trimmed(rest),
            None => t,
        },
    }
}

/// Whether the output is complete for its style.
fn complete(style: Style, output: &str) -> (b: bool)
    ensures
        b == is_complete(style, output@),
{
    let s = chars_of(output);
    let t = trim(&s);
    if t.len() == 0 {
        return false;
    }
    match style {
        Style::Fix => contains(&t, "\n"),
        Style::Wit => {
            let lines = split_lines(&t);
            assert(crate::text::views(lines@).len() == lines.len());
            lines.len() > MAX_WIT_LINES
        },
    }
}

/// `s` without the string `prefix`, where it begins with it.
fn strip(s: &Vec<char>, prefix: &str) -> (r: Option<Vec<char>>)
    ensures
        match r {
            Some(rest) => without_prefix(s@, prefix@) == Some(rest@),
            None => without_prefix(s@, prefix@) is None,
        },
{
    let p = chars_of(prefix);
    strip_prefix(s, &p)
}

/// The correction that stands in the model's output.
pub fn clean_generated(style: Style, output: &str) -> (r: String)
    ensures
        r@ == correction_of(style, output@),
{
    let s = chars_of(output);
    let t = trim(&s);
    match style {
        Style::Fix => {
            let bare = if let Some(rest) = strip(&t, "command >") {
                rest
            } else if let Some(rest) = strip(&t, "command>") {
                rest
            } else if let Some(rest) = strip(&t, "command 2>&1") {
                rest
            } else if let Some(rest) = strip(&t, "Command:") {
                rest
            } else {
                t
            };
            let bare = trim(&bare);
            let line = first_line(&bare);
            text_of(&trim(&line))
        },
        Style::Wit => match strip(&t, "|") {
            Some(rest) => text_of(&trim(&rest)),
            None => text_of(&t),
        },
    }
}

impl OutputFilter {
    /// A filter that has taken in nothing.
    pub fn new(style: Style) -> (r: Self)
        ensures
            r@ == (FilterView {
                style,
                output: Seq::empty(),
                in_thinking: false,
                after_thinking: false,
            }),
    {
        OutputFilter { style, output: String::new(), in_thinking: false, after_thinking: false }
    }

    /// Takes in one piece of the model's writing, and tells whether the model
    /// is to write on.
    pub fn feed(&mut self, piece: &str) -> (go_on: bool)
        ensures
            (final(self)@, go_on) == fed(old(self)@, piece@),
    {
        let p = chars_of(piece);
        if contains(&p, "<|im_end|>") || contains(&p, "<|im_start|>") {
            return false;
        }
        if contains(&p, "<think>") {
            self.in_thinking = true;
            return true;
        }
        if contains(&p, "</think>") {
            self.in_thinking = false;
            self.after_thinking = true;
            return true;
        }
        if self.in_thinking {
            return true;
        }
        if self.after_thinking && trim(&p).len() == 0 {
            return true;
        }
        self.after_thinking = false;
        self.output.append(piece);
        !complete(self.style, self.output.as_str())
    }

    /// What the model has written so far that counts as output.
    pub fn output(&self) -> (r: &String)
        ensures
            r@ == self@.output,
    {
        &self.output
    }

    /// The correction that stands in what was taken in.
    pub fn finish(self) -> (r: String)
        ensures
            r@ == correction_of(self@.style, self@.output),
    {
        clean_generated(self.style, self.output.as_str())
    }
}

} // verus!
