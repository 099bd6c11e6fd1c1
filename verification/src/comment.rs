//! Comments collected while parsing JSONC.

use vstd::prelude::*;

verus! {

/// A comment met while skipping whitespace: its byte range `[start, end)`,
/// its form, and its text (the bytes between `//` or `/*` and the line end
/// or `*/`; a single-line comment's `end` excludes its newline).
///
/// The fields are public so that contracts can speak of them; `start <=
/// end` is therefore not an invariant of the type itself, but it holds of
/// every comment the parser collects.
#[derive(Clone, Debug, PartialEq, Eq)]
pub struct Comment {
    pub start: usize,
    pub end: usize,
    pub multi: bool,
    pub text: Vec<u8>,
}

impl Comment {
    /// The byte length of the comment text.
    pub fn len(&self) -> (r: usize)
        ensures
            r == self.text@.len(),
    {
        self.text.len()
    }

    /// Whether the comment is a `/* ... */` comment.
    pub fn is_multiline(&self) -> (r: bool)
        ensures
            r == self.multi,
    {
        self.multi
    }

    /// The comment text.
    pub fn as_bytes(&self) -> (r: &[u8])
        ensures
            r@ == self.text@,
    {
        self.text.as_slice()
    }

    /// The starting byte offset of the comment.
    pub fn start(&self) -> (r: usize)
        ensures
            r == self.start,
    {
        self.start
    }

    /// The ending byte offset of the comment.
    pub fn end(&self) -> (r: usize)
        ensures
            r == self.end,
    {
        self.end
    }
}

} // verus!
