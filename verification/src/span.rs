//! Byte spans attached to parsed data.

use vstd::prelude::*;

verus! {

/// A value together with the half-open byte range `[start, end)` it was
/// parsed from (or, for pinpoint errors, `[idx, idx]`).
///
/// The fields are public so that contracts can speak of them; `start <=
/// end` is therefore not an invariant of the type itself, but it holds of
/// every span the parser produces, and [`Span::new`] demands it.
#[derive(Clone, Copy, Debug, PartialEq, Eq, Structural)]
pub struct Span<T> {
    pub data: T,
    pub start: usize,
    pub end: usize,
}

impl<T> Span<T> {
    /// Wraps `data` with the byte range `[start, end)`.
    pub fn new(data: T, start: usize, end: usize) -> (r: Span<T>)
        requires
            start <= end,
        ensures
            r.data == data,
            r.start == start,
            r.end == end,
    {
        Span { data, start, end }
    }

    /// The wrapped data.
    pub fn data(&self) -> (r: &T)
        ensures
            r == &self.data,
    {
        &self.data
    }

    /// The starting byte offset.
    pub fn start(&self) -> (r: usize)
        ensures
            r == self.start,
    {
        self.start
    }

    /// The ending byte offset.
    pub fn end(&self) -> (r: usize)
        ensures
            r == self.end,
    {
        self.end
    }
}

} // verus!
