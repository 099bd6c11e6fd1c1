//! Finding the comment that covers a byte offset.

use vstd::prelude::*;

verus! {

use crate::comment::Comment;

/// Whether the comment's byte range covers `index` (both bounds
/// inclusive: a single-line comment's `end` excludes its newline).
pub open spec fn cmt_contains(c: Comment, index: usize) -> bool {
    c.start <= index <= c.end
}

/// `r` is the first comment of `cs` covering `index`, or nothing covers
/// it.
pub open spec fn found_comment(cs: Seq<Comment>, index: usize, r: Option<Comment>) -> bool {
    match r {
        Some(c) => exists|k: int| 0 <= k < cs.len() && cs[k] == c && cmt_contains(cs[k], index)
            && (forall|j: int| 0 <= j < k ==> !cmt_contains(#[trigger] cs[j], index)),
        None => forall|k: int| 0 <= k < cs.len() ==> !cmt_contains(#[trigger] cs[k], index),
    }
}

/// Access to the comment that covers a byte offset, if any.
pub trait FindComment {
    /// The comments searched, in order.
    spec fn comment_seq(&self) -> Seq<Comment>;

    /// The first comment covering `index`, if any.
    fn find_comment(&self, index: usize) -> (r: Option<&Comment>)
        ensures
            found_comment(
                self.comment_seq(),
                index,
                match r {
                    Some(c) => Some(*c),
                    None => None,
                },
            ),
    ;
}

/// The first comment of the slice covering `index`, if any.
pub fn find_comment_in(cs: &[Comment], index: usize) -> (r: Option<&Comment>)
    ensures
        found_comment(
            cs@,
            index,
            match r {
                Some(c) => Some(*c),
                None => None,
            },
        ),
{
    let n = cs.len();
    let mut i: usize = 0;
    while i < n
        invariant
            0 <= i <= n,
            n == cs@.len(),
            forall|j: int| 0 <= j < i ==> !cmt_contains(#[trigger] cs@[j], index),
        decreases n - i,
    {
        if cs[i].start <= index && index <= cs[i].end {
            return Some(&cs[i]);
        }
        i = i + 1;
    }
    None
}

impl FindComment for Vec<Comment> {
    open spec fn comment_seq(&self) -> Seq<Comment> {
        self@
    }

    fn find_comment(&self, index: usize) -> (r: Option<&Comment>) {
        find_comment_in(self.as_slice(), index)
    }
}

} // verus!
