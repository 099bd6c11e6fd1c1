//! Line offsets and comments of a parsed source, with lookups by byte
//! offset and by line index.

use vstd::prelude::*;

verus! {

use crate::comment::Comment;
use crate::find_comment::{cmt_contains, find_comment_in, found_comment, FindComment};

/// The newline byte offsets of a source, strictly increasing, and the
/// comments passed over while parsing it.
#[derive(Debug, Clone, PartialEq, Eq)]
pub struct Metadata {
    pub lines: Vec<usize>,
    pub cmnts: Vec<Comment>,
}

/// A strictly increasing sequence of offsets.
pub open spec fn strictly_increasing(s: Seq<usize>) -> bool {
    forall|a: int, b: int| 0 <= a < b < s.len() ==> #[trigger] s[a] < #[trigger] s[b]
}

impl Metadata {
    /// The line the byte at `index` falls in: the count of newlines at
    /// offsets not past `index`. Input past the last newline counts as one
    /// further line.
    pub fn line_index(&self, index: usize) -> (r: usize)
        requires
            strictly_increasing(self.lines@),
        ensures
            r <= self.lines@.len(),
            forall|k: int| 0 <= k < r ==> #[trigger] self.lines@[k] <= index,
            forall|k: int| r <= k < self.lines@.len() ==> #[trigger] self.lines@[k] > index,
    {
        let mut lo: usize = 0;
        let mut hi: usize = self.lines.len();
        while lo < hi
            invariant
                0 <= lo <= hi <= self.lines@.len(),
                strictly_increasing(self.lines@),
                forall|k: int| 0 <= k < lo ==> #[trigger] self.lines@[k] <= index,
                forall|k: int| hi <= k < self.lines@.len() ==> #[trigger] self.lines@[k] > index,
            decreases hi - lo,
        {
            let mid = lo + (hi - lo) / 2;
            if self.lines[mid] <= index {
                proof {
                    assert(forall|k: int| 0 <= k <= mid ==> #[trigger] self.lines@[k]
                        <= self.lines@[mid as int]);
                }
                lo = mid + 1;
            } else {
                proof {
                    assert(forall|k: int| mid <= k < self.lines@.len()
                        ==> self.lines@[mid as int] <= #[trigger] self.lines@[k]);
                }
                hi = mid;
            }
        }
        lo
    }

    /// The comment that ends the line with the given index, if any: the
    /// first comment covering the byte just before that line's newline.
    pub fn find_comment_by_line(&self, index: usize) -> (r: Option<&Comment>)
        ensures
            ({
                if index < self.lines@.len() && self.lines@[index as int] > 0 {
                    found_comment(
                        self.cmnts@,
                        (self.lines@[index as int] - 1) as usize,
                        match r {
                            Some(c) => Some(*c),
                            None => None,
                        },
                    )
                } else {
                    r is None
                }
            }),
    {
        if index >= self.lines.len() {
            return None;
        }
        let v = self.lines[index];
        if v == 0 {
            return None;
        }
        find_comment_in(self.cmnts.as_slice(), v - 1)
    }
}

impl FindComment for Metadata {
    open spec fn comment_seq(&self) -> Seq<Comment> {
        self.cmnts@
    }

    fn find_comment(&self, index: usize) -> (r: Option<&Comment>) {
        find_comment_in(self.cmnts.as_slice(), index)
    }
}

impl crate::misc::Sealed for Metadata {

}

/// `lines` is the full newline table of `s`: strictly increasing, every
/// entry a newline offset, and every newline offset an entry.
pub open spec fn newline_table(s: Seq<u8>, lines: Seq<usize>) -> bool {
    &&& strictly_increasing(lines)
    &&& forall|k: int| 0 <= k < lines.len() ==> #[trigger] lines[k] < s.len() && s[lines[k] as int]
        == 0x0a
    &&& forall|q: int| 0 <= q < s.len() && s[q] == 0x0a ==> exists|k: int|
        0 <= k < lines.len() && #[trigger] lines[k] == q
}

/// The offsets of all newline bytes of `s`, strictly increasing and
/// complete.
pub fn scan_newlines(s: &[u8]) -> (r: Vec<usize>)
    ensures
        newline_table(s@, r@),
{
    let n = s.len();
    let mut out: Vec<usize> = Vec::new();
    let mut i: usize = 0;
    while i < n
        invariant
            0 <= i <= n,
            n == s@.len(),
            strictly_increasing(out@),
            forall|k: int| 0 <= k < out@.len() ==> #[trigger] out@[k] < i && s@[out@[k] as int]
                == 0x0a,
            forall|p: int| 0 <= p < i && s@[p] == 0x0a ==> exists|k: int|
                0 <= k < out@.len() && #[trigger] out@[k] == p,
        decreases n - i,
    {
        if s[i] == 0x0a {
            let ghost before = out@;
            out.push(i);
            proof {
                assert(out@[before.len() as int] == i);
                assert(forall|p: int| 0 <= p < i && s@[p] == 0x0a ==> exists|k: int|
                    0 <= k < out@.len() && #[trigger] out@[k] == p) by {
                    assert(forall|k: int| 0 <= k < before.len() ==> out@[k] == before[k]);
                }
            }
        }
        i = i + 1;
    }
    out
}

} // verus!
