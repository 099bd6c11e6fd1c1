//! Byte searching, through the `memchr` crate.

use vstd::prelude::*;

verus! {

use crate::model::{find_byte, find_close, lemma_find_byte_unique, lemma_find_close_unique};

/// Relies on memchr::memchr: the index of the first occurrence of `needle`
/// in `haystack`, or `None` when it does not occur.
#[verifier::external_body]
fn memchr_wrap(needle: u8, haystack: &[u8]) -> (r: Option<usize>)
    ensures
        match r {
            Some(k) => k < haystack@.len() && haystack@[k as int] == needle && forall|j: int|
                0 <= j < k ==> haystack@[j] != needle,
            None => forall|j: int| 0 <= j < haystack@.len() ==> haystack@[j] != needle,
        },
{
    memchr::memchr(needle, haystack)
}

/// The first index at or after `i` holding `b`, or the length of `s`.
pub fn find_byte_from(s: &[u8], i: usize, b: u8) -> (r: usize)
    requires
        i <= s@.len(),
    ensures
        r as int == find_byte(s@, i as int, b),
        i <= r <= s@.len(),
{
    let sub = vstd::slice::slice_subrange(s, i, s.len());
    let r = match memchr_wrap(b, sub) {
        Some(k) => i + k,
        None => s.len(),
    };
    proof {
        assert forall|k: int| i <= k < r implies s@[k] != b by {
            assert(s@[k] == sub@[k - i]);
        }
        if r < s@.len() {
            assert(s@[r as int] == sub@[r - i]);
        }
        lemma_find_byte_unique(s@, i as int, b, r as int);
    }
    r
}

/// The first index `k` at or after `i` where `s[k] == '*'` and
/// `s[k + 1] == '/'`, or the length of `s`.
pub fn find_close_from(s: &[u8], i: usize) -> (r: usize)
    requires
        i <= s@.len(),
    ensures
        r as int == find_close(s@, i as int),
        i <= r <= s@.len(),
        r < s@.len() ==> r + 1 < s@.len() && s@[r as int] == 0x2a && s@[r + 1] == 0x2f,
{
    let n = s.len();
    let mut k = i;
    loop
        invariant
            i <= k <= n,
            n == s@.len(),
            forall|t: int| i <= t < k ==> !(#[trigger] s@[t] == 0x2a && t + 1 < s@.len() && s@[t + 1] == 0x2f),
        decreases n - k,
    {
        if n - k < 2 {
            proof {
                lemma_find_close_unique(s@, i as int, n as int);
            }
            return n;
        }
        if s[k] == 0x2a && s[k + 1] == 0x2f {
            proof {
                lemma_find_close_unique(s@, i as int, k as int);
            }
            return k;
        }
        k = k + 1;
    }
}

} // verus!
