//! Whitespace and comment stepping.

use vstd::prelude::*;

verus! {

use crate::comment::Comment;
use crate::model::{
    cmts_appended, find_byte, find_close, lemma_cmts_append_push, sp_ws, GComment, WsOut,
};
use crate::search::{find_byte_from, find_close_from};

/// Whether the byte is whitespace to the grammar.
pub fn is_ws(b: u8) -> (r: bool)
    ensures
        r == crate::model::is_ws_byte(b),
{
    b == 0x20 || b == 0x09 || b == 0x0a || b == 0x0d || b == 0x0c
}

/// Skips whitespace (and, when `cmt` holds, comments) from `start`,
/// appending every comment passed over to `cmts`; returns the index of the
/// first byte that stops the scan.
#[verifier::rlimit(60)]
pub fn skip_ws(s: &[u8], start: usize, cmt: bool, cmts: &mut Vec<Comment>) -> (r: usize)
    requires
        start <= s@.len(),
    ensures
        r as int == sp_ws(s@, cmt, start as int).next,
        start <= r <= s@.len(),
        cmts_appended(old(cmts)@, final(cmts)@, sp_ws(s@, cmt, start as int).cmts),
{
    let ghost g0 = sp_ws(s@, cmt, start as int);
    let ghost pre = cmts@;
    let ghost mut gdone: Seq<GComment> = Seq::empty();
    let n = s.len();
    let mut i = start;
    proof {
        assert(cmts_appended(pre, cmts@, gdone)) by {
            assert(cmts@.subrange(0, pre.len() as int) =~= pre);
            assert(cmts@.subrange(pre.len() as int, cmts@.len() as int) =~= Seq::<Comment>::empty());
        }
        assert(g0.cmts =~= gdone + sp_ws(s@, cmt, i as int).cmts);
    }
    loop
        invariant
            start <= i <= n,
            n == s@.len(),
            g0 == sp_ws(s@, cmt, start as int),
            sp_ws(s@, cmt, i as int).next == g0.next,
            g0.cmts == gdone + sp_ws(s@, cmt, i as int).cmts,
            cmts_appended(pre, cmts@, gdone),
            pre == old(cmts)@,
        decreases n - i,
    {
        if i >= n {
            proof {
                assert(sp_ws(s@, cmt, i as int).next == i);
                assert(sp_ws(s@, cmt, i as int).cmts =~= Seq::<GComment>::empty());
                assert(gdone =~= g0.cmts);
            }
            return i;
        }
        let b = s[i];
        if is_ws(b) {
            proof {
                assert(sp_ws(s@, cmt, i as int) == sp_ws(s@, cmt, i + 1));
            }
            i = i + 1;
        } else if cmt && b == 0x2f && i + 1 < n && s[i + 1] == 0x2f {
            // line comment to the newline or the end of input
            let j = find_byte_from(s, i + 2, 0x0a);
            let text = vstd::slice::slice_to_vec(vstd::slice::slice_subrange(s, i + 2, j));
            let c = Comment { start: i, end: j, multi: false, text };
            let ghost gc = GComment {
                start: i as int,
                end: j as int,
                multi: false,
                text: s@.subrange(i + 2, j as int),
            };
            proof {
                let rest = sp_ws(s@, cmt, j as int);
                assert(sp_ws(s@, cmt, i as int) == WsOut {
                    next: rest.next,
                    cmts: seq![gc] + rest.cmts,
                });
                lemma_cmts_append_push(pre, cmts@, gdone, c, gc);
                assert(gdone + (seq![gc] + rest.cmts) =~= gdone.push(gc) + rest.cmts);
            }
            cmts.push(c);
            proof {
                gdone = gdone.push(gc);
            }
            i = j;
        } else if cmt && b == 0x2f && i + 1 < n && s[i + 1] == 0x2a {
            // block comment to `*/` or the end of input
            let k = find_close_from(s, i + 2);
            if k == n {
                let text = vstd::slice::slice_to_vec(vstd::slice::slice_subrange(s, i + 2, n));
                let c = Comment { start: i, end: n, multi: true, text };
                let ghost gc = GComment {
                    start: i as int,
                    end: n as int,
                    multi: true,
                    text: s@.subrange(i + 2, n as int),
                };
                proof {
                    assert(sp_ws(s@, cmt, i as int) == WsOut {
                        next: n as int,
                        cmts: seq![gc],
                    });
                    lemma_cmts_append_push(pre, cmts@, gdone, c, gc);
                    assert(gdone + seq![gc] =~= gdone.push(gc));
                    assert(sp_ws(s@, cmt, n as int).cmts =~= Seq::<GComment>::empty());
                    assert(gdone.push(gc) + sp_ws(s@, cmt, n as int).cmts =~= gdone.push(gc));
                }
                cmts.push(c);
                proof {
                    gdone = gdone.push(gc);
                }
                i = n;
            } else {
                let text = vstd::slice::slice_to_vec(vstd::slice::slice_subrange(s, i + 2, k));
                let c = Comment { start: i, end: k + 2, multi: true, text };
                let ghost gc = GComment {
                    start: i as int,
                    end: k + 2,
                    multi: true,
                    text: s@.subrange(i + 2, k as int),
                };
                proof {
                    let rest = sp_ws(s@, cmt, k + 2);
                    assert(sp_ws(s@, cmt, i as int) == WsOut {
                        next: rest.next,
                        cmts: seq![gc] + rest.cmts,
                    });
                    lemma_cmts_append_push(pre, cmts@, gdone, c, gc);
                    assert(gdone + (seq![gc] + rest.cmts) =~= gdone.push(gc) + rest.cmts);
                }
                cmts.push(c);
                proof {
                    gdone = gdone.push(gc);
                }
                i = k + 2;
            }
        } else {
            proof {
                assert(sp_ws(s@, cmt, i as int).next == i);
                assert(sp_ws(s@, cmt, i as int).cmts =~= Seq::<GComment>::empty());
                assert(gdone =~= g0.cmts);
            }
            return i;
        }
    }
}

} // verus!
