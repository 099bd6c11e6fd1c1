//! The parser core: value dispatch, containers, and the top-level parse.

use vstd::prelude::*;

verus! {

use crate::comment::Comment;
use crate::error::Error;
use crate::lexer::skip_ws;
use crate::model::{
    cmts_appended, elems_match, is_digit, lemma_cmts_appended_trans, min_i, node_matches,
    pairs_match, sp_array,
    sp_elems, sp_literal, sp_members, sp_object, sp_root, sp_string, sp_value, sp_ws, step_idx,
    GKey, GNode, GComment, PRes, SRes,
};
use crate::numbers::parse_number;

proof fn lemma_vresult_prepend(
    r: Result<(Span<Value>, usize), Span<Error>>,
    s: Seq<u8>,
    c: Seq<GComment>,
    pr: PRes,
)
    requires
        crate::model::vresult(r, s, pr),
    ensures
        crate::model::vresult(r, s, crate::model::prepend_cmts(c, pr)),
{
}

use crate::span::Span;
use crate::strings::parse_string;
use crate::value::{JsonString, Object, Value};

/// Reads the literal (`true`, `false`, `null`) whose first byte stands at
/// `j`.
#[verifier::rlimit(100)]
#[verifier::spinoff_prover]
fn parse_literal(s: &[u8], j: usize) -> (r: Result<(Span<Value>, usize), Span<Error>>)
    requires
        j < s@.len(),
        s@[j as int] == 0x74 || s@[j as int] == 0x66 || s@[j as int] == 0x6e,
    ensures
        crate::model::vresult(r, s@, sp_literal(s@, j as int)),
        r matches Ok(p) ==> j < p.1 <= s@.len(),
{
    let n = s.len();
    if n - j >= 4 && s[j] == 0x74 && s[j + 1] == 0x72 && s[j + 2] == 0x75 && s[j + 3] == 0x65 {
        proof {
            assert(s@.subrange(j as int, j + 4) =~= seq![0x74u8, 0x72u8, 0x75u8, 0x65u8]);
        }
        return Ok((Span { data: Value::Boolean(true), start: j, end: j + 4 }, j + 4));
    }
    if n - j >= 4 && s[j] == 0x6e && s[j + 1] == 0x75 && s[j + 2] == 0x6c && s[j + 3] == 0x6c {
        proof {
            assert(s@.subrange(j as int, j + 4) =~= seq![0x6eu8, 0x75u8, 0x6cu8, 0x6cu8]);
        }
        return Ok((Span { data: Value::Null, start: j, end: j + 4 }, j + 4));
    }
    if n - j >= 5 && s[j] == 0x66 && s[j + 1] == 0x61 && s[j + 2] == 0x6c && s[j + 3] == 0x73
        && s[j + 4] == 0x65 {
        proof {
            assert(s@.subrange(j as int, j + 5) =~= seq![0x66u8, 0x61u8, 0x6cu8, 0x73u8, 0x65u8]);
            if s@.subrange(j as int, j + 4) == seq![0x74u8, 0x72u8, 0x75u8, 0x65u8] {
                assert(s@.subrange(j as int, j + 4)[0] == 0x74);
            }
            if s@.subrange(j as int, j + 4) == seq![0x6eu8, 0x75u8, 0x6cu8, 0x6cu8] {
                assert(s@.subrange(j as int, j + 4)[0] == 0x6e);
            }
        }
        return Ok((Span { data: Value::Boolean(false), start: j, end: j + 5 }, j + 5));
    }
    proof {
        if j + 4 <= n && s@.subrange(j as int, j + 4) == seq![0x74u8, 0x72u8, 0x75u8, 0x65u8] {
            assert(s@[j as int] == 0x74 && s@[j + 1] == 0x72 && s@[j + 2] == 0x75 && s@[j + 3]
                == 0x65) by {
                assert(s@.subrange(j as int, j + 4)[0] == s@[j as int]);
                assert(s@.subrange(j as int, j + 4)[1] == s@[j + 1]);
                assert(s@.subrange(j as int, j + 4)[2] == s@[j + 2]);
                assert(s@.subrange(j as int, j + 4)[3] == s@[j + 3]);
            }
        }
        if j + 4 <= n && s@.subrange(j as int, j + 4) == seq![0x6eu8, 0x75u8, 0x6cu8, 0x6cu8] {
            assert(s@.subrange(j as int, j + 4)[0] == s@[j as int]);
            assert(s@.subrange(j as int, j + 4)[1] == s@[j + 1]);
            assert(s@.subrange(j as int, j + 4)[2] == s@[j + 2]);
            assert(s@.subrange(j as int, j + 4)[3] == s@[j + 3]);
        }
        if j + 5 <= n && s@.subrange(j as int, j + 5) == seq![0x66u8, 0x61u8, 0x6cu8, 0x73u8, 0x65u8] {
            assert(s@.subrange(j as int, j + 5)[0] == s@[j as int]);
            assert(s@.subrange(j as int, j + 5)[1] == s@[j + 1]);
            assert(s@.subrange(j as int, j + 5)[2] == s@[j + 2]);
            assert(s@.subrange(j as int, j + 5)[3] == s@[j + 3]);
            assert(s@.subrange(j as int, j + 5)[4] == s@[j + 4]);
        }
    }
    let l: usize = if s[j] == 0x66 { 5 } else { 4 };
    let end = if n - j >= l { j + l } else { n };
    Err(Span { data: Error::InvalidLiteral, start: j, end })
}

/// Parses the value whose first non-whitespace byte is sought from `i`.
#[verifier::rlimit(100)]
#[verifier::spinoff_prover]
pub fn parse_value(
    s: &[u8],
    comma: bool,
    trailing: bool,
    cmt: bool,
    i: usize,
    cmts: &mut Vec<Comment>,
) -> (r: Result<(Span<Value>, usize), Span<Error>>)
    requires
        i <= s@.len(),
    ensures
        crate::model::vresult(r, s@, sp_value(s@, comma, trailing, cmt, i as int)),
        r matches Ok(p) ==> i < p.1 <= s@.len(),
        r matches Ok(p) ==> cmts_appended(
            old(cmts)@,
            final(cmts)@,
            sp_value(s@, comma, trailing, cmt, i as int)->Parsed_cmts,
        ),
    decreases s@.len() - i, 2int,
{
    let n = s.len();
    let j = skip_ws(s, i, cmt, cmts);
    let ghost c1 = cmts@;
    if j >= n {
        return Err(Span { data: Error::Eof, start: n, end: n });
    }
    let b = s[j];
    if b == 0x22 {
        match parse_string(s, j) {
            Ok((bytes, next)) => {
                let js = JsonString::from_vec(bytes);
                Ok((Span { data: Value::String(js), start: j, end: next }, next))
            },
            Err(e) => Err(e),
        }
    } else if b == 0x7b {
        let r = parse_object(s, comma, trailing, cmt, j, cmts);
        proof {
            lemma_vresult_prepend(
                r,
                s@,
                sp_ws(s@, cmt, i as int).cmts,
                sp_object(s@, comma, trailing, cmt, j as int),
            );
            if r is Ok {
                lemma_cmts_appended_trans(
                    old(cmts)@,
                    c1,
                    cmts@,
                    sp_ws(s@, cmt, i as int).cmts,
                    sp_object(s@, comma, trailing, cmt, j as int)->Parsed_cmts,
                );
            }
        }
        r
    } else if b == 0x5b {
        let r = parse_array(s, comma, trailing, cmt, j, cmts);
        proof {
            lemma_vresult_prepend(
                r,
                s@,
                sp_ws(s@, cmt, i as int).cmts,
                sp_array(s@, comma, trailing, cmt, j as int),
            );
            if r is Ok {
                lemma_cmts_appended_trans(
                    old(cmts)@,
                    c1,
                    cmts@,
                    sp_ws(s@, cmt, i as int).cmts,
                    sp_array(s@, comma, trailing, cmt, j as int)->Parsed_cmts,
                );
            }
        }
        r
    } else if b == 0x2d || (b >= 0x30 && b <= 0x39) || b == 0x2e {
        match parse_number(s, j) {
            Ok((num, next)) => Ok((Span { data: Value::Number(num), start: j, end: next }, next)),
            Err(e) => {
                // the overflow escape carries the token's own span
                Err(e)
            },
        }
    } else if b == 0x74 || b == 0x66 || b == 0x6e {
        let r = parse_literal(s, j);
        proof {
            lemma_vresult_prepend(r, s@, sp_ws(s@, cmt, i as int).cmts, sp_literal(s@, j as int));
            assert(sp_ws(s@, cmt, i as int).cmts + Seq::<GComment>::empty() =~= sp_ws(
                s@,
                cmt,
                i as int,
            ).cmts);
        }
        r
    } else {
        Err(Span { data: Error::UnexpectedToken, start: j, end: j + 1 })
    }
}

/// Parses the object whose `{` stands at `i`.
#[verifier::rlimit(100)]
#[verifier::spinoff_prover]
pub fn parse_object(
    s: &[u8],
    comma: bool,
    trailing: bool,
    cmt: bool,
    i: usize,
    cmts: &mut Vec<Comment>,
) -> (r: Result<(Span<Value>, usize), Span<Error>>)
    requires
        i < s@.len(),
        s@[i as int] == 0x7b,
    ensures
        crate::model::vresult(r, s@, sp_object(s@, comma, trailing, cmt, i as int)),
        r matches Ok(p) ==> i < p.1 <= s@.len(),
        r matches Ok(p) ==> cmts_appended(
            old(cmts)@,
            final(cmts)@,
            sp_object(s@, comma, trailing, cmt, i as int)->Parsed_cmts,
        ),
    decreases s@.len() - i, 1int,
{
    let n = s.len();
    let j = skip_ws(s, i + 1, cmt, cmts);
    if j >= n {
        return Err(Span { data: Error::Eof, start: n, end: n });
    }
    if s[j] == 0x7d {
        let ob = Object(Vec::new());
        proof {
            assert(ob.0@.len() == 0);
            assert(crate::model::val_matches(
                Value::Object(ob),
                crate::model::GVal::Obj(Seq::empty()),
            ));
        }
        let node = Span { data: Value::Object(ob), start: i, end: j + 1 };
        return Ok((node, j + 1));
    }
    parse_members(
        s,
        comma,
        trailing,
        cmt,
        j,
        i,
        Vec::new(),
        Ghost(Seq::empty()),
        Ghost(sp_ws(s@, cmt, i + 1).cmts),
        Ghost(old(cmts)@),
        cmts,
    )
}

/// Parses the array whose `[` stands at `i`.
#[verifier::rlimit(100)]
#[verifier::spinoff_prover]
pub fn parse_array(
    s: &[u8],
    comma: bool,
    trailing: bool,
    cmt: bool,
    i: usize,
    cmts: &mut Vec<Comment>,
) -> (r: Result<(Span<Value>, usize), Span<Error>>)
    requires
        i < s@.len(),
        s@[i as int] == 0x5b,
    ensures
        crate::model::vresult(r, s@, sp_array(s@, comma, trailing, cmt, i as int)),
        r matches Ok(p) ==> i < p.1 <= s@.len(),
        r matches Ok(p) ==> cmts_appended(
            old(cmts)@,
            final(cmts)@,
            sp_array(s@, comma, trailing, cmt, i as int)->Parsed_cmts,
        ),
    decreases s@.len() - i, 1int,
{
    let n = s.len();
    let j = skip_ws(s, i + 1, cmt, cmts);
    if j >= n {
        return Err(Span { data: Error::Eof, start: n, end: n });
    }
    if s[j] == 0x5d {
        let va: Vec<Span<Value>> = Vec::new();
        proof {
            assert(va@.len() == 0);
            assert(crate::model::val_matches(
                Value::Array(va),
                crate::model::GVal::Arr(Seq::empty()),
            ));
        }
        let node = Span { data: Value::Array(va), start: i, end: j + 1 };
        return Ok((node, j + 1));
    }
    parse_elems(
        s,
        comma,
        trailing,
        cmt,
        j,
        i,
        Vec::new(),
        Ghost(Seq::empty()),
        Ghost(sp_ws(s@, cmt, i + 1).cmts),
        Ghost(old(cmts)@),
        cmts,
    )
}

/// Parses object members from the key expected at `j`; `start` is the
/// opening brace.
#[verifier::rlimit(100)]
#[verifier::spinoff_prover]
fn parse_members(
    s: &[u8],
    comma: bool,
    trailing: bool,
    cmt: bool,
    j: usize,
    start: usize,
    acc: Vec<(Span<JsonString>, Span<Value>)>,
    gacc: Ghost<Seq<(GKey, GNode)>>,
    gaccm: Ghost<Seq<GComment>>,
    pre0: Ghost<Seq<Comment>>,
    cmts: &mut Vec<Comment>,
) -> (r: Result<(Span<Value>, usize), Span<Error>>)
    requires
        j <= s@.len(),
        pairs_match(acc@, gacc@),
        cmts_appended(pre0@, old(cmts)@, gaccm@),
    ensures
        crate::model::vresult(
            r,
            s@,
            sp_members(s@, comma, trailing, cmt, j as int, start as int, gacc@, gaccm@),
        ),
        r matches Ok(p) ==> j < p.1 <= s@.len(),
        r matches Ok(p) ==> cmts_appended(
            pre0@,
            final(cmts)@,
            sp_members(s@, comma, trailing, cmt, j as int, start as int, gacc@, gaccm@)
                ->Parsed_cmts,
        ),
    decreases s@.len() - j, 3int,
{
    let n = s.len();
    if j >= n {
        return Err(Span { data: Error::Eof, start: n, end: n });
    }
    if s[j] != 0x22 {
        return Err(Span { data: Error::Expected('"'), start: j, end: j + 1 });
    }
    let (kb, kend) = match parse_string(s, j) {
        Ok(p) => p,
        Err(e) => {
            return Err(e);
        },
    };
    let key = Span { data: JsonString::from_vec(kb), start: j, end: kend };
    let ghost gkey = GKey { bytes: key.data@, start: j as int, end: kend as int };
    let p = skip_ws(s, kend, cmt, cmts);
    let ghost c1 = cmts@;
    proof {
        lemma_cmts_appended_trans(
            pre0@,
            old(cmts)@,
            c1,
            gaccm@,
            sp_ws(s@, cmt, kend as int).cmts,
        );
    }
    if p >= n || s[p] != 0x3a {
        let end = if p >= n { n } else { p + 1 };
        proof {
            assert(min_i(p + 1, s@.len() as int) == end as int);
        }
        return Err(Span { data: Error::ExpectedColon, start: p, end });
    }
    let (val, vend) = match parse_value(s, comma, trailing, cmt, p + 1, cmts) {
        Ok(p2) => p2,
        Err(e) => {
            return Err(e);
        },
    };
    let ghost gnode = sp_value(s@, comma, trailing, cmt, p + 1)->Parsed_node;
    let ghost c2 = cmts@;
    proof {
        lemma_cmts_appended_trans(
            pre0@,
            c1,
            c2,
            gaccm@ + sp_ws(s@, cmt, kend as int).cmts,
            sp_value(s@, comma, trailing, cmt, p + 1)->Parsed_cmts,
        );
    }
    let q = skip_ws(s, vend, cmt, cmts);
    let ghost c3 = cmts@;
    proof {
        lemma_cmts_appended_trans(
            pre0@,
            c2,
            c3,
            gaccm@ + sp_ws(s@, cmt, kend as int).cmts + sp_value(
                s@,
                comma,
                trailing,
                cmt,
                p + 1,
            )->Parsed_cmts,
            sp_ws(s@, cmt, vend as int).cmts,
        );
    }
    let mut acc2 = acc;
    acc2.push((key, val));
    let ghost gacc2 = gacc@.push((gkey, gnode));
    proof {
        assert(pairs_match(acc2@, gacc2)) by {
            assert(forall|k: int| 0 <= k < gacc@.len() ==> acc2@[k] == acc@[k]);
            assert(acc2@[gacc@.len() as int] == (key, val));
        }
    }
    if q >= n {
        return Err(Span { data: Error::Eof, start: n, end: n });
    }
    if s[q] == 0x2c {
        let r2 = skip_ws(s, q + 1, cmt, cmts);
        let ghost c4 = cmts@;
        proof {
            lemma_cmts_appended_trans(
                pre0@,
                c3,
                c4,
                gaccm@ + sp_ws(s@, cmt, kend as int).cmts + sp_value(
                    s@,
                    comma,
                    trailing,
                    cmt,
                    p + 1,
                )->Parsed_cmts + sp_ws(s@, cmt, vend as int).cmts,
                sp_ws(s@, cmt, q + 1).cmts,
            );
        }
        if r2 < n && s[r2] == 0x7d {
            if trailing {
                let node = Span { data: Value::Object(Object(acc2)), start, end: r2 + 1 };
                return Ok((node, r2 + 1));
            }
            return Err(Span { data: Error::TrailingComma, start: q, end: q + 1 });
        }
        proof {
            assert(step_idx(s@, j as int, r2 as int) == r2 as int);
        }
        let ghost accm3 = gaccm@ + sp_ws(s@, cmt, kend as int).cmts + sp_value(
            s@,
            comma,
            trailing,
            cmt,
            p + 1,
        )->Parsed_cmts + sp_ws(s@, cmt, vend as int).cmts + sp_ws(s@, cmt, q + 1).cmts;
        return parse_members(
            s,
            comma,
            trailing,
            cmt,
            r2,
            start,
            acc2,
            Ghost(gacc2),
            Ghost(accm3),
            pre0,
            cmts,
        );
    }
    if s[q] == 0x7d {
        let node = Span { data: Value::Object(Object(acc2)), start, end: q + 1 };
        return Ok((node, q + 1));
    }
    if comma {
        return Err(Span { data: Error::Expected(','), start: q, end: q + 1 });
    }
    proof {
        assert(step_idx(s@, j as int, q as int) == q as int);
    }
    let ghost accm3 = gaccm@ + sp_ws(s@, cmt, kend as int).cmts + sp_value(
        s@,
        comma,
        trailing,
        cmt,
        p + 1,
    )->Parsed_cmts + sp_ws(s@, cmt, vend as int).cmts;
    parse_members(
        s,
        comma,
        trailing,
        cmt,
        q,
        start,
        acc2,
        Ghost(gacc2),
        Ghost(accm3),
        pre0,
        cmts,
    )
}

/// Parses array elements from the value expected at `j`; `start` is the
/// opening bracket.
#[verifier::rlimit(100)]
#[verifier::spinoff_prover]
fn parse_elems(
    s: &[u8],
    comma: bool,
    trailing: bool,
    cmt: bool,
    j: usize,
    start: usize,
    acc: Vec<Span<Value>>,
    gacc: Ghost<Seq<GNode>>,
    gaccm: Ghost<Seq<GComment>>,
    pre0: Ghost<Seq<Comment>>,
    cmts: &mut Vec<Comment>,
) -> (r: Result<(Span<Value>, usize), Span<Error>>)
    requires
        j <= s@.len(),
        elems_match(acc@, gacc@),
        cmts_appended(pre0@, old(cmts)@, gaccm@),
    ensures
        crate::model::vresult(
            r,
            s@,
            sp_elems(s@, comma, trailing, cmt, j as int, start as int, gacc@, gaccm@),
        ),
        r matches Ok(p) ==> j < p.1 <= s@.len(),
        r matches Ok(p) ==> cmts_appended(
            pre0@,
            final(cmts)@,
            sp_elems(s@, comma, trailing, cmt, j as int, start as int, gacc@, gaccm@)
                ->Parsed_cmts,
        ),
    decreases s@.len() - j, 3int,
{
    let n = s.len();
    let (val, vend) = match parse_value(s, comma, trailing, cmt, j, cmts) {
        Ok(p2) => p2,
        Err(e) => {
            return Err(e);
        },
    };
    let ghost gnode = sp_value(s@, comma, trailing, cmt, j as int)->Parsed_node;
    let ghost c2 = cmts@;
    proof {
        lemma_cmts_appended_trans(
            pre0@,
            old(cmts)@,
            c2,
            gaccm@,
            sp_value(s@, comma, trailing, cmt, j as int)->Parsed_cmts,
        );
    }
    let q = skip_ws(s, vend, cmt, cmts);
    let ghost c3 = cmts@;
    proof {
        lemma_cmts_appended_trans(
            pre0@,
            c2,
            c3,
            gaccm@ + sp_value(s@, comma, trailing, cmt, j as int)->Parsed_cmts,
            sp_ws(s@, cmt, vend as int).cmts,
        );
    }
    let mut acc2 = acc;
    acc2.push(val);
    let ghost gacc2 = gacc@.push(gnode);
    proof {
        assert(elems_match(acc2@, gacc2)) by {
            assert(forall|k: int| 0 <= k < gacc@.len() ==> acc2@[k] == acc@[k]);
            assert(acc2@[gacc@.len() as int] == val);
        }
    }
    if q >= n {
        return Err(Span { data: Error::Eof, start: n, end: n });
    }
    if s[q] == 0x2c {
        let r2 = skip_ws(s, q + 1, cmt, cmts);
        let ghost c4 = cmts@;
        proof {
            lemma_cmts_appended_trans(
                pre0@,
                c3,
                c4,
                gaccm@ + sp_value(s@, comma, trailing, cmt, j as int)->Parsed_cmts + sp_ws(
                    s@,
                    cmt,
                    vend as int,
                ).cmts,
                sp_ws(s@, cmt, q + 1).cmts,
            );
        }
        if r2 < n && s[r2] == 0x5d {
            if trailing {
                let node = Span { data: Value::Array(acc2), start, end: r2 + 1 };
                return Ok((node, r2 + 1));
            }
            return Err(Span { data: Error::TrailingComma, start: q, end: q + 1 });
        }
        proof {
            assert(step_idx(s@, j as int, r2 as int) == r2 as int);
        }
        let ghost accm3 = gaccm@ + sp_value(s@, comma, trailing, cmt, j as int)->Parsed_cmts
            + sp_ws(s@, cmt, vend as int).cmts + sp_ws(s@, cmt, q + 1).cmts;
        return parse_elems(
            s,
            comma,
            trailing,
            cmt,
            r2,
            start,
            acc2,
            Ghost(gacc2),
            Ghost(accm3),
            pre0,
            cmts,
        );
    }
    if s[q] == 0x5d {
        let node = Span { data: Value::Array(acc2), start, end: q + 1 };
        return Ok((node, q + 1));
    }
    if comma {
        return Err(Span { data: Error::Expected(','), start: q, end: q + 1 });
    }
    proof {
        assert(step_idx(s@, j as int, q as int) == q as int);
    }
    let ghost accm3 = gaccm@ + sp_value(s@, comma, trailing, cmt, j as int)->Parsed_cmts + sp_ws(
        s@,
        cmt,
        vend as int,
    ).cmts;
    parse_elems(
        s,
        comma,
        trailing,
        cmt,
        q,
        start,
        acc2,
        Ghost(gacc2),
        Ghost(accm3),
        pre0,
        cmts,
    )
}

/// Validates one value from `i` and returns the index just past it,
/// exactly where the model ends it. The verified skipper parses
/// internally and hands only the extent out; not allocating while
/// skipping is a speed matter this development does not model.
pub fn skip_value(s: &[u8], comma: bool, trailing: bool, cmt: bool, i: usize) -> (r: Result<
    usize,
    Span<Error>,
>)
    requires
        i <= s@.len(),
    ensures
        match r {
            Ok(next) => sp_value(s@, comma, trailing, cmt, i as int) matches PRes::Parsed {
                next: n,
                ..
            } && next as int == n && i < next <= s@.len(),
            Err(e) => crate::model::val_err(e, s@, sp_value(s@, comma, trailing, cmt, i as int)),
        },
{
    let mut cmts: Vec<Comment> = Vec::new();
    match parse_value(s, comma, trailing, cmt, i, &mut cmts) {
        Ok(p) => Ok(p.1),
        Err(e) => Err(e),
    }
}

/// Parses the whole input: one value with only whitespace after it.
#[verifier::rlimit(100)]
#[verifier::spinoff_prover]
pub fn parse_root(
    s: &[u8],
    comma: bool,
    trailing: bool,
    cmt: bool,
    cmts: &mut Vec<Comment>,
) -> (r: Result<Span<Value>, Span<Error>>)
    ensures
        match r {
            Ok(v) => sp_root(s@, comma, trailing, cmt) matches PRes::Parsed { node, .. }
                && node_matches(v, node),
            Err(e) => crate::model::val_err(e, s@, sp_root(s@, comma, trailing, cmt)),
        },
        r matches Ok(v) ==> cmts_appended(
            old(cmts)@,
            final(cmts)@,
            sp_root(s@, comma, trailing, cmt)->Parsed_cmts,
        ),
{
    let (v, next) = match parse_value(s, comma, trailing, cmt, 0, cmts) {
        Ok(p) => p,
        Err(e) => {
            return Err(e);
        },
    };
    let ghost c1 = cmts@;
    let j = skip_ws(s, next, cmt, cmts);
    proof {
        lemma_cmts_appended_trans(
            old(cmts)@,
            c1,
            cmts@,
            sp_value(s@, comma, trailing, cmt, 0)->Parsed_cmts,
            sp_ws(s@, cmt, next as int).cmts,
        );
    }
    if j < s.len() {
        return Err(Span { data: Error::UnexpectedToken, start: j, end: j + 1 });
    }
    Ok(v)
}

} // verus!
