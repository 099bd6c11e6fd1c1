//! The mathematical model of JSON parsing.
//!
//! The spec functions here define, over a byte sequence, what the grammar
//! accepts, which tree it denotes, which error is reported otherwise and at
//! which bytes. The executable parser is proved equal to this model.

use vstd::prelude::*;

verus! {

use crate::error::Error;

/// A decoded key of an object in the model: its UTF-8 bytes and the byte
/// range of its quoted lexeme.
#[verifier::ext_equal]
pub struct GKey {
    pub bytes: Seq<u8>,
    pub start: int,
    pub end: int,
}

/// A number in the model.
///
/// Integers keep their exact value. A double keeps the decimal mantissa
/// (at most 19 significant digits), the decimal exponent, and whether
/// further significant digits were truncated away.
#[verifier::ext_equal]
pub enum GNum {
    Unsigned(u64),
    Signed(i64),
    Float { neg: bool, mant: u64, e10: int, many: bool },
}

/// A JSON value in the model.
#[verifier::ext_equal]
pub enum GVal {
    Null,
    Bool(bool),
    Num(GNum),
    Str(Seq<u8>),
    Arr(Seq<GNode>),
    Obj(Seq<(GKey, GNode)>),
}

/// A value of the model together with the byte range of its lexeme.
#[verifier::ext_equal]
pub struct GNode {
    pub val: GVal,
    pub start: int,
    pub end: int,
}

/// A comment in the model: its byte range, form, and text.
#[verifier::ext_equal]
pub struct GComment {
    pub start: int,
    pub end: int,
    pub multi: bool,
    pub text: Seq<u8>,
}

/// Whitespace per the grammar: space, tab, LF, CR, FF.
pub open spec fn is_ws_byte(b: u8) -> bool {
    b == 0x20 || b == 0x09 || b == 0x0a || b == 0x0d || b == 0x0c
}

/// An ASCII decimal digit.
pub open spec fn is_digit(b: u8) -> bool {
    0x30 <= b && b <= 0x39
}

/// An ASCII hexadecimal digit.
pub open spec fn is_hex(b: u8) -> bool {
    is_digit(b) || (0x41 <= b && b <= 0x46) || (0x61 <= b && b <= 0x66)
}

/// The value of an ASCII hexadecimal digit.
pub open spec fn hex_val(b: u8) -> int {
    if is_digit(b) {
        b - 0x30
    } else if 0x41 <= b && b <= 0x46 {
        b - 0x41 + 10
    } else {
        b - 0x61 + 10
    }
}

/// The first index at or after `i` holding byte `b`, or the length of `s`
/// if there is none.
pub open spec fn find_byte(s: Seq<u8>, i: int, b: u8) -> int
    decreases s.len() - i,
{
    if !(0 <= i && i < s.len()) {
        s.len() as int
    } else if s[i] == b {
        i
    } else {
        find_byte(s, i + 1, b)
    }
}

pub proof fn lemma_find_byte(s: Seq<u8>, i: int, b: u8)
    requires
        0 <= i <= s.len(),
    ensures
        i <= find_byte(s, i, b) <= s.len(),
        find_byte(s, i, b) < s.len() ==> s[find_byte(s, i, b)] == b,
        forall|k: int| i <= k < find_byte(s, i, b) ==> s[k] != b,
    decreases s.len() - i,
{
    if 0 <= i && i < s.len() && s[i] != b {
        lemma_find_byte(s, i + 1, b);
    }
}

/// The first index `k` at or after `i` where `s[k] == '*'` and
/// `s[k + 1] == '/'`, or the length of `s` if there is none.
pub open spec fn find_close(s: Seq<u8>, i: int) -> int
    decreases s.len() - i,
{
    if !(0 <= i && i + 1 < s.len()) {
        s.len() as int
    } else if s[i] == 0x2a && s[i + 1] == 0x2f {
        i
    } else {
        find_close(s, i + 1)
    }
}

pub proof fn lemma_find_close(s: Seq<u8>, i: int)
    requires
        0 <= i <= s.len(),
    ensures
        i <= find_close(s, i) <= s.len(),
        find_close(s, i) < s.len() ==> find_close(s, i) + 1 < s.len()
            && s[find_close(s, i)] == 0x2a && s[find_close(s, i) + 1] == 0x2f,
        forall|k: int| i <= k < find_close(s, i) && k + 1 < s.len()
            ==> !(#[trigger] s[k] == 0x2a && s[k + 1] == 0x2f),
    decreases s.len() - i,
{
    if 0 <= i && i + 1 < s.len() && !(s[i] == 0x2a && s[i + 1] == 0x2f) {
        lemma_find_close(s, i + 1);
    }
}

/// Where whitespace skipping stops, and the comments it passed over.
#[verifier::ext_equal]
pub struct WsOut {
    pub next: int,
    pub cmts: Seq<GComment>,
}

/// Skipping whitespace from `i`, treating comments as whitespace when `cmt`
/// holds. Stops at the first byte that is neither whitespace nor the start
/// of a comment (a `/` not followed by `/` or `*` also stops it).
pub open spec fn sp_ws(s: Seq<u8>, cmt: bool, i: int) -> WsOut
    decreases s.len() - i, 1int,
        via sp_ws_dec
{
    if !(0 <= i && i < s.len()) {
        WsOut { next: i, cmts: Seq::empty() }
    } else if is_ws_byte(s[i]) {
        sp_ws(s, cmt, i + 1)
    } else if cmt && s[i] == 0x2f && i + 1 < s.len() && s[i + 1] == 0x2f {
        // line comment, to the newline or the end of input
        let j = find_byte(s, i + 2, 0x0a);
        let cm = GComment { start: i, end: j, multi: false, text: s.subrange(i + 2, j) };
        let rest = sp_ws(s, cmt, j);
        WsOut { next: rest.next, cmts: seq![cm] + rest.cmts }
    } else if cmt && s[i] == 0x2f && i + 1 < s.len() && s[i + 1] == 0x2a {
        // block comment, to `*/` or the end of input
        let k = find_close(s, i + 2);
        if k == s.len() {
            let cm = GComment { start: i, end: s.len() as int, multi: true, text: s.subrange(i + 2, s.len() as int) };
            WsOut { next: s.len() as int, cmts: seq![cm] }
        } else {
            let cm = GComment { start: i, end: k + 2, multi: true, text: s.subrange(i + 2, k) };
            let rest = sp_ws(s, cmt, k + 2);
            WsOut { next: rest.next, cmts: seq![cm] + rest.cmts }
        }
    } else {
        WsOut { next: i, cmts: Seq::empty() }
    }
}

#[via_fn]
proof fn sp_ws_dec(s: Seq<u8>, cmt: bool, i: int) {
    if 0 <= i && i + 2 <= s.len() {
        lemma_find_byte(s, i + 2, 0x0a);
        lemma_find_close(s, i + 2);
    }
}

pub proof fn lemma_sp_ws(s: Seq<u8>, cmt: bool, i: int)
    requires
        0 <= i <= s.len(),
    ensures
        i <= sp_ws(s, cmt, i).next <= s.len(),
        sp_ws(s, cmt, i).next < s.len() ==> !is_ws_byte(s[sp_ws(s, cmt, i).next]),
    decreases s.len() - i,
{
    if 0 <= i && i < s.len() {
        if is_ws_byte(s[i]) {
            lemma_sp_ws(s, cmt, i + 1);
        } else if cmt && s[i] == 0x2f && i + 1 < s.len() && s[i + 1] == 0x2f {
            lemma_find_byte(s, i + 2, 0x0a);
            lemma_sp_ws(s, cmt, find_byte(s, i + 2, 0x0a));
        } else if cmt && s[i] == 0x2f && i + 1 < s.len() && s[i + 1] == 0x2a {
            lemma_find_close(s, i + 2);
            if find_close(s, i + 2) < s.len() {
                lemma_sp_ws(s, cmt, find_close(s, i + 2) + 2);
            }
        }
    }
}

/// The smaller of two integers.
pub open spec fn min_i(a: int, b: int) -> int {
    if a <= b { a } else { b }
}

/// Powers of ten.
pub open spec fn pow10(n: nat) -> int
    decreases n,
{
    if n == 0 { 1 } else { 10 * pow10((n - 1) as nat) }
}

/// Result of decoding a quoted string lexeme: the decoded bytes and the
/// index after the closing quote, or the error.
#[verifier::ext_equal]
pub enum SRes {
    Str { bytes: Seq<u8>, next: int },
    Fault { err: Error, start: int, end: int },
}

/// Prepends decoded bytes to the body that follows, passing a fault through.
pub open spec fn cons_str(pre: Seq<u8>, rest: SRes) -> SRes {
    match rest {
        SRes::Str { bytes, next } => SRes::Str { bytes: pre + bytes, next },
        f => f,
    }
}

/// The decoded byte of a single-character escape, or -1 when the letter is
/// not one of `" \ / b f n r t`.
pub open spec fn esc_byte(e: u8) -> int {
    if e == 0x22 { 0x22 }
    else if e == 0x5c { 0x5c }
    else if e == 0x2f { 0x2f }
    else if e == 0x62 { 0x08 }
    else if e == 0x66 { 0x0c }
    else if e == 0x6e { 0x0a }
    else if e == 0x72 { 0x0d }
    else if e == 0x74 { 0x09 }
    else { -1 }
}

/// The value of the four hexadecimal digits at `p`, or -1 when out of range
/// or not hexadecimal.
pub open spec fn hex4_at(s: Seq<u8>, p: int) -> int {
    if 0 <= p && p + 4 <= s.len() && is_hex(s[p]) && is_hex(s[p + 1]) && is_hex(s[p + 2])
        && is_hex(s[p + 3]) {
        hex_val(s[p]) * 0x1000 + hex_val(s[p + 1]) * 0x100 + hex_val(s[p + 2]) * 0x10
            + hex_val(s[p + 3])
    } else {
        -1
    }
}

/// Result of decoding a `\uXXXX` escape: the Unicode scalar and the index
/// after the escape, or the error.
#[verifier::ext_equal]
pub enum URes {
    Scalar { v: u32, next: int },
    Fault { err: Error, start: int, end: int },
}

/// Decodes the `\uXXXX` escape whose backslash stands at `j`, requiring and
/// recombining a low surrogate after a high one.
pub open spec fn sp_unicode(s: Seq<u8>, j: int) -> URes {
    let u = hex4_at(s, j + 2);
    if u == -1 {
        URes::Fault { err: Error::InvalidEscapeSequnce, start: j, end: min_i(j + 6, s.len() as int) }
    } else if 0xd800 <= u <= 0xdbff {
        if j + 8 <= s.len() && s[j + 6] == 0x5c && s[j + 7] == 0x75 {
            let u2 = hex4_at(s, j + 8);
            if 0xdc00 <= u2 <= 0xdfff {
                URes::Scalar {
                    v: (0x10000 + (u - 0xd800) * 0x400 + (u2 - 0xdc00)) as u32,
                    next: j + 12,
                }
            } else {
                URes::Fault {
                    err: Error::InvalidEscapeSequnce,
                    start: j,
                    end: min_i(j + 12, s.len() as int),
                }
            }
        } else {
            URes::Fault {
                err: Error::InvalidEscapeSequnce,
                start: j,
                end: min_i(j + 12, s.len() as int),
            }
        }
    } else if 0xdc00 <= u <= 0xdfff {
        URes::Fault { err: Error::InvalidEscapeSequnce, start: j, end: min_i(j + 6, s.len() as int) }
    } else {
        URes::Scalar { v: u as u32, next: j + 6 }
    }
}

/// Decodes a string body from `j` up to the closing quote; `q` is the index
/// of the opening quote, kept for the span of `UnclosedString`.
pub open spec fn sp_str_body(s: Seq<u8>, q: int, j: int) -> SRes
    decreases s.len() - j,
{
    if !(0 <= j && j < s.len()) {
        SRes::Fault { err: Error::UnclosedString, start: q, end: s.len() as int }
    } else if s[j] == 0x22 {
        SRes::Str { bytes: Seq::empty(), next: j + 1 }
    } else if s[j] < 0x20 {
        SRes::Fault { err: Error::ControlCharacter, start: j, end: j + 1 }
    } else if s[j] == 0x5c {
        if j + 1 >= s.len() {
            SRes::Fault { err: Error::UnclosedString, start: q, end: s.len() as int }
        } else {
            let e = s[j + 1];
            if e == 0x75 {
                match sp_unicode(s, j) {
                    URes::Scalar { v, next } => cons_str(
                        vstd::utf8::encode_scalar(v),
                        sp_str_body(s, q, next),
                    ),
                    URes::Fault { err, start, end } => SRes::Fault { err, start, end },
                }
            } else {
                let m = esc_byte(e);
                if m == -1 {
                    SRes::Fault { err: Error::InvalidEscapeSequnce, start: j, end: j + 2 }
                } else {
                    cons_str(seq![m as u8], sp_str_body(s, q, j + 2))
                }
            }
        }
    } else {
        cons_str(seq![s[j]], sp_str_body(s, q, j + 1))
    }
}

/// Decodes the quoted string lexeme whose opening quote stands at `i`.
pub open spec fn sp_string(s: Seq<u8>, i: int) -> SRes
    recommends
        0 <= i < s.len(),
        s[i] == 0x22,
{
    sp_str_body(s, i, i + 1)
}

#[verifier::rlimit(100)]
pub proof fn lemma_sp_str_body(s: Seq<u8>, q: int, j: int)
    requires
        0 <= j <= s.len(),
    ensures
        sp_str_body(s, q, j) matches SRes::Str { next, .. } ==> j < next <= s.len(),
    decreases s.len() - j,
{
    if 0 <= j && j < s.len() {
        if s[j] == 0x22 {
        } else if s[j] < 0x20 {
        } else if s[j] == 0x5c {
            if j + 1 < s.len() {
                let e = s[j + 1];
                if e == 0x75 {
                    match sp_unicode(s, j) {
                        URes::Scalar { v, next } => {
                            lemma_sp_str_body(s, q, next);
                        },
                        URes::Fault { .. } => {},
                    }
                } else if esc_byte(e) != -1 {
                    lemma_sp_str_body(s, q, j + 2);
                }
            }
        } else {
            lemma_sp_str_body(s, q, j + 1);
        }
    }
}

/// The index after the run of decimal digits starting at `i`.
pub open spec fn scan_digits(s: Seq<u8>, i: int) -> int
    decreases s.len() - i,
{
    if 0 <= i && i < s.len() && is_digit(s[i]) {
        scan_digits(s, i + 1)
    } else {
        i
    }
}

#[verifier::rlimit(100)]
pub proof fn lemma_scan_digits(s: Seq<u8>, i: int)
    requires
        0 <= i <= s.len(),
    ensures
        i <= scan_digits(s, i) <= s.len(),
        forall|k: int| i <= k < scan_digits(s, i) ==> is_digit(#[trigger] s[k]),
        scan_digits(s, i) < s.len() ==> !is_digit(s[scan_digits(s, i)]),
    decreases s.len() - i,
{
    if 0 <= i && i < s.len() && is_digit(s[i]) {
        lemma_scan_digits(s, i + 1);
    }
}

/// The integer denoted by the digits of `s` in `[i, j)`.
pub open spec fn digits_val(s: Seq<u8>, i: int, j: int) -> int
    decreases j - i,
{
    if j <= i {
        0
    } else {
        digits_val(s, i, j - 1) * 10 + (s[j - 1] - 0x30)
    }
}

/// The exponent accumulator: digits folded left to right, but frozen once
/// the accumulated value reaches 0x10000, exactly as the scanner does
/// (values that large overflow or vanish regardless of the lost digits).
pub open spec fn exp_fold(s: Seq<u8>, i: int, j: int) -> int
    decreases j - i,
{
    if j <= i {
        0
    } else {
        let p = exp_fold(s, i, j - 1);
        if p < 0x10000 {
            p * 10 + (s[j - 1] - 0x30)
        } else {
            p
        }
    }
}

/// The integer denoted by a digit sequence.
pub open spec fn seq_fold(d: Seq<u8>) -> int
    decreases d.len(),
{
    if d.len() == 0 {
        0
    } else {
        seq_fold(d.drop_last()) * 10 + (d.last() - 0x30)
    }
}

/// The digit sequence with its leading zero digits removed.
pub open spec fn drop_zeros(d: Seq<u8>) -> Seq<u8>
    decreases d.len(),
{
    if d.len() > 0 && d[0] == 0x30 {
        drop_zeros(d.drop_first())
    } else {
        d
    }
}

/// Result of scanning a number lexeme: the number and the index after it,
/// or the error.
#[verifier::ext_equal]
pub enum NRes {
    Num { num: GNum, next: int },
    Fault { err: Error, start: int, end: int },
}

/// The digits of a number token: the integer run and the fraction run,
/// concatenated.
pub open spec fn num_digit_seq(s: Seq<u8>, p: int, int_end: int, fs: int, fe: int) -> Seq<u8> {
    s.subrange(p, int_end) + s.subrange(fs, fe)
}

/// Scans the number lexeme that starts at `i` (a `-`, a digit, or a
/// stray `.`), per the JSON grammar with the leading-zero rule, and
/// classifies it: integers that fit keep their exact value, everything
/// else becomes a decimal float token of at most 19 significant digits.
pub open spec fn sp_number(s: Seq<u8>, i: int) -> NRes
    recommends
        0 <= i < s.len(),
{
    let len = s.len() as int;
    let neg = s[i] == 0x2d;
    let p = if neg { i + 1 } else { i };
    if s[i] == 0x2e {
        NRes::Fault { err: Error::LeadingDecimal, start: i, end: i + 1 }
    } else if neg && (p >= len || !is_digit(s[p])) {
        NRes::Fault { err: Error::MissingDigitAfterNegative, start: i, end: min_i(p + 1, len) }
    } else if s[p] == 0x30 && p + 1 < len && is_digit(s[p + 1]) {
        NRes::Fault { err: Error::LeadingZero, start: p, end: p + 2 }
    } else {
        let int_end = scan_digits(s, p);
        let has_frac = int_end < len && s[int_end] == 0x2e;
        let fs = if has_frac { int_end + 1 } else { int_end };
        let fe = if has_frac { scan_digits(s, fs) } else { int_end };
        if has_frac && fe == fs {
            NRes::Fault { err: Error::TrailingDecimal, start: int_end, end: int_end + 1 }
        } else {
            let epos = if has_frac { fe } else { int_end };
            let has_exp = epos < len && (s[epos] == 0x65 || s[epos] == 0x45);
            let q0 = epos + 1;
            let qs = if has_exp && q0 < len && (s[q0] == 0x2b || s[q0] == 0x2d) { q0 + 1 } else { q0 };
            let qe = if has_exp { scan_digits(s, qs) } else { epos };
            if has_exp && qe == qs {
                NRes::Fault { err: Error::ExpectedExponentValue, start: i, end: min_i(qs + 1, len) }
            } else {
                let end = if has_exp { qe } else { epos };
                let exp_sign: int = if has_exp && qs == q0 + 1 && s[q0] == 0x2d { -1 } else { 1 };
                let exp_val = if has_exp { exp_sign * exp_fold(s, qs, qe) } else { 0 };
                let iv = digits_val(s, p, int_end);
                if !has_frac && !has_exp && iv <= 0xFFFF_FFFF_FFFF_FFFF && (!neg || iv == 0) {
                    NRes::Num { num: GNum::Unsigned(iv as u64), next: end }
                } else if !has_frac && !has_exp && neg && iv <= 0x8000_0000_0000_0000 {
                    NRes::Num { num: GNum::Signed((-iv) as i64), next: end }
                } else {
                    let dseq = num_digit_seq(s, p, int_end, fs, fe);
                    let sig = drop_zeros(dseq);
                    let fraclen = fe - fs;
                    if sig.len() <= 19 {
                        NRes::Num {
                            num: GNum::Float {
                                neg,
                                mant: seq_fold(sig) as u64,
                                e10: exp_val - fraclen,
                                many: false,
                            },
                            next: end,
                        }
                    } else {
                        NRes::Num {
                            num: GNum::Float {
                                neg,
                                mant: seq_fold(sig.take(19)) as u64,
                                e10: exp_val - fraclen + sig.len() - 19,
                                many: true,
                            },
                            next: end,
                        }
                    }
                }
            }
        }
    }
}


/// Result of parsing a value: the node, the index after it, and the
/// comments passed over, or the error with its span.
#[verifier::ext_equal]
pub enum PRes {
    Parsed { node: GNode, next: int, cmts: Seq<GComment> },
    Fault { err: Error, start: int, end: int },
}

/// Prepends comments to a parse result, passing a fault through.
pub open spec fn prepend_cmts(c: Seq<GComment>, r: PRes) -> PRes {
    match r {
        PRes::Parsed { node, next, cmts } => PRes::Parsed { node, next, cmts: c + cmts },
        f => f,
    }
}

/// The clamp that keeps the recursion of the member scanners well-founded:
/// in every reachable state `r` already lies in `(lo, len]` and the clamp
/// returns `r` itself.
pub open spec fn step_idx(s: Seq<u8>, lo: int, r: int) -> int {
    if lo < r && r <= s.len() {
        r
    } else {
        lo + 1
    }
}

/// The literal (`true`, `false`, `null`) whose first byte stands at `j`,
/// read as four bytes and, for `fals`, a fifth.
pub open spec fn sp_literal(s: Seq<u8>, j: int) -> PRes {
    let len = s.len() as int;
    if j + 4 <= len && s.subrange(j, j + 4) == seq![0x74u8, 0x72u8, 0x75u8, 0x65u8] {
        PRes::Parsed {
            node: GNode { val: GVal::Bool(true), start: j, end: j + 4 },
            next: j + 4,
            cmts: Seq::empty(),
        }
    } else if j + 4 <= len && s.subrange(j, j + 4) == seq![0x6eu8, 0x75u8, 0x6cu8, 0x6cu8] {
        PRes::Parsed {
            node: GNode { val: GVal::Null, start: j, end: j + 4 },
            next: j + 4,
            cmts: Seq::empty(),
        }
    } else if j + 5 <= len && s.subrange(j, j + 5) == seq![0x66u8, 0x61u8, 0x6cu8, 0x73u8, 0x65u8] {
        PRes::Parsed {
            node: GNode { val: GVal::Bool(false), start: j, end: j + 5 },
            next: j + 5,
            cmts: Seq::empty(),
        }
    } else {
        let l = if 0 <= j < len && s[j] == 0x66 { 5int } else { 4int };
        PRes::Fault { err: Error::InvalidLiteral, start: j, end: min_i(j + l, len) }
    }
}

/// Parses the value whose first non-whitespace byte is sought from `i`.
#[verifier::rlimit(100)]
pub open spec fn sp_value(s: Seq<u8>, comma: bool, trailing: bool, cmt: bool, i: int) -> PRes
    decreases s.len() - i, 2int,
        via sp_value_dec
{
    let len = s.len() as int;
    let w = sp_ws(s, cmt, i);
    let j = w.next;
    if j >= len {
        PRes::Fault { err: Error::Eof, start: len, end: len }
    } else {
        let b = s[j];
        if b == 0x22 {
            match sp_string(s, j) {
                SRes::Str { bytes, next } => PRes::Parsed {
                    node: GNode { val: GVal::Str(bytes), start: j, end: next },
                    next,
                    cmts: w.cmts,
                },
                SRes::Fault { err, start, end } => PRes::Fault { err, start, end },
            }
        } else if b == 0x7b {
            prepend_cmts(w.cmts, sp_object(s, comma, trailing, cmt, j))
        } else if b == 0x5b {
            prepend_cmts(w.cmts, sp_array(s, comma, trailing, cmt, j))
        } else if b == 0x2d || is_digit(b) || b == 0x2e {
            match sp_number(s, j) {
                NRes::Fault { err, start, end } => PRes::Fault { err, start, end },
                NRes::Num { num, next } => {
                    let overflow = match num {
                        GNum::Float { neg, mant, e10, many } => crate::binary::float_fate(
                            neg,
                            mant,
                            e10,
                            many,
                        ) is Inf,
                        _ => false,
                    };
                    if overflow {
                        PRes::Fault { err: Error::NumberOverflow, start: j, end: next }
                    } else {
                        PRes::Parsed {
                            node: GNode { val: GVal::Num(num), start: j, end: next },
                            next,
                            cmts: w.cmts,
                        }
                    }
                },
            }
        } else if b == 0x74 || b == 0x66 || b == 0x6e {
            prepend_cmts(w.cmts, sp_literal(s, j))
        } else {
            PRes::Fault { err: Error::UnexpectedToken, start: j, end: j + 1 }
        }
    }
}

#[via_fn]
proof fn sp_value_dec(s: Seq<u8>, comma: bool, trailing: bool, cmt: bool, i: int) {
    if 0 <= i && i <= s.len() {
        lemma_sp_ws(s, cmt, i);
    }
}

/// Parses the object whose `{` stands at `i`.
#[verifier::rlimit(100)]
pub open spec fn sp_object(s: Seq<u8>, comma: bool, trailing: bool, cmt: bool, i: int) -> PRes
    decreases s.len() - i, 1int,
        via sp_object_dec
{
    let len = s.len() as int;
    let w = sp_ws(s, cmt, i + 1);
    let j = w.next;
    if j >= len {
        PRes::Fault { err: Error::Eof, start: len, end: len }
    } else if s[j] == 0x7d {
        PRes::Parsed {
            node: GNode { val: GVal::Obj(Seq::empty()), start: i, end: j + 1 },
            next: j + 1,
            cmts: w.cmts,
        }
    } else {
        sp_members(s, comma, trailing, cmt, j, i, Seq::empty(), w.cmts)
    }
}

#[via_fn]
proof fn sp_object_dec(s: Seq<u8>, comma: bool, trailing: bool, cmt: bool, i: int) {
    if 0 <= i + 1 && i + 1 <= s.len() {
        lemma_sp_ws(s, cmt, i + 1);
    }
}

/// Parses the array whose `[` stands at `i`.
#[verifier::rlimit(100)]
pub open spec fn sp_array(s: Seq<u8>, comma: bool, trailing: bool, cmt: bool, i: int) -> PRes
    decreases s.len() - i, 1int,
        via sp_array_dec
{
    let len = s.len() as int;
    let w = sp_ws(s, cmt, i + 1);
    let j = w.next;
    if j >= len {
        PRes::Fault { err: Error::Eof, start: len, end: len }
    } else if s[j] == 0x5d {
        PRes::Parsed {
            node: GNode { val: GVal::Arr(Seq::empty()), start: i, end: j + 1 },
            next: j + 1,
            cmts: w.cmts,
        }
    } else {
        sp_elems(s, comma, trailing, cmt, j, i, Seq::empty(), w.cmts)
    }
}

#[via_fn]
proof fn sp_array_dec(s: Seq<u8>, comma: bool, trailing: bool, cmt: bool, i: int) {
    if 0 <= i + 1 && i + 1 <= s.len() {
        lemma_sp_ws(s, cmt, i + 1);
    }
}

/// Parses object members from the key expected at `j`; `start` is the
/// index of the opening brace, `acc` and `accm` what was gathered so far.
#[verifier::rlimit(100)]
pub open spec fn sp_members(
    s: Seq<u8>,
    comma: bool,
    trailing: bool,
    cmt: bool,
    j: int,
    start: int,
    acc: Seq<(GKey, GNode)>,
    accm: Seq<GComment>,
) -> PRes
    decreases s.len() - j, 3int,
        via sp_members_dec
{
    let len = s.len() as int;
    if !(0 <= j && j < len) {
        PRes::Fault { err: Error::Eof, start: len, end: len }
    } else if s[j] != 0x22 {
        PRes::Fault { err: Error::Expected('"'), start: j, end: j + 1 }
    } else {
        match sp_string(s, j) {
            SRes::Fault { err, start: es, end: ee } => PRes::Fault { err, start: es, end: ee },
            SRes::Str { bytes, next: kend } => {
                let key = GKey { bytes, start: j, end: kend };
                let w1 = sp_ws(s, cmt, kend);
                let p = w1.next;
                if p >= len || s[p] != 0x3a {
                    PRes::Fault { err: Error::ExpectedColon, start: p, end: min_i(p + 1, len) }
                } else {
                    match sp_value(s, comma, trailing, cmt, p + 1) {
                        PRes::Fault { err, start: es, end: ee } => PRes::Fault {
                            err,
                            start: es,
                            end: ee,
                        },
                        PRes::Parsed { node, next: vend, cmts: cv } => {
                            let w2 = sp_ws(s, cmt, vend);
                            let q = w2.next;
                            let acc2 = acc.push((key, node));
                            let accm2 = accm + w1.cmts + cv + w2.cmts;
                            if q >= len {
                                PRes::Fault { err: Error::Eof, start: len, end: len }
                            } else if s[q] == 0x2c {
                                let w3 = sp_ws(s, cmt, q + 1);
                                let r = w3.next;
                                if r < len && s[r] == 0x7d {
                                    if trailing {
                                        PRes::Parsed {
                                            node: GNode {
                                                val: GVal::Obj(acc2),
                                                start,
                                                end: r + 1,
                                            },
                                            next: r + 1,
                                            cmts: accm2 + w3.cmts,
                                        }
                                    } else {
                                        PRes::Fault {
                                            err: Error::TrailingComma,
                                            start: q,
                                            end: q + 1,
                                        }
                                    }
                                } else {
                                    sp_members(
                                        s,
                                        comma,
                                        trailing,
                                        cmt,
                                        step_idx(s, j, r),
                                        start,
                                        acc2,
                                        accm2 + w3.cmts,
                                    )
                                }
                            } else if s[q] == 0x7d {
                                PRes::Parsed {
                                    node: GNode { val: GVal::Obj(acc2), start, end: q + 1 },
                                    next: q + 1,
                                    cmts: accm2,
                                }
                            } else if comma {
                                PRes::Fault { err: Error::Expected(','), start: q, end: q + 1 }
                            } else {
                                sp_members(
                                    s,
                                    comma,
                                    trailing,
                                    cmt,
                                    step_idx(s, j, q),
                                    start,
                                    acc2,
                                    accm2,
                                )
                            }
                        },
                    }
                }
            },
        }
    }
}

#[via_fn]
proof fn sp_members_dec(
    s: Seq<u8>,
    comma: bool,
    trailing: bool,
    cmt: bool,
    j: int,
    start: int,
    acc: Seq<(GKey, GNode)>,
    accm: Seq<GComment>,
) {
    if 0 <= j && j < s.len() && s[j] == 0x22 {
        lemma_sp_str_body(s, j, j + 1);
        match sp_string(s, j) {
            SRes::Str { bytes, next: kend } => {
                lemma_sp_ws(s, cmt, kend);
            },
            SRes::Fault { .. } => {},
        }
    }
}

/// Parses array elements from the value expected at `j`; `start` is the
/// index of the opening bracket.
#[verifier::rlimit(100)]
pub open spec fn sp_elems(
    s: Seq<u8>,
    comma: bool,
    trailing: bool,
    cmt: bool,
    j: int,
    start: int,
    acc: Seq<GNode>,
    accm: Seq<GComment>,
) -> PRes
    decreases s.len() - j, 3int,
{
    let len = s.len() as int;
    if j >= len {
        PRes::Fault { err: Error::Eof, start: len, end: len }
    } else {
    match sp_value(s, comma, trailing, cmt, j) {
        PRes::Fault { err, start: es, end: ee } => PRes::Fault { err, start: es, end: ee },
        PRes::Parsed { node, next: vend, cmts: cv } => {
            let w2 = sp_ws(s, cmt, vend);
            let q = w2.next;
            let acc2 = acc.push(node);
            let accm2 = accm + cv + w2.cmts;
            if q >= len {
                PRes::Fault { err: Error::Eof, start: len, end: len }
            } else if s[q] == 0x2c {
                let w3 = sp_ws(s, cmt, q + 1);
                let r = w3.next;
                if r < len && s[r] == 0x5d {
                    if trailing {
                        PRes::Parsed {
                            node: GNode { val: GVal::Arr(acc2), start, end: r + 1 },
                            next: r + 1,
                            cmts: accm2 + w3.cmts,
                        }
                    } else {
                        PRes::Fault { err: Error::TrailingComma, start: q, end: q + 1 }
                    }
                } else {
                    sp_elems(s, comma, trailing, cmt, step_idx(s, j, r), start, acc2, accm2 + w3.cmts)
                }
            } else if s[q] == 0x5d {
                PRes::Parsed {
                    node: GNode { val: GVal::Arr(acc2), start, end: q + 1 },
                    next: q + 1,
                    cmts: accm2,
                }
            } else if comma {
                PRes::Fault { err: Error::Expected(','), start: q, end: q + 1 }
            } else {
                sp_elems(s, comma, trailing, cmt, step_idx(s, j, q), start, acc2, accm2)
            }
        },
    }
    }
}

/// Parses the whole input: one value, with nothing but whitespace after it.
pub open spec fn sp_root(s: Seq<u8>, comma: bool, trailing: bool, cmt: bool) -> PRes {
    match sp_value(s, comma, trailing, cmt, 0) {
        PRes::Fault { err, start, end } => PRes::Fault { err, start, end },
        PRes::Parsed { node, next, cmts } => {
            let w = sp_ws(s, cmt, next);
            let j = w.next;
            if j < s.len() {
                PRes::Fault { err: Error::UnexpectedToken, start: j, end: j + 1 }
            } else {
                PRes::Parsed { node, next: j, cmts: cmts + w.cmts }
            }
        },
    }
}

/// Whether the stored bit pattern is an admissible outcome for the decimal
/// float token: the exact Eisel-Lemire bits where they are decisive, and
/// otherwise any finite double with the token's sign (the long-decimal
/// fallback then picked the bits).
pub open spec fn float_matches(bits: u64, neg: bool, mant: u64, e10: int, many: bool) -> bool {
    match crate::binary::float_fate(neg, mant, e10, many) {
        crate::binary::FloatFate::Bits(b) => bits == b,
        crate::binary::FloatFate::Inf => false,
        crate::binary::FloatFate::Hard => (bits >> 63u64) == (if neg { 1u64 } else { 0u64 })
            && ((bits >> 52u64) & 0x7FF) < 0x7FF,
    }
}

/// Whether the parsed number is the one the model denotes.
pub open spec fn num_matches(n: crate::number::Number, g: GNum) -> bool {
    match g {
        GNum::Unsigned(v) => n == crate::number::Number::Unsigned(v),
        GNum::Signed(v) => n == crate::number::Number::Signed(v),
        GNum::Float { neg, mant, e10, many } => match n {
            crate::number::Number::Float(bits) => float_matches(bits, neg, mant, e10, many),
            _ => false,
        },
    }
}

/// Whether the parsed spanned value is the node the model denotes.
pub open spec fn node_matches(v: crate::span::Span<crate::value::Value>, g: GNode) -> bool
    decreases g, 1int,
{
    v.start == g.start && v.end == g.end && val_matches(v.data, g.val)
}

/// Whether the parsed value is the one the model denotes.
pub open spec fn val_matches(v: crate::value::Value, g: GVal) -> bool
    decreases g, 0int,
{
    match g {
        GVal::Null => v is Null,
        GVal::Bool(b) => v == crate::value::Value::Boolean(b),
        GVal::Num(gn) => match v {
            crate::value::Value::Number(n) => num_matches(n, gn),
            _ => false,
        },
        GVal::Str(bs) => match v {
            crate::value::Value::String(js) => js@ == bs,
            _ => false,
        },
        GVal::Arr(items) => match v {
            crate::value::Value::Array(xs) => xs@.len() == items.len() && (forall|k: int|
                0 <= k < items.len() ==> node_matches(xs@[k], #[trigger] items[k])),
            _ => false,
        },
        GVal::Obj(pairs) => match v {
            crate::value::Value::Object(ob) => ob.0@.len() == pairs.len() && (forall|k: int|
                0 <= k < pairs.len() ==> key_matches(ob.0@[k].0, (#[trigger] pairs[k]).0)
                    && node_matches(ob.0@[k].1, pairs[k].1)),
            _ => false,
        },
    }
}

/// Whether the parsed spanned key is the key the model denotes.
pub open spec fn key_matches(k: crate::span::Span<crate::value::JsonString>, g: GKey) -> bool {
    k.start == g.start && k.end == g.end && k.data@ == g.bytes
}

/// Whether the collected comment is the one the model denotes.
pub open spec fn cmt_matches(c: crate::comment::Comment, g: GComment) -> bool {
    c.start == g.start && c.end == g.end && c.multi == g.multi && c.text@ == g.text
}

/// Whether all collected comments are the ones the model denotes.
pub open spec fn cmts_match(cs: Seq<crate::comment::Comment>, gs: Seq<GComment>) -> bool {
    cs.len() == gs.len() && forall|k: int| 0 <= k < gs.len() ==> cmt_matches(cs[k], #[trigger] gs[k])
}

/// Whether the model node holds a float whose rounding the 128-bit
/// approximation could not decide; only then may the parser report
/// overflow where the model keeps a value.
pub open spec fn node_has_hard(g: GNode) -> bool
    decreases g, 1int,
{
    gval_has_hard(g.val)
}

/// Whether some float below could not be decided by the approximation.
pub open spec fn gval_has_hard(v: GVal) -> bool
    decreases v, 0int,
{
    match v {
        GVal::Num(GNum::Float { neg, mant, e10, many }) => crate::binary::float_fate(
            neg,
            mant,
            e10,
            many,
        ) is Hard,
        GVal::Arr(items) => exists|k: int|
            0 <= k < items.len() && node_has_hard(#[trigger] items[k]),
        GVal::Obj(pairs) => exists|k: int|
            0 <= k < pairs.len() && node_has_hard((#[trigger] pairs[k]).1),
        _ => false,
    }
}

/// The first occurrence characterizes `find_byte`.
#[verifier::rlimit(100)]
#[verifier::spinoff_prover]
pub proof fn lemma_find_byte_unique(s: Seq<u8>, i: int, b: u8, j: int)
    requires
        0 <= i <= j <= s.len(),
        forall|k: int| i <= k < j ==> s[k] != b,
        j < s.len() ==> s[j] == b,
    ensures
        find_byte(s, i, b) == j,
    decreases j - i,
{
    if i < j {
        lemma_find_byte_unique(s, i + 1, b, j);
    }
}

/// The first `*/` characterizes `find_close`.
#[verifier::rlimit(100)]
#[verifier::spinoff_prover]
pub proof fn lemma_find_close_unique(s: Seq<u8>, i: int, j: int)
    requires
        0 <= i <= j <= s.len(),
        forall|k: int| i <= k < j ==> !(#[trigger] s[k] == 0x2a && k + 1 < s.len() && s[k + 1] == 0x2f),
        j < s.len() ==> j + 1 < s.len() && s[j] == 0x2a && s[j + 1] == 0x2f,
    ensures
        find_close(s, i) == j,
    decreases j - i,
{
    if i < j {
        assert(!(s[i] == 0x2a && i + 1 < s.len() && s[i + 1] == 0x2f));
        lemma_find_close_unique(s, i + 1, j);
    }
}

/// Whether `post` is `pre` with the comments of `g` appended.
pub open spec fn cmts_appended(
    pre: Seq<crate::comment::Comment>,
    post: Seq<crate::comment::Comment>,
    g: Seq<GComment>,
) -> bool {
    post.len() == pre.len() + g.len() && post.subrange(0, pre.len() as int) == pre && cmts_match(
        post.subrange(pre.len() as int, post.len() as int),
        g,
    )
}

#[verifier::rlimit(100)]
#[verifier::spinoff_prover]
pub proof fn lemma_cmts_append_push(
    pre: Seq<crate::comment::Comment>,
    mid: Seq<crate::comment::Comment>,
    g: Seq<GComment>,
    c: crate::comment::Comment,
    gc: GComment,
)
    requires
        cmts_appended(pre, mid, g),
        cmt_matches(c, gc),
    ensures
        cmts_appended(pre, mid.push(c), g.push(gc)),
{
    let post = mid.push(c);
    assert(post.subrange(0, pre.len() as int) =~= pre);
    assert(post.subrange(pre.len() as int, post.len() as int) =~= mid.subrange(
        pre.len() as int,
        mid.len() as int,
    ).push(c));
    assert forall|k: int| 0 <= k < g.push(gc).len() implies cmt_matches(
        post.subrange(pre.len() as int, post.len() as int)[k],
        #[trigger] g.push(gc)[k],
    ) by {
        if k < g.len() {
            assert(cmt_matches(mid.subrange(pre.len() as int, mid.len() as int)[k], g[k]));
        }
    }
}

#[verifier::rlimit(100)]
#[verifier::spinoff_prover]
pub proof fn lemma_cons_str(a: Seq<u8>, b: Seq<u8>, r: SRes)
    ensures
        cons_str(a, cons_str(b, r)) == cons_str(a + b, r),
{
    match r {
        SRes::Str { bytes, next } => {
            assert(a + (b + bytes) =~= (a + b) + bytes);
            assert(cons_str(a, cons_str(b, r)) =~= cons_str(a + b, r));
        },
        SRes::Fault { .. } => {},
    }
}

#[verifier::rlimit(100)]
#[verifier::spinoff_prover]
pub proof fn lemma_seq_fold_push(d: Seq<u8>, c: u8)
    ensures
        seq_fold(d.push(c)) == seq_fold(d) * 10 + (c - 0x30),
{
    assert((d.push(c)).drop_last() =~= d);
    assert((d.push(c)).last() == c);
}

#[verifier::rlimit(100)]
#[verifier::spinoff_prover]
pub proof fn lemma_seq_fold_bound(d: Seq<u8>)
    requires
        forall|k: int| 0 <= k < d.len() ==> is_digit(#[trigger] d[k]),
    ensures
        0 <= seq_fold(d) < pow10(d.len()),
    decreases d.len(),
{
    if d.len() > 0 {
        assert(is_digit(d[d.len() - 1]));
        lemma_seq_fold_bound(d.drop_last());
    }
}

#[verifier::rlimit(100)]
#[verifier::spinoff_prover]
pub proof fn lemma_seq_fold_lower(d: Seq<u8>)
    requires
        forall|k: int| 0 <= k < d.len() ==> is_digit(#[trigger] d[k]),
        d.len() > 0,
        d[0] != 0x30,
    ensures
        seq_fold(d) >= pow10((d.len() - 1) as nat),
    decreases d.len(),
{
    if d.len() == 1 {
        assert(is_digit(d[0]));
    } else {
        assert(d.drop_last()[0] == d[0]);
        assert(forall|k: int| 0 <= k < d.drop_last().len() ==> is_digit(#[trigger] d.drop_last()[k]))
            by {
            assert(forall|k: int| 0 <= k < d.drop_last().len() ==> d.drop_last()[k] == d[k]);
        }
        lemma_seq_fold_lower(d.drop_last());
        assert(is_digit(d[d.len() - 1]));
        assert(pow10((d.len() - 1) as nat) == 10 * pow10((d.len() - 2) as nat));
        assert(seq_fold(d) == seq_fold(d.drop_last()) * 10 + (d[d.len() - 1] - 0x30));
        assert(seq_fold(d.drop_last()) * 10 >= pow10((d.len() - 2) as nat) * 10);
    }
}

#[verifier::rlimit(100)]
#[verifier::spinoff_prover]
pub proof fn lemma_digits_val_is_seq_fold(s: Seq<u8>, i: int, j: int)
    requires
        0 <= i <= j <= s.len(),
    ensures
        digits_val(s, i, j) == seq_fold(s.subrange(i, j)),
    decreases j - i,
{
    if j > i {
        lemma_digits_val_is_seq_fold(s, i, j - 1);
        assert(s.subrange(i, j).drop_last() =~= s.subrange(i, j - 1));
        assert(s.subrange(i, j).last() == s[j - 1]);
    } else {
        assert(s.subrange(i, j) =~= Seq::<u8>::empty());
    }
}

#[verifier::rlimit(100)]
#[verifier::spinoff_prover]
pub proof fn lemma_drop_zeros_push(d: Seq<u8>, c: u8)
    ensures
        drop_zeros(d.push(c)) == (if drop_zeros(d) == Seq::<u8>::empty() && c == 0x30 {
            Seq::<u8>::empty()
        } else {
            drop_zeros(d).push(c)
        }),
    decreases d.len(),
{
    if d.len() > 0 && d[0] == 0x30 {
        assert((d.push(c)).drop_first() =~= d.drop_first().push(c));
        assert((d.push(c))[0] == 0x30);
        lemma_drop_zeros_push(d.drop_first(), c);
    } else if d.len() == 0 {
        assert(d =~= Seq::<u8>::empty());
        if c == 0x30 {
            assert((d.push(c))[0] == 0x30);
            assert((d.push(c)).drop_first() =~= Seq::<u8>::empty());
        } else {
            assert(drop_zeros(d.push(c)) =~= d.push(c));
            assert(drop_zeros(d) =~= Seq::<u8>::empty());
            assert(d.push(c) =~= Seq::<u8>::empty().push(c));
        }
    } else {
        assert(drop_zeros(d.push(c)) =~= d.push(c));
        assert(drop_zeros(d) =~= d);
        assert(drop_zeros(d).len() > 0);
        assert(drop_zeros(d) != Seq::<u8>::empty()) by {
            assert(Seq::<u8>::empty().len() == 0);
        }
    }
}

#[verifier::rlimit(100)]
#[verifier::spinoff_prover]
pub proof fn lemma_drop_zeros_props(d: Seq<u8>)
    requires
        forall|k: int| 0 <= k < d.len() ==> is_digit(#[trigger] d[k]),
    ensures
        drop_zeros(d).len() <= d.len(),
        forall|k: int| 0 <= k < drop_zeros(d).len() ==> is_digit(#[trigger] drop_zeros(d)[k]),
        drop_zeros(d).len() > 0 ==> drop_zeros(d)[0] != 0x30,
    decreases d.len(),
{
    if d.len() > 0 && d[0] == 0x30 {
        lemma_drop_zeros_props(d.drop_first());
    }
}

#[verifier::rlimit(100)]
#[verifier::spinoff_prover]
pub proof fn lemma_pow10_mono(a: nat, b: nat)
    requires
        a <= b,
    ensures
        pow10(a) <= pow10(b),
        pow10(a) >= 1,
    decreases b,
{
    if a == b {
        if a > 0 {
            lemma_pow10_mono((a - 1) as nat, (a - 1) as nat);
        }
    } else {
        lemma_pow10_mono(a, (b - 1) as nat);
    }
}

#[verifier::rlimit(100)]
#[verifier::spinoff_prover]
pub proof fn lemma_exp_fold_bound(s: Seq<u8>, i: int, j: int)
    requires
        forall|k: int| i <= k < j ==> is_digit(#[trigger] s[k]),
    ensures
        0 <= exp_fold(s, i, j) <= 0xA0008,
    decreases j - i,
{
    if j > i {
        lemma_exp_fold_bound(s, i, j - 1);
    }
}

/// Whether the float token definitely overflows.
pub open spec fn gnum_fate_inf(g: GNum) -> bool {
    match g {
        GNum::Float { neg, mant, e10, many } => crate::binary::float_fate(neg, mant, e10, many)
            is Inf,
        _ => false,
    }
}

/// Whether the 128-bit approximation cannot decide the float token.
pub open spec fn gnum_fate_hard(g: GNum) -> bool {
    match g {
        GNum::Float { neg, mant, e10, many } => crate::binary::float_fate(neg, mant, e10, many)
            is Hard,
        _ => false,
    }
}

/// An overflow report pinned to the number lexeme it came from: the span
/// is exactly the extent of a token at `e.start` whose rounding the
/// 128-bit approximation cannot decide. Only such a report may stand
/// where the model keeps a value.
pub open spec fn hard_overflow_at(s: Seq<u8>, e: crate::span::Span<Error>) -> bool {
    e.data == Error::NumberOverflow && 0 <= e.start < s.len() && (sp_number(
        s,
        e.start as int,
    ) matches NRes::Num { num, next } && gnum_fate_hard(num) && e.end as int == next)
}

/// The scanned number and its end match the model, and the model does not
/// demand an overflow error for it.
pub open spec fn num_ok(n: crate::number::Number, nx: int, nr: NRes) -> bool {
    match nr {
        NRes::Num { num, next } => nx == next && num_matches(n, num) && !gnum_fate_inf(num),
        NRes::Fault { .. } => false,
    }
}

/// The scanner's error is the model's, or the model's number at `i`
/// overflows or cannot be decided and the error says so.
pub open spec fn num_err(e: crate::span::Span<Error>, i: int, nr: NRes) -> bool {
    match nr {
        NRes::Fault { err, start, end } => e.data == err && e.start == start && e.end == end,
        NRes::Num { num, next } => e.data == Error::NumberOverflow && e.start == i && e.end == next
            && (gnum_fate_inf(num) || gnum_fate_hard(num)),
    }
}



#[verifier::rlimit(100)]
#[verifier::spinoff_prover]
pub proof fn lemma_cmts_appended_trans(
    pre: Seq<crate::comment::Comment>,
    mid: Seq<crate::comment::Comment>,
    post: Seq<crate::comment::Comment>,
    g1: Seq<GComment>,
    g2: Seq<GComment>,
)
    requires
        cmts_appended(pre, mid, g1),
        cmts_appended(mid, post, g2),
    ensures
        cmts_appended(pre, post, g1 + g2),
{
    assert(post.subrange(0, pre.len() as int) =~= mid.subrange(0, pre.len() as int));
    let tail = post.subrange(pre.len() as int, post.len() as int);
    assert forall|k: int| 0 <= k < (g1 + g2).len() implies cmt_matches(
        tail[k],
        #[trigger] (g1 + g2)[k],
    ) by {
        if k < g1.len() {
            assert(tail[k] == mid.subrange(pre.len() as int, mid.len() as int)[k]);
            assert(cmt_matches(mid.subrange(pre.len() as int, mid.len() as int)[k], g1[k]));
        } else {
            assert(tail[k] == post.subrange(mid.len() as int, post.len() as int)[k - g1.len()]);
            assert(cmt_matches(
                post.subrange(mid.len() as int, post.len() as int)[k - g1.len()],
                g2[k - g1.len()],
            ));
        }
    }
}

/// The parser's error is the model's, except that an overflow report
/// spanning an undecidable number lexeme may stand.
pub open spec fn val_err(e: crate::span::Span<Error>, s: Seq<u8>, pr: PRes) -> bool {
    match pr {
        PRes::Fault { err, start, end } => (e.data == err && e.start == start && e.end == end)
            || hard_overflow_at(s, e),
        PRes::Parsed { .. } => hard_overflow_at(s, e),
    }
}


/// The whole contract of the number scanner in one place.
pub open spec fn num_result(
    r: Result<(crate::number::Number, usize), crate::span::Span<Error>>,
    i: int,
    len: int,
    nr: NRes,
) -> bool {
    match r {
        Result::Ok(p) => num_ok(p.0, p.1 as int, nr) && i < p.1 <= len,
        Result::Err(e) => num_err(e, i, nr),
    }
}

/// The parsed pairs so far match the model's.
pub open spec fn pairs_match(
    v: Seq<(crate::span::Span<crate::value::JsonString>, crate::span::Span<crate::value::Value>)>,
    g: Seq<(GKey, GNode)>,
) -> bool {
    v.len() == g.len() && forall|k: int| 0 <= k < g.len() ==> key_matches(
        v[k].0,
        (#[trigger] g[k]).0,
    ) && node_matches(v[k].1, g[k].1)
}

/// The parsed elements so far match the model's.
pub open spec fn elems_match(
    v: Seq<crate::span::Span<crate::value::Value>>,
    g: Seq<GNode>,
) -> bool {
    v.len() == g.len() && forall|k: int| 0 <= k < g.len() ==> node_matches(v[k], #[trigger] g[k])
}

/// The parsed value and its end match the model's parse (the collected
/// comment list is specified at the lexer, not here).
pub open spec fn vres_ok(
    v: crate::span::Span<crate::value::Value>,
    nx: int,
    len: int,
    pr: PRes,
) -> bool {
    match pr {
        PRes::Parsed { node, next, cmts } => node_matches(v, node) && nx == next && nx <= len,
        PRes::Fault { .. } => false,
    }
}

/// The whole contract of a tree-parsing function in one place.
pub open spec fn vresult(
    r: Result<(crate::span::Span<crate::value::Value>, usize), crate::span::Span<Error>>,
    s: Seq<u8>,
    pr: PRes,
) -> bool {
    match r {
        Result::Ok(p) => vres_ok(p.0, p.1 as int, s.len() as int, pr),
        Result::Err(e) => val_err(e, s, pr),
    }
}

} // verus!
