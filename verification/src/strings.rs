//! The string engine: body scanning and escape decoding.

use vstd::prelude::*;

verus! {

use crate::error::Error;
use crate::model::{
    cons_str, esc_byte, hex4_at, is_hex, lemma_cons_str, min_i, sp_str_body, sp_string,
    sp_unicode, SRes, URes,
};
use crate::span::Span;

/// The value of the hexadecimal digit, if the byte is one.
fn hex_digit(b: u8) -> (r: Option<u8>)
    ensures
        match r {
            Some(v) => is_hex(b) && v as int == crate::model::hex_val(b),
            None => !is_hex(b),
        },
{
    if 0x30 <= b && b <= 0x39 {
        Some(b - 0x30)
    } else if 0x41 <= b && b <= 0x46 {
        Some(b - 0x41 + 10)
    } else if 0x61 <= b && b <= 0x66 {
        Some(b - 0x61 + 10)
    } else {
        None
    }
}

/// The value of the four hexadecimal digits at `p`, if they are there.
fn hex4(s: &[u8], p: usize) -> (r: Option<u32>)
    requires
        p <= s@.len(),
    ensures
        match r {
            Some(v) => hex4_at(s@, p as int) == v as int && v < 0x10000,
            None => hex4_at(s@, p as int) == -1,
        },
{
    if s.len() - p < 4 {
        return None;
    }
    let (Some(a), Some(b), Some(c), Some(d)) = (
        hex_digit(s[p]),
        hex_digit(s[p + 1]),
        hex_digit(s[p + 2]),
        hex_digit(s[p + 3]),
    ) else {
        return None;
    };
    Some((a as u32) * 0x1000 + (b as u32) * 0x100 + (c as u32) * 0x10 + (d as u32))
}

/// Appends the UTF-8 encoding of the scalar to the buffer.
fn encode_utf8_push(v: u32, out: &mut Vec<u8>)
    requires
        vstd::utf8::is_scalar(v),
    ensures
        final(out)@ == old(out)@ + vstd::utf8::encode_scalar(v),
{
    if v <= 0x7F {
        out.push((v & 0x7F) as u8);
        assert(final(out)@ =~= old(out)@ + vstd::utf8::encode_scalar(v));
    } else if v <= 0x7FF {
        out.push(0xC0 | ((v >> 6u32) & 0x1F) as u8);
        out.push(0x80 | (v & 0x3F) as u8);
        assert(final(out)@ =~= old(out)@ + vstd::utf8::encode_scalar(v));
    } else if v <= 0xFFFF {
        out.push(0xE0 | ((v >> 12u32) & 0x0F) as u8);
        out.push(0x80 | ((v >> 6u32) & 0x3F) as u8);
        out.push(0x80 | (v & 0x3F) as u8);
        assert(final(out)@ =~= old(out)@ + vstd::utf8::encode_scalar(v));
    } else {
        out.push(0xF0 | ((v >> 18u32) & 0x7) as u8);
        out.push(0x80 | ((v >> 12u32) & 0x3F) as u8);
        out.push(0x80 | ((v >> 6u32) & 0x3F) as u8);
        out.push(0x80 | (v & 0x3F) as u8);
        assert(final(out)@ =~= old(out)@ + vstd::utf8::encode_scalar(v));
    }
}

/// Decodes the quoted string whose opening quote stands at `i`: the decoded
/// bytes and the index after the closing quote, or the error.
#[verifier::rlimit(100)]
pub fn parse_string(s: &[u8], i: usize) -> (r: Result<(Vec<u8>, usize), Span<Error>>)
    requires
        i < s@.len(),
        s@[i as int] == 0x22,
    ensures
        match r {
            Ok(p) => sp_string(s@, i as int) == (SRes::Str { bytes: p.0@, next: p.1 as int })
                && i < p.1 <= s@.len(),
            Err(e) => sp_string(s@, i as int) == (SRes::Fault {
                err: e.data,
                start: e.start as int,
                end: e.end as int,
            }),
        },
{
    let ghost qi = i as int;
    let n = s.len();
    let mut out: Vec<u8> = Vec::new();
    let mut j = i + 1;
    proof {
        assert(cons_str(out@, sp_str_body(s@, qi, j as int)) =~= sp_str_body(s@, qi, qi + 1));
    }
    loop
        invariant
            i + 1 <= j,
            j <= n,
            n == s@.len(),
            i < n,
            qi == i as int,
            sp_str_body(s@, qi, qi + 1) == cons_str(out@, sp_str_body(s@, qi, j as int)),
        decreases n - j,
    {
        if j >= n {
            // the spec resolves to the fault through `cons_str`
            return Err(Span { data: Error::UnclosedString, start: i, end: n });
        }
        let b = s[j];
        if b == 0x22 {
            proof {
                assert(out@ + Seq::<u8>::empty() =~= out@);
                assert(cons_str(out@, sp_str_body(s@, qi, j as int)) =~= (SRes::Str {
                    bytes: out@,
                    next: j + 1,
                }));
            }
            return Ok((out, j + 1));
        }
        if b < 0x20 {
            return Err(Span { data: Error::ControlCharacter, start: j, end: j + 1 });
        }
        if b == 0x5c {
            if n - j < 2 {
                return Err(Span { data: Error::UnclosedString, start: i, end: n });
            }
            let e = s[j + 1];
            if e == 0x75 {
                // \uXXXX, with surrogate-pair recombination
                match hex4(s, j + 2) {
                    None => {
                        let end = if n - j < 6 { n } else { j + 6 };
                        return Err(Span { data: Error::InvalidEscapeSequnce, start: j, end });
                    },
                    Some(u) => {
                        if 0xd800 <= u && u <= 0xdbff {
                            let pair_end = if n - j < 12 { n } else { j + 12 };
                            if n - j >= 8 && s[j + 6] == 0x5c && s[j + 7] == 0x75 {
                                match hex4(s, j + 8) {
                                    Some(u2) if 0xdc00 <= u2 && u2 <= 0xdfff => {
                                        let v = 0x10000 + (u - 0xd800) * 0x400 + (u2 - 0xdc00);
                                        let ghost before = out@;
                                        encode_utf8_push(v, &mut out);
                                        proof {
                                            lemma_cons_str(
                                                before,
                                                vstd::utf8::encode_scalar(v),
                                                sp_str_body(s@, qi, j + 12),
                                            );
                                        }
                                        j = j + 12;
                                    },
                                    _ => {
                                        return Err(Span {
                                            data: Error::InvalidEscapeSequnce,
                                            start: j,
                                            end: pair_end,
                                        });
                                    },
                                }
                            } else {
                                return Err(Span {
                                    data: Error::InvalidEscapeSequnce,
                                    start: j,
                                    end: pair_end,
                                });
                            }
                        } else if 0xdc00 <= u && u <= 0xdfff {
                            let end = if n - j < 6 { n } else { j + 6 };
                            return Err(Span { data: Error::InvalidEscapeSequnce, start: j, end });
                        } else {
                            let ghost before = out@;
                            encode_utf8_push(u, &mut out);
                            proof {
                                lemma_cons_str(
                                    before,
                                    vstd::utf8::encode_scalar(u),
                                    sp_str_body(s@, qi, j + 6),
                                );
                            }
                            j = j + 6;
                        }
                    },
                }
            } else {
                let m: u8 = if e == 0x22 {
                    0x22
                } else if e == 0x5c {
                    0x5c
                } else if e == 0x2f {
                    0x2f
                } else if e == 0x62 {
                    0x08
                } else if e == 0x66 {
                    0x0c
                } else if e == 0x6e {
                    0x0a
                } else if e == 0x72 {
                    0x0d
                } else if e == 0x74 {
                    0x09
                } else {
                    return Err(Span { data: Error::InvalidEscapeSequnce, start: j, end: j + 2 });
                };
                proof {
                    assert(esc_byte(e) == m as int);
                }
                let ghost before = out@;
                out.push(m);
                proof {
                    assert(before + seq![m] =~= out@);
                    lemma_cons_str(before, seq![m], sp_str_body(s@, qi, j + 2));
                }
                j = j + 2;
            }
        } else {
            let ghost before = out@;
            out.push(b);
            proof {
                assert(before + seq![b] =~= out@);
                lemma_cons_str(before, seq![b], sp_str_body(s@, qi, j + 1));
            }
            j = j + 1;
        }
    }
}

} // verus!
