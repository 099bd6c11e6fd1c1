//! The number engine: lexeme scanning, the integer fast path, and the
//! decimal-float classification handed to the binary converter.

use vstd::prelude::*;

verus! {

use crate::binary::{compute_float, AdjustedMantissa};
use crate::error::Error;
use crate::model::{
    digits_val, drop_zeros, exp_fold, is_digit, lemma_digits_val_is_seq_fold,
    lemma_drop_zeros_props, lemma_drop_zeros_push, lemma_exp_fold_bound, lemma_pow10_mono,
    lemma_seq_fold_bound, lemma_seq_fold_lower, lemma_seq_fold_push, num_digit_seq, num_err,
    num_ok, pow10, scan_digits, seq_fold, sp_number, NRes,
    num_result,
};
use crate::number::Number;
use crate::span::Span;

/// The index after the run of decimal digits starting at `i`.
pub fn scan_digits_exec(s: &[u8], i: usize) -> (r: usize)
    requires
        i <= s@.len(),
    ensures
        r as int == scan_digits(s@, i as int),
        i <= r <= s@.len(),
        forall|k: int| i <= k < r ==> is_digit(#[trigger] s@[k]),
        r < s@.len() ==> !is_digit(s@[r as int]),
{
    let n = s.len();
    let mut j = i;
    loop
        invariant
            i <= j <= n,
            n == s@.len(),
            scan_digits(s@, i as int) == scan_digits(s@, j as int),
            forall|k: int| i <= k < j ==> is_digit(#[trigger] s@[k]),
        decreases n - j,
    {
        if j < n && s[j] >= 0x30 && s[j] <= 0x39 {
            proof {
                assert(scan_digits(s@, j as int) == scan_digits(s@, j + 1));
            }
            j = j + 1;
        } else {
            return j;
        }
    }
}

proof fn lemma_pow10_vals()
    ensures
        pow10(18) == 0xDE0B6B3A7640000,
        pow10(19) == 0x8AC7230489E80000,
        pow10(20) == 0x56BC75E2D63100000,
        pow10(21) == 0x3635C9ADC5DEA00000,
{
    reveal_with_fuel(pow10, 22);
}

/// One step of the significant-digit accumulator: pushing digit `c` onto
/// the prefix of `d` of length `t`.
#[verifier::rlimit(100)]
#[verifier::spinoff_prover]
proof fn step_sig(d: Seq<u8>, t: int, c: u8, sigc: int, mant: u64)
    requires
        0 <= t < d.len(),
        d[t] == c,
        is_digit(c),
        forall|k: int| 0 <= k < d.len() ==> is_digit(#[trigger] d[k]),
        sigc == drop_zeros(d.take(t)).len(),
        drop_zeros(d.take(t)).len() <= 19 ==> mant as int == seq_fold(drop_zeros(d.take(t))),
        drop_zeros(d.take(t)).len() > 19 ==> mant as int == seq_fold(
            drop_zeros(d.take(t)).take(19),
        ),
        (mant as int) < pow10(19),
    ensures
        d.take(t + 1) == d.take(t).push(c),
        sigc == 0 && c == 0x30 ==> drop_zeros(d.take(t + 1)) == drop_zeros(d.take(t))
            && drop_zeros(d.take(t + 1)).len() == 0,
        !(sigc == 0 && c == 0x30) ==> {
            &&& drop_zeros(d.take(t + 1)) == drop_zeros(d.take(t)).push(c)
            &&& drop_zeros(d.take(t + 1)).len() == sigc + 1
            &&& (sigc < 19 ==> seq_fold(drop_zeros(d.take(t + 1))) == mant * 10 + (c - 0x30)
                && mant * 10 + (c - 0x30) < pow10(19))
            &&& (sigc >= 19 ==> seq_fold(drop_zeros(d.take(t + 1)).take(19)) == mant)
        },
{
    let pref = d.take(t);
    let sig = drop_zeros(pref);
    assert(d.take(t + 1) =~= pref.push(c));
    assert(forall|k: int| 0 <= k < pref.len() ==> is_digit(#[trigger] pref[k]));
    lemma_drop_zeros_props(pref);
    lemma_drop_zeros_push(pref, c);
    if sigc == 0 && c == 0x30 {
        assert(sig =~= Seq::<u8>::empty());
    } else {
        assert(sig != Seq::<u8>::empty() || c != 0x30) by {
            if sigc != 0 {
                assert(sig.len() > 0);
                assert(Seq::<u8>::empty().len() == 0);
            }
        }
        assert(drop_zeros(pref.push(c)) == sig.push(c));
        lemma_seq_fold_push(sig, c);
        if sigc < 19 {
            lemma_seq_fold_bound(sig);
            lemma_pow10_vals();
            lemma_pow10_mono(sig.len() as nat, 18nat);
            assert(seq_fold(sig) < pow10(18));
            assert(pow10(19) == 10 * pow10(18));
        } else {
            assert((sig.push(c)).take(19) =~= sig.take(19));
        }
    }
}

/// The value of the digit run `[p, int_end)`, exact in 128 bits for up to
/// 20 digits.
#[verifier::rlimit(100)]
#[verifier::spinoff_prover]
fn scan_u128(s: &[u8], p: usize, int_end: usize) -> (r: u128)
    requires
        p <= int_end <= s@.len(),
        int_end - p <= 20,
        forall|t: int| p <= t < int_end ==> is_digit(#[trigger] s@[t]),
    ensures
        r as int == digits_val(s@, p as int, int_end as int),
{
    let mut acc: u128 = 0;
    let mut k = p;
    proof {
        lemma_pow10_vals();
    }
    loop
        invariant
            p <= k <= int_end,
            int_end <= s@.len(),
            int_end - p <= 20,
            acc as int == digits_val(s@, p as int, k as int),
            (acc as int) < pow10((k - p) as nat),
            forall|t: int| p <= t < int_end ==> is_digit(#[trigger] s@[t]),
            pow10(20) == 0x56BC75E2D63100000 && pow10(21) == 0x3635C9ADC5DEA00000,
        decreases int_end - k,
    {
        if k >= int_end {
            return acc;
        }
        proof {
            lemma_pow10_mono((k - p + 1) as nat, 21nat);
            lemma_pow10_mono((k - p + 1) as nat, 20nat);
            assert(pow10((k - p + 1) as nat) == 10 * pow10((k - p) as nat));
        }
        acc = acc * 10 + ((s[k] - 0x30) as u128);
        k = k + 1;
    }
}

/// Folds the significant digits of the integer and fraction runs: the
/// first 19 of them as the mantissa, and their count.
#[verifier::rlimit(100)]
#[verifier::spinoff_prover]
fn scan_mantissa(s: &[u8], p: usize, int_end: usize, fs: usize, fe: usize) -> (r: (u64, usize))
    requires
        p < int_end <= fs <= fe <= s@.len(),
        forall|t: int| p <= t < int_end ==> is_digit(#[trigger] s@[t]),
        forall|t: int| fs <= t < fe ==> is_digit(#[trigger] s@[t]),
    ensures
        ({
            let sig = drop_zeros(num_digit_seq(s@, p as int, int_end as int, fs as int, fe as int));
            &&& r.1 as int == sig.len()
            &&& (sig.len() <= 19 ==> r.0 as int == seq_fold(sig))
            &&& (sig.len() > 19 ==> r.0 as int == seq_fold(sig.take(19)))
            &&& (r.0 as int) < pow10(19)
        }),
{
    let ghost dseq = num_digit_seq(s@, p as int, int_end as int, fs as int, fe as int);
    proof {
        assert(forall|t: int| 0 <= t < dseq.len() ==> is_digit(#[trigger] dseq[t]));
        lemma_pow10_vals();
        lemma_pow10_mono(0nat, 19nat);
        assert(dseq.take(0) =~= Seq::<u8>::empty());
    }
    let mut mant: u64 = 0;
    let mut sigc: usize = 0;
    let mut k = p;
    while k < int_end
        invariant
            p <= k <= int_end,
            int_end <= fs <= fe <= s@.len(),
            p < int_end,
            dseq == num_digit_seq(s@, p as int, int_end as int, fs as int, fe as int),
            dseq.len() == (int_end - p) + (fe - fs),
            forall|t: int| 0 <= t < dseq.len() ==> is_digit(#[trigger] dseq[t]),
            sigc as int == drop_zeros(dseq.take(k - p)).len(),
            sigc <= k - p,
            drop_zeros(dseq.take(k - p)).len() <= 19 ==> mant as int == seq_fold(
                drop_zeros(dseq.take(k - p)),
            ),
            drop_zeros(dseq.take(k - p)).len() > 19 ==> mant as int == seq_fold(
                drop_zeros(dseq.take(k - p)).take(19),
            ),
            (mant as int) < pow10(19),
            pow10(18) == 0xDE0B6B3A7640000 && pow10(19) == 0x8AC7230489E80000,
        decreases int_end - k,
    {
        let c = s[k];
        proof {
            assert(dseq[k - p] == s@[k as int]);
            assert(is_digit(c));
            step_sig(dseq, (k - p) as int, c, sigc as int, mant);
            assert(forall|t: int| 0 <= t < dseq.take(k - p + 1).len() ==> is_digit(
                #[trigger] dseq.take(k - p + 1)[t],
            ));
            lemma_drop_zeros_props(dseq.take(k - p + 1));
        }
        if sigc == 0 && c == 0x30 {
        } else {
            if sigc < 19 {
                proof {
                    let sigp = drop_zeros(dseq.take(k - p));
                    assert(forall|t: int| 0 <= t < dseq.take(k - p).len() ==> is_digit(
                        #[trigger] dseq.take(k - p)[t],
                    ));
                    lemma_drop_zeros_props(dseq.take(k - p));
                    lemma_seq_fold_bound(sigp);
                    lemma_pow10_mono(sigp.len() as nat, 18nat);
                    assert(pow10(19) == 10 * pow10(18));
                    assert(c >= 0x30 && c <= 0x39);
                    assert((mant as int) * 10 + (c - 0x30) < pow10(19));
                    assert((mant as int) * 10 + (c - 0x30) < 0xFFFF_FFFF_FFFF_FFFF);
                }
                mant = mant * 10 + ((c - 0x30) as u64);
            }
            sigc = sigc + 1;
        }
        k = k + 1;
    }
    proof {
        assert(dseq.take((int_end - p) + (fs - fs)) == dseq.take((int_end - p) as int));
    }
    let mut k2 = fs;
    while k2 < fe
        invariant
            fs <= k2 <= fe,
            p < int_end <= fs <= fe <= s@.len(),
            dseq == num_digit_seq(s@, p as int, int_end as int, fs as int, fe as int),
            dseq.len() == (int_end - p) + (fe - fs),
            forall|t: int| 0 <= t < dseq.len() ==> is_digit(#[trigger] dseq[t]),
            sigc as int == drop_zeros(dseq.take((int_end - p) + (k2 - fs))).len(),
            sigc <= (int_end - p) + (k2 - fs),
            drop_zeros(dseq.take((int_end - p) + (k2 - fs))).len() <= 19 ==> mant as int
                == seq_fold(drop_zeros(dseq.take((int_end - p) + (k2 - fs)))),
            drop_zeros(dseq.take((int_end - p) + (k2 - fs))).len() > 19 ==> mant as int
                == seq_fold(drop_zeros(dseq.take((int_end - p) + (k2 - fs))).take(19)),
            (mant as int) < pow10(19),
            pow10(18) == 0xDE0B6B3A7640000 && pow10(19) == 0x8AC7230489E80000,
        decreases fe - k2,
    {
        let c = s[k2];
        proof {
            assert(dseq[(int_end - p) + (k2 - fs)] == s@[k2 as int]);
            assert(is_digit(c));
            step_sig(dseq, (int_end - p) + (k2 - fs), c, sigc as int, mant);
            assert(forall|t: int| 0 <= t < dseq.take((int_end - p) + (k2 - fs) + 1).len()
                ==> is_digit(#[trigger] dseq.take((int_end - p) + (k2 - fs) + 1)[t]));
            lemma_drop_zeros_props(dseq.take((int_end - p) + (k2 - fs) + 1));
        }
        if sigc == 0 && c == 0x30 {
        } else {
            if sigc < 19 {
                proof {
                    let sigp = drop_zeros(dseq.take((int_end - p) + (k2 - fs)));
                    assert(forall|t: int| 0 <= t < dseq.take((int_end - p) + (k2 - fs)).len()
                        ==> is_digit(#[trigger] dseq.take((int_end - p) + (k2 - fs))[t]));
                    lemma_drop_zeros_props(dseq.take((int_end - p) + (k2 - fs)));
                    lemma_seq_fold_bound(sigp);
                    lemma_pow10_mono(sigp.len() as nat, 18nat);
                    assert(pow10(19) == 10 * pow10(18));
                    assert(c >= 0x30 && c <= 0x39);
                    assert((mant as int) * 10 + (c - 0x30) < pow10(19));
                    assert((mant as int) * 10 + (c - 0x30) < 0xFFFF_FFFF_FFFF_FFFF);
                }
                mant = mant * 10 + ((c - 0x30) as u64);
            }
            sigc = sigc + 1;
        }
        k2 = k2 + 1;
    }
    proof {
        assert(dseq.take((int_end - p) + (fe - fs)) =~= dseq);
    }
    (mant, sigc)
}


/// The capped exponent value of the digit run `[qs, qe)`.
#[verifier::rlimit(60)]
#[verifier::spinoff_prover]
fn scan_exp(s: &[u8], qs: usize, qe: usize) -> (r: u32)
    requires
        qs <= qe <= s@.len(),
        forall|t: int| qs <= t < qe ==> is_digit(#[trigger] s@[t]),
    ensures
        r as int == exp_fold(s@, qs as int, qe as int),
        r <= 0xA0008,
{
    let mut ev: u32 = 0;
    let mut k = qs;
    proof {
        lemma_exp_fold_bound(s@, qs as int, qe as int);
    }
    while k < qe
        invariant
            qs <= k <= qe,
            qe <= s@.len(),
            ev as int == exp_fold(s@, qs as int, k as int),
            ev <= 0xA0008,
            forall|t: int| qs <= t < qe ==> is_digit(#[trigger] s@[t]),
        decreases qe - k,
    {
        proof {
            lemma_exp_fold_bound(s@, qs as int, k + 1);
        }
        if ev < 0x10000 {
            ev = ev * 10 + ((s[k] - 0x30) as u32);
        }
        k = k + 1;
    }
    ev
}




/// The value of the digit run `[p, int_end)` when it fits 64 bits; `None`
/// reports that it exceeds them.
#[verifier::rlimit(100)]
#[verifier::spinoff_prover]
fn int_value(s: &[u8], p: usize, int_end: usize) -> (r: Option<u64>)
    requires
        p < int_end <= s@.len(),
        forall|t: int| p <= t < int_end ==> is_digit(#[trigger] s@[t]),
        s@[p as int] == 0x30 ==> int_end == p + 1,
    ensures
        match r {
            Some(v) => v as int == digits_val(s@, p as int, int_end as int),
            None => digits_val(s@, p as int, int_end as int) > 0xFFFF_FFFF_FFFF_FFFF,
        },
{
    let nd = int_end - p;
    if nd <= 20 {
        let acc = scan_u128(s, p, int_end);
        if acc <= 0xFFFF_FFFF_FFFF_FFFF {
            return Some(acc as u64);
        }
        return None;
    }
    proof {
        lemma_pow10_vals();
        let run = s@.subrange(p as int, int_end as int);
        lemma_digits_val_is_seq_fold(s@, p as int, int_end as int);
        assert(run[0] == s@[p as int]);
        assert(s@[p as int] != 0x30);
        lemma_seq_fold_lower(run);
        lemma_pow10_mono(20nat, (run.len() - 1) as nat);
    }
    None
}

/// Assembles sign, biased exponent and mantissa into the bit pattern of a
/// finite double.
fn assemble_hard_bits(neg: bool, m3: u64, p3v: i32) -> (bits: u64)
    requires
        m3 < 0x10_0000_0000_0000u64,
        0 <= p3v <= 0x7FE,
    ensures
        (bits >> 63u64) == (if neg { 1u64 } else { 0u64 }),
        ((bits >> 52u64) & 0x7FF) < 0x7FF,
{
    let p3 = p3v as u64;
    proof {
        assert((((m3 | (p3 << 52u64)) >> 63u64) == 0u64) && ((((m3 | (p3 << 52u64))
            | 0x8000_0000_0000_0000u64) >> 63u64) == 1u64) && ((((m3 | (p3 << 52u64)) >> 52u64)
            & 0x7FF) < 0x7FF) && (((((m3 | (p3 << 52u64)) | 0x8000_0000_0000_0000u64) >> 52u64)
            & 0x7FF) < 0x7FF)) by (bit_vector)
            requires
                m3 < 0x10_0000_0000_0000u64,
                p3 <= 0x7FEu64,
        ;
    }
    if neg {
        (m3 | (p3 << 52u64)) | 0x8000_0000_0000_0000u64
    } else {
        m3 | (p3 << 52u64)
    }
}

/// Settles a number whose rounding the 128-bit approximation could not
/// decide: the long-decimal fallback supplies the bits, or the overflow
/// report.
#[verifier::rlimit(100)]
#[verifier::spinoff_prover]
fn finish_hard(
    s: &[u8],
    i: usize,
    end: usize,
    neg: bool,
    p: usize,
    int_end: usize,
    fs: usize,
    fe: usize,
    exp_neg: bool,
    ev: u32,
) -> (r: Result<(Number, usize), Span<Error>>)
    requires
        i < end <= s@.len(),
        p <= int_end <= fs <= fe <= s@.len(),
        forall|t: int| p <= t < int_end ==> is_digit(#[trigger] s@[t]),
        forall|t: int| fs <= t < fe ==> is_digit(#[trigger] s@[t]),
        ev <= 0xA0008,
    ensures
        match r {
            Ok(pr) => pr.1 == end && (pr.0 matches Number::Float(bits) && (bits >> 63u64) == (
            if neg {
                1u64
            } else {
                0u64
            }) && ((bits >> 52u64) & 0x7FF) < 0x7FF),
            Err(e) => e.data == Error::NumberOverflow && e.start == i && e.end == end,
        },
{
    let mut dec = crate::decimal::parse_decimal(s, neg, p, int_end, fs, fe, exp_neg, ev);
    let am3 = crate::decimal::long_to_binary(&mut dec);
    if am3.power2 < 0 || am3.power2 >= 0x7FF {
        return Err(Span { data: Error::NumberOverflow, start: i, end });
    }
    let bits3 = assemble_hard_bits(neg, am3.mantissa, am3.power2);
    Ok((Number::Float(bits3), end))
}

/// The float token of a number lexeme's runs: its first 19 significant
/// digits, its decimal exponent, and whether more significant digits were
/// dropped.
pub open spec fn float_token(
    s: Seq<u8>,
    p: int,
    int_end: int,
    fs: int,
    fe: int,
    has_exp: bool,
    qs: int,
    qe: int,
    exp_neg: bool,
    neg: bool,
) -> crate::model::GNum {
    let sig = drop_zeros(num_digit_seq(s, p, int_end, fs, fe));
    let e_val: int = (if exp_neg { -1int } else { 1int }) * (if has_exp {
        exp_fold(s, qs, qe)
    } else {
        0int
    });
    crate::model::GNum::Float {
        neg,
        mant: (if sig.len() <= 19 {
            seq_fold(sig)
        } else {
            seq_fold(sig.take(19))
        }) as u64,
        e10: e_val - (fe - fs) + (if sig.len() > 19 {
            sig.len() - 19
        } else {
            0int
        }),
        many: sig.len() > 19,
    }
}

/// What the model's number scanner yields for a well-formed lexeme that
/// is not an integer in range: the float token of its significant digits.
#[verifier::rlimit(100)]
#[verifier::spinoff_prover]
proof fn lemma_sp_number_float(
    s: Seq<u8>,
    i: int,
    neg: bool,
    p: usize,
    int_end: usize,
    has_frac: bool,
    fs: usize,
    fe: usize,
    has_exp: bool,
    qs: usize,
    qe: usize,
    exp_neg: bool,
    end: usize,
)
    requires
        0 <= i < s.len(),
        s[i] == 0x2d || is_digit(s[i]),
        neg == (s[i] == 0x2d),
        p == i + (if neg { 1int } else { 0int }),
        p < s.len() && is_digit(s[p as int]),
        !(s[p as int] == 0x30 && p + 1 < s.len() && is_digit(s[p + 1])),
        int_end as int == scan_digits(s, p as int),
        p < int_end <= s.len(),
        forall|t: int| p <= t < int_end ==> is_digit(#[trigger] s[t]),
        has_frac == (int_end < s.len() && s[int_end as int] == 0x2e),
        fs == (if has_frac { int_end + 1 } else { int_end as int }),
        fe as int == (if has_frac { scan_digits(s, fs as int) } else { int_end as int }),
        fs <= fe <= s.len(),
        !(has_frac && fe == fs),
        forall|t: int| fs <= t < fe ==> is_digit(#[trigger] s[t]),
        has_exp == ({
            let epos = if has_frac { fe as int } else { int_end as int };
            epos < s.len() && (s[epos] == 0x65 || s[epos] == 0x45)
        }),
        qs as int == ({
            let epos = if has_frac { fe as int } else { int_end as int };
            let q0 = epos + 1;
            if has_exp && q0 < s.len() && (s[q0] == 0x2b || s[q0] == 0x2d) {
                q0 + 1
            } else if has_exp {
                q0
            } else {
                epos
            }
        }),
        qe as int == (if has_exp {
            scan_digits(s, qs as int)
        } else {
            if has_frac { fe as int } else { int_end as int }
        }),
        qs <= qe <= s.len(),
        !(has_exp && qe == qs),
        forall|t: int| qs <= t < qe ==> is_digit(#[trigger] s[t]),
        exp_neg == (has_exp && qs as int == (if has_frac { fe as int } else { int_end as int })
            + 2 && s[(if has_frac { fe as int } else { int_end as int }) + 1] == 0x2d),
        end as int == (if has_exp {
            qe as int
        } else {
            if has_frac { fe as int } else { int_end as int }
        }),
        !has_frac && !has_exp ==> digits_val(s, p as int, int_end as int)
            > 0xFFFF_FFFF_FFFF_FFFF || (neg && digits_val(s, p as int, int_end as int)
            > 0x8000_0000_0000_0000 && digits_val(s, p as int, int_end as int) > 0),
    ensures
        sp_number(s, i) == (NRes::Num {
            num: float_token(s, p as int, int_end as int, fs as int, fe as int, has_exp,
                qs as int, qe as int, exp_neg, neg),
            next: end as int,
        }),
{
}

/// Converts a well-formed number lexeme that is not an integer in range:
/// the decimal-to-double conversion, with `NumberOverflow` where the
/// result is not finite and the long-decimal fallback where the 128-bit
/// approximation cannot decide.
#[verifier::rlimit(100)]
#[verifier::spinoff_prover]
fn classify_float(
    s: &[u8],
    i: usize,
    neg: bool,
    p: usize,
    int_end: usize,
    has_frac: bool,
    fs: usize,
    fe: usize,
    has_exp: bool,
    qs: usize,
    qe: usize,
    exp_neg: bool,
    end: usize,
    ev: u32,
) -> (r: Result<(Number, usize), Span<Error>>)
    requires
        i < end <= s@.len(),
        p < int_end <= fs <= fe <= s@.len(),
        forall|t: int| p <= t < int_end ==> is_digit(#[trigger] s@[t]),
        forall|t: int| fs <= t < fe ==> is_digit(#[trigger] s@[t]),
        ev as int == (if has_exp {
            exp_fold(s@, qs as int, qe as int)
        } else {
            0int
        }),
        ev <= 0xA0008,
    ensures
        ({
            let gnum = float_token(s@, p as int, int_end as int, fs as int, fe as int, has_exp,
                qs as int, qe as int, exp_neg, neg);
            match r {
                Ok(pr) => pr.1 == end && crate::model::num_matches(pr.0, gnum)
                    && !crate::model::gnum_fate_inf(gnum),
                Err(e) => e.data == Error::NumberOverflow && e.start == i && e.end == end && (
                crate::model::gnum_fate_inf(gnum) || crate::model::gnum_fate_hard(gnum)),
            }
        }),
{
    // the float path: at most 19 significant digits and a decimal exponent
    let ghost dseq = num_digit_seq(s@, p as int, int_end as int, fs as int, fe as int);
    let (mant, sigc) = scan_mantissa(s, p, int_end, fs, fe);
    let ghost sig = drop_zeros(dseq);
    let many = sigc > 19;
    let fraclen = fe - fs;
    let base: i128 = if exp_neg { -(ev as i128) } else { ev as i128 };
    let extra: i128 = if sigc > 19 { (sigc - 19) as i128 } else { 0i128 };
    let q: i128 = base - (fraclen as i128) + extra;
    proof {
        lemma_pow10_vals();
        assert(sigc as int == sig.len());
        let sexp: int = if exp_neg { -1int } else { 1int };
        let e_val: int = if has_exp { sexp * exp_fold(s@, qs as int, qe as int) } else { 0int };
        let ghost ef: int = exp_fold(s@, qs as int, qe as int);
        if has_exp {
            if exp_neg {
                assert(sexp == -1int);
                assert(sexp * ef == -ef) by (nonlinear_arith)
                    requires
                        sexp == -1int,
                ;
            } else {
                assert(sexp == 1int);
                assert(sexp * ef == ef) by (nonlinear_arith)
                    requires
                        sexp == 1int,
                ;
            }
        }
        assert(base as int == e_val);
        if sig.len() <= 19 {
            assert(mant as int == seq_fold(sig));
            assert((seq_fold(sig) as u64) == mant);
            assert(q as int == e_val - (fe - fs));
        } else {
            assert(mant as int == seq_fold(sig.take(19)));
            assert((seq_fold(sig.take(19)) as u64) == mant);
            assert(q as int == e_val - (fe - fs) + sig.len() - 19);
        }
    }
    let am1 = compute_float(q, mant);
    let mut am = am1;
    if many {
        let am2 = compute_float(q, mant + 1);
        if !(am2.mantissa == am1.mantissa && am2.power2 == am1.power2) {
            am = AdjustedMantissa { mantissa: 0, power2: -1i32 };
        }
    }
    if am.power2 < 0 {
        // the approximation cannot decide the rounding: the long-decimal
        // fallback settles it
        return finish_hard(s, i, end, neg, p, int_end, fs, fe, exp_neg, ev);
    }
    if am.power2 == 0x7FF {
        return Err(Span { data: Error::NumberOverflow, start: i, end });
    }
    let bits = am.mantissa | ((am.power2 as u64) << 52u64) | (if neg {
        0x8000_0000_0000_0000u64
    } else {
        0u64
    });
    Ok((Number::Float(bits), end))}

/// Scans the number lexeme that starts at `i` and reports its lexical
/// faults; a well-formed lexeme is handed to the classifier.
#[verifier::rlimit(100)]
#[verifier::spinoff_prover]
pub fn parse_number(s: &[u8], i: usize) -> (r: Result<(Number, usize), Span<Error>>)
    requires
        i < s@.len(),
        s@[i as int] == 0x2d || is_digit(s@[i as int]) || s@[i as int] == 0x2e,
    ensures
        crate::model::num_result(r, i as int, s@.len() as int, sp_number(s@, i as int)),
{
    let n = s.len();
    let neg = s[i] == 0x2d;
    let p = if neg { i + 1 } else { i };
    if s[i] == 0x2e {
        return Err(Span { data: Error::LeadingDecimal, start: i, end: i + 1 });
    }
    if neg && (p >= n || !(s[p] >= 0x30 && s[p] <= 0x39)) {
        let end = if p >= n { n } else { p + 1 };
        return Err(Span { data: Error::MissingDigitAfterNegative, start: i, end });
    }
    if s[p] == 0x30 && p + 1 < n && s[p + 1] >= 0x30 && s[p + 1] <= 0x39 {
        return Err(Span { data: Error::LeadingZero, start: p, end: p + 2 });
    }
    let int_end = scan_digits_exec(s, p);
    let has_frac = int_end < n && s[int_end] == 0x2e;
    let fs = if has_frac { int_end + 1 } else { int_end };
    let fe = if has_frac { scan_digits_exec(s, fs) } else { int_end };
    if has_frac && fe == fs {
        return Err(Span { data: Error::TrailingDecimal, start: int_end, end: int_end + 1 });
    }
    let epos = if has_frac { fe } else { int_end };
    let has_exp = epos < n && (s[epos] == 0x65 || s[epos] == 0x45);
    let q0 = if has_exp { epos + 1 } else { epos };
    let qs = if has_exp && q0 < n && (s[q0] == 0x2b || s[q0] == 0x2d) { q0 + 1 } else { q0 };
    let qe = if has_exp { scan_digits_exec(s, qs) } else { epos };
    if has_exp && qe == qs {
        let end = if n - qs >= 1 { qs + 1 } else { n };
        return Err(Span { data: Error::ExpectedExponentValue, start: i, end });
    }
    let end = if has_exp { qe } else { epos };
    let exp_neg = has_exp && qs == q0 + 1 && s[q0] == 0x2d;
    classify_number(s, i, neg, p, int_end, has_frac, fs, fe, has_exp, qs, qe, exp_neg, end)
}

/// Classifies a well-formed number lexeme: exact integers where they fit,
/// otherwise the decimal-to-double conversion, with `NumberOverflow` where
/// the result is not finite.
#[verifier::rlimit(100)]
#[verifier::spinoff_prover]
fn classify_number(
    s: &[u8],
    i: usize,
    neg: bool,
    p: usize,
    int_end: usize,
    has_frac: bool,
    fs: usize,
    fe: usize,
    has_exp: bool,
    qs: usize,
    qe: usize,
    exp_neg: bool,
    end: usize,
) -> (r: Result<(Number, usize), Span<Error>>)
    requires
        i < s@.len(),
        s@[i as int] == 0x2d || is_digit(s@[i as int]),
        neg == (s@[i as int] == 0x2d),
        p == i + (if neg { 1int } else { 0int }),
        p < s@.len() && is_digit(s@[p as int]),
        !(s@[p as int] == 0x30 && p + 1 < s@.len() && is_digit(s@[p + 1])),
        int_end as int == scan_digits(s@, p as int),
        p < int_end <= s@.len(),
        forall|t: int| p <= t < int_end ==> is_digit(#[trigger] s@[t]),
        has_frac == (int_end < s@.len() && s@[int_end as int] == 0x2e),
        fs == (if has_frac { int_end + 1 } else { int_end as int }),
        fe as int == (if has_frac { scan_digits(s@, fs as int) } else { int_end as int }),
        fs <= fe <= s@.len(),
        !(has_frac && fe == fs),
        forall|t: int| fs <= t < fe ==> is_digit(#[trigger] s@[t]),
        has_exp == ({
            let epos = if has_frac { fe as int } else { int_end as int };
            epos < s@.len() && (s@[epos] == 0x65 || s@[epos] == 0x45)
        }),
        qs as int == ({
            let epos = if has_frac { fe as int } else { int_end as int };
            let q0 = epos + 1;
            if has_exp && q0 < s@.len() && (s@[q0] == 0x2b || s@[q0] == 0x2d) {
                q0 + 1
            } else if has_exp {
                q0
            } else {
                epos
            }
        }),
        qe as int == (if has_exp {
            scan_digits(s@, qs as int)
        } else {
            if has_frac { fe as int } else { int_end as int }
        }),
        qs <= qe <= s@.len(),
        !(has_exp && qe == qs),
        forall|t: int| qs <= t < qe ==> is_digit(#[trigger] s@[t]),
        exp_neg == (has_exp && qs as int == (if has_frac { fe as int } else { int_end as int })
            + 2 && s@[(if has_frac { fe as int } else { int_end as int }) + 1] == 0x2d),
        end as int == (if has_exp {
            qe as int
        } else {
            if has_frac { fe as int } else { int_end as int }
        }),
    ensures
        crate::model::num_result(r, i as int, s@.len() as int, sp_number(s@, i as int)),
{
    let n = s.len();
    // exponent value, frozen once it reaches 0x10000
    let ev: u32 = if has_exp {
        scan_exp(s, qs, qe)
    } else {
        0
    };

    // integer fast path
    if !has_frac && !has_exp {
        proof {
            assert(s@[p as int] == 0x30 ==> int_end == p + 1) by {
                if s@[p as int] == 0x30 && int_end > p + 1 {
                    assert(is_digit(s@[p + 1]));
                }
            }
        }
        match int_value(s, p, int_end) {
            Some(v) => {
                if !neg || v == 0 {
                    return Ok((Number::Unsigned(v), end));
                }
                if v <= 0x8000_0000_0000_0000 {
                    let sv: i64 = if v == 0x8000_0000_0000_0000 {
                        i64::MIN
                    } else {
                        -(v as i64)
                    };
                    return Ok((Number::Signed(sv), end));
                }
            },
            None => {},
        }
    }

    proof {
        lemma_sp_number_float(
            s@,
            i as int,
            neg,
            p,
            int_end,
            has_frac,
            fs,
            fe,
            has_exp,
            qs,
            qe,
            exp_neg,
            end,
        );
    }
    classify_float(s, i, neg, p, int_end, has_frac, fs, fe, has_exp, qs, qe, exp_neg, end, ev)
}

} // verus!
