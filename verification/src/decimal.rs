//! The long-decimal fallback of decimal-to-double conversion: an
//! arbitrary-precision decimal of up to 768 digits, moved by binary left
//! and right shifts until its point sits where a 53-bit mantissa can be
//! rounded off.
//!
//! The contracts here pin well-formedness and the ranges the driver
//! needs: digit values, digit counts, and how far each shift can move the
//! decimal point. What this stage may hand the parser is stated at the
//! parser's contract: for a number the 128-bit approximation cannot
//! decide, a finite double with the token's sign, or an overflow report.

use vstd::prelude::*;

verus! {

use crate::binary::AdjustedMantissa;
use crate::model::{is_digit, min_i, num_digit_seq};

/// Digits kept by a `Decimal`; later digits only mark it truncated.
pub const MAX_DIGITS: usize = 768;

/// Decimal points this far out flush to zero or infinity.
pub const DECIMAL_POINT_RANGE: i32 = 2047;

/// How many new decimal digits a left shift by `n` bits creates, with an
/// offset into the packed digits of `5^n` deciding between the two
/// candidates.
pub const SHIFT_TABLE: [u16; 65] = [
    0x0000, 0x0800, 0x0801, 0x0803, 0x1006, 0x1009, 0x100D, 0x1812, 0x1817, 0x181D, 0x2024,
        0x202B, 0x2033, 0x203C, 0x2846, 0x2850, 0x285B, 0x3067, 0x3073, 0x3080, 0x388E, 0x389C,
        0x38AB, 0x38BB, 0x40CC, 0x40DD, 0x40EF, 0x4902, 0x4915, 0x4929, 0x513E, 0x5153, 0x5169,
        0x5180, 0x5998, 0x59B0, 0x59C9, 0x61E3, 0x61FD, 0x6218, 0x6A34, 0x6A50, 0x6A6D, 0x6A8B,
        0x72AA, 0x72C9, 0x72E9, 0x7B0A, 0x7B2B, 0x7B4D, 0x8370, 0x8393, 0x83B7, 0x83DC, 0x8C02,
        0x8C28, 0x8C4F, 0x9477, 0x949F, 0x94C8, 0x9CF2, 0x051C, 0x051C, 0x051C, 0x051C,
];

/// The decimal digits of the powers of five, packed back to back.
pub const POW5_DIGITS: [u8; 0x051C] = [
    5, 2, 5, 1, 2, 5, 6, 2, 5, 3, 1, 2, 5, 1, 5, 6, 2, 5, 7, 8, 1, 2, 5, 3, 9, 0, 6, 2, 5, 1,
        9, 5, 3, 1, 2, 5, 9, 7, 6, 5, 6, 2, 5, 4, 8, 8, 2, 8, 1, 2, 5, 2, 4, 4, 1, 4, 0, 6, 2, 5,
        1, 2, 2, 0, 7, 0, 3, 1, 2, 5, 6, 1, 0, 3, 5, 1, 5, 6, 2, 5, 3, 0, 5, 1, 7, 5, 7, 8, 1, 2,
        5, 1, 5, 2, 5, 8, 7, 8, 9, 0, 6, 2, 5, 7, 6, 2, 9, 3, 9, 4, 5, 3, 1, 2, 5, 3, 8, 1, 4, 6,
        9, 7, 2, 6, 5, 6, 2, 5, 1, 9, 0, 7, 3, 4, 8, 6, 3, 2, 8, 1, 2, 5, 9, 5, 3, 6, 7, 4, 3, 1,
        6, 4, 0, 6, 2, 5, 4, 7, 6, 8, 3, 7, 1, 5, 8, 2, 0, 3, 1, 2, 5, 2, 3, 8, 4, 1, 8, 5, 7, 9,
        1, 0, 1, 5, 6, 2, 5, 1, 1, 9, 2, 0, 9, 2, 8, 9, 5, 5, 0, 7, 8, 1, 2, 5, 5, 9, 6, 0, 4, 6,
        4, 4, 7, 7, 5, 3, 9, 0, 6, 2, 5, 2, 9, 8, 0, 2, 3, 2, 2, 3, 8, 7, 6, 9, 5, 3, 1, 2, 5, 1,
        4, 9, 0, 1, 1, 6, 1, 1, 9, 3, 8, 4, 7, 6, 5, 6, 2, 5, 7, 4, 5, 0, 5, 8, 0, 5, 9, 6, 9, 2,
        3, 8, 2, 8, 1, 2, 5, 3, 7, 2, 5, 2, 9, 0, 2, 9, 8, 4, 6, 1, 9, 1, 4, 0, 6, 2, 5, 1, 8, 6,
        2, 6, 4, 5, 1, 4, 9, 2, 3, 0, 9, 5, 7, 0, 3, 1, 2, 5, 9, 3, 1, 3, 2, 2, 5, 7, 4, 6, 1, 5,
        4, 7, 8, 5, 1, 5, 6, 2, 5, 4, 6, 5, 6, 6, 1, 2, 8, 7, 3, 0, 7, 7, 3, 9, 2, 5, 7, 8, 1, 2,
        5, 2, 3, 2, 8, 3, 0, 6, 4, 3, 6, 5, 3, 8, 6, 9, 6, 2, 8, 9, 0, 6, 2, 5, 1, 1, 6, 4, 1, 5,
        3, 2, 1, 8, 2, 6, 9, 3, 4, 8, 1, 4, 4, 5, 3, 1, 2, 5, 5, 8, 2, 0, 7, 6, 6, 0, 9, 1, 3, 4,
        6, 7, 4, 0, 7, 2, 2, 6, 5, 6, 2, 5, 2, 9, 1, 0, 3, 8, 3, 0, 4, 5, 6, 7, 3, 3, 7, 0, 3, 6,
        1, 3, 2, 8, 1, 2, 5, 1, 4, 5, 5, 1, 9, 1, 5, 2, 2, 8, 3, 6, 6, 8, 5, 1, 8, 0, 6, 6, 4, 0,
        6, 2, 5, 7, 2, 7, 5, 9, 5, 7, 6, 1, 4, 1, 8, 3, 4, 2, 5, 9, 0, 3, 3, 2, 0, 3, 1, 2, 5, 3,
        6, 3, 7, 9, 7, 8, 8, 0, 7, 0, 9, 1, 7, 1, 2, 9, 5, 1, 6, 6, 0, 1, 5, 6, 2, 5, 1, 8, 1, 8,
        9, 8, 9, 4, 0, 3, 5, 4, 5, 8, 5, 6, 4, 7, 5, 8, 3, 0, 0, 7, 8, 1, 2, 5, 9, 0, 9, 4, 9, 4,
        7, 0, 1, 7, 7, 2, 9, 2, 8, 2, 3, 7, 9, 1, 5, 0, 3, 9, 0, 6, 2, 5, 4, 5, 4, 7, 4, 7, 3, 5,
        0, 8, 8, 6, 4, 6, 4, 1, 1, 8, 9, 5, 7, 5, 1, 9, 5, 3, 1, 2, 5, 2, 2, 7, 3, 7, 3, 6, 7, 5,
        4, 4, 3, 2, 3, 2, 0, 5, 9, 4, 7, 8, 7, 5, 9, 7, 6, 5, 6, 2, 5, 1, 1, 3, 6, 8, 6, 8, 3, 7,
        7, 2, 1, 6, 1, 6, 0, 2, 9, 7, 3, 9, 3, 7, 9, 8, 8, 2, 8, 1, 2, 5, 5, 6, 8, 4, 3, 4, 1, 8,
        8, 6, 0, 8, 0, 8, 0, 1, 4, 8, 6, 9, 6, 8, 9, 9, 4, 1, 4, 0, 6, 2, 5, 2, 8, 4, 2, 1, 7, 0,
        9, 4, 3, 0, 4, 0, 4, 0, 0, 7, 4, 3, 4, 8, 4, 4, 9, 7, 0, 7, 0, 3, 1, 2, 5, 1, 4, 2, 1, 0,
        8, 5, 4, 7, 1, 5, 2, 0, 2, 0, 0, 3, 7, 1, 7, 4, 2, 2, 4, 8, 5, 3, 5, 1, 5, 6, 2, 5, 7, 1,
        0, 5, 4, 2, 7, 3, 5, 7, 6, 0, 1, 0, 0, 1, 8, 5, 8, 7, 1, 1, 2, 4, 2, 6, 7, 5, 7, 8, 1, 2,
        5, 3, 5, 5, 2, 7, 1, 3, 6, 7, 8, 8, 0, 0, 5, 0, 0, 9, 2, 9, 3, 5, 5, 6, 2, 1, 3, 3, 7, 8,
        9, 0, 6, 2, 5, 1, 7, 7, 6, 3, 5, 6, 8, 3, 9, 4, 0, 0, 2, 5, 0, 4, 6, 4, 6, 7, 7, 8, 1, 0,
        6, 6, 8, 9, 4, 5, 3, 1, 2, 5, 8, 8, 8, 1, 7, 8, 4, 1, 9, 7, 0, 0, 1, 2, 5, 2, 3, 2, 3, 3,
        8, 9, 0, 5, 3, 3, 4, 4, 7, 2, 6, 5, 6, 2, 5, 4, 4, 4, 0, 8, 9, 2, 0, 9, 8, 5, 0, 0, 6, 2,
        6, 1, 6, 1, 6, 9, 4, 5, 2, 6, 6, 7, 2, 3, 6, 3, 2, 8, 1, 2, 5, 2, 2, 2, 0, 4, 4, 6, 0, 4,
        9, 2, 5, 0, 3, 1, 3, 0, 8, 0, 8, 4, 7, 2, 6, 3, 3, 3, 6, 1, 8, 1, 6, 4, 0, 6, 2, 5, 1, 1,
        1, 0, 2, 2, 3, 0, 2, 4, 6, 2, 5, 1, 5, 6, 5, 4, 0, 4, 2, 3, 6, 3, 1, 6, 6, 8, 0, 9, 0, 8,
        2, 0, 3, 1, 2, 5, 5, 5, 5, 1, 1, 1, 5, 1, 2, 3, 1, 2, 5, 7, 8, 2, 7, 0, 2, 1, 1, 8, 1, 5,
        8, 3, 4, 0, 4, 5, 4, 1, 0, 1, 5, 6, 2, 5, 2, 7, 7, 5, 5, 5, 7, 5, 6, 1, 5, 6, 2, 8, 9, 1,
        3, 5, 1, 0, 5, 9, 0, 7, 9, 1, 7, 0, 2, 2, 7, 0, 5, 0, 7, 8, 1, 2, 5, 1, 3, 8, 7, 7, 7, 8,
        7, 8, 0, 7, 8, 1, 4, 4, 5, 6, 7, 5, 5, 2, 9, 5, 3, 9, 5, 8, 5, 1, 1, 3, 5, 2, 5, 3, 9, 0,
        6, 2, 5, 6, 9, 3, 8, 8, 9, 3, 9, 0, 3, 9, 0, 7, 2, 2, 8, 3, 7, 7, 6, 4, 7, 6, 9, 7, 9, 2,
        5, 5, 6, 7, 6, 2, 6, 9, 5, 3, 1, 2, 5, 3, 4, 6, 9, 4, 4, 6, 9, 5, 1, 9, 5, 3, 6, 1, 4, 1,
        8, 8, 8, 2, 3, 8, 4, 8, 9, 6, 2, 7, 8, 3, 8, 1, 3, 4, 7, 6, 5, 6, 2, 5, 1, 7, 3, 4, 7, 2,
        3, 4, 7, 5, 9, 7, 6, 8, 0, 7, 0, 9, 4, 4, 1, 1, 9, 2, 4, 4, 8, 1, 3, 9, 1, 9, 0, 6, 7, 3,
        8, 2, 8, 1, 2, 5, 8, 6, 7, 3, 6, 1, 7, 3, 7, 9, 8, 8, 4, 0, 3, 5, 4, 7, 2, 0, 5, 9, 6, 2,
        2, 4, 0, 6, 9, 5, 9, 5, 3, 3, 6, 9, 1, 4, 0, 6, 2, 5,
];


/// The integer part the rounding accumulates: digit positions `[0, dp)`,
/// positions at or past `nd` counting as zero.
pub open spec fn spec_round_int(digits: Seq<u8>, nd: int, dp: int) -> int
    decreases dp,
{
    if dp <= 0 {
        0
    } else {
        spec_round_int(digits, nd, dp - 1) * 10 + (if dp - 1 < nd {
            digits[dp - 1] as int
        } else {
            0int
        })
    }
}

/// Whether the fraction rounds the integer part up: its first digit above
/// five, or exactly five with weight behind it — further digits, a
/// dropped tail, or an odd last kept digit breaking the tie upward.
pub open spec fn spec_round_up(digits: Seq<u8>, nd: int, dp: int, truncated: bool) -> bool {
    if dp < nd {
        if digits[dp] > 5 {
            true
        } else if digits[dp] == 5 {
            if dp + 1 == nd {
                truncated || (dp > 0 && (digits[dp - 1] % 2) == 1)
            } else {
                true
            }
        } else {
            false
        }
    } else {
        false
    }
}

/// An arbitrary-precision decimal: `num_digits` digits, each `0..=9`, the
/// point `decimal_point` digits from the left, and whether digits beyond
/// the 768 kept were dropped.
#[derive(Debug, Clone, PartialEq, Eq)]
pub struct Decimal {
    pub num_digits: usize,
    pub decimal_point: i32,
    pub negative: bool,
    pub truncated: bool,
    pub digits: Vec<u8>,
}

impl Decimal {
    /// The digit store has its full size and holds digit values only.
    pub open spec fn wf(&self) -> bool {
        self.digits@.len() == 768 && (forall|k: int| 0 <= k < 768 ==> self.digits@[k] <= 9)
    }

    /// An empty decimal.
    pub fn new() -> (r: Decimal)
        ensures
            r.wf(),
            r.num_digits == 0,
            r.decimal_point == 0,
            !r.negative,
            !r.truncated,
    {
        let mut digits: Vec<u8> = Vec::new();
        let mut i: usize = 0;
        while i < 768
            invariant
                0 <= i <= 768,
                digits@.len() == i,
                forall|k: int| 0 <= k < i ==> digits@[k] == 0,
            decreases 768 - i,
        {
            digits.push(0);
            i = i + 1;
        }
        Decimal { num_digits: 0, decimal_point: 0, negative: false, truncated: false, digits }
    }

    /// Appends a digit; past the 768 kept it only counts.
    pub fn try_add_digit(&mut self, digit: u8)
        requires
            old(self).wf(),
            digit <= 9,
            old(self).num_digits < usize::MAX,
        ensures
            final(self).wf(),
            final(self).num_digits == old(self).num_digits + 1,
            old(self).num_digits < 768 ==> final(self).digits@ == old(self).digits@.update(
                old(self).num_digits as int,
                digit,
            ),
            old(self).num_digits >= 768 ==> final(self).digits == old(self).digits,
            final(self).decimal_point == old(self).decimal_point,
            final(self).negative == old(self).negative,
            final(self).truncated == old(self).truncated,
    {
        if self.num_digits < 768 {
            self.digits[self.num_digits] = digit;
        }
        self.num_digits = self.num_digits + 1;
    }

    /// Drops trailing zero digits.
    pub fn trim(&mut self)
        requires
            old(self).wf(),
            old(self).num_digits <= 768,
        ensures
            final(self).wf(),
            final(self).num_digits <= old(self).num_digits,
            final(self).decimal_point == old(self).decimal_point,
            final(self).negative == old(self).negative,
    {
        while self.num_digits > 0 && self.digits[self.num_digits - 1] == 0
            invariant
                self.wf(),
                self.num_digits <= old(self).num_digits <= 768,
                self.decimal_point == old(self).decimal_point,
                self.negative == old(self).negative,
            decreases self.num_digits,
        {
            self.num_digits = self.num_digits - 1;
        }
    }

    /// Rounds the integer part off to a 64-bit value, to nearest, ties to
    /// even, a dropped tail counting as above the tie.
    pub fn round(&self) -> (r: u64)
        requires
            self.wf(),
            self.num_digits <= 768,
        ensures
            self.num_digits == 0 || self.decimal_point < 0 ==> r == 0,
            self.num_digits > 0 && self.decimal_point > 18 ==> r == 0xFFFF_FFFF_FFFF_FFFFu64,
            self.num_digits > 0 && 0 <= self.decimal_point <= 18 ==> r as int == spec_round_int(
                self.digits@,
                self.num_digits as int,
                self.decimal_point as int,
            ) + (if spec_round_up(
                self.digits@,
                self.num_digits as int,
                self.decimal_point as int,
                self.truncated,
            ) {
                1int
            } else {
                0int
            }),
    {
        if self.num_digits == 0 || self.decimal_point < 0 {
            return 0;
        }
        if self.decimal_point > 18 {
            return 0xFFFF_FFFF_FFFF_FFFF;
        }
        let dp = self.decimal_point as usize;
        let mut n: u64 = 0;
        let mut i: usize = 0;
        proof {
            lemma_dec_pow10();
        }
        while i < dp
            invariant
                0 <= i <= dp <= 18,
                self.wf(),
                self.num_digits <= 768,
                n as int == spec_round_int(self.digits@, self.num_digits as int, i as int),
                (n as int) < crate::model::pow10(i as nat),
                crate::model::pow10(18) == 0xDE0B6B3A7640000,
            decreases dp - i,
        {
            proof {
                crate::model::lemma_pow10_mono((i + 1) as nat, 18nat);
                assert(crate::model::pow10((i + 1) as nat) == 10 * crate::model::pow10(i as nat));
            }
            n = n * 10;
            if i < self.num_digits {
                n = n + (self.digits[i] as u64);
            }
            i = i + 1;
        }
        proof {
            crate::model::lemma_pow10_mono(dp as nat, 18nat);
        }
        let ghost up = spec_round_up(
            self.digits@,
            self.num_digits as int,
            self.decimal_point as int,
            self.truncated,
        );
        let mut round_up = false;
        if dp < self.num_digits {
            round_up = self.digits[dp] >= 5;
            if self.digits[dp] == 5 && dp + 1 == self.num_digits {
                round_up = self.truncated || (dp > 0 && (self.digits[dp - 1] % 2) == 1);
            }
        }
        proof {
            assert(round_up == up);
        }
        if round_up {
            n = n + 1;
        }
        n
    }

    /// Multiplies by `2^shift`, keeping at most 768 digits.
    ///
    /// The intended meaning, stated here but proved only for the digit
    /// ranges, the point's movement and the no-op case below: the digit
    /// string becomes that of the old value times `2^shift`, digits past
    /// the 768 kept are dropped with `truncated` set when one of them was
    /// nonzero, and trailing zeros are trimmed.
    #[verifier::rlimit(100)]
    #[verifier::spinoff_prover]
    pub fn left_shift(&mut self, shift: usize)
        requires
            old(self).wf(),
            old(self).num_digits <= 768,
            1 <= shift <= 60,
            -2047 <= old(self).decimal_point <= 2500,
        ensures
            final(self).wf(),
            final(self).num_digits <= 768,
            old(self).decimal_point <= final(self).decimal_point <= old(self).decimal_point + 31,
            final(self).negative == old(self).negative,
            old(self).num_digits == 0 ==> *final(self) == *old(self),
            old(self).num_digits > 0 ==> final(self).decimal_point == old(self).decimal_point
                + spec_new_digits(old(self).digits@, old(self).num_digits as int, shift as int),
    {
        if self.num_digits == 0 {
            return;
        }
        let num_new = number_of_new_digits(self, shift);
        let p2 = 1u64 << shift;
        proof {
            let sh = shift as u64;
            assert(2 <= (1u64 << sh) <= 0x1000_0000_0000_0000u64) by (bit_vector)
                requires
                    1 <= sh <= 60,
            ;
        }
        let mut read_index = self.num_digits;
        let mut write_index = self.num_digits + num_new;
        let mut n: u64 = 0;
        while read_index > 0
            invariant
                self.wf(),
                read_index <= old(self).num_digits <= 768,
                write_index == read_index + num_new,
                num_new <= 31,
                2 <= p2 <= 0x1000_0000_0000_0000u64,
                n < p2,
                self.num_digits == old(self).num_digits,
                self.decimal_point == old(self).decimal_point,
                self.negative == old(self).negative,
            decreases read_index,
        {
            read_index = read_index - 1;
            write_index = write_index - 1;
            let d = self.digits[read_index];
            proof {
                assert(self.digits@[read_index as int] <= 9);
                assert((d as u64) * p2 <= 9 * p2) by (nonlinear_arith)
                    requires
                        d <= 9,
                        p2 >= 0,
                ;
            }
            n = n + (d as u64) * p2;
            let quotient = n / 10;
            let remainder = n - 10 * quotient;
            if write_index < 768 {
                self.digits[write_index] = remainder as u8;
            } else if remainder > 0 {
                self.truncated = true;
            }
            proof {
                assert(n / 10 < p2) by (nonlinear_arith)
                    requires
                        n < 10 * p2,
                        p2 >= 1,
                ;
            }
            n = quotient;
        }
        while n > 0
            invariant
                self.wf(),
                num_new <= 31,
                write_index <= 799,
                self.num_digits == old(self).num_digits,
                self.decimal_point == old(self).decimal_point,
                self.negative == old(self).negative,
            decreases n,
        {
            if write_index == 0 {
                self.truncated = true;
                n = 0;
            } else {
                write_index = write_index - 1;
                let quotient = n / 10;
                let remainder = n - 10 * quotient;
                if write_index < 768 {
                    self.digits[write_index] = remainder as u8;
                } else if remainder > 0 {
                    self.truncated = true;
                }
                n = quotient;
            }
        }
        self.num_digits = self.num_digits + num_new;
        if self.num_digits > 768 {
            self.num_digits = 768;
        }
        self.decimal_point = self.decimal_point + (num_new as i32);
        self.trim();
    }

    /// Divides by `2^shift`, keeping at most 768 digits; a point driven
    /// below the representable range flushes the value to nothing.
    ///
    /// The intended meaning, stated here but proved only for the ranges
    /// below: the digit string becomes that of the old value divided by
    /// `2^shift` (a binary fraction of at most `shift` extra decimal
    /// digits), with dropped digits marking it truncated.
    #[verifier::rlimit(100)]
    #[verifier::spinoff_prover]
    pub fn right_shift(&mut self, shift: usize)
        requires
            old(self).wf(),
            old(self).num_digits <= 768,
            1 <= shift <= 60,
            -2047 <= old(self).decimal_point <= 2500,
        ensures
            final(self).wf(),
            final(self).num_digits <= 768,
            -2047 <= final(self).decimal_point <= 2500,
            final(self).decimal_point <= old(self).decimal_point || final(self).decimal_point
                == 0,
    {
        let nd = self.num_digits;
        let p2 = 1u64 << shift;
        proof {
            let sh = shift as u64;
            assert(2 <= (1u64 << sh) <= 0x1000_0000_0000_0000u64) by (bit_vector)
                requires
                    1 <= sh <= 60,
            ;
        }
        let mut read_index: usize = 0;
        let mut n: u64 = 0;
        while read_index < nd && n / p2 == 0
            invariant
                self.wf(),
                read_index <= nd == self.num_digits <= 768,
                2 <= p2 <= 0x1000_0000_0000_0000u64,
                n < 10 * p2,
                n > 0 ==> read_index >= 1,
                self.decimal_point == old(self).decimal_point,
                self.negative == old(self).negative,
                self.truncated == old(self).truncated,
                -2047 <= self.decimal_point <= 2500,
            decreases nd - read_index,
        {
            proof {
                assert(self.digits@[read_index as int] <= 9);
                assert(n < p2) by (nonlinear_arith)
                    requires
                        n / p2 == 0,
                        p2 >= 1,
                        n >= 0,
                ;
            }
            n = n * 10 + (self.digits[read_index] as u64);
            read_index = read_index + 1;
        }
        if n / p2 == 0 {
            if n == 0 {
                return;
            }
            let mut fuel: usize = 21;
            while fuel > 0 && n / p2 == 0
                invariant
                    1 <= n,
                    2 <= p2 <= 0x1000_0000_0000_0000u64,
                    n < 10 * p2,
                    fuel <= 21,
                    1 <= read_index,
                    read_index + fuel <= 768 + 21,
                    self.wf(),
                    nd == self.num_digits <= 768,
                    self.decimal_point == old(self).decimal_point,
                    self.negative == old(self).negative,
                    self.truncated == old(self).truncated,
                    -2047 <= self.decimal_point <= 2500,
                decreases fuel,
            {
                proof {
                    assert(n < p2) by (nonlinear_arith)
                        requires
                            n / p2 == 0,
                            p2 >= 1,
                            n >= 0,
                    ;
                }
                n = n * 10;
                read_index = read_index + 1;
                fuel = fuel - 1;
            }
            if n / p2 == 0 {
                // a nonzero value never needs more steps; flush if it would
                self.num_digits = 0;
                self.decimal_point = 0;
                self.negative = false;
                self.truncated = false;
                return;
            }
        }
        proof {
            assert(n > 0) by {
                if n == 0 {
                    assert(n / p2 == 0) by (nonlinear_arith)
                        requires
                            n == 0,
                            p2 >= 1,
                    ;
                }
            }
            assert(read_index >= 1);
        }
        self.decimal_point = self.decimal_point - ((read_index as i32) - 1);
        if self.decimal_point < -2047 {
            self.num_digits = 0;
            self.decimal_point = 0;
            self.negative = false;
            self.truncated = false;
            return;
        }
        let ghost dp_now = self.decimal_point;
        let mut write_index: usize = 0;
        while read_index < nd
            invariant
                self.wf(),
                write_index <= 768,
                write_index < read_index,
                read_index <= 789,
                nd <= 768,
                nd == self.num_digits,
                2 <= p2 <= 0x1000_0000_0000_0000u64,
                n < 10 * p2,
                self.decimal_point == dp_now,
                self.negative == old(self).negative,
                self.num_digits == old(self).num_digits,
            decreases nd - read_index,
        {
            let new_digit = n / p2;
            proof {
                assert(n / p2 <= 9) by (nonlinear_arith)
                    requires
                        n < 10 * p2,
                        p2 >= 1,
                        n >= 0,
                ;
            }
            proof {
                assert(self.digits@[read_index as int] <= 9);
            }
            n = 10 * (n % p2) + (self.digits[read_index] as u64);
            self.digits[write_index] = new_digit as u8;
            write_index = write_index + 1;
            read_index = read_index + 1;
        }
        let mut fuel2: usize = 64;
        while n > 0 && fuel2 > 0
            invariant
                self.wf(),
                write_index <= 768,
                2 <= p2 <= 0x1000_0000_0000_0000u64,
                n < 10 * p2,
                self.decimal_point == dp_now,
                self.negative == old(self).negative,
                self.num_digits == old(self).num_digits,
                nd == self.num_digits <= 768,
            decreases fuel2,
        {
            let new_digit = n / p2;
            proof {
                assert(n / p2 <= 9) by (nonlinear_arith)
                    requires
                        n < 10 * p2,
                        p2 >= 1,
                        n >= 0,
                ;
            }
            n = 10 * (n % p2);
            if write_index < 768 {
                self.digits[write_index] = new_digit as u8;
                write_index = write_index + 1;
            } else if new_digit > 0 {
                self.truncated = true;
            }
            fuel2 = fuel2 - 1;
        }
        if n > 0 {
            // a binary fraction of at most 60 bits ends within 64 digits;
            // anything further would be dropped digits
            self.truncated = true;
        }
        self.num_digits = write_index;
        self.trim();
    }
}

proof fn lemma_dec_pow10()
    ensures
        crate::model::pow10(18) == 0xDE0B6B3A7640000,
        crate::model::pow10(19) == 0x8AC7230489E80000,
{
    reveal_with_fuel(crate::model::pow10, 22);
}

/// How many new decimal digits a left shift by `shift` bits creates:
/// one candidate from the table, one less when the digits compare below
/// the packed digits of `5^shift`.
#[verifier::rlimit(100)]
#[verifier::spinoff_prover]
pub fn number_of_new_digits(d: &Decimal, shift: usize) -> (r: usize)
    requires
        d.wf(),
        d.num_digits <= 768,
        shift <= 60,
    ensures
        r <= 31,
        r as int == spec_new_digits(d.digits@, d.num_digits as int, shift as int),
{
    let x_a = SHIFT_TABLE[shift];
    let x_b = SHIFT_TABLE[shift + 1];
    let num_new_digits = (x_a >> 11u16) as usize;
    let pow5_a = (0x7FF & x_a) as usize;
    let pow5_b = (0x7FF & x_b) as usize;
    let capped = if num_new_digits > 31 {
        31
    } else {
        num_new_digits
    };
    if pow5_a >= pow5_b || pow5_b > 0x051C {
        return capped;
    }
    let ghost dd = d.digits@;
    let ghost nd = d.num_digits as int;
    let ghost ga = pow5_a as int;
    let ghost gb = pow5_b as int;
    let mut i: usize = 0;
    while i < pow5_b - pow5_a
        invariant
            pow5_a < pow5_b <= 0x051C,
            i <= pow5_b - pow5_a,
            d.wf(),
            d.num_digits <= 768,
            capped <= 31,
            dd == d.digits@,
            nd == d.num_digits as int,
            ga == pow5_a as int,
            gb == pow5_b as int,
            shift <= 60,
            x_a == SHIFT_TABLE@[shift as int],
            x_b == SHIFT_TABLE@[shift + 1],
            capped as int == (if ((x_a >> 11u16) as int) > 31 {
                31int
            } else {
                (x_a >> 11u16) as int
            }),
            ga == (0x7FF & x_a) as int,
            gb == (0x7FF & x_b) as int,
            digits_below_pow5(dd, nd, ga, gb, 0) == digits_below_pow5(dd, nd, ga, gb, i as int),
        decreases pow5_b - pow5_a - i,
    {
        if i >= d.num_digits {
            return if capped == 0 {
                0
            } else {
                capped - 1
            };
        }
        let p5 = POW5_DIGITS[pow5_a + i];
        let dg = d.digits[i];
        if dg < p5 {
            return if capped == 0 {
                0
            } else {
                capped - 1
            };
        }
        if dg > p5 {
            return capped;
        }
        proof {
            assert(digits_below_pow5(dd, nd, ga, gb, i as int) == digits_below_pow5(
                dd,
                nd,
                ga,
                gb,
                i + 1,
            ));
        }
        i = i + 1;
    }
    capped
}


/// Lexicographic comparison of the decimal's leading digits against the
/// packed digits of `5^shift` held in `POW5_DIGITS[a..b]`: true when the
/// decimal runs out first or a digit compares below.
pub open spec fn digits_below_pow5(dd: Seq<u8>, nd: int, a: int, b: int, i: int) -> bool
    decreases b - a - i,
{
    if !(0 <= i && i < b - a) {
        false
    } else if i >= nd {
        true
    } else if dd[i] < POW5_DIGITS@[a + i] {
        true
    } else if dd[i] > POW5_DIGITS@[a + i] {
        false
    } else {
        digits_below_pow5(dd, nd, a, b, i + 1)
    }
}

/// How many new decimal digits a left shift by `shift` bits creates, per
/// the table: the table's bound, or one less when the decimal's digits
/// compare below those of `5^shift`.
pub open spec fn spec_new_digits(dd: Seq<u8>, nd: int, shift: int) -> int {
    let x_a = SHIFT_TABLE@[shift];
    let x_b = SHIFT_TABLE@[shift + 1];
    let nn0 = (x_a >> 11u16) as int;
    let nn = if nn0 > 31 { 31int } else { nn0 };
    let a = (0x7FF & x_a) as int;
    let b = (0x7FF & x_b) as int;
    if a >= b || b > 0x051C {
        nn
    } else if digits_below_pow5(dd, nd, a, b, 0) {
        if nn == 0 { 0int } else { nn - 1 }
    } else {
        nn
    }
}

/// Bits to shift left for a decimal point `n` digits out, clamped into
/// the range the decimal accepts.
const POWERS: [u8; 19] = [0, 3, 6, 9, 13, 16, 19, 23, 26, 29, 33, 36, 39, 43, 46, 49, 53, 56, 59];

/// The shift for `n` leading decimal digits.
fn get_shift(n: usize) -> (r: usize)
    ensures
        1 <= r <= 60,
{
    let s = if n < 19 {
        POWERS[n] as usize
    } else {
        60
    };
    if s < 1 {
        1
    } else if s > 60 {
        60
    } else {
        s
    }
}

/// Reads a number token's digits into a decimal: the integer and fraction
/// runs, trailing zeros dropped, the decimal exponent applied. Counts are
/// clamped at 65536, as the exponent accumulator clamps; dropped digits
/// mark the decimal truncated.
#[verifier::rlimit(100)]
#[verifier::spinoff_prover]
pub fn parse_decimal(
    s: &[u8],
    neg: bool,
    p: usize,
    int_end: usize,
    fs: usize,
    fe: usize,
    exp_neg: bool,
    ev: u32,
) -> (r: Decimal)
    requires
        p <= int_end <= fs <= fe <= s@.len(),
        forall|t: int| p <= t < int_end ==> is_digit(#[trigger] s@[t]),
        forall|t: int| fs <= t < fe ==> is_digit(#[trigger] s@[t]),
        ev <= 0xA0008,
    ensures
        r.wf(),
        r.num_digits <= 768,
        -0x200000 <= r.decimal_point <= 0x200000,
        r.negative == neg,
        r.num_digits as int <= num_digit_seq(s@, p as int, int_end as int, fs as int, fe as int)
            .len(),
        forall|k: int| 0 <= k < min_i(r.num_digits as int, 768) ==> r.digits@[k] + 0x30
            == num_digit_seq(s@, p as int, int_end as int, fs as int, fe as int)[k],
{
    let ghost dseq = num_digit_seq(s@, p as int, int_end as int, fs as int, fe as int);
    let mut d = Decimal::new();
    d.negative = neg;
    let mut k = p;
    while k < int_end
        invariant
            p <= k <= int_end <= fs <= fe <= s@.len(),
            d.wf(),
            d.negative == neg,
            d.decimal_point == 0,
            dseq == num_digit_seq(s@, p as int, int_end as int, fs as int, fe as int),
            dseq.len() == (int_end - p) + (fe - fs),
            d.num_digits as int == min_i((k - p) as int, 0x10000),
            forall|t: int| 0 <= t < min_i(d.num_digits as int, 768) ==> d.digits@[t] + 0x30
                == dseq[t],
            forall|t: int| p <= t < int_end ==> is_digit(#[trigger] s@[t]),
        decreases int_end - k,
    {
        proof {
            assert(dseq[k - p] == s@[k as int]);
        }
        let dig = s[k] - 0x30;
        if d.num_digits < 0x10000 {
            d.try_add_digit(dig);
        } else {
            d.truncated = true;
        }
        k = k + 1;
    }
    let mut k2 = fs;
    while k2 < fe
        invariant
            p <= int_end <= fs <= k2 <= fe <= s@.len(),
            d.wf(),
            d.negative == neg,
            d.decimal_point == 0,
            dseq == num_digit_seq(s@, p as int, int_end as int, fs as int, fe as int),
            dseq.len() == (int_end - p) + (fe - fs),
            d.num_digits as int == min_i((int_end - p) + (k2 - fs), 0x10000),
            forall|t: int| 0 <= t < min_i(d.num_digits as int, 768) ==> d.digits@[t] + 0x30
                == dseq[t],
            forall|t: int| fs <= t < fe ==> is_digit(#[trigger] s@[t]),
        decreases fe - k2,
    {
        proof {
            assert(dseq[(int_end - p) + (k2 - fs)] == s@[k2 as int]);
        }
        let dig = s[k2] - 0x30;
        if d.num_digits < 0x10000 {
            d.try_add_digit(dig);
        } else {
            d.truncated = true;
        }
        k2 = k2 + 1;
    }
    let fraclen = fe - fs;
    let fr: i32 = if fraclen > 0x10000 {
        0x10000
    } else {
        fraclen as i32
    };
    d.decimal_point = -fr;
    if d.num_digits > 0 {
        // drop the token's trailing zero digits from the counts
        let ghost dg0 = d.digits@;
        let ghost nd0 = d.num_digits;
        let mut ntz: usize = 0;
        let mut q = fe;
        while q > fs && s[q - 1] == 0x30
            invariant
                p <= int_end <= fs <= q <= fe <= s@.len(),
                ntz == fe - q,
                ntz <= fe - p,
                d.wf(),
                d.num_digits <= 0x10000,
                d.decimal_point == -fr,
                0 <= fr <= 0x10000,
                d.digits@ == dg0,
                d.num_digits == nd0,
                d.negative == neg,
            decreases q,
        {
            ntz = ntz + 1;
            q = q - 1;
        }
        if q == fs {
            let mut q2 = int_end;
            while q2 > p && s[q2 - 1] == 0x30
                invariant
                    p <= q2 <= int_end <= fs <= fe <= s@.len(),
                    ntz == (fe - fs) + (int_end - q2),
                    ntz <= fe - p,
                    d.wf(),
                    d.num_digits <= 0x10000,
                    d.decimal_point == -fr,
                    0 <= fr <= 0x10000,
                    d.digits@ == dg0,
                    d.num_digits == nd0,
                    d.negative == neg,
                decreases q2,
            {
                ntz = ntz + 1;
                q2 = q2 - 1;
            }
        }
        let drop_n = if ntz > d.num_digits {
            d.num_digits
        } else {
            ntz
        };
        let ntzc: i32 = if drop_n > 0x10000 {
            0x10000
        } else {
            drop_n as i32
        };
        d.decimal_point = d.decimal_point + ntzc;
        d.num_digits = d.num_digits - drop_n;
        d.decimal_point = d.decimal_point + (d.num_digits as i32);
        if d.num_digits > 768 {
            d.truncated = true;
            d.num_digits = 768;
        }
    }
    let evi: i32 = ev as i32;
    if exp_neg {
        d.decimal_point = d.decimal_point - evi;
    } else {
        d.decimal_point = d.decimal_point + evi;
    }
    let mut z = d.num_digits;
    while z < 19
        invariant
            d.wf(),
            d.num_digits <= z <= 768,
            -0x200000 <= d.decimal_point <= 0x200000,
            d.negative == neg,
            dseq == num_digit_seq(s@, p as int, int_end as int, fs as int, fe as int),
            d.num_digits as int <= dseq.len(),
            forall|t: int| 0 <= t < min_i(d.num_digits as int, 768) ==> d.digits@[t] + 0x30
                == dseq[t],
        decreases 19 - z,
    {
        d.digits[z] = 0;
        z = z + 1;
    }
    d
}

/// Shifts the decimal until its point suits a 53-bit mantissa, then
/// rounds it off; each loop carries a fuel guard that, were it ever to
/// run out, reports `power2 == -1`, which the caller treats as overflow.
///
/// The intended meaning, stated here but proved only for the mantissa and
/// exponent ranges: the pair is the round-to-nearest, ties-to-even binary
/// form of the decimal the digits represent.
#[verifier::rlimit(100)]
#[verifier::spinoff_prover]
pub fn long_to_binary(d: &mut Decimal) -> (r: AdjustedMantissa)
    requires
        old(d).wf(),
        old(d).num_digits <= 768,
        -0x200000 <= old(d).decimal_point <= 0x200000,
    ensures
        -1 <= r.power2 <= 0x7FF,
        0 <= r.power2 < 0x7FF ==> r.mantissa < 0x10_0000_0000_0000u64,
{
    if d.num_digits == 0 || d.decimal_point < -324 {
        return AdjustedMantissa { mantissa: 0, power2: 0 };
    }
    if d.decimal_point >= 310 {
        return AdjustedMantissa { mantissa: 0, power2: 0x7FF };
    }
    let mut exp2: i32 = 0;
    let mut fuel: usize = 4600;
    while d.decimal_point > 0 && fuel > 0
        invariant
            d.wf(),
            d.num_digits <= 768,
            -2047 <= d.decimal_point <= 309,
            fuel <= 4600,
            0 <= exp2,
            exp2 <= 60 * (4600 - fuel),
        decreases fuel,
    {
        let dpu = d.decimal_point as usize;
        let sh = get_shift(dpu);
        d.right_shift(sh);
        if d.num_digits == 0 {
            return AdjustedMantissa { mantissa: 0, power2: 0 };
        }
        exp2 = exp2 + (sh as i32);
        fuel = fuel - 1;
    }
    if d.decimal_point > 0 {
        return AdjustedMantissa { mantissa: 0, power2: -1i32 };
    }
    let mut fuel2: usize = 4600;
    let mut go = true;
    while go && fuel2 > 0
        invariant
            d.wf(),
            d.num_digits <= 768,
            -2047 <= d.decimal_point <= 62,
            fuel2 <= 4600,
            exp2 <= 276000,
            exp2 >= -60 * (4600 - fuel2),
        decreases fuel2,
    {
        if d.decimal_point > 0 {
            go = false;
        } else if d.num_digits == 0 {
            return AdjustedMantissa { mantissa: 0, power2: 0 };
        } else {
            let mut sh2: usize = 0;
            if d.decimal_point == 0 {
                let d0 = d.digits[0];
                if d0 >= 5 {
                    go = false;
                } else if d0 <= 1 {
                    sh2 = 2;
                } else {
                    sh2 = 1;
                }
            } else {
                let ndp = -(d.decimal_point);
                sh2 = get_shift(ndp as usize);
            }
            if go && sh2 >= 1 {
                d.left_shift(sh2);
                if d.decimal_point > 2047 {
                    return AdjustedMantissa { mantissa: 0, power2: 0x7FF };
                }
                exp2 = exp2 - (sh2 as i32);
            }
        }
        fuel2 = fuel2 - 1;
    }
    if go && d.decimal_point <= 0 {
        return AdjustedMantissa { mantissa: 0, power2: -1i32 };
    }
    exp2 = exp2 - 1;
    let mut fuel3: usize = 300000;
    while exp2 < -1022 && fuel3 > 0
        invariant
            d.wf(),
            d.num_digits <= 768,
            -2047 <= d.decimal_point <= 93,
            fuel3 <= 300000,
            -276002 <= exp2 <= 300000,
        decreases fuel3,
    {
        let need = -1022 - exp2;
        let sh3: usize = if need > 60 {
            60
        } else {
            need as usize
        };
        d.right_shift(sh3);
        if d.num_digits == 0 {
            return AdjustedMantissa { mantissa: 0, power2: 0 };
        }
        exp2 = exp2 + (sh3 as i32);
        fuel3 = fuel3 - 1;
    }
    if exp2 < -1022 {
        return AdjustedMantissa { mantissa: 0, power2: -1i32 };
    }
    if exp2 + 1023 >= 0x7FF {
        return AdjustedMantissa { mantissa: 0, power2: 0x7FF };
    }
    d.left_shift(53);
    let mut mantissa = d.round();
    if mantissa >= 0x20_0000_0000_0000u64 {
        d.right_shift(1);
        exp2 = exp2 + 1;
        mantissa = d.round();
        if exp2 + 1023 >= 0x7FF {
            return AdjustedMantissa { mantissa: 0, power2: 0x7FF };
        }
    }
    let mut power2: i32 = exp2 + 1023;
    if mantissa < 0x10_0000_0000_0000u64 {
        power2 = power2 - 1;
    }
    mantissa = mantissa % 0x10_0000_0000_0000u64;
    AdjustedMantissa { mantissa, power2 }
}

} // verus!
