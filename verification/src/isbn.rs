use vstd::prelude::*;

use crate::text::{chars_of, string_from_chars};

verus! {

/// Errors produced while decoding or validating an ISBN.
#[derive(Clone, Debug, PartialEq, Eq)]
pub enum ISBNError {
    DigitTooLarge,
    UnrecognizedCompactU64Header,
    UnexpectedNumberOfDigits(usize),
    BadChecksum,
}

/// An ISBN, stored as its decimal digits.
#[derive(Clone, Debug, PartialEq, Eq)]
pub enum ISBN {
    ISBN10([u8; 10]),
    ISBN13([u8; 13]),
}

/// The mathematical content of an ISBN: its kind and its digits.
pub ghost enum ISBNDigits {
    Ten(Seq<u8>),
    Thirteen(Seq<u8>),
}

impl View for ISBN {
    type V = ISBNDigits;

    open spec fn view(&self) -> ISBNDigits {
        match self {
            ISBN::ISBN10(d) => ISBNDigits::Ten(d@),
            ISBN::ISBN13(d) => ISBNDigits::Thirteen(d@),
        }
    }
}

pub open spec fn result_view(r: Result<ISBN, ISBNError>) -> Result<ISBNDigits, ISBNError> {
    match r {
        Ok(isbn) => Ok(isbn@),
        Err(e) => Err(e),
    }
}

// ---------------------------------------------------------------------------
// The compact 64-bit encoding
// ---------------------------------------------------------------------------

/// Ten-digit packing: each digit is shifted in as a 5-bit field, most significant first.
pub open spec fn pack10(d: Seq<u8>, n: nat) -> u64
    decreases n,
{
    if n == 0 {
        0u64
    } else {
        ((pack10(d, (n - 1) as nat) << 5u64) | (d[n - 1] as u64)) as u64
    }
}

/// The two-digit value stored in the `i`-th 7-bit field of a thirteen-digit packing.
pub open spec fn dual13(d: Seq<u8>, i: int) -> int {
    d[1 + 2 * i] * 10 + d[2 + 2 * i]
}

/// Thirteen-digit packing: the leading digit, then six two-digit fields of 7 bits each.
pub open spec fn pack13(d: Seq<u8>, n: nat) -> u64
    decreases n,
{
    if n == 0 {
        d[0] as u64
    } else {
        ((pack13(d, (n - 1) as nat) << 7u64) | (dual13(d, n - 1) as u64)) as u64
    }
}

pub open spec fn header10() -> u64 {
    10u64 << 60u64
}

pub open spec fn header13() -> u64 {
    13u64 << 60u64
}

/// The compact encoding of an ISBN.
pub open spec fn compact_spec(isbn: ISBNDigits) -> u64 {
    match isbn {
        ISBNDigits::Ten(d) => (pack10(d, 10) | header10()) as u64,
        ISBNDigits::Thirteen(d) => (pack13(d, 6) | header13()) as u64,
    }
}

/// Encoding does not overflow the two-digit fields of a thirteen-digit ISBN.
pub open spec fn compact_encodable(isbn: ISBNDigits) -> bool {
    match isbn {
        ISBNDigits::Ten(_) => true,
        ISBNDigits::Thirteen(d) => duals_fit(d),
    }
}

/// Every two-digit field of a thirteen-digit packing fits in a byte.
pub open spec fn duals_fit(d: Seq<u8>) -> bool {
    forall|i: int| 0 <= i < 6 ==> #[trigger] dual13(d, i) <= 255
}

/// `x` shifted right by 7 bits, `i` times.
pub open spec fn shr7(x: u64, i: nat) -> u64
    decreases i,
{
    if i == 0 {
        x
    } else {
        shr7(x, (i - 1) as nat) >> 7u64
    }
}

/// `x` shifted right by 5 bits, `i` times.
pub open spec fn shr5(x: u64, i: nat) -> u64
    decreases i,
{
    if i == 0 {
        x
    } else {
        shr5(x, (i - 1) as nat) >> 5u64
    }
}

/// The 7-bit field `i` (counted from the least significant end) of a compact value.
pub open spec fn field7(num: u64, i: int) -> u64 {
    (shr7(num, i as nat) & 127u64) as u64
}

/// The 5-bit field `i` (counted from the least significant end) of a compact value.
pub open spec fn field5(num: u64, i: int) -> u64 {
    (shr5(num, i as nat) & 31u64) as u64
}

pub open spec fn decode13(num: u64) -> Seq<u8> {
    Seq::new(
        13,
        |k: int|
            if k == 0 {
                (shr7(num, 6) & 31u64) as u8
            } else if (12 - k) % 2 == 0 {
                (field7(num, (12 - k) / 2) % 10) as u8
            } else {
                (field7(num, (12 - k) / 2) / 10) as u8
            },
    )
}

pub open spec fn decode10(num: u64) -> Seq<u8> {
    Seq::new(10, |k: int| field5(num, 9 - k) as u8)
}

/// Decoding of a compact value, as `from_compact_u64` performs it.
pub open spec fn decode_compact(num: u64) -> Result<ISBNDigits, ISBNError> {
    if (num & header13()) == header13() {
        if exists|i: int| 0 <= i < 6 && #[trigger] field7(num, i) >= 100 {
            Err(ISBNError::DigitTooLarge)
        } else {
            Ok(ISBNDigits::Thirteen(decode13(num)))
        }
    } else if (num & header10()) == header10() {
        if exists|i: int| 0 <= i < 10 && #[trigger] field5(num, i) >= 10 {
            Err(ISBNError::DigitTooLarge)
        } else {
            Ok(ISBNDigits::Ten(decode10(num)))
        }
    } else {
        Err(ISBNError::UnrecognizedCompactU64Header)
    }
}

// ---------------------------------------------------------------------------
// Checksums and digit validity
// ---------------------------------------------------------------------------

pub open spec fn all_decimal(d: Seq<u8>) -> bool {
    forall|i: int| 0 <= i < d.len() ==> #[trigger] d[i] <= 9
}

pub open spec fn decimal_of_len(d: Seq<u8>, n: nat) -> bool {
    d.len() == n && all_decimal(d)
}

/// The digits `isbn10_from_digits` accepts: nine decimal digits and a check digit up to 10.
pub open spec fn valid_isbn10_digits(d: Seq<u8>) -> bool {
    &&& forall|i: int| 0 <= i < 9 ==> #[trigger] d[i] <= 9
    &&& d[9] <= 10
}

/// Sum of the first `n` digits.
pub open spec fn digit_sum(d: Seq<u8>, n: nat) -> int
    decreases n,
{
    if n == 0 {
        0
    } else {
        digit_sum(d, (n - 1) as nat) + d[n - 1]
    }
}

/// `sum_{k < n} (w - k) * d[k]`.
pub open spec fn weighted_sum(d: Seq<u8>, w: int, n: nat) -> int
    decreases n,
{
    if n == 0 {
        0
    } else {
        weighted_sum(d, w, (n - 1) as nat) + (w - (n - 1)) * d[n - 1]
    }
}

/// `sum_{i < n} (d[2i] + 3 d[2i + 1])`.
pub open spec fn pair_sum13(d: Seq<u8>, n: nat) -> int
    decreases n,
{
    if n == 0 {
        0
    } else {
        pair_sum13(d, (n - 1) as nat) + d[2 * (n - 1)] + 3 * d[2 * (n - 1) + 1]
    }
}

/// The ISBN-10 checksum: `sum_k (10 - k) * d[k]` must be divisible by 11.
pub open spec fn isbn10_checksum_ok(d: Seq<u8>) -> bool {
    weighted_sum(d, 10, 10) % 11 == 0
}

/// The ISBN-13 checksum: digits weighted 1, 3, 1, 3, ... must sum to a multiple of 10.
pub open spec fn isbn13_checksum_ok(d: Seq<u8>) -> bool {
    (pair_sum13(d, 6) + d[12]) % 10 == 0
}

pub open spec fn checksum_ok(isbn: ISBNDigits) -> bool {
    match isbn {
        ISBNDigits::Ten(d) => isbn10_checksum_ok(d),
        ISBNDigits::Thirteen(d) => isbn13_checksum_ok(d),
    }
}

/// `check` does not overflow its 8-bit intermediate sums on these digits.
pub open spec fn checkable(isbn: ISBNDigits) -> bool {
    match isbn {
        ISBNDigits::Ten(_) => true,
        ISBNDigits::Thirteen(d) => pairs_fit(d),
    }
}

/// Every weighted digit pair of an ISBN-13 fits in a byte.
pub open spec fn pairs_fit(d: Seq<u8>) -> bool {
    forall|i: int| 0 <= i < 6 ==> #[trigger] d[2 * i] + 3 * d[2 * i + 1] <= 255
}

// ---------------------------------------------------------------------------
// Parsing from text
// ---------------------------------------------------------------------------

/// The value of an ASCII decimal digit character, as `char::to_digit(10)` gives it.
pub open spec fn decimal_value(c: char) -> Option<u8> {
    if '0' <= c && c <= '9' {
        Some((c as u32 - '0' as u32) as u8)
    } else {
        None
    }
}

/// The decimal digits of `s`, in order, with every other character dropped.
pub open spec fn decimal_digits(s: Seq<char>) -> Seq<u8>
    decreases s.len(),
{
    if s.len() == 0 {
        Seq::empty()
    } else {
        match decimal_value(s.last()) {
            Some(d) => decimal_digits(s.drop_last()).push(d),
            None => decimal_digits(s.drop_last()),
        }
    }
}

/// What `ISBN::from_str` returns for a text whose characters are `s`.
pub open spec fn parse_spec(s: Seq<char>) -> Result<ISBNDigits, ISBNError> {
    let d = decimal_digits(s);
    if d.len() == 10 {
        if isbn10_checksum_ok(d) {
            Ok(ISBNDigits::Ten(d))
        } else {
            Err(ISBNError::BadChecksum)
        }
    } else if d.len() == 13 {
        if isbn13_checksum_ok(d) {
            Ok(ISBNDigits::Thirteen(d))
        } else {
            Err(ISBNError::BadChecksum)
        }
    } else {
        Err(ISBNError::UnexpectedNumberOfDigits(d.len() as usize))
    }
}

// ---------------------------------------------------------------------------
// Bit-level lemmas
// ---------------------------------------------------------------------------

proof fn lemma_fields10(d0: u64, d1: u64, d2: u64, d3: u64, d4: u64, d5: u64, d6: u64, d7: u64, d8: u64, d9: u64, p0: u64, p1: u64, p2: u64, p3: u64, p4: u64, p5: u64, p6: u64, p7: u64, p8: u64, p9: u64, p10: u64, s0: u64, s1: u64, s2: u64, s3: u64, s4: u64, s5: u64, s6: u64, s7: u64, s8: u64, s9: u64)
    by (bit_vector)
    requires
        d0 < 32 && d1 < 32 && d2 < 32 && d3 < 32 && d4 < 32,
        d5 < 32 && d6 < 32 && d7 < 32 && d8 < 32 && d9 < 32,
        p0 == 0u64,
        p1 == (p0 << 5u64) | d0,
        p2 == (p1 << 5u64) | d1,
        p3 == (p2 << 5u64) | d2,
        p4 == (p3 << 5u64) | d3,
        p5 == (p4 << 5u64) | d4,
        p6 == (p5 << 5u64) | d5,
        p7 == (p6 << 5u64) | d6,
        p8 == (p7 << 5u64) | d7,
        p9 == (p8 << 5u64) | d8,
        p10 == (p9 << 5u64) | d9,
        s0 == p10 | (10u64 << 60u64),
        s1 == s0 >> 5u64,
        s2 == s1 >> 5u64,
        s3 == s2 >> 5u64,
        s4 == s3 >> 5u64,
        s5 == s4 >> 5u64,
        s6 == s5 >> 5u64,
        s7 == s6 >> 5u64,
        s8 == s7 >> 5u64,
        s9 == s8 >> 5u64,
    ensures
        (s0 & (13u64 << 60u64)) != (13u64 << 60u64),
        (s0 & (10u64 << 60u64)) == (10u64 << 60u64),
        s0 & 31u64 == d9,
        s1 & 31u64 == d8,
        s2 & 31u64 == d7,
        s3 & 31u64 == d6,
        s4 & 31u64 == d5,
        s5 & 31u64 == d4,
        s6 & 31u64 == d3,
        s7 & 31u64 == d2,
        s8 & 31u64 == d1,
        s9 & 31u64 == d0,
{
}

proof fn lemma_fields13(d0: u64, a0: u64, a1: u64, a2: u64, a3: u64, a4: u64, a5: u64, p0: u64, p1: u64, p2: u64, p3: u64, p4: u64, p5: u64, p6: u64, s0: u64, s1: u64, s2: u64, s3: u64, s4: u64, s5: u64, s6: u64)
    by (bit_vector)
    requires
        d0 < 32 && a0 < 128 && a1 < 128 && a2 < 128 && a3 < 128 && a4 < 128 && a5 < 128,
        p0 == d0,
        p1 == (p0 << 7u64) | a0,
        p2 == (p1 << 7u64) | a1,
        p3 == (p2 << 7u64) | a2,
        p4 == (p3 << 7u64) | a3,
        p5 == (p4 << 7u64) | a4,
        p6 == (p5 << 7u64) | a5,
        s0 == p6 | (13u64 << 60u64),
        s1 == s0 >> 7u64,
        s2 == s1 >> 7u64,
        s3 == s2 >> 7u64,
        s4 == s3 >> 7u64,
        s5 == s4 >> 7u64,
        s6 == s5 >> 7u64,
    ensures
        (s0 & (13u64 << 60u64)) == (13u64 << 60u64),
        s0 & 127u64 == a5,
        s1 & 127u64 == a4,
        s2 & 127u64 == a3,
        s3 & 127u64 == a2,
        s4 & 127u64 == a1,
        s5 & 127u64 == a0,
        s6 & 31u64 == d0,
{
}

proof fn lemma_weighted_shift(d: Seq<u8>, w: int, n: nat)
    requires
        d.len() >= n,
    ensures
        weighted_sum(d, w + 1, n) == weighted_sum(d, w, n) + digit_sum(d, n),
    decreases n,
{
    if n > 0 {
        lemma_weighted_shift(d, w, (n - 1) as nat);
        let a = w - (n - 1);
        let x = d[n - 1] as int;
        assert((a + 1) * x == a * x + x) by (nonlinear_arith);
    }
}

proof fn lemma_digit_sum_bound(d: Seq<u8>, n: nat)
    requires
        d.len() >= n,
    ensures
        0 <= digit_sum(d, n) <= 255 * n,
    decreases n,
{
    if n > 0 {
        lemma_digit_sum_bound(d, (n - 1) as nat);
    }
}

proof fn lemma_weighted_bound(d: Seq<u8>, n: nat)
    requires
        d.len() >= n,
    ensures
        0 <= weighted_sum(d, n as int, n) <= 255 * n * n,
    decreases n,
{
    if n > 0 {
        let m = (n - 1) as nat;
        lemma_weighted_bound(d, m);
        lemma_weighted_shift(d, m as int, m);
        lemma_digit_sum_bound(d, m);
        assert(255 * m * m + 255 * m + 255 <= 255 * n * n) by (nonlinear_arith)
            requires
                n == m + 1,
        ;
    }
}

proof fn lemma_decimal_digits_small(s: Seq<char>)
    ensures
        all_decimal(decimal_digits(s)),
    decreases s.len(),
{
    if s.len() > 0 {
        lemma_decimal_digits_small(s.drop_last());
    }
}

// ---------------------------------------------------------------------------
// Executable operations
// ---------------------------------------------------------------------------

impl ISBN {
    /// Packs the digits into a single `u64`: the top four bits hold 10 or 13, the low bits
    /// the digits (5 bits each for ISBN-10; a leading 5-bit digit and six 7-bit digit pairs
    /// for ISBN-13).
    pub fn to_compact_u64(&self) -> (r: u64)
        requires
            compact_encodable(self@),
        ensures
            r == compact_spec(self@),
    {
        match self {
            ISBN::ISBN10(digits) => {
                let mut num: u64 = 0;
                let mut i: usize = 0;
                while i < 10
                    invariant
                        i <= 10,
                        num == pack10(digits@, i as nat),
                    decreases 10 - i,
                {
                    num = num << 5u64;
                    num = num | (digits[i] as u64);
                    i = i + 1;
                }
                num = num | (10u64 << 60u64);
                num
            },
            ISBN::ISBN13(digits) => compact13(digits),
        }
    }

    /// Unpacks a value produced by `to_compact_u64`.
    pub fn from_compact_u64(num: u64) -> (r: Result<ISBN, ISBNError>)
        ensures
            result_view(r) == decode_compact(num),
    {
        let orig = num;
        let mut rest = num;
        if (rest & (13u64 << 60u64)) == (13u64 << 60u64) {
            let mut digits = [0u8; 13];
            let mut i: usize = 0;
            while i < 6
                invariant
                    i <= 6,
                    rest == shr7(orig, i as nat),
                    orig == num,
                    (orig & header13()) == header13(),
                    digits@.len() == 13,
                    forall|j: int| 0 <= j < i ==> #[trigger] field7(orig, j) < 100,
                    forall|j: int|
                        0 <= j < i ==> #[trigger] digits@[12 - 2 * j] == (field7(orig, j) % 10) as u8,
                    forall|j: int|
                        0 <= j < i ==> #[trigger] digits@[11 - 2 * j] == (field7(orig, j) / 10) as u8,
                decreases 6 - i,
            {
                let dual_digit = (rest & 0b111_1111u64) as u8;
                assert(dual_digit as u64 == field7(orig, i as int)) by {
                    assert((rest & 127u64) < 128) by (bit_vector);
                }
                let low_digit = dual_digit % 10;
                let high_digit = dual_digit / 10;
                if dual_digit >= 100 {
                    assert(field7(orig, i as int) >= 100);
                    return Err(ISBNError::DigitTooLarge);
                }
                rest = rest >> 7u64;
                digits[13 - i * 2 - 1] = low_digit;
                digits[13 - i * 2 - 2] = high_digit;
                i = i + 1;
            }
            let digit = (rest & 0b11111u64) as u8;
            digits[0] = digit;
            proof {
                assert(rest & 31u64 < 32) by (bit_vector);
                assert(!(exists|j: int| 0 <= j < 6 && #[trigger] field7(orig, j) >= 100));
                assert(digits@ =~= decode13(orig)) by {
                    assert forall|k: int| 0 <= k < 13 implies digits@[k] == decode13(orig)[k] by {
                        if k >= 1 {
                            let j = (12 - k) / 2;
                            if (12 - k) % 2 == 0 {
                                assert(k == 12 - 2 * j);
                                assert(digits@[12 - 2 * j] == (field7(orig, j) % 10) as u8);
                            } else {
                                assert(k == 11 - 2 * j);
                                assert(digits@[11 - 2 * j] == (field7(orig, j) / 10) as u8);
                            }
                        }
                    }
                }
            }
            Ok(ISBN::ISBN13(digits))
        } else if (rest & (10u64 << 60u64)) == (10u64 << 60u64) {
            let mut digits = [0u8; 10];
            let mut i: usize = 0;
            while i < 10
                invariant
                    i <= 10,
                    rest == shr5(orig, i as nat),
                    orig == num,
                    (orig & header13()) != header13(),
                    (orig & header10()) == header10(),
                    digits@.len() == 10,
                    forall|j: int| 0 <= j < i ==> #[trigger] field5(orig, j) < 10,
                    forall|j: int| 0 <= j < i ==> #[trigger] digits@[9 - j] == field5(orig, j) as u8,
                decreases 10 - i,
            {
                let digit = (rest & 0b11111u64) as u8;
                assert(digit as u64 == field5(orig, i as int)) by {
                    assert((rest & 31u64) < 32) by (bit_vector);
                }
                if digit >= 10 {
                    assert(field5(orig, i as int) >= 10);
                    return Err(ISBNError::DigitTooLarge);
                }
                rest = rest >> 5u64;
                digits[10 - i - 1] = digit;
                i = i + 1;
            }
            proof {
                assert(!(exists|j: int| 0 <= j < 10 && #[trigger] field5(orig, j) >= 10));
                assert(digits@ =~= decode10(orig)) by {
                    assert forall|k: int| 0 <= k < 10 implies digits@[k] == decode10(orig)[k] by {
                        assert(digits@[9 - (9 - k)] == field5(orig, 9 - k) as u8);
                    }
                }
            }
            Ok(ISBN::ISBN10(digits))
        } else {
            Err(ISBNError::UnrecognizedCompactU64Header)
        }
    }

    /// Builds an ISBN-10, rejecting digits above 9 (above 10 for the check digit).
    pub fn isbn10_from_digits(digits: [u8; 10]) -> (r: Result<ISBN, ISBNError>)
        ensures
            valid_isbn10_digits(digits@) ==> r == Ok::<ISBN, ISBNError>(ISBN::ISBN10(digits)),
            !valid_isbn10_digits(digits@) ==> r == Err::<ISBN, ISBNError>(ISBNError::DigitTooLarge),
    {
        let mut i: usize = 0;
        while i < 9
            invariant
                i <= 9,
                forall|j: int| 0 <= j < i ==> #[trigger] digits@[j] <= 9,
            decreases 9 - i,
        {
            if digits[i] > 9 {
                return Err(ISBNError::DigitTooLarge);
            }
            i = i + 1;
        }
        if digits[9] > 10 {
            return Err(ISBNError::DigitTooLarge);
        }
        Ok(ISBN::ISBN10(digits))
    }

    /// Builds an ISBN-13, rejecting digits above 9.
    pub fn isbn13_from_digits(digits: [u8; 13]) -> (r: Result<ISBN, ISBNError>)
        ensures
            all_decimal(digits@) ==> r == Ok::<ISBN, ISBNError>(ISBN::ISBN13(digits)),
            !all_decimal(digits@) ==> r == Err::<ISBN, ISBNError>(ISBNError::DigitTooLarge),
    {
        let mut i: usize = 0;
        while i < 13
            invariant
                i <= 13,
                forall|j: int| 0 <= j < i ==> #[trigger] digits@[j] <= 9,
            decreases 13 - i,
        {
            if digits[i] > 9 {
                return Err(ISBNError::DigitTooLarge);
            }
            i = i + 1;
        }
        Ok(ISBN::ISBN13(digits))
    }

    /// Whether the check digit is consistent with the other digits.
    pub fn check(&self) -> (r: bool)
        requires
            checkable(self@),
        ensures
            r == checksum_ok(self@),
    {
        match self {
            ISBN::ISBN13(digits) => {
                let mut sum: u16 = 0;
                let mut i: usize = 0;
                while i < 6
                    invariant
                        i <= 6,
                        sum == pair_sum13(digits@, i as nat),
                        sum <= 255 * i,
                        forall|j: int|
                            0 <= j < 6 ==> #[trigger] digits@[2 * j] + 3 * digits@[2 * j + 1] <= 255,
                    decreases 6 - i,
                {
                    assert(digits@[2 * (i as int)] + 3 * digits@[2 * (i as int) + 1] <= 255);
                    let pair = digits[i * 2] + 3 * digits[i * 2 + 1];
                    sum = sum + (pair as u16);
                    i = i + 1;
                }
                sum = sum + (digits[12] as u16);
                (sum % 10) == 0
            },
            ISBN::ISBN10(digits) => {
                let mut s: u16 = 0;
                let mut t: u16 = 0;
                let mut i: usize = 0;
                while i < 10
                    invariant
                        i <= 10,
                        t == digit_sum(digits@, i as nat),
                        s == weighted_sum(digits@, i as int, i as nat),
                    decreases 10 - i,
                {
                    proof {
                        lemma_digit_sum_bound(digits@, (i + 1) as nat);
                        lemma_weighted_shift(digits@, i as int, i as nat);
                        lemma_weighted_bound(digits@, (i + 1) as nat);
                        assert(255 * (i + 1) * (i + 1) <= 25500) by (nonlinear_arith)
                            requires
                                i < 10,
                        ;
                    }
                    t = t + (digits[i] as u16);
                    s = s + t;
                    proof {
                        let d = digits@;
                        let k = i as int;
                        assert(weighted_sum(d, k + 1, (k + 1) as nat) == weighted_sum(d, k + 1, k as nat)
                            + (k + 1 - k) * d[k]);
                        let x = d[k] as int;
                        assert((k + 1 - k) * x == x) by (nonlinear_arith);
                        assert(digit_sum(d, (k + 1) as nat) == digit_sum(d, k as nat) + d[k]);
                    }
                    i = i + 1;
                }
                (s % 11) == 0
            },
        }
    }

    /// The digits, most significant first.
    pub fn to_digits(&self) -> (r: Result<Vec<u8>, ISBNError>)
        ensures
            r matches Ok(v) && match self@ {
                ISBNDigits::Ten(d) => v@ == d,
                ISBNDigits::Thirteen(d) => v@ == d,
            },
    {
        match self {
            ISBN::ISBN13(digits) => Ok(digits_to_vec13(digits)),
            ISBN::ISBN10(digits) => Ok(digits_to_vec10(digits)),
        }
    }

    /// Parses an ISBN from text: every decimal digit is taken, every other character ignored;
    /// ten or thirteen digits with a correct checksum are accepted.
    pub fn from_str(s: &str) -> (r: Result<ISBN, ISBNError>)
        ensures
            result_view(r) == parse_spec(s@),
    {
        let chars = chars_of(s);
        let digits = decimal_digits_of(&chars);
        proof {
            lemma_decimal_digits_small(s@);
        }
        if digits.len() == 10 {
            let mut arr = [0u8; 10];
            let mut i: usize = 0;
            while i < 10
                invariant
                    i <= 10,
                    digits@.len() == 10,
                    arr@.len() == 10,
                    forall|j: int| 0 <= j < i ==> arr@[j] == digits@[j],
                decreases 10 - i,
            {
                arr[i] = digits[i];
                i = i + 1;
            }
            assert(arr@ =~= digits@);
            let isbn = ISBN::ISBN10(arr);
            if isbn.check() {
                Ok(isbn)
            } else {
                Err(ISBNError::BadChecksum)
            }
        } else if digits.len() == 13 {
            let mut arr = [0u8; 13];
            let mut i: usize = 0;
            while i < 13
                invariant
                    i <= 13,
                    digits@.len() == 13,
                    arr@.len() == 13,
                    forall|j: int| 0 <= j < i ==> arr@[j] == digits@[j],
                decreases 13 - i,
            {
                arr[i] = digits[i];
                i = i + 1;
            }
            assert(arr@ =~= digits@);
            let isbn = ISBN::ISBN13(arr);
            if isbn.check() {
                Ok(isbn)
            } else {
                Err(ISBNError::BadChecksum)
            }
        } else {
            Err(ISBNError::UnexpectedNumberOfDigits(digits.len()))
        }
    }

    /// The digits as text, one character per digit.
    pub fn to_string(&self) -> (r: String)
        requires
            match self@ {
                ISBNDigits::Ten(d) => printable_digits(d),
                ISBNDigits::Thirteen(d) => printable_digits(d),
            },
        ensures
            r@ == match self@ {
                ISBNDigits::Ten(d) => digit_chars(d),
                ISBNDigits::Thirteen(d) => digit_chars(d),
            },
    {
        match self {
            ISBN::ISBN10(digits) => digits_to_string(digits.as_slice()),
            ISBN::ISBN13(digits) => digits_to_string(digits.as_slice()),
        }
    }
}

fn compact13(digits: &[u8; 13]) -> (r: u64)
    requires
        duals_fit(digits@),
    ensures
        r == (pack13(digits@, 6) | header13()),
{
    let mut num: u64 = digits[0] as u64;
    let mut i: usize = 0;
    while i < 6
        invariant
            i <= 6,
            num == pack13(digits@, i as nat),
            forall|j: int| 0 <= j < 6 ==> #[trigger] dual13(digits@, j) <= 255,
        decreases 6 - i,
    {
        num = num << 7u64;
        let high_digit = digits[1 + i * 2];
        let low_digit = digits[2 + i * 2];
        assert(dual13(digits@, i as int) <= 255);
        let dual_digit = high_digit * 10 + low_digit;
        num = num | (dual_digit as u64);
        i = i + 1;
    }
    num = num | (13u64 << 60u64);
    num
}

/// Every digit, offset by the character code of '0', still fits in a byte.
pub open spec fn printable_digits(d: Seq<u8>) -> bool {
    forall|i: int| 0 <= i < d.len() ==> #[trigger] d[i] <= 207
}

/// The character `digit + '0'` for each digit.
pub open spec fn digit_chars(d: Seq<u8>) -> Seq<char> {
    Seq::new(d.len(), |i: int| ((d[i] + 48) as u8) as char)
}

fn digits_to_string(digits: &[u8]) -> (r: String)
    requires
        printable_digits(digits@),
    ensures
        r@ == digit_chars(digits@),
{
    let mut chars: Vec<char> = Vec::new();
    let mut i: usize = 0;
    while i < digits.len()
        invariant
            i <= digits@.len(),
            chars@ =~= digit_chars(digits@).take(i as int),
            forall|j: int| 0 <= j < digits@.len() ==> #[trigger] digits@[j] <= 207,
        decreases digits.len() - i,
    {
        let c = (digits[i] + 48) as char;
        chars.push(c);
        i = i + 1;
    }
    string_from_chars(chars.as_slice())
}

fn digits_to_vec10(digits: &[u8; 10]) -> (v: Vec<u8>)
    ensures
        v@ == digits@,
{
    let mut v: Vec<u8> = Vec::new();
    let mut i: usize = 0;
    while i < 10
        invariant
            i <= 10,
            v@ =~= digits@.take(i as int),
        decreases 10 - i,
    {
        v.push(digits[i]);
        i = i + 1;
    }
    v
}

fn digits_to_vec13(digits: &[u8; 13]) -> (v: Vec<u8>)
    ensures
        v@ == digits@,
{
    let mut v: Vec<u8> = Vec::new();
    let mut i: usize = 0;
    while i < 13
        invariant
            i <= 13,
            v@ =~= digits@.take(i as int),
        decreases 13 - i,
    {
        v.push(digits[i]);
        i = i + 1;
    }
    v
}

fn decimal_digits_of(chars: &Vec<char>) -> (d: Vec<u8>)
    ensures
        d@ == decimal_digits(chars@),
{
    let mut d: Vec<u8> = Vec::new();
    let mut i: usize = 0;
    while i < chars.len()
        invariant
            i <= chars@.len(),
            d@ == decimal_digits(chars@.take(i as int)),
        decreases chars.len() - i,
    {
        let c = chars[i];
        assert(chars@.take(i + 1).drop_last() =~= chars@.take(i as int));
        if '0' <= c && c <= '9' {
            d.push(((c as u32) - ('0' as u32)) as u8);
        }
        i = i + 1;
    }
    assert(chars@.take(chars@.len() as int) =~= chars@);
    d
}

// ---------------------------------------------------------------------------
// Laws
// ---------------------------------------------------------------------------

/// Decoding the compact encoding of an ISBN whose digits are all decimal gives the ISBN back.
pub proof fn lemma_compact_roundtrip(isbn: ISBNDigits)
    requires
        match isbn {
            ISBNDigits::Ten(d) => decimal_of_len(d, 10),
            ISBNDigits::Thirteen(d) => decimal_of_len(d, 13),
        },
    ensures
        compact_encodable(isbn),
        decode_compact(compact_spec(isbn)) == Ok::<ISBNDigits, ISBNError>(isbn),
{
    match isbn {
        ISBNDigits::Ten(d) => {
            reveal_with_fuel(pack10, 11);
            reveal_with_fuel(shr5, 10);
            let enc = compact_spec(isbn);
            assert(d[0] <= 9 && d[1] <= 9 && d[2] <= 9 && d[3] <= 9 && d[4] <= 9);
            assert(d[5] <= 9 && d[6] <= 9 && d[7] <= 9 && d[8] <= 9 && d[9] <= 9);
            lemma_fields10(
                d[0] as u64,
                d[1] as u64,
                d[2] as u64,
                d[3] as u64,
                d[4] as u64,
                d[5] as u64,
                d[6] as u64,
                d[7] as u64,
                d[8] as u64,
                d[9] as u64,
                pack10(d, 0),
                pack10(d, 1),
                pack10(d, 2),
                pack10(d, 3),
                pack10(d, 4),
                pack10(d, 5),
                pack10(d, 6),
                pack10(d, 7),
                pack10(d, 8),
                pack10(d, 9),
                pack10(d, 10),
                shr5(enc, 0),
                shr5(enc, 1),
                shr5(enc, 2),
                shr5(enc, 3),
                shr5(enc, 4),
                shr5(enc, 5),
                shr5(enc, 6),
                shr5(enc, 7),
                shr5(enc, 8),
                shr5(enc, 9),
            );
            assert forall|i: int| 0 <= i < 10 implies #[trigger] field5(enc, i) == d[9 - i] as u64 by {
            if i == 0 {
                assert(field5(enc, 0) == d[9] as u64);
            } else if i == 1 {
                assert(field5(enc, 1) == d[8] as u64);
            } else if i == 2 {
                assert(field5(enc, 2) == d[7] as u64);
            } else if i == 3 {
                assert(field5(enc, 3) == d[6] as u64);
            } else if i == 4 {
                assert(field5(enc, 4) == d[5] as u64);
            } else if i == 5 {
                assert(field5(enc, 5) == d[4] as u64);
            } else if i == 6 {
                assert(field5(enc, 6) == d[3] as u64);
            } else if i == 7 {
                assert(field5(enc, 7) == d[2] as u64);
            } else if i == 8 {
                assert(field5(enc, 8) == d[1] as u64);
            } else if i == 9 {
                assert(field5(enc, 9) == d[0] as u64);
            }
            }
            assert forall|i: int| 0 <= i < 10 implies !(#[trigger] field5(enc, i) >= 10) by {
                assert(field5(enc, i) == d[9 - i] as u64);
                assert(d[9 - i] <= 9);
            }
            assert(decode10(enc) =~= d) by {
                assert forall|k: int| 0 <= k < 10 implies decode10(enc)[k] == d[k] by {
                    assert(field5(enc, 9 - k) == d[9 - (9 - k)] as u64);
                }
            }
        },
        ISBNDigits::Thirteen(d) => {
            reveal_with_fuel(pack13, 7);
            reveal_with_fuel(shr7, 7);
            assert forall|i: int| 0 <= i < 6 implies 0 <= #[trigger] dual13(d, i) < 100 by {
                assert(d[1 + 2 * i] <= 9);
                assert(d[2 + 2 * i] <= 9);
            }
            assert(d[0] <= 9);
            let enc = compact_spec(isbn);
            assert(dual13(d, 0) < 100 && dual13(d, 1) < 100 && dual13(d, 2) < 100);
            assert(dual13(d, 3) < 100 && dual13(d, 4) < 100 && dual13(d, 5) < 100);
            lemma_fields13(
                d[0] as u64,
                dual13(d, 0) as u64,
                dual13(d, 1) as u64,
                dual13(d, 2) as u64,
                dual13(d, 3) as u64,
                dual13(d, 4) as u64,
                dual13(d, 5) as u64,
                pack13(d, 0),
                pack13(d, 1),
                pack13(d, 2),
                pack13(d, 3),
                pack13(d, 4),
                pack13(d, 5),
                pack13(d, 6),
                shr7(enc, 0),
                shr7(enc, 1),
                shr7(enc, 2),
                shr7(enc, 3),
                shr7(enc, 4),
                shr7(enc, 5),
                shr7(enc, 6),
            );
            assert forall|i: int| 0 <= i < 6 implies #[trigger] field7(enc, i) == dual13(d, 5 - i) as u64 by {
            if i == 0 {
                assert(field7(enc, 0) == dual13(d, 5) as u64);
            } else if i == 1 {
                assert(field7(enc, 1) == dual13(d, 4) as u64);
            } else if i == 2 {
                assert(field7(enc, 2) == dual13(d, 3) as u64);
            } else if i == 3 {
                assert(field7(enc, 3) == dual13(d, 2) as u64);
            } else if i == 4 {
                assert(field7(enc, 4) == dual13(d, 1) as u64);
            } else if i == 5 {
                assert(field7(enc, 5) == dual13(d, 0) as u64);
            }
            }
            assert(shr7(enc, 6) & 31u64 == d[0] as u64);
            assert forall|i: int| 0 <= i < 6 implies !(#[trigger] field7(enc, i) >= 100) by {
                assert(field7(enc, i) == dual13(d, 5 - i) as u64);
            }
            assert(decode13(enc) =~= d) by {
                assert forall|k: int| 0 <= k < 13 implies decode13(enc)[k] == d[k] by {
                    if k >= 1 {
                        let i = (12 - k) / 2;
                        assert(field7(enc, i) == dual13(d, 5 - i) as u64);
                        let hi = d[1 + 2 * (5 - i)] as int;
                        let lo = d[2 + 2 * (5 - i)] as int;
                        assert(hi <= 9 && lo <= 9);
                        assert((hi * 10 + lo) % 10 == lo && (hi * 10 + lo) / 10 == hi)
                            by (nonlinear_arith)
                            requires
                                0 <= hi <= 9,
                                0 <= lo <= 9,
                        ;
                    }
                }
            }
        },
    }
}

} // verus!
