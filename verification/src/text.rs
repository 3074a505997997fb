use vstd::prelude::*;

verus! {

/// Appends `c` to `s` (std's `String::push`).
#[verifier::external_body]
pub(crate) fn push_char(s: &mut String, c: char)
    ensures
        final(s)@ == old(s)@.push(c),
{
    s.push(c)
}

/// The characters of `s`, in order.
pub fn chars_of(s: &str) -> (v: Vec<char>)
    ensures
        v@ == s@,
{
    let mut v: Vec<char> = Vec::new();
    for c in it: s.chars()
        invariant
            v@ == it.seq().take(it.index() as int),
    {
        v.push(c);
    }
    v
}

/// The string whose characters are those of `v`.
pub fn string_from_chars(v: &[char]) -> (s: String)
    ensures
        s@ == v@,
{
    let mut s = String::new();
    let mut i: usize = 0;
    while i < v.len()
        invariant
            i <= v@.len(),
            s@ == v@.take(i as int),
        decreases v.len() - i,
    {
        push_char(&mut s, v[i]);
        assert(v@.take(i as int).push(v@[i as int]) =~= v@.take(i + 1));
        i = i + 1;
    }
    assert(v@.take(v@.len() as int) =~= v@);
    s
}

} // verus!

verus! {

/// Whether two character slices are equal.
pub fn eq_chars(a: &[char], b: &[char]) -> (r: bool)
    ensures
        r == (a@ == b@),
{
    if a.len() != b.len() {
        return false;
    }
    let mut i: usize = 0;
    while i < a.len()
        invariant
            i <= a@.len(),
            a@.len() == b@.len(),
            forall|j: int| 0 <= j < i ==> a@[j] == b@[j],
        decreases a.len() - i,
    {
        if a[i] != b[i] {
            return false;
        }
        i = i + 1;
    }
    assert(a@ =~= b@);
    true
}

/// ASCII lower-casing of a single character, as `char::to_ascii_lowercase` does it.
pub open spec fn ascii_lower(c: char) -> char {
    if 'A' <= c && c <= 'Z' {
        ((c as u32) + 32) as char
    } else {
        c
    }
}

/// ASCII lower-casing of every character.
pub open spec fn ascii_lower_seq(s: Seq<char>) -> Seq<char> {
    Seq::new(s.len(), |i: int| ascii_lower(s[i]))
}

pub fn to_ascii_lower(c: char) -> (r: char)
    ensures
        r == ascii_lower(c),
{
    if 'A' <= c && c <= 'Z' {
        let v: u8 = ((c as u32) + 32) as u8;
        v as char
    } else {
        c
    }
}

/// The characters of `s`, ASCII lower-cased.
pub fn lower_chars(s: &str) -> (v: Vec<char>)
    ensures
        v@ == ascii_lower_seq(s@),
{
    let chars = chars_of(s);
    let mut v: Vec<char> = Vec::new();
    let mut i: usize = 0;
    while i < chars.len()
        invariant
            i <= chars@.len(),
            chars@ == s@,
            v@ =~= ascii_lower_seq(s@).take(i as int),
        decreases chars.len() - i,
    {
        v.push(to_ascii_lower(chars[i]));
        i = i + 1;
    }
    v
}

/// Whether the text starts with `c`.
pub open spec fn starts_with_char(s: Seq<char>, c: char) -> bool {
    s.len() > 0 && s[0] == c
}

pub fn first_char_is(s: &str, c: char) -> (r: bool)
    ensures
        r == starts_with_char(s@, c),
{
    let n = s.unicode_len();
    if n == 0 {
        false
    } else {
        s.get_char(0) == c
    }
}

/// A copy of `s`.
pub fn copy_string(s: &String) -> (r: String)
    ensures
        r@ == s@,
{
    s.clone()
}

} // verus!

verus! {

pub open spec fn is_ascii_digit(c: char) -> bool {
    '0' <= c && c <= '9'
}

pub open spec fn all_ascii_digits(s: Seq<char>) -> bool {
    forall|i: int| 0 <= i < s.len() ==> #[trigger] is_ascii_digit(s[i])
}

/// The value of a string of decimal digits.
pub open spec fn digits_value(s: Seq<char>) -> int
    decreases s.len(),
{
    if s.len() == 0 {
        0
    } else {
        digits_value(s.drop_last()) * 10 + (s.last() as int - '0' as int)
    }
}

/// Unsigned decimal parsing as std's `from_str` for unsigned integers performs it: an
/// optional '+', then at least one ASCII digit and nothing else, with a value of at most
/// `max`.
pub open spec fn parse_unsigned(s: Seq<char>, max: int) -> Option<int> {
    let d = if s.len() > 0 && s[0] == '+' {
        s.drop_first()
    } else {
        s
    };
    if d.len() > 0 && all_ascii_digits(d) && digits_value(d) <= max {
        Some(digits_value(d))
    } else {
        None
    }
}

proof fn lemma_digits_value_prefix(d: Seq<char>, k: int)
    requires
        0 <= k <= d.len(),
        all_ascii_digits(d),
    ensures
        0 <= digits_value(d.take(k)) <= digits_value(d),
    decreases d.len() - k,
{
    if k < d.len() {
        lemma_digits_value_prefix(d, k + 1);
        assert(d.take(k + 1).drop_last() =~= d.take(k));
        assert(is_ascii_digit(d[k]));
    } else {
        assert(d.take(k) =~= d);
    }
    lemma_digits_value_nonneg(d.take(k));
}

proof fn lemma_digits_value_nonneg(d: Seq<char>)
    requires
        all_ascii_digits(d),
    ensures
        0 <= digits_value(d),
    decreases d.len(),
{
    if d.len() > 0 {
        assert(all_ascii_digits(d.drop_last())) by {
            assert forall|i: int| 0 <= i < d.drop_last().len() implies #[trigger] is_ascii_digit(
                d.drop_last()[i],
            ) by {
                assert(d.drop_last()[i] == d[i]);
            }
        }
        lemma_digits_value_nonneg(d.drop_last());
        assert(is_ascii_digit(d[d.len() - 1]));
    }
}

/// Parses an unsigned decimal number of at most `max`.
pub fn parse_decimal(s: &str, max: u64) -> (r: Option<u64>)
    ensures
        match parse_unsigned(s@, max as int) {
            Some(v) => r == Some(v as u64),
            None => r is None,
        },
        r matches Some(v) ==> v <= max && parse_unsigned(s@, max as int) == Some(v as int),
{
    let chars = chars_of(s);
    let start: usize = if chars.len() > 0 && chars[0] == '+' {
        1
    } else {
        0
    };
    let ghost d = if s@.len() > 0 && s@[0] == '+' {
        s@.drop_first()
    } else {
        s@
    };
    assert(d =~= chars@.skip(start as int));
    if start == chars.len() {
        return None;
    }
    let mut value: u64 = 0;
    let mut i = start;
    while i < chars.len()
        invariant
            start <= i <= chars@.len(),
            chars@ == s@,
            d == chars@.skip(start as int),
            d == (if s@.len() > 0 && s@[0] == '+' {
                s@.drop_first()
            } else {
                s@
            }),
            all_ascii_digits(d.take(i - start)),
            value == digits_value(d.take(i - start)),
            value <= max,
        decreases chars.len() - i,
    {
        let c = chars[i];
        let k = i - start;
        if !('0' <= c && c <= '9') {
            assert(!is_ascii_digit(d[k as int]));
            return None;
        }
        let digit: u64 = ((c as u32) - ('0' as u32)) as u64;
        assert(d.take(k + 1).drop_last() =~= d.take(k as int));
        assert(all_ascii_digits(d.take(k + 1))) by {
            assert forall|j: int| 0 <= j < k + 1 implies #[trigger] is_ascii_digit(d.take(k + 1)[j]) by {
                if j < k {
                    assert(d.take(k + 1)[j] == d.take(k as int)[j]);
                }
            }
        }
        if digit > max || value > (max - digit) / 10 {
            proof {
                assert(value * 10 + digit > max) by (nonlinear_arith)
                    requires
                        digit > max || value > (max - digit) / 10,
                        digit <= max ==> max - digit >= 0,
                ;
                if all_ascii_digits(d) {
                    lemma_digits_value_prefix(d, k + 1);
                    assert(d.take(k + 1).last() == d[k as int]);
                    assert(digits_value(d.take(k + 1)) == value * 10 + digit);
                }
            }
            return None;
        }
        assert(value * 10 + digit <= max) by (nonlinear_arith)
            requires
                digit <= max,
                value <= (max - digit) / 10,
        ;
        value = value * 10 + digit;
        i = i + 1;
    }
    assert(d.take(d.len() as int) =~= d);
    Some(value)
}

} // verus!
