//! Reading the decimal prefix of a query.

use vstd::prelude::*;

verus! {

/// The byte is one of the ASCII digits `0` to `9`.
pub open spec fn is_digit(b: u8) -> bool {
    0x30 <= b <= 0x39
}

/// Every byte of `s` is an ASCII digit.
pub open spec fn all_digits(s: Seq<u8>) -> bool {
    forall|i: int| 0 <= i < s.len() ==> is_digit(#[trigger] s[i])
}

/// The number that a run of ASCII digits writes in base ten.
pub open spec fn digits_value(s: Seq<u8>) -> int
    decreases s.len(),
{
    if s.len() == 0 {
        0
    } else {
        10 * digits_value(s.drop_last()) + (s.last() - 0x30)
    }
}

/// The number that a non-empty run of ASCII digits writes, or `None`.
pub open spec fn unsigned_decimal(s: Seq<u8>) -> Option<int> {
    if s.len() > 0 && all_digits(s) {
        Some(digits_value(s))
    } else {
        None
    }
}

/// The integer that `s` writes in base ten: an optional `+` or `-`, then one
/// or more ASCII digits and nothing else.
pub open spec fn parse_decimal(s: Seq<u8>) -> Option<int> {
    if s.len() > 0 && s[0] == 0x2b {
        unsigned_decimal(s.skip(1))
    } else if s.len() > 0 && s[0] == 0x2d {
        match unsigned_decimal(s.skip(1)) {
            Some(v) => Some(-v),
            None => None,
        }
    } else {
        unsigned_decimal(s)
    }
}

/// The value of `n` digits is below the `n`-th power of ten; stated for the
/// lengths that fit a 32-bit integer.
pub proof fn lemma_digits_value_bound(s: Seq<u8>)
    requires
        all_digits(s),
        s.len() <= 9,
    ensures
        0 <= digits_value(s),
        s.len() <= 0 ==> digits_value(s) <= 0,
        s.len() <= 1 ==> digits_value(s) <= 9,
        s.len() <= 2 ==> digits_value(s) <= 99,
        s.len() <= 3 ==> digits_value(s) <= 999,
        s.len() <= 4 ==> digits_value(s) <= 9_999,
        s.len() <= 5 ==> digits_value(s) <= 99_999,
        s.len() <= 6 ==> digits_value(s) <= 999_999,
        s.len() <= 7 ==> digits_value(s) <= 9_999_999,
        s.len() <= 8 ==> digits_value(s) <= 99_999_999,
        s.len() <= 9 ==> digits_value(s) <= 999_999_999,
    decreases s.len(),
{
    if s.len() > 0 {
        let front = s.drop_last();
        assert(all_digits(front)) by {
            assert forall|i: int| 0 <= i < front.len() implies is_digit(#[trigger] front[i]) by {
                assert(front[i] == s[i]);
            }
        }
        lemma_digits_value_bound(front);
        assert(is_digit(s[s.len() - 1]));
    }
}

/// Reads a run of at most nine ASCII digits, starting at `from`, as a number.
fn parse_digits(s: &[u8], from: usize) -> (r: Option<i32>)
    requires
        from <= s@.len(),
        s@.len() - from <= 9,
    ensures
        match unsigned_decimal(s@.skip(from as int)) {
            Some(v) => r == Some(v as i32) && 0 <= v <= 999_999_999,
            None => r is None,
        },
{
    let ghost run = s@.skip(from as int);
    if from >= s.len() {
        return None;
    }
    let mut value: i32 = 0;
    let mut i: usize = from;
    while i < s.len()
        invariant
            from <= i <= s@.len(),
            s@.len() - from <= 9,
            run == s@.skip(from as int),
            all_digits(run.take(i - from)),
            value as int == digits_value(run.take(i - from)),
        decreases s@.len() - i,
    {
        let b = s[i];
        if b < 0x30 || b > 0x39 {
            assert(!is_digit(run[i - from]));
            return None;
        }
        proof {
            let before = run.take(i - from);
            let now = run.take(i - from + 1);
            assert(now.drop_last() == before);
            assert(now.last() == b);
            assert(all_digits(now)) by {
                assert forall|j: int| 0 <= j < now.len() implies is_digit(#[trigger] now[j]) by {
                    if j < before.len() {
                        assert(now[j] == before[j]);
                    }
                }
            }
            lemma_digits_value_bound(before);
        }
        value = value * 10 + (b - 0x30) as i32;
        i = i + 1;
    }
    proof {
        lemma_digits_value_bound(run.take(i - from));
    }
    assert(run.take(i - from) == run);
    Some(value)
}

/// Reads `s`, of at most nine bytes, as a decimal integer with an optional
/// sign in front.
pub fn parse_number(s: &[u8]) -> (r: Option<i32>)
    requires
        s@.len() <= 9,
    ensures
        match parse_decimal(s@) {
            Some(v) => r == Some(v as i32) && -999_999_999 <= v <= 999_999_999,
            None => r is None,
        },
{
    if s.len() > 0 && s[0] == 0x2b {
        parse_digits(s, 1)
    } else if s.len() > 0 && s[0] == 0x2d {
        match parse_digits(s, 1) {
            Some(v) => Some(-v),
            None => None,
        }
    } else {
        assert(s@.skip(0) == s@);
        parse_digits(s, 0)
    }
}

} // verus!
