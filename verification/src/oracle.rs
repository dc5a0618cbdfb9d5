//! Reading the time that the time oracle reports: a count of seconds written
//! in decimal digits.

use vstd::prelude::*;

verus! {

/// The value of a decimal digit; absent for any other character.
pub open spec fn digit_value(c: char) -> Option<int> {
    if '0' <= c <= '9' {
        Some(c as int - '0' as int)
    } else {
        None
    }
}

/// The number that a run of decimal digits writes, zero for the empty run;
/// absent where a character is no digit.
pub open spec fn digits_value(s: Seq<char>) -> Option<int>
    decreases s.len(),
{
    if s.len() == 0 {
        Some(0)
    } else {
        match (digits_value(s.drop_last()), digit_value(s.last())) {
            (Some(v), Some(d)) => Some(v * 10 + d),
            _ => None,
        }
    }
}

/// The digits of a reported time: all of it, but for one leading `+`.
pub open spec fn time_digits(s: Seq<char>) -> Seq<char> {
    if s.len() > 0 && s[0] == '+' {
        s.drop_first()
    } else {
        s
    }
}

/// The count of seconds that `s` writes: at least one decimal digit after
/// at most one leading `+`, and no more than a `u64` holds; absent otherwise.
pub open spec fn parsed_time(s: Seq<char>) -> Option<u64> {
    let digits = time_digits(s);
    if digits.len() == 0 {
        None
    } else {
        match digits_value(digits) {
            Some(v) => if v <= u64::MAX {
                Some(v as u64)
            } else {
                None
            },
            None => None,
        }
    }
}

/// A run of digits writes no number where a part of it from the start
/// writes none, and no smaller number than that part does.
pub proof fn lemma_digits_grow(s: Seq<char>, k: int)
    requires
        0 <= k <= s.len(),
    ensures
        digits_value(s.take(k)) is None ==> digits_value(s) is None,
        digits_value(s) matches Some(v) ==> digits_value(s.take(k)) matches Some(w) && 0 <= w <= v,
    decreases s.len() - k,
{
    if k == s.len() {
        assert(s.take(k) =~= s);
        lemma_digits_nonnegative(s);
    } else {
        lemma_digits_grow(s, k + 1);
        assert(s.take(k + 1).drop_last() =~= s.take(k));
        lemma_digits_nonnegative(s.take(k));
    }
}

/// The number that a run of digits writes is not negative.
pub proof fn lemma_digits_nonnegative(s: Seq<char>)
    ensures
        digits_value(s) matches Some(v) ==> v >= 0,
    decreases s.len(),
{
    if s.len() > 0 {
        lemma_digits_nonnegative(s.drop_last());
    }
}

/// Reads the count of seconds that `data` writes.
pub fn parse_time(data: &str) -> (r: Option<u64>)
    ensures
        r == parsed_time(data@),
{
    let n = data.unicode_len();
    let mut i: usize = 0;
    if n > 0 && data.get_char(0) == '+' {
        i = 1;
    }
    let start = i;
    if i == n {
        return None;
    }
    let ghost digits = time_digits(data@);
    proof {
        if start == 1 {
            assert(digits =~= data@.subrange(1, n as int));
        }
    }
    let mut value: u64 = 0;
    while i < n
        invariant
            start <= i <= n,
            n == data@.len(),
            start <= 1,
            digits == time_digits(data@),
            digits.len() == n - start,
            forall|j: int| 0 <= j < digits.len() ==> digits[j] == data@[j + start],
            digits_value(digits.take(i - start)) == Some(value as int),
        decreases n - i,
    {
        let c = data.get_char(i);
        proof {
            assert(digits.take(i - start + 1).drop_last() =~= digits.take(i - start));
            assert(digits.take(i - start + 1).last() == c);
            lemma_digits_grow(digits, i - start + 1);
        }
        if c < '0' || c > '9' {
            return None;
        }
        let d = (c as u32 - '0' as u32) as u64;
        let next = match value.checked_mul(10) {
            Some(v) => v.checked_add(d),
            None => None,
        };
        match next {
            Some(v) => {
                value = v;
            },
            None => {
                return None;
            },
        }
        i = i + 1;
    }
    proof {
        assert(digits.take(n - start) =~= digits);
    }
    Some(value)
}

} // verus!
