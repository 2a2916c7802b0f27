//! The library's reading of numeric text: decimal integer values, and the
//! shape a cleaned cell must have to count as a floating-point number.

use vstd::prelude::*;

verus! {

/// c is an ASCII decimal digit.
pub open spec fn is_digit(c: char) -> bool {
    '0' <= c && c <= '9'
}

/// The numeric value of one digit character.
pub open spec fn digit_val(c: char) -> int {
    c as int - '0' as int
}

/// Every character of s is an ASCII decimal digit.
pub open spec fn all_digits(s: Seq<char>) -> bool {
    forall|i: int| 0 <= i < s.len() ==> is_digit(#[trigger] s[i])
}

/// The numeric value of an all-digit string, most significant digit first.
pub open spec fn digits_val(s: Seq<char>) -> int
    decreases s.len(),
{
    if s.len() == 0 {
        0
    } else {
        digits_val(s.drop_last()) * 10 + digit_val(s.last())
    }
}

/// The value of a decimal integer string: an optional sign followed by one
/// or more digits; `None` when the string has any other shape.
pub open spec fn int_of_str(s: Seq<char>) -> Option<int> {
    if s.len() > 0 && (s[0] == '-' || s[0] == '+') {
        if s.len() > 1 && all_digits(s.skip(1)) {
            if s[0] == '-' {
                Some(-digits_val(s.skip(1)))
            } else {
                Some(digits_val(s.skip(1)))
            }
        } else {
            None
        }
    } else {
        if s.len() > 0 && all_digits(s) {
            Some(digits_val(s))
        } else {
            None
        }
    }
}

/// The value of a decimal integer string when it fits a 32-bit signed
/// integer; `None` when malformed or out of range.
pub open spec fn i32_of_str(s: Seq<char>) -> Option<i32> {
    match int_of_str(s) {
        Some(v) => if i32::MIN <= v <= i32::MAX {
            Some(v as i32)
        } else {
            None
        },
        None => None,
    }
}

/// An all-digit string has a nonnegative value.
pub proof fn lemma_digits_val_nonneg(s: Seq<char>)
    requires
        all_digits(s),
    ensures
        digits_val(s) >= 0,
    decreases s.len(),
{
    if s.len() > 0 {
        assert(all_digits(s.drop_last()));
        lemma_digits_val_nonneg(s.drop_last());
    }
}

/// Extending an all-digit string never lowers its value.
pub proof fn lemma_digits_val_prefix(s: Seq<char>, k: int)
    requires
        all_digits(s),
        0 <= k <= s.len(),
    ensures
        digits_val(s) >= digits_val(s.take(k)),
    decreases s.len() - k,
{
    if k < s.len() {
        lemma_digits_val_prefix(s, k + 1);
        let t = s.take(k + 1);
        assert(t.drop_last() =~= s.take(k));
        assert(all_digits(s.take(k)));
        lemma_digits_val_nonneg(s.take(k));
        assert(digits_val(t) == digits_val(s.take(k)) * 10 + digit_val(s[k]));
    } else {
        assert(s.take(k) =~= s);
    }
}

/// The number of '.' characters in s.
pub open spec fn dot_count(s: Seq<char>) -> int
    decreases s.len(),
{
    if s.len() == 0 {
        0
    } else {
        dot_count(s.drop_last()) + if s.last() == '.' {
            1int
        } else {
            0int
        }
    }
}

/// The body of a number text (after any sign): nonempty, made of digits and
/// dots only, with at least one digit and at most one dot.
pub open spec fn float_body_ok(s: Seq<char>) -> bool {
    &&& forall|i: int| 0 <= i < s.len() ==> (is_digit(#[trigger] s[i]) || s[i] == '.')
    &&& exists|i: int| 0 <= i < s.len() && is_digit(#[trigger] s[i])
    &&& dot_count(s) <= 1
}

/// Whether a cleaned cell counts as a floating-point number: an optional
/// sign, then a body of digits with at most one decimal point.
pub open spec fn float_text_ok(s: Seq<char>) -> bool {
    if s.len() > 0 && (s[0] == '-' || s[0] == '+') {
        float_body_ok(s.skip(1))
    } else {
        float_body_ok(s)
    }
}

/// Parses decimal integer text into a 32-bit signed integer, exactly as
/// [`i32_of_str`] reads it: `None` when malformed or out of range.
pub fn i32_from_text(s: &str) -> (r: Option<i32>)
    ensures
        r == i32_of_str(s@),
{
    let n = s.unicode_len();
    if n == 0 {
        return None;
    }
    let first = s.get_char(0);
    let neg = first == '-';
    let signed = neg || first == '+';
    let start: usize = if signed {
        1
    } else {
        0
    };
    if start >= n {
        return None;
    }
    let bound: u64 = if neg {
        2147483648
    } else {
        2147483647
    };
    let mut acc: u64 = 0;
    let mut i: usize = start;
    while i < n
        invariant
            n == s@.len(),
            start <= i <= n,
            start < n,
            start == 1 <==> (s@[0] == '-' || s@[0] == '+'),
            signed == (s@[0] == '-' || s@[0] == '+'),
            neg == (s@[0] == '-'),
            start == if signed { 1int } else { 0int },
            bound == if neg { 2147483648u64 } else { 2147483647u64 },
            all_digits(s@.subrange(start as int, i as int)),
            acc == digits_val(s@.subrange(start as int, i as int)),
            acc <= bound,
        decreases n - i,
    {
        let c = s.get_char(i);
        if !(c >= '0' && c <= '9') {
            proof {
                assert(s@.skip(0) =~= s@);
                let body = s@.skip(start as int);
                assert(!is_digit(body[i - start as int]));
            }
            return None;
        }
        let d: u64 = (c as u32 - 48) as u64;
        let next = acc * 10 + d;
        if next > bound {
            proof {
                assert(s@.skip(0) =~= s@);
                let body = s@.skip(start as int);
                if all_digits(body) {
                    let k = i - start + 1;
                    assert(body.take(k as int) =~= s@.subrange(start as int, i + 1));
                    assert(s@.subrange(start as int, i + 1).drop_last() =~= s@.subrange(
                        start as int,
                        i as int,
                    ));
                    assert(digits_val(body.take(k as int)) == next);
                    lemma_digits_val_prefix(body, k as int);
                }
            }
            return None;
        }
        acc = next;
        proof {
            assert(s@.subrange(start as int, i + 1).drop_last() =~= s@.subrange(
                start as int,
                i as int,
            ));
        }
        i = i + 1;
    }
    proof {
        assert(s@.skip(0) =~= s@);
        assert(s@.subrange(start as int, n as int) =~= s@.skip(start as int));
    }
    if neg {
        let v = -(acc as i64);
        Some(v as i32)
    } else {
        Some(acc as i32)
    }
}

/// Whether a cell's cleaned text counts as a floating-point number, exactly
/// as [`float_text_ok`] reads it.
pub fn float_text_valid(s: &str) -> (r: bool)
    ensures
        r == float_text_ok(s@),
{
    let n = s.unicode_len();
    let mut start: usize = 0;
    if n > 0 {
        let c = s.get_char(0);
        if c == '-' || c == '+' {
            start = 1;
        }
    }
    let mut saw_digit = false;
    let mut dots: usize = 0;
    let mut all_ok = true;
    let mut i: usize = start;
    while i < n
        invariant
            n == s@.len(),
            start == 0 || start == 1,
            start <= n,
            i >= start,
            i <= n,
            start == 1 ==> n > 0 && (s@[0] == '-' || s@[0] == '+'),
            start == 0 && n > 0 ==> !(s@[0] == '-' || s@[0] == '+'),
            all_ok <==> (forall|j: int|
                start <= j < i ==> (is_digit(#[trigger] s@[j]) || s@[j] == '.')),
            saw_digit <==> (exists|j: int| start <= j < i && is_digit(#[trigger] s@[j])),
            dots == dot_count(s@.subrange(start as int, i as int)),
            dots <= i,
        decreases n - i,
    {
        let c = s.get_char(i);
        if c >= '0' && c <= '9' {
            saw_digit = true;
        } else if c == '.' {
            dots = dots + 1;
        } else {
            all_ok = false;
        }
        proof {
            assert(s@.subrange(start as int, i + 1).drop_last() =~= s@.subrange(
                start as int,
                i as int,
            ));
        }
        i = i + 1;
    }
    let ok = all_ok && saw_digit && dots <= 1;
    proof {
        assert(s@.skip(0) =~= s@);
        let body = s@.skip(start as int);
        assert(body =~= s@.subrange(start as int, n as int));
        if ok {
            assert forall|j: int| 0 <= j < body.len() implies (is_digit(#[trigger] body[j])
                || body[j] == '.') by {
                assert(body[j] == s@[start + j]);
            }
            assert(float_body_ok(body)) by {
                let w = choose|j: int| start <= j < n && is_digit(#[trigger] s@[j]);
                assert(body[w - start] == s@[w]);
                assert(is_digit(body[w - start]));
            }
        }
        if float_body_ok(body) {
            assert forall|j: int| start <= j < n implies (is_digit(#[trigger] s@[j]) || s@[j]
                == '.') by {
                assert(s@[j] == body[j - start]);
            }
            let w = choose|j: int| 0 <= j < body.len() && is_digit(#[trigger] body[j]);
            assert(body[w] == s@[w + start]);
            assert(is_digit(s@[w + start]));
        }
    }
    ok
}

} // verus!
