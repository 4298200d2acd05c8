//! Character-level predicates shared by the decoder, the registry and the
//! encoder: whitespace, decimal-number syntax, and decimal rendering of
//! unsigned integers.

use vstd::prelude::*;

verus! {

/// XML whitespace.
pub open spec fn is_ws(c: char) -> bool {
    c == ' ' || c == '\t' || c == '\r' || c == '\n'
}

/// An ASCII decimal digit.
pub open spec fn is_digit(c: char) -> bool {
    48 <= c as u32 <= 57
}

/// How many `.` characters a text contains.
pub open spec fn dot_count(s: Seq<char>) -> nat
    decreases s.len(),
{
    if s.len() == 0 {
        0
    } else if s.last() == '.' {
        dot_count(s.drop_last()) + 1
    } else {
        dot_count(s.drop_last())
    }
}

/// The digits of a number text: what remains after an optional leading sign.
pub open spec fn number_body(s: Seq<char>) -> Seq<char> {
    if s.len() > 0 && (s[0] == '-' || s[0] == '+') {
        s.subrange(1, s.len() as int)
    } else {
        s
    }
}

/// A decimal number as the decoder accepts it for a numeric field: an
/// optional sign, then digits with at most one decimal point and at least
/// one digit.
pub open spec fn is_number(s: Seq<char>) -> bool {
    let t = number_body(s);
    &&& t.len() > 0
    &&& forall|i: int| 0 <= i < t.len() ==> is_digit(#[trigger] t[i]) || t[i] == '.'
    &&& dot_count(t) <= 1
    &&& t.len() > dot_count(t)
}

proof fn lemma_dot_count_push(s: Seq<char>, c: char)
    ensures
        dot_count(s.push(c)) == dot_count(s) + (if c == '.' { 1nat } else { 0nat }),
{
    assert(s.push(c).drop_last() =~= s);
    assert(s.push(c).last() == c);
}

/// Checks whether `s`, taken from index `from` to its end, is a well-formed
/// decimal number.
pub fn check_number_from(s: &str, from: usize) -> (r: bool)
    requires
        from <= s@.len(),
    ensures
        r == is_number(s@.subrange(from as int, s@.len() as int)),
{
    let n = s.unicode_len();
    let ghost whole = s@.subrange(from as int, s@.len() as int);
    let start: usize = if from < n {
        let c0 = s.get_char(from);
        if c0 == '-' || c0 == '+' {
            from + 1
        } else {
            from
        }
    } else {
        from
    };
    let ghost t = s@.subrange(start as int, s@.len() as int);
    proof {
        if whole.len() > 0 && (whole[0] == '-' || whole[0] == '+') {
            assert(t =~= whole.subrange(1, whole.len() as int));
        } else {
            assert(t =~= whole);
        }
        assert(t == number_body(whole));
    }
    if start == n {
        return false;
    }
    let mut i: usize = start;
    let mut dots: u64 = 0;
    let mut digits: u64 = 0;
    while i < n
        invariant
            start <= i <= n,
            from <= start,
            n == s@.len(),
            t == s@.subrange(start as int, n as int),
            t == number_body(s@.subrange(from as int, n as int)),
            dots == dot_count(s@.subrange(start as int, i as int)),
            digits <= i - start,
            dots <= i - start,
            dots + digits == i - start,
            forall|k: int|
                start <= k < i ==> is_digit(#[trigger] s@[k]) || s@[k] == '.',
        decreases n - i,
    {
        let c = s.get_char(i);
        let u = c as u32;
        proof {
            lemma_dot_count_push(s@.subrange(start as int, i as int), s@[i as int]);
            assert(s@.subrange(start as int, i as int + 1) =~= s@.subrange(
                start as int,
                i as int,
            ).push(s@[i as int]));
        }
        if c == '.' {
            dots = dots + 1;
        } else if 48 <= u && u <= 57 {
            digits = digits + 1;
        } else {
            proof {
                assert(t[i - start] == s@[i as int]);
            }
            return false;
        }
        i = i + 1;
    }
    proof {
        assert(t =~= s@.subrange(start as int, n as int));
        assert(forall|k: int| 0 <= k < t.len() ==> t[k] == s@[start + k]);
    }
    dots <= 1 && digits >= 1
}

/// Checks whether the whole of `s` is a well-formed decimal number.
pub fn check_number(s: &str) -> (r: bool)
    ensures
        r == is_number(s@),
{
    let ghost whole = s@.subrange(0, s@.len() as int);
    proof {
        assert(whole =~= s@);
    }
    check_number_from(s, 0)
}

} // verus!
