//! The texts of properties: what is cut off them, and the numbers that they
//! hold.

use vstd::prelude::*;
use vstd::string::*;

verus! {

/// Whether `c` is white space: the characters with Unicode's property
/// White_Space.
pub open spec fn is_white_space(c: char) -> bool {
    let code = c as u32;
    ||| 0x9 <= code <= 0xd
    ||| code == 0x20
    ||| code == 0x85
    ||| code == 0xa0
    ||| code == 0x1680
    ||| 0x2000 <= code <= 0x200a
    ||| code == 0x2028
    ||| code == 0x2029
    ||| code == 0x202f
    ||| code == 0x205f
    ||| code == 0x3000
}

/// `s` without the white space that it starts with.
pub open spec fn trimmed_start(s: Seq<char>) -> Seq<char>
    decreases s.len(),
{
    if s.len() > 0 && is_white_space(s[0]) {
        trimmed_start(s.skip(1))
    } else {
        s
    }
}

/// `s` without the white space that it ends with.
pub open spec fn trimmed_end(s: Seq<char>) -> Seq<char>
    decreases s.len(),
{
    if s.len() > 0 && is_white_space(s.last()) {
        trimmed_end(s.drop_last())
    } else {
        s
    }
}

/// `s` without the white space that it starts and ends with.
pub open spec fn trimmed(s: Seq<char>) -> Seq<char> {
    trimmed_end(trimmed_start(s))
}

/// `str::trim` cuts off the white space at both ends, where white space is what
/// Unicode's property White_Space says it is.
pub assume_specification[ str::trim ](s: &str) -> (r: &str)
    ensures
        r@ == trimmed(s@),
;

/// Whether `c` is a decimal digit.
pub open spec fn is_digit(c: char) -> bool {
    '0' <= c <= '9'
}

/// Whether `s` holds decimal digits only.
pub open spec fn all_digits(s: Seq<char>) -> bool {
    forall|i: int| 0 <= i < s.len() ==> is_digit(#[trigger] s[i])
}

/// The number that the decimal digits `s` spell.
pub open spec fn decimal_value(s: Seq<char>) -> nat
    decreases s.len(),
{
    if s.len() == 0 {
        0
    } else {
        10 * decimal_value(s.drop_last()) + (s.last() as nat - '0' as nat) as nat
    }
}

/// The part of a number's text that its digits are in: all but a plus sign in
/// front.
pub open spec fn digits_of(s: Seq<char>) -> Seq<char> {
    if s.len() > 0 && s[0] == '+' {
        s.skip(1)
    } else {
        s
    }
}

/// The number that `s` spells: decimal digits, at least one, with or without a
/// plus sign in front; the number must fit in 32 bits.
pub open spec fn parsed_u32(s: Seq<char>) -> Option<u32> {
    let digits = digits_of(s);
    if digits.len() > 0 && all_digits(digits) && decimal_value(digits) <= u32::MAX {
        Some(decimal_value(digits) as u32)
    } else {
        None
    }
}

proof fn lemma_decimal_prefix(s: Seq<char>, n: int)
    requires
        0 <= n <= s.len(),
    ensures
        decimal_value(s.take(n)) <= decimal_value(s),
    decreases s.len() - n,
{
    if n < s.len() {
        lemma_decimal_prefix(s, n + 1);
        assert(s.take(n + 1).drop_last() =~= s.take(n));
    } else {
        assert(s.take(n) =~= s);
    }
}

/// Reads a number out of `text`.
pub fn parse_u32(text: &str) -> (r: Option<u32>)
    ensures
        r == parsed_u32(text@),
{
    let len: usize = text.unicode_len();
    let start: usize = if len > 0 && text.get_char(0) == '+' {
        1
    } else {
        0
    };
    if start == len {
        return None;
    }
    let ghost digits = digits_of(text@);
    let mut value: u32 = 0;
    let mut i: usize = start;
    assert(digits.take(0) =~= Seq::<char>::empty());
    while i < len
        invariant
            start <= i <= len,
            len == text@.len(),
            digits == text@.skip(start as int),
            digits == digits_of(text@),
            value == decimal_value(digits.take(i - start)),
            all_digits(digits.take(i - start)),
        decreases len - i,
    {
        let c: char = text.get_char(i);
        let ghost next = digits.take(i + 1 - start);
        assert(next.drop_last() =~= digits.take(i - start));
        assert(next.last() == c);
        assert(digits[i - start] == c);
        if c < '0' || c > '9' {
            return None;
        }
        proof {
            lemma_decimal_prefix(digits, i + 1 - start);
        }
        let digit: u32 = c as u32 - '0' as u32;
        value = match value.checked_mul(10) {
            None => return None,
            Some(tens) => match tens.checked_add(digit) {
                None => return None,
                Some(next_value) => next_value,
            },
        };
        i = i + 1;
        assert forall|k: int| 0 <= k < next.len() implies is_digit(#[trigger] next[k]) by {
            if k < next.len() - 1 {
                assert(digits.take(i - 1 - start)[k] == next[k]);
            }
        }
    }
    assert(digits.take(len - start) =~= digits);
    Some(value)
}

proof fn lemma_trimmed_end_push(s: Seq<char>, c: char)
    requires
        is_white_space(c),
    ensures
        trimmed_end(s.push(c)) == trimmed_end(s),
{
    assert(s.push(c).drop_last() =~= s);
}

proof fn lemma_trimmed_start_push(s: Seq<char>, c: char)
    requires
        is_white_space(c),
    ensures
        trimmed_start(s).len() == 0 ==> trimmed_start(s.push(c)).len() == 0,
        trimmed_start(s).len() > 0 ==> trimmed_start(s.push(c)) == trimmed_start(s).push(c),
    decreases s.len(),
{
    let t = s.push(c);
    if s.len() == 0 {
        reveal_with_fuel(trimmed_start, 2);
        assert(t.skip(1) =~= Seq::<char>::empty());
    } else if is_white_space(s[0]) {
        assert(t.skip(1) =~= s.skip(1).push(c));
        lemma_trimmed_start_push(s.skip(1), c);
    }
}

/// White space at the end of a text, such as the end of a line, does not change
/// what is left of it.
pub proof fn law_white_space_at_the_end_is_ignored(s: Seq<char>, c: char)
    requires
        is_white_space(c),
    ensures
        trimmed(s.push(c)) == trimmed(s),
{
    lemma_trimmed_start_push(s, c);
    if trimmed_start(s).len() > 0 {
        lemma_trimmed_end_push(trimmed_start(s), c);
    } else {
        assert(trimmed_start(s) =~= Seq::<char>::empty());
        assert(trimmed_start(s.push(c)) =~= Seq::<char>::empty());
    }
}

} // verus!
