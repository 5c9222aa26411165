//! Numbers in messages.

use vstd::prelude::*;
use vstd::string::*;

verus! {

/// The lower-case hexadecimal digit for a number below 16.
pub open spec fn hex_digit(n: nat) -> char {
    if n < 10 {
        (('0' as nat + n) as char)
    } else {
        (('a' as nat + (n - 10)) as char)
    }
}

/// The hexadecimal digits of `n`, without leading zeros.
pub open spec fn hex_digits(n: nat) -> Seq<char>
    decreases n,
{
    if n < 16 {
        seq![hex_digit(n)]
    } else {
        hex_digits(n / 16).push(hex_digit(n % 16))
    }
}

fn digit_text(n: u32) -> (text: &'static str)
    requires
        n < 16,
    ensures
        text@ == seq![hex_digit(n as nat)],
{
    proof {
        reveal_strlit("0");
        reveal_strlit("1");
        reveal_strlit("2");
        reveal_strlit("3");
        reveal_strlit("4");
        reveal_strlit("5");
        reveal_strlit("6");
        reveal_strlit("7");
        reveal_strlit("8");
        reveal_strlit("9");
        reveal_strlit("a");
        reveal_strlit("b");
        reveal_strlit("c");
        reveal_strlit("d");
        reveal_strlit("e");
        reveal_strlit("f");
    }
    let text: &'static str = match n {
        0 => "0",
        1 => "1",
        2 => "2",
        3 => "3",
        4 => "4",
        5 => "5",
        6 => "6",
        7 => "7",
        8 => "8",
        9 => "9",
        10 => "a",
        11 => "b",
        12 => "c",
        13 => "d",
        14 => "e",
        _ => "f",
    };
    assert(text@ =~= seq![hex_digit(n as nat)]);
    text
}

/// Appends the hexadecimal digits of `n` to `text`.
pub fn push_hex(text: &mut String, n: u32)
    ensures
        final(text)@ == old(text)@ + hex_digits(n as nat),
    decreases n,
{
    if n < 16 {
        text.append(digit_text(n));
    } else {
        let ghost before = text@;
        push_hex(text, n / 16);
        text.append(digit_text(n % 16));
        assert(text@ =~= before + hex_digits(n as nat));
    }
}

} // verus!
