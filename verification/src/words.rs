//! Numbers at places of a buffer, written out byte by byte, and what the
//! functions on bytes come to in these terms.

use crate::bytes::{
    be_u16_at, be_value, bytes_of, clear, code_of, i32_at, i32_bytes, le_u32_prefix, le_value,
    lemma_byte_widths, lemma_value_of_bytes_of, store, u32_at, u32_bytes, u64_at, u64_bytes,
    ByteOrder,
};
use vstd::prelude::*;

verus! {

/// The four bytes at `at`, the least significant first.
pub open spec fn le_word(s: Seq<u8>, at: int) -> int {
    s[at] + 0x100 * s[at + 1] + 0x1_0000 * s[at + 2] + 0x100_0000 * s[at + 3]
}

/// The eight bytes at `at`, the least significant first.
pub open spec fn le_long(s: Seq<u8>, at: int) -> int {
    le_word(s, at) + 0x1_0000_0000 * le_word(s, at + 4)
}

/// The two bytes at `at`, the most significant first.
pub open spec fn be_half(s: Seq<u8>, at: int) -> int {
    0x100 * s[at] + s[at + 1]
}

/// The four bytes at `at`, the most significant first.
pub open spec fn be_word(s: Seq<u8>, at: int) -> int {
    0x1_0000 * be_half(s, at) + be_half(s, at + 2)
}

/// The eight bytes at `at`, the most significant first.
pub open spec fn be_long(s: Seq<u8>, at: int) -> int {
    0x1_0000_0000 * be_word(s, at) + be_word(s, at + 4)
}

/// The four bytes at `at` in the given order.
pub open spec fn word(order: ByteOrder, s: Seq<u8>, at: int) -> int {
    match order {
        ByteOrder::Little => le_word(s, at),
        ByteOrder::Big => be_word(s, at),
    }
}

/// The eight bytes at `at` in the given order.
pub open spec fn long(order: ByteOrder, s: Seq<u8>, at: int) -> int {
    match order {
        ByteOrder::Little => le_long(s, at),
        ByteOrder::Big => be_long(s, at),
    }
}

/// The byte at `i`, or 0 past the end.
pub open spec fn padded(s: Seq<u8>, i: int) -> int {
    if i < s.len() {
        s[i] as int
    } else {
        0
    }
}

/// The first four bytes, the least significant first, with zeros in place of
/// those that are missing.
pub open spec fn le_prefix(s: Seq<u8>) -> int {
    padded(s, 0) + 0x100 * padded(s, 1) + 0x1_0000 * padded(s, 2) + 0x100_0000 * padded(s, 3)
}

/// The signed number that the unsigned 32-bit number `code` stands for.
pub open spec fn signed(code: int) -> int {
    if code < 0x8000_0000 {
        code
    } else {
        code - 0x1_0000_0000
    }
}

proof fn lemma_le4(s: Seq<u8>)
    requires
        s.len() == 4,
    ensures
        le_value(s) == le_word(s, 0),
{
    reveal_with_fuel(le_value, 5);
}

proof fn lemma_le8(s: Seq<u8>)
    requires
        s.len() == 8,
    ensures
        le_value(s) == le_long(s, 0),
{
    let a = s.skip(1).skip(1).skip(1).skip(1);
    assert(a =~= s.skip(4));
    lemma_le4(s.skip(4));
    reveal_with_fuel(le_value, 5);
}

/// Two, four or eight bytes of a buffer spell the number that they are written
/// out as.
pub proof fn lemma_words(s: Seq<u8>, at: int)
    requires
        0 <= at,
    ensures
        at + 2 <= s.len() ==> be_value(s.subrange(at, at + 2)) == be_half(s, at),
        at + 4 <= s.len() ==> le_value(s.subrange(at, at + 4)) == le_word(s, at),
        at + 4 <= s.len() ==> be_value(s.subrange(at, at + 4)) == be_word(s, at),
        at + 8 <= s.len() ==> le_value(s.subrange(at, at + 8)) == le_long(s, at),
        at + 8 <= s.len() ==> be_value(s.subrange(at, at + 8)) == be_long(s, at),
{
    if at + 2 <= s.len() {
        reveal_with_fuel(le_value, 3);
    }
    if at + 4 <= s.len() {
        lemma_le4(s.subrange(at, at + 4));
        lemma_le4(s.subrange(at, at + 4).reverse());
    }
    if at + 8 <= s.len() {
        lemma_le8(s.subrange(at, at + 8));
        lemma_le8(s.subrange(at, at + 8).reverse());
    }
}

/// The bytes of a number of four or eight bytes, which stand in `s` at `at`, are
/// written out as that number.
pub proof fn lemma_written(s: Seq<u8>, at: int, order: ByteOrder, v: nat)
    requires
        0 <= at,
    ensures
        v < 0x1_0000_0000 && at + 4 <= s.len() && s.subrange(at, at + 4) == bytes_of(
            order,
            v,
            4,
        ) ==> word(order, s, at) == v,
        v < 0x1_0000_0000_0000_0000 && at + 8 <= s.len() && s.subrange(at, at + 8)
            == bytes_of(order, v, 8) ==> long(order, s, at) == v,
{
    lemma_byte_widths();
    lemma_words(s, at);
    if v < 0x1_0000_0000 {
        lemma_value_of_bytes_of(order, v, 4);
    }
    if v < 0x1_0000_0000_0000_0000 {
        lemma_value_of_bytes_of(order, v, 8);
    }
}

/// The same bytes are written out as the same number wherever they stand.
pub proof fn lemma_same_bytes(s: Seq<u8>, at: int, bytes: Seq<u8>)
    requires
        0 <= at,
        at + bytes.len() <= s.len(),
        s.subrange(at, at + bytes.len()) == bytes,
    ensures
        bytes.len() >= 4 ==> le_word(s, at) == le_word(bytes, 0),
        bytes.len() >= 8 ==> le_long(s, at) == le_long(bytes, 0),
{
    let t = s.subrange(at, at + bytes.len());
    if bytes.len() >= 4 {
        assert(t[0] == s[at] && t[1] == s[at + 1] && t[2] == s[at + 2] && t[3] == s[at + 3]);
    }
    if bytes.len() >= 8 {
        assert(t[4] == s[at + 4] && t[5] == s[at + 5] && t[6] == s[at + 6] && t[7] == s[at + 7]);
    }
}

/// The two's complement form of a signed number stands for that number.
pub proof fn lemma_signed_code(v: i32)
    ensures
        signed(code_of(v) as int) == v,
        code_of(v) < 0x1_0000_0000,
{
}

/// Numbers read out of a buffer are those that their bytes spell, in the order
/// that was asked for.
pub proof fn law_numbers_are_read(
    order: ByteOrder,
    buf: &[u8],
    at: usize,
    a: u32,
    b: u64,
    c: i32,
    d: u16,
)
    requires
        at + 8 <= buf@.len(),
        call_ensures(u32_at, (order, buf, at), a),
        call_ensures(u64_at, (order, buf, at), b),
        call_ensures(i32_at, (order, buf, at), c),
        call_ensures(be_u16_at, (buf, at), d),
    ensures
        a == word(order, buf@, at as int),
        b == long(order, buf@, at as int),
        c == signed(word(order, buf@, at as int)),
        d == be_half(buf@, at as int),
{
    lemma_words(buf@, at as int);
    lemma_signed_code(c);
}

/// The first bytes of a buffer, four at most, spell the number that they are
/// written out as.
pub proof fn lemma_prefix(s: Seq<u8>)
    ensures
        le_value(
            s.take(
                if s.len() < 4 {
                    s.len() as int
                } else {
                    4
                },
            ),
        ) == le_prefix(s),
{
    reveal_with_fuel(le_value, 5);
}

/// The number in front of a buffer has the first byte as its least significant
/// one, and zeros in place of the bytes that are missing.
pub proof fn law_prefix_is_padded(buf: &[u8], v: u32)
    requires
        call_ensures(le_u32_prefix, (buf,), v),
    ensures
        v == le_prefix(buf@),
{
    lemma_prefix(buf@);
}

/// The bytes that a number is written as spell that number, in the order that
/// was asked for.
pub proof fn law_numbers_are_written(
    order: ByteOrder,
    a: u32,
    b: u64,
    c: i32,
    for_a: Vec<u8>,
    for_b: Vec<u8>,
    for_c: Vec<u8>,
)
    requires
        call_ensures(u32_bytes, (order, a), for_a),
        call_ensures(u64_bytes, (order, b), for_b),
        call_ensures(i32_bytes, (order, c), for_c),
    ensures
        for_a@.len() == 4 && word(order, for_a@, 0) == a,
        for_b@.len() == 8 && long(order, for_b@, 0) == b,
        for_c@.len() == 4 && signed(word(order, for_c@, 0)) == c,
{
    lemma_signed_code(c);
    lemma_written(for_a@, 0, order, a as nat);
    lemma_written(for_b@, 0, order, b as nat);
    lemma_written(for_c@, 0, order, code_of(c));
    assert(for_a@.subrange(0, 4) =~= for_a@);
    assert(for_b@.subrange(0, 8) =~= for_b@);
    assert(for_c@.subrange(0, 4) =~= for_c@);
}

/// Storing bytes puts each in its place and leaves all others; clearing leaves
/// zeros.
pub proof fn law_buffers_change_where_asked(
    buf: &mut [u8],
    start: usize,
    data: &[u8],
    cleared: &mut [u8],
    i: int,
)
    requires
        start + data@.len() <= buf@.len(),
        call_ensures(store, (buf, start, data), ()),
        call_ensures(clear, (cleared,), ()),
    ensures
        final(buf)@.len() == old(buf)@.len(),
        0 <= i < data@.len() ==> final(buf)@[start + i] == data@[i],
        0 <= i < start || start + data@.len() <= i < old(buf)@.len() ==> final(buf)@[i]
            == old(buf)@[i],
        final(cleared)@.len() == old(cleared)@.len(),
        0 <= i < old(cleared)@.len() ==> final(cleared)@[i] == 0,
{
}

} // verus!
