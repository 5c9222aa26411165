//! Numbers as bytes, in either byte order, and updates of byte buffers.

use vstd::arithmetic::power::{lemma_pow0, lemma_pow_positive, pow};
use vstd::prelude::*;

verus! {

/// The order in which a number's bytes stand in memory.
#[derive(Clone, Copy, Debug, PartialEq, Eq, Structural)]
pub enum ByteOrder {
    /// Least significant byte first.
    Little,
    /// Most significant byte first.
    Big,
}

/// The number that `s` spells with its least significant byte first.
pub open spec fn le_value(s: Seq<u8>) -> nat
    decreases s.len(),
{
    if s.len() == 0 {
        0
    } else {
        s[0] as nat + 256 * le_value(s.skip(1))
    }
}

/// The number that `s` spells with its most significant byte first.
pub open spec fn be_value(s: Seq<u8>) -> nat {
    le_value(s.reverse())
}

/// The `n` low bytes of `v`, the least significant first.
pub open spec fn le_bytes(v: nat, n: nat) -> Seq<u8>
    decreases n,
{
    if n == 0 {
        Seq::empty()
    } else {
        seq![(v % 256) as u8] + le_bytes(v / 256, (n - 1) as nat)
    }
}

/// The `n` low bytes of `v`, the most significant first.
pub open spec fn be_bytes(v: nat, n: nat) -> Seq<u8> {
    le_bytes(v, n).reverse()
}

/// The number that `s` spells in the given order.
pub open spec fn value_of(order: ByteOrder, s: Seq<u8>) -> nat {
    match order {
        ByteOrder::Little => le_value(s),
        ByteOrder::Big => be_value(s),
    }
}

/// The `n` low bytes of `v` in the given order.
pub open spec fn bytes_of(order: ByteOrder, v: nat, n: nat) -> Seq<u8> {
    match order {
        ByteOrder::Little => le_bytes(v, n),
        ByteOrder::Big => be_bytes(v, n),
    }
}

/// The two's complement form of a signed 32-bit number.
pub open spec fn code_of(v: i32) -> nat {
    if v >= 0 {
        v as nat
    } else {
        (v + 0x1_0000_0000) as nat
    }
}

/// `buf` with the bytes from `start` on replaced by `data`.
pub open spec fn spliced(buf: Seq<u8>, start: int, data: Seq<u8>) -> Seq<u8> {
    Seq::new(
        buf.len(),
        |i: int|
            if start <= i < start + data.len() {
                data[i - start]
            } else {
                buf[i]
            },
    )
}

/// `n` zero bytes.
pub open spec fn zeros(n: nat) -> Seq<u8> {
    Seq::new(n, |i: int| 0u8)
}

/// A number fits in as many bytes as spell it.
pub proof fn lemma_le_value_bound(s: Seq<u8>)
    ensures
        le_value(s) < pow(256, s.len()),
    decreases s.len(),
{
    lemma_pow0(256);
    if s.len() > 0 {
        lemma_le_value_bound(s.skip(1));
        lemma_pow_step(s.skip(1).len());
    }
}

proof fn lemma_pow_step(n: nat)
    ensures
        pow(256, n + 1) == 256 * pow(256, n),
        pow(256, n) > 0,
{
    reveal(pow);
    lemma_pow_positive(256, n);
}

/// The bounds of one, two, four and eight bytes.
pub proof fn lemma_byte_widths()
    ensures
        pow(256, 0) == 1,
        pow(256, 1) == 0x100,
        pow(256, 2) == 0x1_0000,
        pow(256, 3) == 0x100_0000,
        pow(256, 4) == 0x1_0000_0000,
        pow(256, 8) == 0x1_0000_0000_0000_0000,
{
    lemma_pow0(256);
    lemma_pow_step(0);
    lemma_pow_step(1);
    lemma_pow_step(2);
    lemma_pow_step(3);
    lemma_pow_step(4);
    lemma_pow_step(5);
    lemma_pow_step(6);
    lemma_pow_step(7);
}

pub proof fn lemma_le_bytes_len(v: nat, n: nat)
    ensures
        le_bytes(v, n).len() == n,
    decreases n,
{
    if n > 0 {
        lemma_le_bytes_len(v / 256, (n - 1) as nat);
    }
}

/// In either order, `n` bytes hold as many as were asked for.
pub proof fn lemma_bytes_of_len(order: ByteOrder, v: nat, n: nat)
    ensures
        bytes_of(order, v, n).len() == n,
{
    lemma_le_bytes_len(v, n);
}

proof fn lemma_le_round_trip(v: nat, n: nat)
    requires
        v < pow(256, n),
    ensures
        le_value(le_bytes(v, n)) == v,
    decreases n,
{
    lemma_pow0(256);
    if n > 0 {
        let m = (n - 1) as nat;
        lemma_pow_step(m);
        lemma_le_round_trip(v / 256, m);
        assert(le_bytes(v, n).skip(1) =~= le_bytes(v / 256, m));
    }
}

/// A number written in `n` bytes reads back as itself, in either order, where
/// it fits in `n` bytes.
pub proof fn lemma_value_of_bytes_of(order: ByteOrder, v: nat, n: nat)
    requires
        v < pow(256, n),
    ensures
        value_of(order, bytes_of(order, v, n)) == v,
{
    lemma_le_round_trip(v, n);
    assert(le_bytes(v, n).reverse().reverse() =~= le_bytes(v, n));
}

/// The two's complement forms of two numbers are equal only where the numbers
/// are, and fit in four bytes.
pub proof fn lemma_code_of_injective(a: i32, b: i32)
    ensures
        code_of(a) < 0x1_0000_0000,
        code_of(a) == code_of(b) ==> a == b,
{
}

/// Reads `width` bytes of `buf` at `at` as a number, least significant first.
fn read_le(buf: &[u8], at: usize, width: usize) -> (v: u64)
    requires
        width <= 8,
        at + width <= buf@.len(),
    ensures
        v == le_value(buf@.subrange(at as int, at + width)),
{
    let mut v: u64 = 0;
    let mut i: usize = width;
    let end: usize = buf.len();
    let ghost whole = buf@.subrange(at as int, at + width);
    assert(whole.skip(width as int) =~= Seq::<u8>::empty());
    while i > 0
        invariant
            i <= width <= 8,
            at + width <= end,
            end == buf@.len(),
            whole == buf@.subrange(at as int, at + width),
            v == le_value(whole.skip(i as int)),
        decreases i,
    {
        i = i - 1;
        let ghost rest = whole.skip(i as int);
        proof {
            assert(rest.skip(1) =~= whole.skip(i + 1));
            lemma_le_value_bound(rest);
            lemma_pow_monotone(rest.len(), 8);
            lemma_byte_widths();
            assert(le_value(rest) == rest[0] as nat + 256 * le_value(rest.skip(1)));
        }
        let b: u8 = buf[at + i];
        assert(b == rest[0]);
        v = v * 256 + b as u64;
    }
    assert(whole.skip(0) =~= whole);
    v
}

proof fn lemma_pow_monotone(a: nat, b: nat)
    requires
        a <= b,
    ensures
        pow(256, a) <= pow(256, b),
    decreases b,
{
    if a < b {
        lemma_pow_monotone(a, (b - 1) as nat);
        lemma_pow_step((b - 1) as nat);
    }
}

/// Reads `width` bytes of `buf` at `at` as a number, most significant first.
fn read_be(buf: &[u8], at: usize, width: usize) -> (v: u64)
    requires
        width <= 8,
        at + width <= buf@.len(),
    ensures
        v == be_value(buf@.subrange(at as int, at + width)),
{
    let mut v: u64 = 0;
    let mut i: usize = 0;
    let end: usize = buf.len();
    assert(buf@.subrange(at as int, at as int).reverse() =~= Seq::<u8>::empty());
    while i < width
        invariant
            i <= width <= 8,
            at + width <= end,
            end == buf@.len(),
            v == be_value(buf@.subrange(at as int, at + i)),
        decreases width - i,
    {
        let b: u8 = buf[at + i];
        let ghost next = buf@.subrange(at as int, at + i + 1).reverse();
        proof {
            assert(next.skip(1) =~= buf@.subrange(at as int, at + i).reverse());
            lemma_le_value_bound(next);
            lemma_pow_monotone(next.len(), 8);
            lemma_byte_widths();
            assert(le_value(next) == next[0] as nat + 256 * le_value(next.skip(1)));
            assert(next[0] == b);
        }
        v = v * 256 + b as u64;
        i = i + 1;
    }
    v
}

/// The `width` low bytes of `v`, least significant first.
fn to_le(v: u64, width: usize) -> (out: Vec<u8>)
    ensures
        out@ == le_bytes(v as nat, width as nat),
{
    let mut out: Vec<u8> = Vec::new();
    let mut rest: u64 = v;
    let mut i: usize = 0;
    assert(out@ + le_bytes(v as nat, width as nat) =~= le_bytes(v as nat, width as nat));
    while i < width
        invariant
            i <= width,
            out@ + le_bytes(rest as nat, (width - i) as nat) == le_bytes(v as nat, width as nat),
        decreases width - i,
    {
        let ghost before = out@;
        let ghost tail = le_bytes((rest / 256) as nat, (width - i - 1) as nat);
        out.push((rest % 256) as u8);
        assert(before + (seq![(rest % 256) as u8] + tail) =~= out@ + tail);
        rest = rest / 256;
        i = i + 1;
    }
    assert(out@ + le_bytes(rest as nat, 0) =~= out@);
    out
}

/// The `width` low bytes of `v` in the given order.
fn to_bytes(order: ByteOrder, v: u64, width: usize) -> (out: Vec<u8>)
    ensures
        out@ == bytes_of(order, v as nat, width as nat),
{
    let le = to_le(v, width);
    match order {
        ByteOrder::Little => le,
        ByteOrder::Big => {
            let mut out: Vec<u8> = Vec::new();
            let mut i: usize = le.len();
            while i > 0
                invariant
                    i <= le@.len(),
                    out@ == le@.skip(i as int).reverse(),
                decreases i,
            {
                i = i - 1;
                out.push(le[i]);
                assert(out@ =~= le@.skip(i as int).reverse());
            }
            assert(le@.skip(0) =~= le@);
            out
        },
    }
}

/// The 32-bit number at `at`, in the given order.
pub fn u32_at(order: ByteOrder, buf: &[u8], at: usize) -> (v: u32)
    requires
        at + 4 <= buf@.len(),
    ensures
        v == value_of(order, buf@.subrange(at as int, at + 4)),
{
    proof {
        lemma_byte_widths();
        lemma_le_value_bound(buf@.subrange(at as int, at + 4));
        lemma_le_value_bound(buf@.subrange(at as int, at + 4).reverse());
    }
    match order {
        ByteOrder::Little => read_le(buf, at, 4) as u32,
        ByteOrder::Big => read_be(buf, at, 4) as u32,
    }
}

/// The 64-bit number at `at`, in the given order.
pub fn u64_at(order: ByteOrder, buf: &[u8], at: usize) -> (v: u64)
    requires
        at + 8 <= buf@.len(),
    ensures
        v == value_of(order, buf@.subrange(at as int, at + 8)),
{
    match order {
        ByteOrder::Little => read_le(buf, at, 8),
        ByteOrder::Big => read_be(buf, at, 8),
    }
}

/// The 16-bit number at `at`, most significant byte first.
pub fn be_u16_at(buf: &[u8], at: usize) -> (v: u16)
    requires
        at + 2 <= buf@.len(),
    ensures
        v == be_value(buf@.subrange(at as int, at + 2)),
{
    proof {
        lemma_byte_widths();
        lemma_le_value_bound(buf@.subrange(at as int, at + 2).reverse());
    }
    read_be(buf, at, 2) as u16
}

/// The number that the first bytes of `buf`, four at most, spell with the
/// least significant first.
pub fn le_u32_prefix(buf: &[u8]) -> (v: u32)
    ensures
        v == le_value(buf@.take(if buf@.len() < 4 { buf@.len() as int } else { 4 })),
{
    let n: usize = if buf.len() < 4 { buf.len() } else { 4 };
    proof {
        lemma_byte_widths();
        lemma_le_value_bound(buf@.take(n as int));
        lemma_pow_monotone(n as nat, 4);
        assert(buf@.subrange(0, n as int) =~= buf@.take(n as int));
    }
    read_le(buf, 0, n) as u32
}

/// The four bytes of `v` in the given order.
pub fn u32_bytes(order: ByteOrder, v: u32) -> (out: Vec<u8>)
    ensures
        out@ == bytes_of(order, v as nat, 4),
        out@.len() == 4,
{
    proof {
        lemma_bytes_of_len(order, v as nat, 4);
    }
    to_bytes(order, v as u64, 4)
}

/// The eight bytes of `v` in the given order.
pub fn u64_bytes(order: ByteOrder, v: u64) -> (out: Vec<u8>)
    ensures
        out@ == bytes_of(order, v as nat, 8),
        out@.len() == 8,
{
    proof {
        lemma_bytes_of_len(order, v as nat, 8);
    }
    to_bytes(order, v, 8)
}

/// The four bytes of the signed number `v` in the given order.
pub fn i32_bytes(order: ByteOrder, v: i32) -> (out: Vec<u8>)
    ensures
        out@ == bytes_of(order, code_of(v), 4),
        out@.len() == 4,
{
    let code: u32 = v as u32;
    assert(v >= 0 ==> v as u32 == v) by (bit_vector);
    assert(v < 0 ==> v as u32 == v + 0x1_0000_0000) by (bit_vector);
    u32_bytes(order, code)
}

/// The signed 32-bit number at `at`, in the given order.
pub fn i32_at(order: ByteOrder, buf: &[u8], at: usize) -> (v: i32)
    requires
        at + 4 <= buf@.len(),
    ensures
        code_of(v) == value_of(order, buf@.subrange(at as int, at + 4)),
{
    let code: u32 = u32_at(order, buf, at);
    let v: i32 = code as i32;
    assert(code < 0x8000_0000 ==> code as i32 == code) by (bit_vector);
    assert(code >= 0x8000_0000 ==> code as i32 == code - 0x1_0000_0000) by (bit_vector);
    v
}

/// Replaces the bytes of `buf` from `start` on by `data`.
pub fn store(buf: &mut [u8], start: usize, data: &[u8])
    requires
        start + data@.len() <= old(buf)@.len(),
    ensures
        final(buf)@ == spliced(old(buf)@, start as int, data@),
{
    let ghost before = buf@;
    let end: usize = buf.len();
    let mut i: usize = 0;
    assert(buf@ =~= spliced(before, start as int, data@.take(0)));
    while i < data.len()
        invariant
            i <= data@.len(),
            end == before.len(),
            start + data@.len() <= end,
            buf@ == spliced(before, start as int, data@.take(i as int)),
        decreases data@.len() - i,
    {
        buf[start + i] = data[i];
        i = i + 1;
        assert(buf@ =~= spliced(before, start as int, data@.take(i as int)));
    }
    assert(data@.take(i as int) =~= data@);
}

/// Sets every byte of `buf` to zero.
pub fn clear(buf: &mut [u8])
    ensures
        final(buf)@ == zeros(old(buf)@.len()),
{
    let n: usize = buf.len();
    let mut i: usize = 0;
    while i < n
        invariant
            i <= n,
            n == buf@.len(),
            n == old(buf)@.len(),
            forall|j: int| 0 <= j < i ==> buf@[j] == 0,
        decreases n - i,
    {
        buf[i] = 0;
        i = i + 1;
    }
    assert(buf@ =~= zeros(n as nat));
}

} // verus!
