//! Fixed-width integers as big- and little-endian byte sequences.
use vstd::prelude::*;
use vstd::endian::{endianness, Endian};
use vstd::arithmetic::div_mod::{lemma_div_denominator, lemma_fundamental_div_mod};

verus! {

/// The value of four bytes read most significant first.
pub open spec fn be_u32_value(b: Seq<u8>) -> int {
    b[0] * 0x100_0000 + b[1] * 0x1_0000 + b[2] * 0x100 + b[3]
}

/// The four bytes of `x`, most significant first.
pub open spec fn be_u32_bytes(x: u32) -> Seq<u8> {
    seq![
        (x / 0x100_0000) as u8,
        ((x / 0x1_0000) % 0x100) as u8,
        ((x / 0x100) % 0x100) as u8,
        (x % 0x100) as u8,
    ]
}

/// The value of eight bytes read most significant first.
pub open spec fn be_u64_value(b: Seq<u8>) -> int {
    be_u32_value(b.subrange(0, 4)) * 0x1_0000_0000 + be_u32_value(b.subrange(4, 8))
}

/// The eight bytes of `x`, least significant first.
pub open spec fn le_u64_bytes(x: u64) -> Seq<u8> {
    Seq::new(8, |i: int| ((x as int / pow256(i)) % 0x100) as u8)
}

/// `256` raised to a small power.
pub open spec fn pow256(i: int) -> int
    decreases i,
{
    if i <= 0 {
        1
    } else {
        256 * pow256(i - 1)
    }
}

/// `x` with its four bytes in reverse order.
pub open spec fn swap_bytes_u32(x: u32) -> u32 {
    be_u32_value(be_u32_bytes(x).reverse()) as u32
}

/// Splits `x` into its four bytes, most significant first.
pub fn word_to_be_bytes(x: u32) -> (b: [u8; 4])
    ensures
        b@ == be_u32_bytes(x),
{
    let b = [(x / 0x100_0000) as u8, ((x / 0x1_0000) % 0x100) as u8, ((x / 0x100) % 0x100) as u8, (x % 0x100) as u8];
    assert(b@ =~= be_u32_bytes(x));
    b
}

/// Reads a word from its four bytes, most significant first.
pub fn word_from_be_bytes(b: [u8; 4]) -> (x: u32)
    ensures
        x == be_u32_value(b@),
{
    (b[0] as u32) * 0x100_0000 + (b[1] as u32) * 0x1_0000 + (b[2] as u32) * 0x100 + (b[3] as u32)
}

/// Decoding the bytes of a word gives the word back.
pub proof fn lemma_be_u32_roundtrip(x: u32)
    ensures
        be_u32_value(be_u32_bytes(x)) == x,
{
}

/// Encoding the value of four bytes gives the same bytes back.
pub proof fn lemma_be_u32_bytes_of_value(b: Seq<u8>)
    requires
        b.len() == 4,
    ensures
        0 <= be_u32_value(b) <= u32::MAX,
        be_u32_bytes(be_u32_value(b) as u32) == b,
{
    let (b0, b1, b2, b3) = (b[0] as int, b[1] as int, b[2] as int, b[3] as int);
    let v = be_u32_value(b);
    assert(v / 0x100_0000 == b0 && (v / 0x1_0000) % 0x100 == b1 && (v / 0x100) % 0x100 == b2
        && v % 0x100 == b3) by (nonlinear_arith)
        requires
            v == b0 * 0x100_0000 + b1 * 0x1_0000 + b2 * 0x100 + b3,
            0 <= b0 < 256,
            0 <= b1 < 256,
            0 <= b2 < 256,
            0 <= b3 < 256,
    ;
    assert(be_u32_bytes(v as u32) =~= b);
}

/// Reads a 64-bit value from its eight bytes, most significant first.
pub fn u64_from_be_bytes(b: [u8; 8]) -> (x: u64)
    ensures
        x == be_u64_value(b@),
{
    let hi = word_from_be_bytes([b[0], b[1], b[2], b[3]]);
    let lo = word_from_be_bytes([b[4], b[5], b[6], b[7]]);
    assert(seq![b[0], b[1], b[2], b[3]] =~= b@.subrange(0, 4));
    assert(seq![b[4], b[5], b[6], b[7]] =~= b@.subrange(4, 8));
    (hi as u64) * 0x1_0000_0000 + (lo as u64)
}

/// Splits a 64-bit value into its eight bytes, least significant first.
pub fn u64_to_le_bytes(x: u64) -> (b: [u8; 8])
    ensures
        b@ == le_u64_bytes(x),
{
    let b = [
        (x % 0x100) as u8,
        ((x / 0x100) % 0x100) as u8,
        ((x / 0x1_0000) % 0x100) as u8,
        ((x / 0x100_0000) % 0x100) as u8,
        ((x / 0x1_0000_0000) % 0x100) as u8,
        ((x / 0x100_0000_0000) % 0x100) as u8,
        ((x / 0x1_0000_0000_0000) % 0x100) as u8,
        ((x / 0x100_0000_0000_0000) % 0x100) as u8,
    ];
    proof {
        reveal_with_fuel(pow256, 8);
        assert(b@ =~= le_u64_bytes(x));
    }
    b
}

/// The value `u32::to_le` gives for `x` on this machine: `x` itself on a
/// little-endian machine, `x` with its bytes reversed on a big-endian one.
pub open spec fn le_order(x: u32) -> u32 {
    match endianness() {
        Endian::Little => x,
        Endian::Big => swap_bytes_u32(x),
    }
}

/// `u32::to_le`: per its documentation a no-op on little-endian machines and a
/// byte swap on big-endian ones.
#[verifier::external_body]
pub(crate) fn u32_to_le(x: u32) -> (r: u32)
    ensures
        r == le_order(x),
{
    x.to_le()
}

/// The value `u32::from_be` gives for `x` on this machine: `x` with its bytes
/// reversed on a little-endian machine, `x` itself on a big-endian one.
pub open spec fn be_order(x: u32) -> u32 {
    match endianness() {
        Endian::Little => swap_bytes_u32(x),
        Endian::Big => x,
    }
}

/// `u32::from_be`: per its documentation a byte swap on little-endian machines
/// and a no-op on big-endian ones.
#[verifier::external_body]
pub(crate) fn u32_from_be(x: u32) -> (r: u32)
    ensures
        r == be_order(x),
{
    u32::from_be(x)
}

/// `u32::from_le`: per its documentation a no-op on little-endian machines and
/// a byte swap on big-endian ones.
#[verifier::external_body]
pub(crate) fn u32_from_le(x: u32) -> (r: u32)
    ensures
        r == le_order(x),
{
    u32::from_le(x)
}

/// Most significant byte first: the first byte alone fixes which `2^24`-wide
/// block the value lies in, and the last byte is the value modulo 256.
pub proof fn lemma_be_u32_byte_order(b: Seq<u8>, x: u32)
    requires
        b.len() == 4,
    ensures
        b[0] * 0x100_0000 <= be_u32_value(b) < (b[0] + 1) * 0x100_0000,
        be_u32_value(b) % 0x100 == b[3],
        be_u32_bytes(x)[0] == x / 0x100_0000,
        be_u32_bytes(x)[3] == x % 0x100,
        be_u32_bytes(x).len() == 4,
{
}

/// Most significant byte first for 64-bit values: the first byte fixes the
/// `2^56`-wide block, and the last byte is the value modulo 256.
pub proof fn lemma_be_u64_byte_order(b: Seq<u8>)
    requires
        b.len() == 8,
    ensures
        b[0] * 0x100_0000_0000_0000 <= be_u64_value(b) < (b[0] + 1) * 0x100_0000_0000_0000,
        be_u64_value(b) % 0x100 == b[7],
{
    let hi = be_u32_value(b.subrange(0, 4));
    let lo = be_u32_value(b.subrange(4, 8));
    assert(0 <= lo < 0x1_0000_0000);
    assert(b.subrange(0, 4)[0] == b[0]);
    assert(b[0] * 0x100_0000 <= hi < (b[0] + 1) * 0x100_0000);
    assert(hi * 0x1_0000_0000 + lo < (b[0] + 1) * 0x100_0000_0000_0000) by (nonlinear_arith)
        requires
            hi < (b[0] + 1) * 0x100_0000,
            lo < 0x1_0000_0000,
            hi >= 0,
    ;
    assert(b[0] * 0x100_0000_0000_0000 <= hi * 0x1_0000_0000) by (nonlinear_arith)
        requires
            b[0] * 0x100_0000 <= hi,
    ;
    assert((hi * 0x1_0000_0000 + lo) % 0x100 == lo % 0x100) by (nonlinear_arith)
        requires
            hi >= 0,
            lo >= 0,
    {
        vstd::arithmetic::div_mod::lemma_mod_multiples_vanish(hi * 0x100_0000, lo, 0x100);
        assert(hi * 0x1_0000_0000 == 0x100 * (hi * 0x100_0000));
    }
}

/// Least significant byte first: reading the eight bytes back with byte `k`
/// worth `256^k` gives the value.
pub proof fn lemma_le_u64_bytes_value(x: u64)
    ensures
        le_u64_bytes(x).len() == 8,
        ({
            let b = le_u64_bytes(x);
            b[0] + b[1] * 0x100 + b[2] * 0x1_0000 + b[3] * 0x100_0000 + b[4] * 0x1_0000_0000
                + b[5] * 0x100_0000_0000 + b[6] * 0x1_0000_0000_0000 + b[7] * 0x100_0000_0000_0000
                == x
        }),
{
    reveal_with_fuel(pow256, 8);
    let b = le_u64_bytes(x);
    let v = x as int;
    assert(b[0] == v % 0x100);
    assert(b[1] == (v / 0x100) % 0x100);
    assert(b[2] == (v / 0x1_0000) % 0x100);
    assert(b[3] == (v / 0x100_0000) % 0x100);
    assert(b[4] == (v / 0x1_0000_0000) % 0x100);
    assert(b[5] == (v / 0x100_0000_0000) % 0x100);
    assert(b[6] == (v / 0x1_0000_0000_0000) % 0x100);
    assert(b[7] == (v / 0x100_0000_0000_0000) % 0x100);
    let q1 = v / 0x100;
    let q2 = v / 0x1_0000;
    let q3 = v / 0x100_0000;
    let q4 = v / 0x1_0000_0000;
    let q5 = v / 0x100_0000_0000;
    let q6 = v / 0x1_0000_0000_0000;
    let q7 = v / 0x100_0000_0000_0000;
    lemma_fundamental_div_mod(v, 0x100);
    lemma_fundamental_div_mod(q1, 0x100);
    lemma_fundamental_div_mod(q2, 0x100);
    lemma_fundamental_div_mod(q3, 0x100);
    lemma_fundamental_div_mod(q4, 0x100);
    lemma_fundamental_div_mod(q5, 0x100);
    lemma_fundamental_div_mod(q6, 0x100);
    lemma_div_denominator(v, 0x100, 0x100);
    lemma_div_denominator(v, 0x1_0000, 0x100);
    lemma_div_denominator(v, 0x100_0000, 0x100);
    lemma_div_denominator(v, 0x1_0000_0000, 0x100);
    lemma_div_denominator(v, 0x100_0000_0000, 0x100);
    lemma_div_denominator(v, 0x1_0000_0000_0000, 0x100);
    assert(q7 < 0x100);
    assert(q7 % 0x100 == q7);
}

} // verus!
