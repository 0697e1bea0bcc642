//! The records that the capture firmware streams to the desktop decoder, and
//! their packed layout (bit 0 is the most significant bit of byte 0).
//!
//! `AnalyzerA` takes eight bytes: bits 0..=31 hold the sample number (most
//! significant byte first), bits 32..=42 are reserved zeroes, bits 43..=62 hold
//! the 20-bit bus address and bit 63 the read/write line.
//! `AnalyzerB` takes five bytes: the sample number, then one data byte.
use vstd::prelude::*;
use crate::bytes::{be_u32_value, be_u32_bytes, word_to_be_bytes, word_from_be_bytes,
    lemma_be_u32_roundtrip, lemma_be_u32_bytes_of_value};

verus! {

/// Direction of a bus cycle.
#[derive(Clone, Copy, Debug, PartialEq, Eq, Structural)]
pub enum RW {
    Read,
    Write,
}

/// Interrupt priority level of a bus cycle.
#[derive(Clone, Copy, Debug, PartialEq, Eq, Structural)]
pub enum InterruptLevel {
    A,
    B,
    C,
    D,
}

/// What can go wrong when a record is unpacked or packed.
#[derive(Clone, Copy, Debug, PartialEq, Eq, Structural)]
pub enum PackingError {
    /// A field's code names no variant of its enum.
    InvalidValue,
}

/// The code of each direction.
pub open spec fn rw_code(rw: RW) -> u8 {
    match rw {
        RW::Read => 0,
        RW::Write => 1,
    }
}

/// The direction with a given code, if any.
pub open spec fn rw_of_code(v: u8) -> Option<RW> {
    if v == 0 {
        Some(RW::Read)
    } else if v == 1 {
        Some(RW::Write)
    } else {
        None
    }
}

/// The code of each interrupt level.
pub open spec fn level_code(l: InterruptLevel) -> u8 {
    match l {
        InterruptLevel::A => 0,
        InterruptLevel::B => 1,
        InterruptLevel::C => 2,
        InterruptLevel::D => 3,
    }
}

/// The interrupt level with a given code, if any.
pub open spec fn level_of_code(v: u8) -> Option<InterruptLevel> {
    if v == 0 {
        Some(InterruptLevel::A)
    } else if v == 1 {
        Some(InterruptLevel::B)
    } else if v == 2 {
        Some(InterruptLevel::C)
    } else if v == 3 {
        Some(InterruptLevel::D)
    } else {
        None
    }
}

impl RW {
    /// The direction with code `val`: `0` is `Read`, `1` is `Write`.
    pub fn from_primitive(val: u8) -> (r: Option<RW>)
        ensures
            r == rw_of_code(val),
            val == 0 ==> r == Some(RW::Read),
            val == 1 ==> r == Some(RW::Write),
            val > 1 ==> r is None,
    {
        if val == 0 {
            Some(RW::Read)
        } else if val == 1 {
            Some(RW::Write)
        } else {
            None
        }
    }

    /// The code of this direction.
    pub fn to_primitive(&self) -> (v: u8)
        ensures
            v == rw_code(*self),
            v == (if *self == RW::Read { 0u8 } else { 1u8 }),
    {
        match self {
            RW::Read => 0,
            RW::Write => 1,
        }
    }
}

impl InterruptLevel {
    /// The level with code `val`, from `0` for `A` to `3` for `D`.
    pub fn from_primitive(val: u8) -> (r: Option<InterruptLevel>)
        ensures
            r == level_of_code(val),
            val == 0 ==> r == Some(InterruptLevel::A),
            val == 1 ==> r == Some(InterruptLevel::B),
            val == 2 ==> r == Some(InterruptLevel::C),
            val == 3 ==> r == Some(InterruptLevel::D),
            val > 3 ==> r is None,
    {
        if val == 0 {
            Some(InterruptLevel::A)
        } else if val == 1 {
            Some(InterruptLevel::B)
        } else if val == 2 {
            Some(InterruptLevel::C)
        } else if val == 3 {
            Some(InterruptLevel::D)
        } else {
            None
        }
    }

    /// The code of this level.
    pub fn to_primitive(&self) -> (v: u8)
        ensures
            v == level_code(*self),
            *self == InterruptLevel::A ==> v == 0,
            *self == InterruptLevel::B ==> v == 1,
            *self == InterruptLevel::C ==> v == 2,
            *self == InterruptLevel::D ==> v == 3,
    {
        match self {
            InterruptLevel::A => 0,
            InterruptLevel::B => 1,
            InterruptLevel::C => 2,
            InterruptLevel::D => 3,
        }
    }
}

/// The largest 20-bit address, plus one.
pub open spec fn address_limit() -> int {
    0x10_0000
}

/// The fields of an `AnalyzerA` record.
pub struct AnalyzerAFields {
    pub num: u32,
    pub address: u32,
    pub rw: RW,
}

/// A bus cycle as the capture firmware reports it: its sample number, the
/// 20-bit address on the bus and the read/write line.
#[derive(Debug)]
pub struct AnalyzerA {
    num: u32,
    address: u32,
    rw: RW,
}

impl AnalyzerA {
    #[verifier::type_invariant]
    spec fn address_fits(self) -> bool {
        self.address < 0x10_0000
    }
}

impl View for AnalyzerA {
    type V = AnalyzerAFields;

    closed spec fn view(&self) -> AnalyzerAFields {
        AnalyzerAFields { num: self.num, address: self.address, rw: self.rw }
    }
}

/// The fields that eight packed bytes hold.
pub open spec fn unpack_a(b: Seq<u8>) -> AnalyzerAFields {
    let low = be_u32_value(b.subrange(4, 8));
    AnalyzerAFields {
        num: be_u32_value(b.subrange(0, 4)) as u32,
        address: ((low / 2) % 0x10_0000) as u32,
        rw: if low % 2 == 0 { RW::Read } else { RW::Write },
    }
}

/// The eight packed bytes of a record's fields.
pub open spec fn pack_a(f: AnalyzerAFields) -> Seq<u8> {
    be_u32_bytes(f.num) + be_u32_bytes((f.address * 2 + rw_code(f.rw)) as u32)
}

/// Eight bytes whose reserved bits (32..=42) are all zero.
pub open spec fn reserved_a_clear(b: Seq<u8>) -> bool {
    b[4] == 0 && b[5] < 0x20
}

impl AnalyzerA {
    /// A record with the given fields; the address keeps its low 20 bits.
    pub fn new(num: u32, address: u32, rw: RW) -> (r: AnalyzerA)
        ensures
            r@ == (AnalyzerAFields { num, address: (address % 0x10_0000) as u32, rw }),
    {
        AnalyzerA { num, address: address % 0x10_0000, rw }
    }

    /// The sample number.
    pub fn num(&self) -> (v: u32)
        ensures
            v == self@.num,
    {
        self.num
    }

    /// The 20-bit bus address.
    pub fn address(&self) -> (v: u32)
        ensures
            v == self@.address,
            v < 0x10_0000,
    {
        proof {
            use_type_invariant(self);
        }
        self.address
    }

    /// The read/write line.
    pub fn rw(&self) -> (v: RW)
        ensures
            v == self@.rw,
    {
        self.rw
    }

    /// Reads a record from its eight packed bytes. The reserved bits are
    /// ignored, and every byte string gives a record.
    pub fn unpack(src: &[u8; 8]) -> (r: Result<AnalyzerA, PackingError>)
        ensures
            r is Ok,
            r matches Ok(a) ==> a@ == unpack_a(src@),
    {
        let num = word_from_be_bytes([src[0], src[1], src[2], src[3]]);
        let low = word_from_be_bytes([src[4], src[5], src[6], src[7]]);
        proof {
            assert(seq![src[0], src[1], src[2], src[3]] =~= src@.subrange(0, 4));
            assert(seq![src[4], src[5], src[6], src[7]] =~= src@.subrange(4, 8));
        }
        let rw = if low % 2 == 0 { RW::Read } else { RW::Write };
        Ok(AnalyzerA { num, address: (low / 2) % 0x10_0000, rw })
    }

    /// Writes the record as eight packed bytes, the reserved bits zero.
    pub fn pack(&self) -> (r: Result<[u8; 8], PackingError>)
        ensures
            r is Ok,
            r matches Ok(b) ==> b@ == pack_a(self@),
    {
        proof {
            use_type_invariant(self);
        }
        let hi = word_to_be_bytes(self.num);
        let lo = word_to_be_bytes(self.address * 2 + self.rw.to_primitive() as u32);
        let b = [hi[0], hi[1], hi[2], hi[3], lo[0], lo[1], lo[2], lo[3]];
        assert(b@ =~= pack_a(self@));
        Ok(b)
    }
}

/// Packing a record and unpacking the bytes gives the same record back.
pub proof fn lemma_unpack_pack_a(f: AnalyzerAFields)
    requires
        f.address < address_limit(),
    ensures
        unpack_a(pack_a(f)) == f,
{
    let b = pack_a(f);
    let low = (f.address * 2 + rw_code(f.rw)) as u32;
    lemma_be_u32_roundtrip(f.num);
    lemma_be_u32_roundtrip(low);
    assert(b.subrange(0, 4) =~= be_u32_bytes(f.num));
    assert(b.subrange(4, 8) =~= be_u32_bytes(low));
}

/// Unpacking eight bytes and packing the record gives the same bytes back,
/// when their reserved bits are zero.
pub proof fn lemma_pack_unpack_a(b: Seq<u8>)
    requires
        b.len() == 8,
        reserved_a_clear(b),
    ensures
        pack_a(unpack_a(b)) == b,
{
    let f = unpack_a(b);
    let lo4 = b.subrange(4, 8);
    let hi4 = b.subrange(0, 4);
    lemma_be_u32_bytes_of_value(hi4);
    lemma_be_u32_bytes_of_value(lo4);
    let low = be_u32_value(lo4);
    assert(low < 0x20_0000);
    assert(f.address * 2 + rw_code(f.rw) == low);
    assert(b =~= hi4 + lo4);
}

/// The fields of an `AnalyzerB` record.
pub struct AnalyzerBFields {
    pub num: u32,
    pub data: u8,
}

/// A sample of the data bus: its number and the byte on the bus.
pub struct AnalyzerB {
    num: u32,
    data: u8,
}

impl View for AnalyzerB {
    type V = AnalyzerBFields;

    closed spec fn view(&self) -> AnalyzerBFields {
        AnalyzerBFields { num: self.num, data: self.data }
    }
}

/// The fields that five packed bytes hold.
pub open spec fn unpack_b(b: Seq<u8>) -> AnalyzerBFields {
    AnalyzerBFields { num: be_u32_value(b.subrange(0, 4)) as u32, data: b[4] }
}

/// The five packed bytes of a record's fields.
pub open spec fn pack_b(f: AnalyzerBFields) -> Seq<u8> {
    be_u32_bytes(f.num).push(f.data)
}

impl AnalyzerB {
    /// A record with the given fields.
    pub fn new(num: u32, data: u8) -> (r: AnalyzerB)
        ensures
            r@ == (AnalyzerBFields { num, data }),
    {
        AnalyzerB { num, data }
    }

    /// The sample number.
    pub fn num(&self) -> (v: u32)
        ensures
            v == self@.num,
    {
        self.num
    }

    /// The data byte.
    pub fn data(&self) -> (v: u8)
        ensures
            v == self@.data,
    {
        self.data
    }

    /// Reads a record from its five packed bytes; every byte string gives one.
    pub fn unpack(src: &[u8; 5]) -> (r: Result<AnalyzerB, PackingError>)
        ensures
            r is Ok,
            r matches Ok(a) ==> a@ == unpack_b(src@),
    {
        let num = word_from_be_bytes([src[0], src[1], src[2], src[3]]);
        assert(seq![src[0], src[1], src[2], src[3]] =~= src@.subrange(0, 4));
        Ok(AnalyzerB { num, data: src[4] })
    }

    /// Writes the record as five packed bytes.
    pub fn pack(&self) -> (r: Result<[u8; 5], PackingError>)
        ensures
            r is Ok,
            r matches Ok(b) ==> b@ == pack_b(self@),
    {
        let hi = word_to_be_bytes(self.num);
        let b = [hi[0], hi[1], hi[2], hi[3], self.data];
        assert(b@ =~= pack_b(self@));
        Ok(b)
    }
}

/// Packing a data record and unpacking the bytes gives the same record back.
pub proof fn lemma_unpack_pack_b(f: AnalyzerBFields)
    ensures
        unpack_b(pack_b(f)) == f,
{
    lemma_be_u32_roundtrip(f.num);
    assert(pack_b(f).subrange(0, 4) =~= be_u32_bytes(f.num));
}

/// Unpacking five bytes and packing the record gives the same bytes back.
pub proof fn lemma_pack_unpack_b(b: Seq<u8>)
    requires
        b.len() == 5,
    ensures
        pack_b(unpack_b(b)) == b,
{
    lemma_be_u32_bytes_of_value(b.subrange(0, 4));
    assert(b =~= b.subrange(0, 4).push(b[4]));
}

/// A direction's code names that direction again.
pub proof fn lemma_rw_code_roundtrip(rw: RW)
    ensures
        rw_of_code(rw_code(rw)) == Some(rw),
{
}

/// An interrupt level's code names that level again.
pub proof fn lemma_level_code_roundtrip(l: InterruptLevel)
    ensures
        level_of_code(level_code(l)) == Some(l),
{
}

/// Where each field sits in the eight bytes: the sample number is bytes 0..4
/// most significant first; the address is bits 1..=20 of the last three
/// bytes read most significant first (the low five bits of byte 5, then
/// bytes 6 and 7, without the last bit); the direction is the last bit of
/// byte 7, set for a write. Byte 4 and the top three bits of byte 5 are
/// reserved.
pub proof fn lemma_unpack_a_layout(b: Seq<u8>)
    requires
        b.len() == 8,
    ensures
        unpack_a(b).num == b[0] * 0x100_0000 + b[1] * 0x1_0000 + b[2] * 0x100 + b[3],
        unpack_a(b).address == ((b[5] % 0x20) * 0x1_0000 + b[6] * 0x100 + b[7]) / 2,
        unpack_a(b).rw == (if b[7] % 2 == 1 { RW::Write } else { RW::Read }),
{
    let (b4, b5, b6, b7) = (b[4] as int, b[5] as int, b[6] as int, b[7] as int);
    let low = be_u32_value(b.subrange(4, 8));
    assert(low == b4 * 0x100_0000 + b5 * 0x1_0000 + b6 * 0x100 + b7);
    let m = (b5 % 0x20) * 0x1_0000 + b6 * 0x100 + b7;
    let k = 8 * b4 + b5 / 0x20;
    assert(b5 == 0x20 * (b5 / 0x20) + b5 % 0x20);
    assert(low == 0x20_0000 * k + m);
    assert(0 <= m < 0x20_0000);
    assert((low / 2) % 0x10_0000 == m / 2) by (nonlinear_arith)
        requires
            low == 0x20_0000 * k + m,
            0 <= m < 0x20_0000,
            k >= 0,
    {
        assert(low / 2 == 0x10_0000 * k + m / 2);
        vstd::arithmetic::div_mod::lemma_mod_multiples_vanish(k, m / 2, 0x10_0000);
        assert(0x10_0000 * k + m / 2 == k * 0x10_0000 + m / 2);
    }
    assert(low % 2 == b7 % 2);
}

/// Where each field of a data record sits in its five bytes: the sample
/// number is bytes 0..4 most significant first, the data byte is byte 4.
pub proof fn lemma_unpack_b_layout(b: Seq<u8>)
    requires
        b.len() == 5,
    ensures
        unpack_b(b).num == b[0] * 0x100_0000 + b[1] * 0x1_0000 + b[2] * 0x100 + b[3],
        unpack_b(b).data == b[4],
{
}

} // verus!
