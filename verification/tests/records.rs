use bus_analyzer::bytes::{u64_from_be_bytes, u64_to_le_bytes, word_from_be_bytes, word_to_be_bytes};
use bus_analyzer::record::{AnalyzerA, AnalyzerB, InterruptLevel, RW};

#[test]
fn word_bytes_are_big_endian() {
    assert_eq!(word_to_be_bytes(0x1234_5678), [0x12, 0x34, 0x56, 0x78]);
    assert_eq!(word_from_be_bytes([0x12, 0x34, 0x56, 0x78]), 0x1234_5678);
    assert_eq!(word_from_be_bytes(word_to_be_bytes(0xdead_beef)), 0xdead_beef);
}

#[test]
fn u64_bytes() {
    assert_eq!(u64_from_be_bytes([1, 2, 3, 4, 5, 6, 7, 8]), 0x0102_0304_0506_0708);
    assert_eq!(u64_to_le_bytes(0x0102_0304_0506_0708), [8, 7, 6, 5, 4, 3, 2, 1]);
    assert_eq!(u64_to_le_bytes(21365213), 21365213u64.to_le_bytes());
}

#[test]
fn rw_codes() {
    assert_eq!(RW::from_primitive(0), Some(RW::Read));
    assert_eq!(RW::from_primitive(1), Some(RW::Write));
    assert_eq!(RW::from_primitive(2), None);
    assert_eq!(RW::Write.to_primitive(), 1);
    assert_eq!(RW::Read.to_primitive(), 0);
}

#[test]
fn interrupt_level_codes() {
    assert_eq!(InterruptLevel::from_primitive(0), Some(InterruptLevel::A));
    assert_eq!(InterruptLevel::from_primitive(3), Some(InterruptLevel::D));
    assert_eq!(InterruptLevel::from_primitive(4), None);
    assert_eq!(InterruptLevel::C.to_primitive(), 2);
}

#[test]
fn unpack_analyzer_a() {
    // sample 7, reserved zero, address 0x12345, write
    let word: u32 = (0x12345 << 1) | 1;
    let w = word.to_be_bytes();
    let bytes = [0, 0, 0, 7, w[0], w[1], w[2], w[3]];
    let a = AnalyzerA::unpack(&bytes).unwrap();
    assert_eq!(a.num(), 7);
    assert_eq!(a.address(), 0x12345);
    assert_eq!(a.rw(), RW::Write);
    assert_eq!(a.pack().unwrap(), bytes);
}

#[test]
fn unpack_analyzer_a_ignores_reserved_bits() {
    let bytes = [0xff, 0xff, 0xff, 0xff, 0xff, 0xff, 0xff, 0xfe];
    let a = AnalyzerA::unpack(&bytes).unwrap();
    assert_eq!(a.num(), u32::MAX);
    assert_eq!(a.address(), 0xf_ffff);
    assert_eq!(a.rw(), RW::Read);
    assert_eq!(a.pack().unwrap(), [0xff, 0xff, 0xff, 0xff, 0x00, 0x1f, 0xff, 0xfe]);
}

#[test]
fn analyzer_a_new_keeps_low_twenty_bits() {
    let a = AnalyzerA::new(1, 0x60000, RW::Read);
    assert_eq!(a.address(), 0x60000);
    let b = AnalyzerA::new(1, 0x1f_0001, RW::Write);
    assert_eq!(b.address(), 0xf_0001);
    let back = AnalyzerA::unpack(&b.pack().unwrap()).unwrap();
    assert_eq!((back.num(), back.address(), back.rw()), (1, 0xf_0001, RW::Write));
}

#[test]
fn analyzer_b_roundtrip() {
    let b = AnalyzerB::unpack(&[0, 1, 2, 3, 0xaa]).unwrap();
    assert_eq!(b.num(), 0x0001_0203);
    assert_eq!(b.data(), 0xaa);
    assert_eq!(b.pack().unwrap(), [0, 1, 2, 3, 0xaa]);
    assert_eq!(AnalyzerB::new(5, 6).pack().unwrap(), [0, 0, 0, 5, 6]);
}
