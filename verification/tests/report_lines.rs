use bus_analyzer::record::{AnalyzerA, RW};
use bus_analyzer::report::{format_data, format_record, get_address_area};

#[test]
fn address_areas() {
    assert_eq!(get_address_area(0), "ROM");
    assert_eq!(get_address_area(0x0FFFF), "ROM");
    assert_eq!(get_address_area(0x10000), "RAM");
    assert_eq!(get_address_area(0x1FFFF), "RAM");
    assert_eq!(get_address_area(0x20000), "MC68681");
    assert_eq!(get_address_area(0x30000), "LCD");
    assert_eq!(get_address_area(0x4FFFF), "LED");
    assert_eq!(get_address_area(0x50000), "???");
    assert_eq!(get_address_area(u32::MAX), "???");
}

#[test]
fn rw_labels() {
    assert_eq!(RW::Read.to_string(), "READ ");
    assert_eq!(RW::Write.to_string(), "WRITE");
}

#[test]
fn record_lines() {
    assert_eq!(format_record(RW::Read, 0x12345), "READ  | 0012345 |        RAM |");
    assert_eq!(format_record(RW::Write, 0x2abcd), "WRITE | 002abcd |    MC68681 |");
    assert_eq!(format_record(RW::Read, 0), "READ  | 0000000 |        ROM |");
    assert_eq!(format_record(RW::Write, 0xfeed_f00d), "WRITE | feedf00d |        ??? |");
}

#[test]
fn record_lines_match_std_formatting() {
    for &(rw, address) in &[(RW::Read, 0x4_0001u32), (RW::Write, 0xf_ffff), (RW::Read, 0x1000_0000)] {
        let label = if rw == RW::Read { "READ " } else { "WRITE" };
        let expected = format!("{} | {:07x} | {: >10} |", label, address, get_address_area(address));
        assert_eq!(format_record(rw, address), expected);
    }
}

#[test]
fn format_data_of_decoded_record() {
    let a = AnalyzerA::new(3, 0x3_0042, RW::Write);
    let line = format_data(a);
    if (u32::from_ne_bytes([1, 0, 0, 0]) == 1) {
        assert_eq!(line, "WRITE | 0030042 |        LCD |");
    }
    assert_eq!(line.len(), 30);
}
