use bus_analyzer::bytes::word_to_be_bytes;
use bus_analyzer::capture::{pio_clock_divider, CaptureControl};
use bus_analyzer::eeprom::{eeprom_reply, get_rand, next_request, rand_seed, unique_id_from_bytes, EepromCheck, Mismatch};
use bus_analyzer::led::{demo_color, Brightness, Rgbw};
use bus_analyzer::record::{AnalyzerA, RW};
use rand_chacha::rand_core::{RngCore, SeedableRng};
use rand_chacha::ChaCha8Rng;

#[test]
fn clock_dividers() {
    // 125 MHz / (2 * 2 MHz) = 31.25, i.e. 8000 / 256
    assert_eq!(pio_clock_divider(2), 8000);
    assert_eq!(pio_clock_divider(4), 4000);
    assert_eq!(pio_clock_divider(3), 5333);
    assert_eq!(pio_clock_divider(16_000), 1);
}

#[test]
fn capture_counter_wraps() {
    let mut c = CaptureControl::new();
    assert_eq!(c.on_capture(0xabc), [0, 0xabc]);
    assert_eq!(c.on_capture(0xdef), [1, 0xdef]);
    c.count = u32::MAX;
    assert_eq!(c.on_capture(5), [u32::MAX, 5]);
    assert_eq!(c.count, 0);
}

#[test]
fn button_switches_once_per_click() {
    let mut c = CaptureControl::new();
    // held at start-up: nothing happens until it is released
    assert_eq!(c.on_button(true), None);
    assert!(!c.is_enabled);
    assert_eq!(c.on_button(false), None);
    assert!(!c.was_pressed);
    assert_eq!(c.on_button(true), Some(true));
    assert!(c.is_enabled);
    assert_eq!(c.on_button(true), None);
    assert_eq!(c.on_button(false), None);
    assert_eq!(c.on_button(false), None);
    assert_eq!(c.on_button(true), Some(false));
    assert!(!c.is_enabled);
}

#[test]
fn captured_frame_decodes_on_host() {
    let word: u32 = (0x2_1234 << 1) | 0; // address on pins 3..=22, read
    let mut bytes = [0u8; 8];
    bytes[..4].copy_from_slice(&word_to_be_bytes(41));
    bytes[4..].copy_from_slice(&word_to_be_bytes(word));
    let a = AnalyzerA::unpack(&bytes).unwrap();
    assert_eq!((a.num(), a.address(), a.rw()), (41, 0x2_1234, RW::Read));
}

#[test]
fn brightness_scales_channels() {
    let red = Rgbw { r: 255, g: 0, b: 0, w: 0 };
    assert_eq!(red.brightness(32), Rgbw { r: 32, g: 0, b: 0, w: 0 });
    let p = Rgbw { r: 200, g: 100, b: 1, w: 255 };
    assert_eq!(p.brightness(255), p);
    assert_eq!(p.brightness(0), Rgbw { r: 0, g: 0, b: 0, w: 0 });
    assert_eq!(p.brightness(127), Rgbw { r: 100, g: 50, b: 0, w: 127 });
}

#[test]
fn demo_cycle() {
    assert_eq!(demo_color(0), Rgbw { r: 32, g: 0, b: 0, w: 0 });
    assert_eq!(demo_color(1), Rgbw { r: 0, g: 32, b: 0, w: 0 });
    assert_eq!(demo_color(2), Rgbw { r: 0, g: 0, b: 32, w: 0 });
    assert_eq!(demo_color(3), Rgbw { r: 0, g: 0, b: 0, w: 32 });
    assert_eq!(demo_color(4), demo_color(0));
}

#[test]
fn emulator_replies() {
    assert_eq!(eeprom_reply(0x1234), Some(0x34));
    assert_eq!(eeprom_reply(0xffff), Some(0xff));
    assert_eq!(eeprom_reply(0x1_0000), None);
    assert_eq!(eeprom_reply(u32::MAX), None);
}

#[test]
fn unique_id_and_seed() {
    assert_eq!(unique_id_from_bytes([0, 0, 0, 0, 0, 0x01, 0x46, 0x0d]), 0x1460d);
    let seed = rand_seed(0x0102_0304_0506_0708);
    for chunk in seed.chunks(8) {
        assert_eq!(chunk, &[8, 7, 6, 5, 4, 3, 2, 1]);
    }
}

#[test]
fn generator_is_seeded_from_the_id() {
    let rng = get_rand(21365213);
    assert_eq!(rng.get_seed(), rand_seed(21365213));
    assert_eq!(rng.get_stream(), 0);
    assert_eq!(rng.get_word_pos(), 0);
    let mut reference = ChaCha8Rng::from_seed(rand_seed(21365213));
    let mut rng = rng;
    for _ in 0..10 {
        let (t, pushed) = next_request(&mut rng);
        assert_eq!(t, reference.next_u32() & 0xffff);
        assert_eq!(pushed, u32::from_le(t));
        assert!(t < 0x1_0000);
    }
    assert_eq!(rng.get_word_pos(), 10);
    assert_eq!(rng.get_seed(), rand_seed(21365213));
}

#[test]
fn self_test_tally() {
    let mut check = EepromCheck::new();
    // the data byte arrives in the most significant byte of the pulled word
    let pulled = |b: u32| if (u32::from_ne_bytes([1, 0, 0, 0]) == 1) { b << 24 } else { b };
    assert_eq!(check.check(0, 0x1234, pulled(0x34)), None);
    assert_eq!(check, EepromCheck { wrong: 0, last_wrong: 0 });
    assert_eq!(
        check.check(5, 0x1234, pulled(0x35)),
        Some(Mismatch { index: 5, got: 0x35, expected: 0x34, since_last: 5 })
    );
    assert_eq!(
        check.check(9, 0x00ff, pulled(0x00)),
        Some(Mismatch { index: 9, got: 0, expected: 0xff, since_last: 4 })
    );
    assert_eq!(check, EepromCheck { wrong: 2, last_wrong: 9 });
}

#[test]
fn emulator_passes_self_test() {
    let mut rng = get_rand(7);
    let mut check = EepromCheck::new();
    for i in 0..200u32 {
        let (t, _) = next_request(&mut rng);
        let reply = eeprom_reply(t).unwrap();
        let pulled = if (u32::from_ne_bytes([1, 0, 0, 0]) == 1) { reply << 24 } else { reply };
        assert_eq!(check.check(i, t, pulled), None);
    }
    assert_eq!(check.wrong, 0);
}
