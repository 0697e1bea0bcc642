//! Decisions of the bus-capture firmware: the PIO clock divider, the counter
//! that numbers captured cycles, and the push button that switches between the
//! capturing and the idle state machine.
use vstd::prelude::*;
use fixed::traits::ToFixed;
use fixed::types::extra::U8;
use fixed::{FixedU32, FixedU64};
use crate::bytes::{be_u32_bytes, lemma_be_u32_roundtrip};
use crate::record::{unpack_a, pack_a, AnalyzerAFields, RW};

verus! {

/// `Div<u64>` of `fixed::FixedU64<U8>`: the result's bits are the bits of the
/// dividend divided by the integer, rounding down (the crate divides the raw
/// bits). It panics on a zero divisor, which `requires` rules out.
#[verifier::external_body]
fn fixed_u56f8_div(bits: u64, divisor: u64) -> (r: u64)
    requires
        divisor != 0,
    ensures
        r == bits / divisor,
{
    (FixedU64::<U8>::from_bits(bits) / divisor).to_bits()
}

/// `ToFixed::to_fixed` from `FixedU64<U8>` to `FixedU32<U8>`: both have eight
/// fractional bits, so a value that fits keeps its bits. With debug
/// assertions it panics on a value that does not fit, which `requires` rules out.
#[verifier::external_body]
fn fixed_u56f8_to_u24f8(bits: u64) -> (r: u32)
    requires
        bits <= u32::MAX,
    ensures
        r == bits,
{
    FixedU64::<U8>::from_bits(bits).to_fixed::<FixedU32<U8>>().to_bits()
}

/// The system clock of the board, in Hz.
pub open spec fn system_clock_hz() -> int {
    125_000_000
}

/// The raw bits (eight fractional bits) of the PIO clock divider that runs a
/// two-instruction toggle loop at `mhz` MHz: `125 MHz / (2 * mhz MHz)`,
/// rounded down to a multiple of 1/256.
pub open spec fn clock_divider_bits(mhz: u64) -> int {
    (system_clock_hz() * 256) / (mhz * 2 * 1_000_000)
}

/// The PIO clock divider, as the raw bits of a fixed-point number with eight
/// fractional bits, for a state machine whose program toggles its pin every
/// instruction at `mhz` MHz.
pub fn pio_clock_divider(mhz: u64) -> (d: u32)
    requires
        mhz >= 1,
        mhz * 2 * 1_000_000 <= u64::MAX,
    ensures
        d == clock_divider_bits(mhz),
        d == 16_000int / (mhz as int),
{
    let system: u64 = 125_000_000 * 256;
    let q = fixed_u56f8_div(system, mhz * 2 * 1_000_000);
    proof {
        vstd::arithmetic::div_mod::lemma_div_denominator(32_000_000_000, 2_000_000, mhz as int);
        assert(32_000_000_000int / 2_000_000int == 16_000int);
        assert(mhz * 2 * 1_000_000 == 2_000_000 * mhz);
    }
    fixed_u56f8_to_u24f8(q)
}

/// The state the capture loop keeps between polls: the number of the next
/// captured cycle, whether the button was down at the last poll, and whether
/// the capturing state machine (rather than the idle one) is running.
pub struct CaptureControl {
    pub count: u32,
    pub was_pressed: bool,
    pub is_enabled: bool,
}

/// One poll of the button, `low` when it is held down: a press that was not
/// seen before flips which state machine runs and says which one to enable;
/// a release is noted; anything else changes nothing.
pub open spec fn button_step(s: CaptureControl, low: bool) -> (CaptureControl, Option<bool>) {
    if low && !s.was_pressed {
        (
            CaptureControl { count: s.count, was_pressed: true, is_enabled: !s.is_enabled },
            Some(!s.is_enabled),
        )
    } else if !low && s.was_pressed {
        (CaptureControl { count: s.count, was_pressed: false, is_enabled: s.is_enabled }, None)
    } else {
        (s, None)
    }
}

impl CaptureControl {
    /// The state at start-up: no cycle captured yet, the button taken as held
    /// (so that a press during reset does not count), capturing switched off.
    pub fn new() -> (s: CaptureControl)
        ensures
            s == (CaptureControl { count: 0, was_pressed: true, is_enabled: false }),
    {
        CaptureControl { count: 0, was_pressed: true, is_enabled: false }
    }

    /// A cycle was captured as `word`: returns the two words to send to the
    /// host, the cycle's number and then `word`, and counts the cycle (the
    /// count wraps around).
    pub fn on_capture(&mut self, word: u32) -> (sent: [u32; 2])
        ensures
            sent@ == seq![old(self).count, word],
            final(self).count == (old(self).count + 1) % 0x1_0000_0000,
            final(self).was_pressed == old(self).was_pressed,
            final(self).is_enabled == old(self).is_enabled,
    {
        let sent = [self.count, word];
        self.count = self.count.wrapping_add(1);
        assert(sent@ =~= seq![old(self).count, word]);
        sent
    }

    /// One poll of the button (`low` when held down). `Some(e)` asks to enable
    /// the capturing state machine when `e` holds and the idle one otherwise,
    /// disabling the other.
    pub fn on_button(&mut self, low: bool) -> (action: Option<bool>)
        ensures
            (*final(self), action) == button_step(*old(self), low),
            final(self).is_enabled != old(self).is_enabled ==> low && !old(self).was_pressed,
            action is Some ==> low && !old(self).was_pressed,
            low && !old(self).was_pressed ==> action == Some(final(self).is_enabled)
                && final(self).is_enabled == !old(self).is_enabled,
            !low && !old(self).was_pressed ==> action is None && *final(self) == *old(self),
            final(self).count == old(self).count,
    {
        if low && !self.was_pressed {
            self.was_pressed = true;
            self.is_enabled = !self.is_enabled;
            Some(self.is_enabled)
        } else if !low && self.was_pressed {
            self.was_pressed = false;
            None
        } else {
            None
        }
    }
}

/// Holding the button down switches at most once: once a press is seen,
/// further polls with the button down change nothing and ask for nothing.
pub proof fn lemma_held_button_is_idle(s: CaptureControl)
    requires
        s.was_pressed,
    ensures
        button_step(s, true) == (s, None::<bool>),
{
}

/// A click (press, then release) from the released state switches which state
/// machine runs exactly once, asks for the newly running one once, and
/// leaves the button released and the count alone.
pub proof fn lemma_click_toggles(s: CaptureControl)
    requires
        !s.was_pressed,
    ensures
        ({
            let (s1, a1) = button_step(s, true);
            let (s2, a2) = button_step(s1, false);
            &&& a1 == Some(!s.is_enabled)
            &&& a2 == None::<bool>
            &&& s2 == (CaptureControl { count: s.count, was_pressed: false, is_enabled: !s.is_enabled })
        }),
{
}

/// The record that the host decodes from the eight bytes the firmware sends
/// for a captured cycle (its number, then the captured word, each most
/// significant byte first).
pub open spec fn capture_frame(count: u32, word: u32) -> Seq<u8> {
    be_u32_bytes(count) + be_u32_bytes(word)
}

/// The capture program shifts in eleven zero bits and then 21 pin bits, so a
/// captured word is below `2^21`. The host decodes the frame of such a word as
/// the cycle's number, the address on pins 3..=22 and the read/write line on
/// pin 2, and packing that record gives the same frame back.
pub proof fn lemma_capture_frame_decodes(count: u32, word: u32)
    requires
        word < 0x20_0000,
    ensures
        unpack_a(capture_frame(count, word)) == (AnalyzerAFields {
            num: count,
            address: word / 2,
            rw: if word % 2 == 0 { RW::Read } else { RW::Write },
        }),
        pack_a(unpack_a(capture_frame(count, word))) == capture_frame(count, word),
{
    let f = capture_frame(count, word);
    lemma_be_u32_roundtrip(count);
    lemma_be_u32_roundtrip(word);
    assert(f.subrange(0, 4) =~= be_u32_bytes(count));
    assert(f.subrange(4, 8) =~= be_u32_bytes(word));
    crate::record::lemma_pack_unpack_a(f);
}

/// Only a press edge changes which state machine runs: the running machine
/// changes, and a switch is asked for, exactly when the button is down at
/// a poll after a poll with it up; a poll with the button up while it was
/// already up changes nothing; the count is never touched.
pub proof fn lemma_only_press_edge_switches(s: CaptureControl, low: bool)
    ensures
        ({
            let (t, action) = button_step(s, low);
            &&& (t.is_enabled != s.is_enabled) <==> (low && !s.was_pressed)
            &&& (action is Some) <==> (low && !s.was_pressed)
            &&& action is Some ==> action == Some(t.is_enabled)
            &&& (!low && !s.was_pressed) ==> t == s
            &&& t.was_pressed == low
            &&& t.count == s.count
        }),
{
}

} // verus!
