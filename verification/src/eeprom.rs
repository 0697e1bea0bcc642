//! The EEPROM emulator's reply rule, and the bookkeeping of the emulator's
//! self-test: the seed of its address generator and the count of wrong
//! replies.
use vstd::prelude::*;
use rand_chacha::rand_core::{RngCore, SeedableRng};
use rand_chacha::ChaCha8Rng;
use crate::bytes::{lemma_be_u64_byte_order, lemma_le_u64_bytes_value, be_order, be_u64_value, le_order, le_u64_bytes, u32_from_be, u32_from_le, u64_from_be_bytes, u64_to_le_bytes};

verus! {

#[verifier::external_type_specification]
#[verifier::external_body]
pub struct ExChaCha8Rng(ChaCha8Rng);

/// The seed that `ChaCha8Rng::get_seed` reports for a generator.
pub uninterp spec fn chacha8_seed(rng: ChaCha8Rng) -> Seq<u8>;

/// The stream number that `ChaCha8Rng::get_stream` reports for a generator.
pub uninterp spec fn chacha8_stream(rng: ChaCha8Rng) -> u64;

/// The position in its key stream, in words, that `ChaCha8Rng::get_word_pos`
/// reports for a generator.
pub uninterp spec fn chacha8_word_pos(rng: ChaCha8Rng) -> u128;

/// The word that `RngCore::next_u32` of a ChaCha8 generator with key `seed`
/// and stream number `stream` yields at word position `pos` of its key stream.
pub uninterp spec fn chacha8_keystream_word(seed: Seq<u8>, stream: u64, pos: u128) -> u32;

/// The number of words in a ChaCha key stream: the position is a 68-bit
/// counter that wraps around.
pub open spec fn chacha_stream_words() -> int {
    0x10_0000_0000_0000_0000
}

/// `SeedableRng::from_seed` for `ChaCha8Rng`: the crate builds the generator's
/// key from `seed` (which `get_seed` reports back), on stream 0, at the start
/// of the key stream.
#[verifier::external_body]
fn chacha8_from_seed(seed: [u8; 32]) -> (rng: ChaCha8Rng)
    ensures
        chacha8_seed(rng) == seed@,
        chacha8_stream(rng) == 0,
        chacha8_word_pos(rng) == 0,
{
    ChaCha8Rng::from_seed(seed)
}

/// `RngCore::next_u32` for `ChaCha8Rng`: the word of the key stream at the
/// generator's position, which then moves on by one word. Key and stream
/// number stay as they were.
#[verifier::external_body]
fn chacha8_next_u32(rng: &mut ChaCha8Rng) -> (w: u32)
    ensures
        w == chacha8_keystream_word(
            chacha8_seed(*old(rng)),
            chacha8_stream(*old(rng)),
            chacha8_word_pos(*old(rng)),
        ),
        chacha8_seed(*final(rng)) == chacha8_seed(*old(rng)),
        chacha8_stream(*final(rng)) == chacha8_stream(*old(rng)),
        chacha8_word_pos(*final(rng)) == (chacha8_word_pos(*old(rng)) + 1) % chacha_stream_words(),
{
    rng.next_u32()
}

/// The emulated EEPROM answers addresses below `0x10000`.
pub open spec fn answers(address: u32) -> bool {
    address < 0x1_0000
}

/// The byte the emulated EEPROM holds at `address`: its low byte.
pub open spec fn stored_byte(address: u32) -> u32 {
    address % 0x100
}

/// What the emulator drives onto the data bus when it reads the word
/// `address` from the address bus: the low byte of the address for an
/// address below `0x10000`, nothing otherwise.
pub fn eeprom_reply(address: u32) -> (r: Option<u32>)
    ensures
        r == (if answers(address) { Some(stored_byte(address)) } else { None }),
        address >= 0x1_0000 ==> r is None,
        address < 0x1_0000 ==> r == Some(address % 0x100),
{
    if address < 0x0001_0000 {
        let dout = address & 0x0000_00FF;
        assert(address & 0xff == address % 0x100) by (bit_vector);
        Some(dout)
    } else {
        None
    }
}

/// The big-endian value of an EEPROM chip's eight-byte unique id.
pub fn unique_id_from_bytes(id: [u8; 8]) -> (uid: u64)
    ensures
        uid == be_u64_value(id@),
{
    u64_from_be_bytes(id)
}

/// The self-test's seed for chip id `unique_id`: the id's eight bytes, least
/// significant first, four times over.
pub open spec fn test_seed(unique_id: u64) -> Seq<u8> {
    let b = le_u64_bytes(unique_id);
    b + b + b + b
}

/// Builds the self-test's seed from a chip id.
pub fn rand_seed(unique_id: u64) -> (seed: [u8; 32])
    ensures
        seed@ == test_seed(unique_id),
{
    let u = u64_to_le_bytes(unique_id);
    let seed = [
        u[0], u[1], u[2], u[3], u[4], u[5], u[6], u[7],
        u[0], u[1], u[2], u[3], u[4], u[5], u[6], u[7],
        u[0], u[1], u[2], u[3], u[4], u[5], u[6], u[7],
        u[0], u[1], u[2], u[3], u[4], u[5], u[6], u[7],
    ];
    assert(seed@ =~= test_seed(unique_id));
    seed
}

/// The self-test's address generator for chip id `unique_id`: a ChaCha8
/// generator seeded with `test_seed(unique_id)`, on stream 0, at the start.
pub fn get_rand(unique_id: u64) -> (rng: ChaCha8Rng)
    ensures
        chacha8_seed(rng) == test_seed(unique_id),
        chacha8_stream(rng) == 0,
        chacha8_word_pos(rng) == 0,
{
    chacha8_from_seed(rand_seed(unique_id))
}

/// Draws the self-test's next address (the low 16 bits of the generator's
/// next word) and the word to push to the state machine for it.
pub fn next_request(rng: &mut ChaCha8Rng) -> (r: (u32, u32))
    ensures
        r.0 == chacha8_keystream_word(
            chacha8_seed(*old(rng)),
            chacha8_stream(*old(rng)),
            chacha8_word_pos(*old(rng)),
        ) % 0x1_0000,
        r.1 == le_order(r.0),
        chacha8_seed(*final(rng)) == chacha8_seed(*old(rng)),
        chacha8_stream(*final(rng)) == chacha8_stream(*old(rng)),
        chacha8_word_pos(*final(rng)) == (chacha8_word_pos(*old(rng)) + 1) % chacha_stream_words(),
{
    let w = chacha8_next_u32(rng);
    let t = w & 0x0000_FFFF;
    assert(w & 0xffff == w % 0x1_0000) by (bit_vector);
    (t, u32_from_le(t))
}

/// A wrong reply seen by the self-test.
#[derive(Clone, Copy, Debug, PartialEq, Eq, Structural)]
pub struct Mismatch {
    /// The number of the request.
    pub index: u32,
    /// The byte that came back.
    pub got: u32,
    /// The byte the address should have given.
    pub expected: u32,
    /// Requests since the previous wrong reply.
    pub since_last: u32,
}

/// The self-test's tally: how many replies were wrong, and the number of the
/// last wrong one.
#[derive(Clone, Copy, Debug, PartialEq, Eq, Structural)]
pub struct EepromCheck {
    pub wrong: u32,
    pub last_wrong: u32,
}

/// The tally after request `i` for `address` got the byte `got` back.
pub open spec fn check_step(s: EepromCheck, i: u32, address: u32, got: u32) -> (
    EepromCheck,
    Option<Mismatch>,
) {
    if got != stored_byte(address) {
        (
            EepromCheck { wrong: (s.wrong + 1) as u32, last_wrong: i },
            Some(
                Mismatch {
                    index: i,
                    got,
                    expected: stored_byte(address),
                    since_last: (i - s.last_wrong) as u32,
                },
            ),
        )
    } else {
        (s, None)
    }
}

impl EepromCheck {
    /// The tally before the first request.
    pub fn new() -> (s: EepromCheck)
        ensures
            s == (EepromCheck { wrong: 0, last_wrong: 0 }),
    {
        EepromCheck { wrong: 0, last_wrong: 0 }
    }

    /// Request `i` for `address` came back as the word `pulled` from the
    /// state machine, which holds the data byte in its most significant
    /// byte: tallies the reply and reports it if it is wrong.
    pub fn check(&mut self, i: u32, address: u32, pulled: u32) -> (m: Option<Mismatch>)
        requires
            old(self).wrong < u32::MAX,
            old(self).last_wrong <= i,
        ensures
            (*final(self), m) == check_step(*old(self), i, address, be_order(pulled)),
            be_order(pulled) == address % 0x100 ==> m is None && *final(self) == *old(self),
            be_order(pulled) != address % 0x100 ==> m == Some(
                Mismatch {
                    index: i,
                    got: be_order(pulled),
                    expected: address % 0x100,
                    since_last: (i - old(self).last_wrong) as u32,
                },
            ) && *final(self) == (EepromCheck { wrong: (old(self).wrong + 1) as u32, last_wrong: i }),
    {
        let din = u32_from_be(pulled);
        let expected = address & 0x0000_00FF;
        assert(address & 0xff == address % 0x100) by (bit_vector);
        if din != expected {
            let m = Mismatch { index: i, got: din, expected, since_last: i - self.last_wrong };
            self.wrong = self.wrong + 1;
            self.last_wrong = i;
            Some(m)
        } else {
            None
        }
    }
}

/// The tally after requests `0 .. ev.len()`, request `k` for address
/// `ev[k].0` getting the byte `ev[k].1` back.
pub open spec fn run_checks(ev: Seq<(u32, u32)>) -> EepromCheck
    decreases ev.len(),
{
    if ev.len() == 0 {
        EepromCheck { wrong: 0, last_wrong: 0 }
    } else {
        check_step(run_checks(ev.drop_last()), (ev.len() - 1) as u32, ev.last().0, ev.last().1).0
    }
}

/// The number of requests among `ev` that got a wrong byte back.
pub open spec fn count_wrong(ev: Seq<(u32, u32)>) -> nat
    decreases ev.len(),
{
    if ev.len() == 0 {
        0
    } else {
        count_wrong(ev.drop_last()) + if ev.last().1 != stored_byte(ev.last().0) {
            1nat
        } else {
            0nat
        }
    }
}

/// The tally counts exactly the wrong replies, and its last wrong request
/// is an earlier one.
pub proof fn lemma_tally_counts_wrong_replies(ev: Seq<(u32, u32)>)
    requires
        ev.len() <= u32::MAX,
    ensures
        run_checks(ev).wrong == count_wrong(ev),
        ev.len() > 0 ==> run_checks(ev).last_wrong < ev.len(),
        ev.len() == 0 ==> run_checks(ev).last_wrong == 0,
    decreases ev.len(),
{
    if ev.len() > 0 {
        lemma_tally_counts_wrong_replies(ev.drop_last());
        lemma_count_wrong_bound(ev.drop_last());
    }
}

proof fn lemma_count_wrong_bound(ev: Seq<(u32, u32)>)
    ensures
        count_wrong(ev) <= ev.len(),
    decreases ev.len(),
{
    if ev.len() > 0 {
        lemma_count_wrong_bound(ev.drop_last());
    }
}

/// Every address the self-test draws is one the emulator answers, and the
/// byte it answers with (the address's low byte) is never tallied as wrong.
pub proof fn lemma_emulator_passes_self_test(s: EepromCheck, i: u32, address: u32)
    requires
        address < 0x1_0000,
    ensures
        answers(address),
        stored_byte(address) == address % 0x100,
        check_step(s, i, address, address % 0x100) == (s, None::<Mismatch>),
{
}

/// The emulator answers exactly the addresses below `0x10000`, each with its
/// low byte.
pub proof fn lemma_reply_window(address: u32)
    ensures
        address >= 0x1_0000 ==> !answers(address),
        address < 0x1_0000 ==> answers(address) && stored_byte(address) == address % 0x100,
{
}

/// A reply equal to the low byte of its address is never tallied and leaves
/// the tally as it was; any other reply is reported with the low byte as the
/// expected value, counted once, and becomes the last wrong request.
pub proof fn lemma_tally_judges_by_low_byte(s: EepromCheck, i: u32, address: u32, got: u32)
    requires
        s.wrong < u32::MAX,
        s.last_wrong <= i,
    ensures
        got == address % 0x100 ==> check_step(s, i, address, got) == (s, None::<Mismatch>),
        got != address % 0x100 ==> check_step(s, i, address, got) == (
            EepromCheck { wrong: (s.wrong + 1) as u32, last_wrong: i },
            Some(Mismatch { index: i, got, expected: address % 0x100, since_last: (i - s.last_wrong) as u32 }),
        ),
{
}

/// The seed holds the chip id four times: every eight-byte quarter equals
/// the first, and the first quarter read least significant byte first
/// (byte `k` worth `256^k`) is the id.
pub proof fn lemma_test_seed_layout(unique_id: u64)
    ensures
        test_seed(unique_id).len() == 32,
        forall|j: int| 0 <= j < 32 ==> #[trigger] test_seed(unique_id)[j] == test_seed(unique_id)[j % 8],
        ({
            let b = test_seed(unique_id);
            b[0] + b[1] * 0x100 + b[2] * 0x1_0000 + b[3] * 0x100_0000 + b[4] * 0x1_0000_0000
                + b[5] * 0x100_0000_0000 + b[6] * 0x1_0000_0000_0000 + b[7] * 0x100_0000_0000_0000
                == unique_id
        }),
{
    lemma_le_u64_bytes_value(unique_id);
}

/// The chip id is read most significant byte first: the first byte fixes the
/// top eight bits of the id and the last byte is its low eight bits.
pub proof fn lemma_unique_id_byte_order(id: Seq<u8>)
    requires
        id.len() == 8,
    ensures
        id[0] * 0x100_0000_0000_0000 <= be_u64_value(id) < (id[0] + 1) * 0x100_0000_0000_0000,
        be_u64_value(id) % 0x100 == id[7],
{
    lemma_be_u64_byte_order(id);
}

} // verus!
