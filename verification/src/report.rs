//! The decoder's report line for one bus cycle: direction, address in hex and
//! the memory area the address falls in, in fixed-width columns.
use vstd::prelude::*;
use vstd::arithmetic::power::{pow, lemma_pow_positive};
use vstd::arithmetic::div_mod::lemma_div_denominator;
use crate::bytes::{le_order, u32_to_le};
use crate::record::{RW, AnalyzerA};

verus! {

/// The name of the memory area that holds `address`.
pub open spec fn area_name(address: u32) -> Seq<char> {
    if address <= 0x0FFFF {
        "ROM"@
    } else if address <= 0x1FFFF {
        "RAM"@
    } else if address <= 0x2FFFF {
        "MC68681"@
    } else if address <= 0x3FFFF {
        "LCD"@
    } else if address <= 0x4FFFF {
        "LED"@
    } else {
        "???"@
    }
}

/// How a direction is shown: five characters wide.
pub open spec fn rw_label(rw: RW) -> Seq<char> {
    match rw {
        RW::Read => "READ "@,
        RW::Write => "WRITE"@,
    }
}

/// The lowercase hex digit for `d`, where `0 <= d < 16`.
pub open spec fn hex_digit(d: int) -> char {
    seq!['0', '1', '2', '3', '4', '5', '6', '7', '8', '9', 'a', 'b', 'c', 'd', 'e', 'f'][d]
}

/// The lowercase hex digits of `n`, without leading zeros (`"0"` for zero).
pub open spec fn hex_digits(n: nat) -> Seq<char>
    decreases n,
{
    if n < 16 {
        seq![hex_digit(n as int)]
    } else {
        hex_digits(n / 16).push(hex_digit((n % 16) as int))
    }
}

/// `s` preceded by as many `fill` as it takes to make it `width` long.
pub open spec fn pad_left(s: Seq<char>, fill: char, width: nat) -> Seq<char> {
    if s.len() >= width {
        s
    } else {
        Seq::new((width - s.len()) as nat, |i: int| fill) + s
    }
}

/// The report line for a cycle with direction `rw` at `address`:
/// `"{rw} | {address:07x} | {area: >10} |"`.
pub open spec fn record_line(rw: RW, address: u32) -> Seq<char> {
    rw_label(rw) + " | "@ + pad_left(hex_digits(address as nat), '0', 7) + " | "@ + pad_left(
        area_name(address),
        ' ',
        10,
    ) + " |"@
}

/// `String::push`: the string with `c` appended.
#[verifier::external_body]
fn push_char(s: &mut String, c: char)
    ensures
        final(s)@ == old(s)@.push(c),
{
    s.push(c);
}

/// The `k` low hex digits of `n`, most significant first.
pub open spec fn nibbles(n: nat, k: nat) -> Seq<char>
    decreases k,
{
    if k == 0 {
        seq![]
    } else {
        nibbles(n / 16, (k - 1) as nat).push(hex_digit((n % 16) as int))
    }
}

/// `16` raised to the power `k`.
pub open spec fn pow16(k: nat) -> nat
    decreases k,
{
    if k == 0 {
        1
    } else {
        16 * pow16((k - 1) as nat)
    }
}

proof fn lemma_nibbles_of_zero(k: nat)
    ensures
        nibbles(0, k) == Seq::new(k, |i: int| '0'),
    decreases k,
{
    if k > 0 {
        lemma_nibbles_of_zero((k - 1) as nat);
        assert(nibbles(0, k) =~= Seq::new(k, |i: int| '0'));
    }
}

/// `k` low hex digits of a number below `16^k` are its digits padded with zeros.
proof fn lemma_nibbles_pad(n: nat, k: nat)
    requires
        k >= 1,
        n < pow16(k),
    ensures
        nibbles(n, k) == pad_left(hex_digits(n), '0', k),
    decreases k,
{
    if n < 16 {
        lemma_nibbles_of_zero((k - 1) as nat);
        assert(nibbles(n / 16, (k - 1) as nat) == nibbles(0, (k - 1) as nat));
        assert(nibbles(n, k) =~= pad_left(hex_digits(n), '0', k));
    } else {
        assert(k >= 2) by {
            if k == 1 {
                assert(pow16(1) == 16 * pow16(0));
            }
        }
        assert(n / 16 < pow16((k - 1) as nat));
        lemma_nibbles_pad(n / 16, (k - 1) as nat);
        let h = hex_digits(n / 16);
        assert(hex_digits(n) == h.push(hex_digit((n % 16) as int)));
        assert(nibbles(n, k) =~= pad_left(hex_digits(n), '0', k));
    }
}

proof fn lemma_pow16_positive(k: nat)
    ensures
        pow16(k) >= 1,
    decreases k,
{
    if k > 0 {
        lemma_pow16_positive((k - 1) as nat);
    }
}

/// A number of at least `16^j` has more than `j` hex digits.
proof fn lemma_hex_digits_len(n: nat, j: nat)
    requires
        n >= pow16(j),
    ensures
        hex_digits(n).len() >= j + 1,
    decreases j,
{
    if j > 0 {
        lemma_pow16_positive((j - 1) as nat);
        assert(n >= 16);
        assert(n / 16 >= pow16((j - 1) as nat));
        lemma_hex_digits_len(n / 16, (j - 1) as nat);
    }
}

/// The seven-wide hex column of a word: seven low digits below `16^7`,
/// all eight digits above.
proof fn lemma_hex_column(n: u32)
    ensures
        n < 0x1000_0000 ==> pad_left(hex_digits(n as nat), '0', 7) == nibbles(n as nat, 7),
        n >= 0x1000_0000 ==> pad_left(hex_digits(n as nat), '0', 7) == nibbles(n as nat, 8),
{
    reveal_with_fuel(pow16, 9);
    if n < 0x1000_0000 {
        lemma_nibbles_pad(n as nat, 7);
    } else {
        lemma_nibbles_pad(n as nat, 8);
        lemma_hex_digits_len(n as nat, 7);
    }
}

/// Appends the `k` low hex digits of `n`.
fn push_nibbles(out: &mut String, n: u32, k: u32)
    ensures
        final(out)@ == old(out)@ + nibbles(n as nat, k as nat),
    decreases k,
{
    if k > 0 {
        push_nibbles(out, n / 16, k - 1);
        let digits: [char; 16] = ['0', '1', '2', '3', '4', '5', '6', '7', '8', '9', 'a', 'b', 'c', 'd', 'e', 'f'];
        assert(digits@ =~= seq!['0', '1', '2', '3', '4', '5', '6', '7', '8', '9', 'a', 'b', 'c', 'd', 'e', 'f']);
        let d = digits[(n % 16) as usize];
        push_char(out, d);
        assert(out@ =~= old(out)@ + nibbles(n as nat, k as nat));
    }
}

/// Appends `count` copies of `c`.
fn push_repeated(out: &mut String, c: char, count: usize)
    ensures
        final(out)@ == old(out)@ + Seq::new(count as nat, |i: int| c),
{
    let mut i: usize = 0;
    while i < count
        invariant
            i <= count,
            out@ == old(out)@ + Seq::new(i as nat, |j: int| c),
        decreases count - i,
    {
        push_char(out, c);
        i = i + 1;
        assert(out@ =~= old(out)@ + Seq::new(i as nat, |j: int| c));
    }
}

/// The name of the area of `address`, with its length in characters.
fn area_str(address: u32) -> (r: (&'static str, usize))
    ensures
        r.0@ == area_name(address),
        r.1 == area_name(address).len(),
        r.1 <= 10,
{
    if address <= 0x0FFFF {
        proof { reveal_strlit("ROM"); }
        ("ROM", 3)
    } else if address <= 0x1FFFF {
        proof { reveal_strlit("RAM"); }
        ("RAM", 3)
    } else if address <= 0x2FFFF {
        proof { reveal_strlit("MC68681"); }
        ("MC68681", 7)
    } else if address <= 0x3FFFF {
        proof { reveal_strlit("LCD"); }
        ("LCD", 3)
    } else if address <= 0x4FFFF {
        proof { reveal_strlit("LED"); }
        ("LED", 3)
    } else {
        proof { reveal_strlit("???"); }
        ("???", 3)
    }
}

/// The name of the memory area that holds `address`: `ROM` below `0x10000`,
/// then `RAM`, `MC68681`, `LCD` and `LED` for each next 64 KiB, and `???`
/// from `0x50000` on.
pub fn get_address_area(address: u32) -> (s: String)
    ensures
        s@ == area_name(address),
{
    let (name, _) = area_str(address);
    String::from_str(name)
}

impl RW {
    /// How the direction is shown in a report: `"READ "` or `"WRITE"`.
    pub fn to_string(&self) -> (s: String)
        ensures
            s@ == rw_label(*self),
    {
        match self {
            RW::Read => String::from_str("READ "),
            RW::Write => String::from_str("WRITE"),
        }
    }
}

/// The report line for a cycle with direction `rw` at `address`.
pub fn format_record(rw: RW, address: u32) -> (s: String)
    ensures
        s@ == record_line(rw, address),
{
    let mut out = rw.to_string();
    out.append(" | ");
    proof {
        lemma_hex_column(address);
    }
    if address < 0x1000_0000 {
        push_nibbles(&mut out, address, 7);
    } else {
        push_nibbles(&mut out, address, 8);
    }
    out.append(" | ");
    let (name, len) = area_str(address);
    push_repeated(&mut out, ' ', 10 - len);
    out.append(name);
    out.append(" |");
    assert(pad_left(area_name(address), ' ', 10) =~= Seq::new((10 - len) as nat, |i: int| ' ')
        + area_name(address));
    assert(out@ =~= record_line(rw, address));
    out
}

/// The report line of a decoded record; its address is shown as
/// `u32::to_le` gives it on this machine.
pub fn format_data(a: AnalyzerA) -> (s: String)
    ensures
        s@ == record_line(a@.rw, le_order(a@.address)),
{
    let address = u32_to_le(a.address());
    format_record(a.rw(), address)
}

proof fn lemma_nibbles_len(n: nat, k: nat)
    ensures
        nibbles(n, k).len() == k,
    decreases k,
{
    if k > 0 {
        lemma_nibbles_len(n / 16, (k - 1) as nat);
    }
}

/// Report lines have fixed-width columns: the line of every address below
/// `16^7` (every decoded 20-bit address among them) is 30 characters wide.
pub proof fn lemma_record_line_width(rw: RW, address: u32)
    requires
        address < 0x1000_0000,
    ensures
        record_line(rw, address).len() == 30,
{
    reveal_strlit("READ ");
    reveal_strlit("WRITE");
    reveal_strlit(" | ");
    reveal_strlit(" |");
    reveal_strlit("ROM");
    reveal_strlit("RAM");
    reveal_strlit("MC68681");
    reveal_strlit("LCD");
    reveal_strlit("LED");
    reveal_strlit("???");
    lemma_hex_column(address);
    lemma_nibbles_len(address as nat, 7);
}

/// Digit `j` (counting from the least significant) among the `k` low hex
/// digits of `n` is the digit of `n / 16^j`.
proof fn lemma_nibbles_digit(n: nat, k: nat, j: nat)
    requires
        j < k,
    ensures
        nibbles(n, k)[k - 1 - j] == hex_digit(((n as int) / pow(16, j)) % 16),
    decreases k,
{
    reveal(pow);
    lemma_nibbles_len(n, k);
    lemma_nibbles_len(n / 16, (k - 1) as nat);
    let rest = nibbles(n / 16, (k - 1) as nat);
    assert(nibbles(n, k) == rest.push(hex_digit((n % 16) as int)));
    if j == 0 {
        assert(pow(16, 0) == 1);
    } else {
        lemma_nibbles_digit(n / 16, (k - 1) as nat, (j - 1) as nat);
        assert(nibbles(n, k)[k - 1 - j] == rest[(k - 1) - 1 - (j - 1)]);
        lemma_pow_positive(16, (j - 1) as nat);
        lemma_div_denominator(n as int, 16, pow(16, (j - 1) as nat));
        assert(pow(16, j) == 16 * pow(16, (j - 1) as nat));
    }
}

/// The hex column reads back as the address in base 16: for an address below
/// `16^7`, the seven characters after the direction and its separator are the
/// base-16 digits of the address, most significant first (the character at
/// position `14 - k` is digit `k`, `address / 16^k % 16`), each written as the
/// character at that index of `"0123456789abcdef"`.
pub proof fn lemma_hex_column_reads_back(rw: RW, address: u32)
    requires
        address < 0x1000_0000,
    ensures
        forall|j: int|
            8 <= j < 15 ==> #[trigger] record_line(rw, address)[j] == "0123456789abcdef"@[(
            (address as int) / pow(16, (14 - j) as nat)) % 16],
{
    reveal_strlit("READ ");
    reveal_strlit("WRITE");
    reveal_strlit(" | ");
    reveal_strlit("0123456789abcdef");
    assert("0123456789abcdef"@ =~= seq![
        '0', '1', '2', '3', '4', '5', '6', '7', '8', '9', 'a', 'b', 'c', 'd', 'e', 'f',
    ]);
    lemma_hex_column(address);
    lemma_nibbles_len(address as nat, 7);
    let col = nibbles(address as nat, 7);
    let head = rw_label(rw) + " | "@;
    assert(head.len() == 8);
    assert forall|j: int| 8 <= j < 15 implies #[trigger] record_line(rw, address)[j]
        == "0123456789abcdef"@[((address as int) / pow(16, (14 - j) as nat)) % 16] by {
        lemma_nibbles_digit(address as nat, 7, (14 - j) as nat);
        lemma_pow_positive(16, (14 - j) as nat);
        assert(record_line(rw, address)[j] == col[j - 8]);
    }
}

/// The area name depends only on the 64 KiB window of the address: window 0
/// is `ROM`, 1 `RAM`, 2 `MC68681`, 3 `LCD`, 4 `LED`, and every later one `???`.
pub proof fn lemma_area_by_window(address: u32)
    ensures
        address / 0x1_0000 == 0 ==> area_name(address) == "ROM"@,
        address / 0x1_0000 == 1 ==> area_name(address) == "RAM"@,
        address / 0x1_0000 == 2 ==> area_name(address) == "MC68681"@,
        address / 0x1_0000 == 3 ==> area_name(address) == "LCD"@,
        address / 0x1_0000 == 4 ==> area_name(address) == "LED"@,
        address / 0x1_0000 >= 5 ==> area_name(address) == "???"@,
{
}

/// The columns of a report line for an address below `16^7`: the direction
/// (`"READ "` or `"WRITE"`) in characters 0..5, separators `" | "` at 5..8
/// and 15..18, the area name right-aligned in 18..28 with spaces before it,
/// and `" |"` at the end.
pub proof fn lemma_record_line_columns(rw: RW, address: u32)
    requires
        address < 0x1000_0000,
    ensures
        ({
            let s = record_line(rw, address);
            let name = area_name(address);
            &&& s.len() == 30
            &&& s.subrange(0, 5) == (if rw == RW::Read { "READ "@ } else { "WRITE"@ })
            &&& s.subrange(5, 8) == " | "@
            &&& s.subrange(15, 18) == " | "@
            &&& s.subrange(28, 30) == " |"@
            &&& 1 <= name.len() <= 10
            &&& forall|j: int| 18 <= j < 28 - name.len() ==> #[trigger] s[j] == ' '
            &&& s.subrange(28 - name.len(), 28) == name
        }),
{
    reveal_strlit("READ ");
    reveal_strlit("WRITE");
    reveal_strlit(" | ");
    reveal_strlit(" |");
    reveal_strlit("ROM");
    reveal_strlit("RAM");
    reveal_strlit("MC68681");
    reveal_strlit("LCD");
    reveal_strlit("LED");
    reveal_strlit("???");
    lemma_hex_column(address);
    lemma_nibbles_len(address as nat, 7);
    let s = record_line(rw, address);
    let name = area_name(address);
    let label = rw_label(rw);
    let col = pad_left(hex_digits(address as nat), '0', 7);
    let pad = Seq::new((10 - name.len()) as nat, |i: int| ' ');
    assert(pad_left(name, ' ', 10) =~= pad + name);
    assert(s =~= label + " | "@ + col + " | "@ + (pad + name) + " |"@);
    assert(s.subrange(0, 5) =~= label);
    assert(s.subrange(5, 8) =~= " | "@);
    assert(s.subrange(15, 18) =~= " | "@);
    assert(s.subrange(28, 30) =~= " |"@);
    assert(s.subrange(28 - name.len(), 28) =~= name);
    assert forall|j: int| 18 <= j < 28 - name.len() implies #[trigger] s[j] == ' ' by {
        assert(s[j] == pad[j - 18]);
    }
}

} // verus!
