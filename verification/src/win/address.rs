//! Device addresses and names as the Windows Bluetooth functions give them.
use vstd::prelude::*;

use crate::mac_address;
use crate::text;
use crate::win::error::WinError;

verus! {

/// The number that stands before byte `i` of an address, counted from the highest one.
pub open spec fn weight(i: int) -> nat {
    if i == 0 {
        0x100_0000_0000
    } else if i == 1 {
        0x1_0000_0000
    } else if i == 2 {
        0x100_0000
    } else if i == 3 {
        0x1_0000
    } else if i == 4 {
        0x100
    } else {
        1
    }
}

/// The six bytes of an address; what is above them is not part of it.
pub open spec fn address_bytes(addr: u64) -> Seq<u8> {
    Seq::new(6, |i: int| ((addr as nat / weight(i)) % 256) as u8)
}

/// The number that six bytes make up.
pub open spec fn address_number(bytes: Seq<u8>) -> nat {
    bytes[0] as nat * weight(0) + bytes[1] as nat * weight(1) + bytes[2] as nat * weight(2)
        + bytes[3] as nat * weight(3) + bytes[4] as nat * weight(4) + bytes[5] as nat
}

/// Adds one byte to a text, as two upper-case hexadecimal digits.
fn push_byte(line: &mut String, byte: u8)
    ensures
        final(line)@ == old(line)@ + mac_address::field_text(byte),
{
    line.push(text::hex_digit(byte / 16));
    line.push(text::hex_digit(byte % 16));
    assert(line@ =~= old(line)@ + mac_address::field_text(byte));
}

/// The text of an address.
pub fn bth_addr_to_string(addr: u64) -> (r: String)
    ensures
        r@ == mac_address::mac_text(address_bytes(addr)),
{
    let bytes: [u8; 6] = [
        ((addr / 0x100_0000_0000) % 256) as u8,
        ((addr / 0x1_0000_0000) % 256) as u8,
        ((addr / 0x100_0000) % 256) as u8,
        ((addr / 0x1_0000) % 256) as u8,
        ((addr / 0x100) % 256) as u8,
        (addr % 256) as u8,
    ];
    assert(bytes@ =~= address_bytes(addr));
    let ghost full = mac_address::mac_text(bytes@);
    let mut out: String = String::new();
    assert(out@ =~= full.take(0));
    let mut i: usize = 0;
    while i < 6
        invariant
            i <= 6,
            bytes@.len() == 6,
            full == mac_address::mac_text(bytes@),
            out@ == full.take(if i == 6 { 17 } else { 3 * i }),
        decreases 6 - i,
    {
        push_byte(&mut out, bytes[i]);
        assert(out@ =~= full.take(3 * i + 2));
        if i < 5 {
            out.push(':');
            assert(out@ =~= full.take(3 * i + 3));
        }
        i = i + 1;
    }
    assert(full.take(17) =~= full);
    out
}

/// Whether field `i` is the last one that is no byte.
pub open spec fn last_bad_field(fields: Seq<Seq<char>>, i: int) -> bool {
    &&& 0 <= i < fields.len()
    &&& mac_address::hex_byte_value(fields[i]) is None
    &&& forall|j: int| i < j < fields.len() ==> mac_address::hex_byte_value(#[trigger] fields[j]) is Some
}

/// Whether every field is a byte.
pub open spec fn all_bytes(fields: Seq<Seq<char>>) -> bool {
    forall|i: int|
        0 <= i < fields.len() ==> mac_address::hex_byte_value(#[trigger] fields[i]) is Some
}

/// Whether a text is an address: six fields that are bytes.
pub open spec fn is_address(line: Seq<char>) -> bool {
    mac_address::parts_of(line, ':').len() == 6 && all_bytes(mac_address::parts_of(line, ':'))
}

/// The number of an address.
pub open spec fn address_of(line: Seq<char>) -> nat {
    let fields = mac_address::parts_of(line, ':');
    address_number(Seq::new(6, |i: int| mac_address::hex_byte_value(fields[i])->0))
}

/// Whether this is why a text is no address: it does not have six fields, or the field that is
/// named is the last one that is no byte.
pub open spec fn refuses(error: WinError, line: Seq<char>) -> bool {
    let fields = mac_address::parts_of(line, ':');
    match error {
        WinError::InvalidAddress(text) => fields.len() != 6 && text@ == line,
        WinError::InvalidHexByte(field) => fields.len() == 6 && exists|i: int| #[trigger]
            last_bad_field(fields, i) && field@ == fields[i],
        _ => false,
    }
}

/// Reads an address.
pub fn string_to_bth_addr(addr_str: &str) -> (r: Result<u64, WinError>)
    ensures
        match r {
            Ok(addr) => is_address(addr_str@) && addr == address_of(addr_str@) && addr
                < 0x1_0000_0000_0000,
            Err(error) => !is_address(addr_str@) && refuses(error, addr_str@),
        },
{
    let parts: Vec<String> = mac_address::split_parts(addr_str, ':');
    let ghost fields = mac_address::parts_of(addr_str@, ':');
    assert(parts@.len() == fields.len()) by {
        assert(parts@.map_values(|part: String| part@).len() == parts@.len());
    }
    assert forall|i: int| 0 <= i < fields.len() implies parts@[i]@ == #[trigger] fields[i] by {
        assert(parts@.map_values(|part: String| part@)[i] == parts@[i]@);
    }
    if parts.len() != 6 {
        return Err(WinError::InvalidAddress(addr_str.to_owned()));
    }
    let mut bytes: [u8; 6] = [0, 0, 0, 0, 0, 0];
    let mut n: usize = 6;
    while n > 0
        invariant
            n <= 6,
            parts@.len() == 6,
            fields.len() == 6,
            fields == mac_address::parts_of(addr_str@, ':'),
            forall|i: int| 0 <= i < 6 ==> parts@[i]@ == #[trigger] fields[i],
            bytes@.len() == 6,
            forall|i: int|
                n <= i < 6 ==> mac_address::hex_byte_value(#[trigger] fields[i]) == Some(bytes@[i]),
        decreases n,
    {
        n = n - 1;
        match mac_address::hex_byte(parts[n].as_str()) {
            Some(byte) => {
                assert(mac_address::hex_byte_value(fields[n as int]) == Some(byte));
                bytes[n] = byte;
            },
            None => {
                assert(mac_address::hex_byte_value(fields[n as int]) is None);
                assert(last_bad_field(fields, n as int));
                return Err(WinError::InvalidHexByte(parts[n].clone()));
            },
        }
    }
    proof {
        let values = Seq::new(6, |i: int| mac_address::hex_byte_value(fields[i])->0);
        assert(values =~= bytes@) by {
            assert forall|i: int| 0 <= i < 6 implies values[i] == bytes@[i] by {
                assert(mac_address::hex_byte_value(fields[i]) == Some(bytes@[i]));
            }
        }
    }
    Ok(
        (bytes[0] as u64) * 0x100_0000_0000 + (bytes[1] as u64) * 0x1_0000_0000 + (bytes[2] as u64)
            * 0x100_0000 + (bytes[3] as u64) * 0x1_0000 + (bytes[4] as u64) * 0x100 + (
        bytes[5] as u64),
    )
}

proof fn lemma_address_number(addr: u64)
    requires
        addr < 0x1_0000_0000_0000,
    ensures
        address_number(address_bytes(addr)) == addr,
{
    let a = addr as int;
    vstd::arithmetic::div_mod::lemma_div_denominator(a, 0x100, 0x100);
    vstd::arithmetic::div_mod::lemma_div_denominator(a, 0x1_0000, 0x100);
    vstd::arithmetic::div_mod::lemma_div_denominator(a, 0x100_0000, 0x100);
    vstd::arithmetic::div_mod::lemma_div_denominator(a, 0x1_0000_0000, 0x100);
    let q1 = a / 0x100;
    let q2 = q1 / 0x100;
    let q3 = q2 / 0x100;
    let q4 = q3 / 0x100;
    let q5 = q4 / 0x100;
    assert(a / 0x1_0000 == q2);
    assert(a / 0x100_0000 == q3);
    assert(a / 0x1_0000_0000 == q4);
    assert(a / 0x100_0000_0000 == q5);
    assert(a == q1 * 0x100 + a % 0x100);
    assert(q1 == q2 * 0x100 + q1 % 0x100);
    assert(q2 == q3 * 0x100 + q2 % 0x100);
    assert(q3 == q4 * 0x100 + q3 % 0x100);
    assert(q4 == q5 * 0x100 + q4 % 0x100);
    let bytes = address_bytes(addr);
    assert(bytes[5] == a % 0x100);
    assert(bytes[4] == q1 % 0x100);
    assert(bytes[3] == q2 % 0x100);
    assert(bytes[2] == q3 % 0x100);
    assert(bytes[1] == q4 % 0x100);
    assert(bytes[0] == q5 % 0x100);
    assert(q5 < 0x100);
}

/// Only the low six bytes of an address count.
proof fn lemma_low_bytes(addr: u64)
    ensures
        address_bytes((addr % 0x1_0000_0000_0000) as u64) == address_bytes(addr),
{
    let low = (addr % 0x1_0000_0000_0000) as u64;
    let bytes = address_bytes(addr);
    let low_bytes = address_bytes(low);
    assert((addr / 0x100_0000_0000u64) % 256u64 == (low / 0x100_0000_0000u64) % 256u64) by (bit_vector)
        requires
            low == addr % 0x1_0000_0000_0000u64,
    ;
    assert((addr / 0x1_0000_0000u64) % 256u64 == (low / 0x1_0000_0000u64) % 256u64) by (bit_vector)
        requires
            low == addr % 0x1_0000_0000_0000u64,
    ;
    assert((addr / 0x100_0000u64) % 256u64 == (low / 0x100_0000u64) % 256u64) by (bit_vector)
        requires
            low == addr % 0x1_0000_0000_0000u64,
    ;
    assert((addr / 0x1_0000u64) % 256u64 == (low / 0x1_0000u64) % 256u64) by (bit_vector)
        requires
            low == addr % 0x1_0000_0000_0000u64,
    ;
    assert((addr / 0x100u64) % 256u64 == (low / 0x100u64) % 256u64) by (bit_vector)
        requires
            low == addr % 0x1_0000_0000_0000u64,
    ;
    assert((addr / 1u64) % 256u64 == (low / 1u64) % 256u64) by (bit_vector)
        requires
            low == addr % 0x1_0000_0000_0000u64,
    ;
    assert(bytes[0] == low_bytes[0]);
    assert(bytes[1] == low_bytes[1]);
    assert(bytes[2] == low_bytes[2]);
    assert(bytes[3] == low_bytes[3]);
    assert(bytes[4] == low_bytes[4]);
    assert(bytes[5] == low_bytes[5]);
    assert(bytes =~= low_bytes);
}

/// The text of an address reads as that address; only its low six bytes count.
pub proof fn law_address_reads_back(addr: u64)
    ensures
        is_address(mac_address::mac_text(address_bytes(addr))),
        address_of(mac_address::mac_text(address_bytes(addr))) == addr % 0x1_0000_0000_0000,
{
    let bytes = address_bytes(addr);
    let line = mac_address::mac_text(bytes);
    let fields = mac_address::parts_of(line, ':');
    mac_address::law_mac_text_reads_back(bytes);
    let values = Seq::new(6, |i: int| mac_address::hex_byte_value(fields[i])->0);
    assert(values =~= bytes) by {
        assert forall|i: int| 0 <= i < 6 implies values[i] == bytes[i] by {
            assert(mac_address::hex_byte_value(fields[i]) == Some(bytes[i]));
        }
    }
    lemma_low_bytes(addr);
    lemma_address_number((addr % 0x1_0000_0000_0000) as u64);
}

proof fn lemma_bytes_of_number(bytes: Seq<u8>)
    requires
        bytes.len() == 6,
    ensures
        address_number(bytes) < 0x1_0000_0000_0000,
        address_bytes(address_number(bytes) as u64) == bytes,
{
    let a = address_number(bytes) as int;
    let q5 = bytes[0] as int;
    let q4 = q5 * 0x100 + bytes[1];
    let q3 = q4 * 0x100 + bytes[2];
    let q2 = q3 * 0x100 + bytes[3];
    let q1 = q2 * 0x100 + bytes[4];
    assert(a == q1 * 0x100 + bytes[5]);
    vstd::arithmetic::div_mod::lemma_div_denominator(a, 0x100, 0x100);
    vstd::arithmetic::div_mod::lemma_div_denominator(a, 0x1_0000, 0x100);
    vstd::arithmetic::div_mod::lemma_div_denominator(a, 0x100_0000, 0x100);
    vstd::arithmetic::div_mod::lemma_div_denominator(a, 0x1_0000_0000, 0x100);
    assert(a / 0x100 == q1);
    assert(q1 / 0x100 == q2);
    assert(q2 / 0x100 == q3);
    assert(q3 / 0x100 == q4);
    assert(q4 / 0x100 == q5);
    let again = address_bytes(a as u64);
    assert(again[0] == bytes[0]);
    assert(again[1] == bytes[1]);
    assert(again[2] == bytes[2]);
    assert(again[3] == bytes[3]);
    assert(again[4] == bytes[4]);
    assert(again[5] == bytes[5]);
    assert(again =~= bytes);
}

/// An address that was read is written in its canonical form: the same bytes, each as two
/// upper-case digits.
pub proof fn law_read_address_is_written_canonically(line: Seq<char>)
    requires
        is_address(line),
    ensures
        mac_address::mac_text(address_bytes(address_of(line) as u64)) == mac_address::mac_text(
            Seq::new(
                6,
                |i: int|
                    mac_address::hex_byte_value(mac_address::parts_of(line, ':')[i])->0,
            ),
        ),
{
    let fields = mac_address::parts_of(line, ':');
    lemma_bytes_of_number(Seq::new(6, |i: int| mac_address::hex_byte_value(fields[i])->0));
}

/// Whether a unit of UTF-16 is the first half of a pair.
pub open spec fn is_high_half(unit: u16) -> bool {
    0xD800 <= unit <= 0xDBFF
}

/// Whether a unit of UTF-16 is the second half of a pair.
pub open spec fn is_low_half(unit: u16) -> bool {
    0xDC00 <= unit <= 0xDFFF
}

/// The text that units of UTF-16 stand for; a half without its other half stands for the
/// replacement character.
pub open spec fn utf16_text(units: Seq<u16>) -> Seq<char>
    decreases units.len(),
{
    if units.len() == 0 {
        Seq::empty()
    } else if units.len() >= 2 && is_high_half(units[0]) && is_low_half(units[1]) {
        seq![(0x1_0000 + (units[0] - 0xD800) * 0x400 + (units[1] - 0xDC00)) as char] + utf16_text(
            units.skip(2),
        )
    } else if is_high_half(units[0]) || is_low_half(units[0]) {
        seq!['\u{FFFD}'] + utf16_text(units.skip(1))
    } else {
        seq![units[0] as char] + utf16_text(units.skip(1))
    }
}

/// `String::from_utf16_lossy`: the text that units of UTF-16 stand for, with the replacement
/// character for each half that is not part of a pair.
#[verifier::external_body]
fn from_utf16_lossy(units: &[u16]) -> (r: String)
    ensures
        r@ == utf16_text(units@),
{
    String::from_utf16_lossy(units)
}

/// The units before the first zero, or all of them.
pub open spec fn before_zero(units: Seq<u16>) -> Seq<u16>
    decreases units.len(),
{
    if units.len() == 0 || units[0] == 0 {
        Seq::empty()
    } else {
        seq![units[0]] + before_zero(units.skip(1))
    }
}

proof fn lemma_before_zero(units: Seq<u16>, n: int)
    requires
        0 <= n <= units.len(),
        forall|i: int| 0 <= i < n ==> units[i] != 0,
        n < units.len() ==> units[n] == 0,
    ensures
        before_zero(units) == units.take(n),
    decreases n,
{
    if n > 0 {
        lemma_before_zero(units.skip(1), n - 1);
        assert(units.take(n) =~= seq![units[0]] + units.skip(1).take(n - 1));
    } else {
        assert(units.take(0) =~= Seq::<u16>::empty());
    }
}

/// The text in a buffer that ends at its first zero.
pub fn string_from_utf16_char_array(chars: &[u16]) -> (r: String)
    ensures
        r@ == utf16_text(before_zero(chars@)),
{
    let mut units: Vec<u16> = Vec::new();
    let mut len: usize = 0;
    while len < chars.len() && chars[len] != 0
        invariant
            len <= chars@.len(),
            units@ == chars@.take(len as int),
            forall|i: int| 0 <= i < len ==> chars@[i] != 0,
        decreases chars@.len() - len,
    {
        units.push(chars[len]);
        assert(units@ =~= chars@.take(len + 1));
        len = len + 1;
    }
    proof {
        lemma_before_zero(chars@, len as int);
    }
    from_utf16_lossy(units.as_slice())
}

/// What counts of a buffer is what stands before its first zero, or all of it.
pub proof fn law_name_ends_at_zero(units: Seq<u16>, n: int)
    requires
        0 <= n <= units.len(),
        forall|i: int| 0 <= i < n ==> #[trigger] units[i] != 0,
        n < units.len() ==> units[n] == 0,
    ensures
        before_zero(units) == units.take(n),
{
    lemma_before_zero(units, n);
}

/// Units that are no halves of pairs stand for the characters with their numbers, one for one.
pub proof fn law_plain_units_are_characters(units: Seq<u16>)
    requires
        forall|i: int| 0 <= i < units.len() ==> !(0xD800 <= #[trigger] units[i] <= 0xDFFF),
    ensures
        utf16_text(units).len() == units.len(),
        forall|i: int|
            0 <= i < units.len() ==> (#[trigger] utf16_text(units)[i]) as int == units[i] as int,
    decreases units.len(),
{
    if units.len() > 0 {
        let rest = units.skip(1);
        assert forall|i: int| 0 <= i < rest.len() implies !(0xD800 <= #[trigger] rest[i]
            <= 0xDFFF) by {
            assert(rest[i] == units[i + 1]);
        }
        law_plain_units_are_characters(rest);
        assert(!(0xD800 <= units[0] <= 0xDFFF));
        assert forall|i: int| 0 <= i < units.len() implies (#[trigger] utf16_text(units)[i]) as int
            == units[i] as int by {
            if i > 0 {
                assert(utf16_text(units)[i] == utf16_text(rest)[i - 1]);
            }
        }
    }
}

/// A pair of halves stands for one character above the others, and a half alone for the replacement
/// character; what follows is not affected.
pub proof fn law_halves_of_pairs(high: u16, low: u16, rest: Seq<u16>)
    requires
        0xD800 <= high <= 0xDBFF,
        0xDC00 <= low <= 0xDFFF,
    ensures
        utf16_text(seq![high, low] + rest) == seq![
            (0x1_0000 + (high - 0xD800) * 0x400 + (low - 0xDC00)) as char,
        ] + utf16_text(rest),
        utf16_text(seq![low] + rest) == seq!['\u{FFFD}'] + utf16_text(rest),
        rest.len() == 0 || !(0xDC00 <= rest[0] <= 0xDFFF) ==> utf16_text(seq![high] + rest)
            == seq!['\u{FFFD}'] + utf16_text(rest),
{
    assert((seq![high, low] + rest).skip(2) =~= rest);
    assert((seq![low] + rest).skip(1) =~= rest);
    assert((seq![high] + rest).skip(1) =~= rest);
}

} // verus!
