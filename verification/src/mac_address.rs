//! Device addresses as six hexadecimal bytes separated by colons.
use vstd::prelude::*;

use crate::text;

verus! {

/// The parts of a text between separators; a text without one is its own only part.
pub open spec fn parts_of(line: Seq<char>, separator: char) -> Seq<Seq<char>>
    decreases line.len(),
{
    if line.len() == 0 {
        seq![Seq::empty()]
    } else {
        let sofar = parts_of(line.drop_last(), separator);
        if line.last() == separator {
            sofar.push(Seq::empty())
        } else {
            sofar.drop_last().push(sofar.last().push(line.last()))
        }
    }
}

/// The value of one hexadecimal digit, of either case.
pub open spec fn hex_value(c: char) -> Option<nat> {
    if '0' <= c <= '9' {
        Some((c as int - 48) as nat)
    } else if 'A' <= c <= 'F' {
        Some((c as int - 55) as nat)
    } else if 'a' <= c <= 'f' {
        Some((c as int - 87) as nat)
    } else {
        None
    }
}

/// The number that hexadecimal digits stand for, or nothing where one is no digit.
pub open spec fn hex_number(digits: Seq<char>) -> Option<nat>
    decreases digits.len(),
{
    if digits.len() == 0 {
        Some(0)
    } else {
        match (hex_number(digits.drop_last()), hex_value(digits.last())) {
            (Some(high), Some(low)) => Some(high * 16 + low),
            _ => None,
        }
    }
}

/// The digits of a number text: all of it but one leading plus sign.
pub open spec fn digits_of(field: Seq<char>) -> Seq<char> {
    if field.len() > 0 && field[0] == '+' {
        field.skip(1)
    } else {
        field
    }
}

/// The byte that a field stands for: an optional plus sign, then at least one
/// hexadecimal digit, with a value of at most 255.
pub open spec fn hex_byte_value(field: Seq<char>) -> Option<u8> {
    if digits_of(field).len() == 0 {
        None
    } else {
        match hex_number(digits_of(field)) {
            Some(n) => if n <= 255 {
                Some(n as u8)
            } else {
                None
            },
            None => None,
        }
    }
}

/// The canonical text of six bytes: two upper-case digits each, colons between.
pub open spec fn mac_text(bytes: Seq<u8>) -> Seq<char> {
    Seq::new(
        17,
        |i: int|
            if i % 3 == 2 {
                ':'
            } else if i % 3 == 0 {
                text::hex_char((bytes[i / 3] / 16) as nat)
            } else {
                text::hex_char((bytes[i / 3] % 16) as nat)
            },
    )
}

/// Cuts a text at every separator.
pub fn split_parts(line: &str, separator: char) -> (r: Vec<String>)
    ensures
        r@.map_values(|part: String| part@) == parts_of(line@, separator),
{
    let mut parts: Vec<String> = Vec::new();
    let mut part: String = String::new();
    proof {
        assert(parts@.map_values(|p: String| p@).push(part@) =~= parts_of(line@.take(0), separator));
    }
    for c in it: line.chars()
        invariant
            it.seq() == line@,
            parts@.map_values(|p: String| p@).push(part@) == parts_of(
                line@.take(it.index() as int),
                separator,
            ),
    {
        let ghost n = it.index() as int;
        let ghost before = parts@.map_values(|p: String| p@);
        let ghost sofar = before.push(part@);
        assert(line@.take(n + 1).drop_last() =~= line@.take(n));
        assert(line@.take(n + 1).last() == c);
        if c == separator {
            parts.push(part);
            part = String::new();
            assert(parts@.map_values(|p: String| p@) =~= sofar);
        } else {
            part.push(c);
            assert(sofar.drop_last() =~= before);
        }
    }
    assert(line@.take(line@.len() as int) =~= line@);
    let ghost before = parts@.map_values(|p: String| p@);
    let ghost last = part@;
    parts.push(part);
    assert(parts@.map_values(|p: String| p@) =~= before.push(last));
    parts
}

/// The value of one hexadecimal digit.
fn hex_digit_value(c: char) -> (r: Option<u8>)
    ensures
        match r {
            Some(d) => hex_value(c) == Some(d as nat) && d < 16,
            None => hex_value(c) is None,
        },
{
    if '0' <= c && c <= '9' {
        Some((c as u32 - 48) as u8)
    } else if 'A' <= c && c <= 'F' {
        Some((c as u32 - 55) as u8)
    } else if 'a' <= c && c <= 'f' {
        Some((c as u32 - 87) as u8)
    } else {
        None
    }
}

/// Once a number is above 255, or is no number, more digits do not make it a byte.
proof fn lemma_hex_number_grows(digits: Seq<char>, n: int)
    requires
        0 <= n <= digits.len(),
        match hex_number(digits.take(n)) {
            Some(v) => v > 255,
            None => true,
        },
    ensures
        match hex_number(digits) {
            Some(v) => v > 255,
            None => true,
        },
    decreases digits.len() - n,
{
    if n == digits.len() {
        assert(digits.take(n) =~= digits);
    } else {
        assert(digits.take(n + 1).drop_last() =~= digits.take(n));
        lemma_hex_number_grows(digits, n + 1);
    }
}

/// Reads one field of an address.
pub fn hex_byte(field: &str) -> (r: Option<u8>)
    ensures
        r == hex_byte_value(field@),
{
    let ghost digits = digits_of(field@);
    let mut value: u32 = 0;
    let mut seen: bool = false;
    let mut first: bool = true;
    let ghost mut skipped: int = 0;
    for c in it: field.chars()
        invariant
            it.seq() == field@,
            digits == digits_of(field@),
            first == (it.index() == 0),
            0 <= skipped <= 1,
            skipped <= it.index(),
            it.index() > 0 ==> skipped == (if field@[0] == '+' { 1int } else { 0int }),
            seen == (it.index() > skipped),
            it.index() <= field@.len(),
            value <= 255,
            hex_number(digits.take(it.index() - skipped)) == Some(value as nat),
    {
        let ghost n = it.index() as int;
        assert(c == field@[n]);
        if first && c == '+' {
            proof {
                skipped = 1;
            }
            first = false;
        } else {
            first = false;
            seen = true;
            let ghost k = n - skipped;
            proof {
                assert(digits.len() == field@.len() - skipped);
                assert(digits[k] == c);
                assert(digits.take(k + 1).drop_last() =~= digits.take(k));
                assert(digits.take(k + 1).last() == c);
            }
            match hex_digit_value(c) {
                Some(low) => {
                    value = value * 16 + low as u32;
                    if value > 255 {
                        proof {
                            lemma_hex_number_grows(digits, k + 1);
                        }
                        return None;
                    }
                },
                None => {
                    proof {
                        lemma_hex_number_grows(digits, k + 1);
                    }
                    return None;
                },
            }
        }
    }
    proof {
        assert(digits.len() == field@.len() - skipped);
        assert(digits.take(digits.len() as int) =~= digits);
    }
    if seen {
        Some(value as u8)
    } else {
        None
    }
}

/// One field of the canonical text.
pub open spec fn field_text(byte: u8) -> Seq<char> {
    seq![text::hex_char((byte / 16) as nat), text::hex_char((byte % 16) as nat)]
}

proof fn lemma_field_text(byte: u8)
    ensures
        hex_byte_value(field_text(byte)) == Some(byte),
{
    let field = field_text(byte);
    let high = text::hex_char((byte / 16) as nat);
    let low = text::hex_char((byte % 16) as nat);
    assert(hex_value(high) == Some((byte / 16) as nat));
    assert(hex_value(low) == Some((byte % 16) as nat));
    assert(digits_of(field) == field);
    assert(field.drop_last() =~= seq![high]);
    assert(seq![high].drop_last() =~= Seq::<char>::empty());
    reveal_with_fuel(hex_number, 3);
    assert(hex_number(field) == Some(((byte / 16) as nat) * 16 + (byte % 16) as nat));
}

proof fn lemma_mac_text_parts(bytes: Seq<u8>, k: int)
    requires
        bytes.len() == 6,
        0 <= k < 6,
    ensures
        parts_of(mac_text(bytes).take(3 * k + 2), ':') == Seq::new(
            (k + 1) as nat,
            |i: int| field_text(bytes[i]),
        ),
    decreases k,
{
    let line = mac_text(bytes);
    let high = text::hex_char((bytes[k] / 16) as nat);
    let low = text::hex_char((bytes[k] % 16) as nat);
    let s1 = line.take(3 * k);
    let s2 = line.take(3 * k + 1);
    let s3 = line.take(3 * k + 2);
    assert(s2.drop_last() =~= s1);
    assert(s3.drop_last() =~= s2);
    assert(s2.last() == high && s3.last() == low);
    assert(high != ':' && low != ':');
    let fields = Seq::new(k as nat, |i: int| field_text(bytes[i]));
    if k == 0 {
        assert(s1 =~= Seq::<char>::empty());
        assert(parts_of(s1, ':') =~= fields.push(Seq::empty()));
    } else {
        lemma_mac_text_parts(bytes, k - 1);
        let s0 = line.take(3 * k - 1);
        assert(s1.drop_last() =~= s0);
        assert(s1.last() == ':');
        assert(parts_of(s1, ':') =~= fields.push(Seq::empty()));
    }
    assert(parts_of(s2, ':') =~= fields.push(seq![high]));
    assert(seq![high].push(low) =~= field_text(bytes[k]));
    assert(parts_of(s3, ':') =~= fields.push(field_text(bytes[k])));
    assert(parts_of(s3, ':') =~= Seq::new((k + 1) as nat, |i: int| field_text(bytes[i])));
}

/// The fields of the canonical text of six bytes read as those bytes.
pub proof fn law_mac_text_reads_back(bytes: Seq<u8>)
    requires
        bytes.len() == 6,
    ensures
        parts_of(mac_text(bytes), ':').len() == 6,
        forall|i: int|
            0 <= i < 6 ==> hex_byte_value(#[trigger] parts_of(mac_text(bytes), ':')[i]) == Some(
                bytes[i],
            ),
{
    lemma_mac_text_parts(bytes, 5);
    assert(mac_text(bytes).take(17) =~= mac_text(bytes));
    assert forall|i: int| 0 <= i < 6 implies hex_byte_value(
        #[trigger] parts_of(mac_text(bytes), ':')[i],
    ) == Some(bytes[i]) by {
        lemma_field_text(bytes[i]);
    }
}

/// Some texts with a separator between each two.
pub open spec fn glued(parts: Seq<Seq<char>>, separator: char) -> Seq<char>
    decreases parts.len(),
{
    if parts.len() == 0 {
        Seq::empty()
    } else if parts.len() == 1 {
        parts[0]
    } else {
        glued(parts.drop_last(), separator) + seq![separator] + parts.last()
    }
}

/// The parts of a text hold no separator, and make up the text with separators between them.
pub proof fn law_parts_make_up_the_text(line: Seq<char>, separator: char)
    ensures
        parts_of(line, separator).len() >= 1,
        glued(parts_of(line, separator), separator) == line,
        forall|i: int|
            0 <= i < parts_of(line, separator).len() ==> !(#[trigger] parts_of(
                line,
                separator,
            )[i]).contains(separator),
    decreases line.len(),
{
    if line.len() == 0 {
        assert(glued(parts_of(line, separator), separator) =~= line);
    } else {
        let init = line.drop_last();
        let last = line.last();
        law_parts_make_up_the_text(init, separator);
        let sofar = parts_of(init, separator);
        let all = parts_of(line, separator);
        if last == separator {
            assert(all.drop_last() =~= sofar);
            assert(glued(all, separator) =~= init + seq![separator] + Seq::<char>::empty());
            assert(glued(all, separator) =~= line);
        } else {
            let grown = sofar.last().push(last);
            assert(all.drop_last() =~= sofar.drop_last());
            if sofar.len() == 1 {
                assert(all.len() == 1);
                assert(glued(all, separator) =~= grown);
                assert(glued(sofar, separator) =~= sofar.last());
            } else {
                assert(glued(all, separator) =~= glued(sofar.drop_last(), separator) + seq![
                    separator,
                ] + grown);
                assert(glued(all, separator) =~= glued(sofar, separator).push(last));
            }
            assert(glued(all, separator) =~= line);
            assert forall|i: int| 0 <= i < all.len() implies !(#[trigger] all[i]).contains(
                separator,
            ) by {
                if i < all.len() - 1 {
                    assert(all[i] == sofar[i]);
                } else {
                    assert(!sofar[sofar.len() - 1].contains(separator));
                    if grown.contains(separator) {
                        let k = grown.index_of(separator);
                        assert(sofar.last()[k] == separator);
                    }
                }
            }
        }
    }
}

/// A character is a hexadecimal digit exactly where it is a decimal one or one of the first six
/// letters, of either case; its value is what it counts from zero or from ten on.
pub proof fn law_hexadecimal_digits(c: char, k: nat)
    ensures
        hex_value(c) is Some <==> ('0' <= c <= '9' || 'a' <= c <= 'f' || 'A' <= c <= 'F'),
        k < 10 && c as int == '0' as int + k ==> hex_value(c) == Some(k),
        k < 6 && c as int == 'a' as int + k ==> hex_value(c) == Some((10 + k) as nat),
        k < 6 && c as int == 'A' as int + k ==> hex_value(c) == Some((10 + k) as nat),
{
}

/// A digit more on the right is sixteen times the number and the digit; what holds another
/// character is no number.
pub proof fn law_hexadecimal_numbers(digits: Seq<char>, c: char)
    ensures
        hex_number(Seq::empty()) == Some(0nat),
        hex_number(digits) is Some && hex_value(c) is Some ==> hex_number(digits.push(c)) == Some(
            hex_number(digits)->0 * 16 + hex_value(c)->0,
        ),
        hex_number(digits) is None || hex_value(c) is None ==> hex_number(digits.push(c)) is None,
{
    assert(digits.push(c).drop_last() =~= digits);
}

/// A field of an address is a byte exactly where it is a hexadecimal number of at least one digit
/// and at most 255, with or without a plus sign before it.
pub proof fn law_fields_of_an_address(field: &str, r: Option<u8>)
    requires
        call_ensures(hex_byte, (field,), r),
    ensures
        ({
            let signed = field@.len() > 0 && field@[0] == '+';
            let digits = if signed {
                field@.skip(1)
            } else {
                field@
            };
            &&& r is Some <==> digits.len() > 0 && hex_number(digits) is Some && hex_number(
                digits,
            )->0 <= 255
            &&& r matches Some(byte) ==> byte as nat == hex_number(digits)->0
        }),
{
}

/// The text of six bytes has seventeen characters: two digits for each byte, the higher one first
/// and in capitals, and a colon after each byte but the last.
pub proof fn law_text_of_an_address(bytes: Seq<u8>, k: int)
    requires
        bytes.len() == 6,
        0 <= k < 6,
    ensures
        ({
            let line = mac_text(bytes);
            let high = line[3 * k];
            let low = line[3 * k + 1];
            &&& line.len() == 17
            &&& k < 5 ==> line[3 * k + 2] == ':'
            &&& '0' <= high <= '9' || 'A' <= high <= 'F'
            &&& '0' <= low <= '9' || 'A' <= low <= 'F'
            &&& hex_value(high) is Some && hex_value(low) is Some
            &&& hex_value(high)->0 * 16 + hex_value(low)->0 == bytes[k]
        }),
{
}

} // verus!
