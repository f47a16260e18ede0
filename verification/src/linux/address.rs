//! Device addresses as BlueZ reads and writes them.
use vstd::prelude::*;

use crate::linux::error::LinuxError;
use crate::mac_address;

verus! {

/// The bytes that the fields of an address stand for, or the first field that is no byte.
pub open spec fn field_bytes(fields: Seq<Seq<char>>) -> Result<Seq<u8>, Seq<char>>
    decreases fields.len(),
{
    if fields.len() == 0 {
        Ok(Seq::empty())
    } else {
        match field_bytes(fields.drop_last()) {
            Err(field) => Err(field),
            Ok(bytes) => match mac_address::hex_byte_value(fields.last()) {
                Some(byte) => Ok(bytes.push(byte)),
                None => Err(fields.last()),
            },
        }
    }
}

/// The six bytes of an address, or the part of the text that makes it unreadable: the first
/// field that is no byte, or the whole text where there are not six fields.
pub open spec fn address_bytes(line: Seq<char>) -> Result<Seq<u8>, Seq<char>> {
    match field_bytes(mac_address::parts_of(line, ':')) {
        Err(field) => Err(field),
        Ok(bytes) => if bytes.len() == 6 {
            Ok(bytes)
        } else {
            Err(line)
        },
    }
}

/// Reads an address with `<bluer::Address as FromStr>::from_str`: the text is cut at its
/// colons and each field read by `u8::from_str_radix` with base 16. An error names the first
/// field that is no byte, or else the whole text where there are not six fields.
#[verifier::external_body]
fn parse_address(line: &str) -> (r: Result<[u8; 6], String>)
    ensures
        match r {
            Ok(bytes) => address_bytes(line@) == Ok::<Seq<u8>, Seq<char>>(bytes@),
            Err(reason) => address_bytes(line@) matches Err(part) && reason@
                == "invalid Bluetooth address: "@ + part,
        },
{
    match line.parse::<bluer::Address>() {
        Ok(address) => Ok(address.0),
        Err(error) => Err(error.to_string()),
    }
}

/// Writes an address with `<bluer::Address as Display>::fmt`: two upper-case hexadecimal
/// digits for each byte, with colons between.
#[verifier::external_body]
pub(crate) fn address_text(bytes: [u8; 6]) -> (r: String)
    ensures
        r@ == mac_address::mac_text(bytes@),
{
    bluer::Address::new(bytes).to_string()
}

/// The canonical text of an address, or why it cannot be read.
pub open spec fn canonical(line: Seq<char>) -> Result<Seq<char>, Seq<char>> {
    match address_bytes(line) {
        Ok(bytes) => Ok(mac_address::mac_text(bytes)),
        Err(part) => Err("invalid Bluetooth address: "@ + part),
    }
}

/// Whether `error` is the refusal of the unreadable address `line`.
pub open spec fn refuses(error: LinuxError, line: Seq<char>) -> bool {
    canonical(line) matches Err(reason) && error matches LinuxError::InvalidAddress(text)
        && text@ == reason
}

/// The canonical text of an address and its bytes.
pub fn normalize_addr(addr_str: &str) -> (r: Result<(String, [u8; 6]), LinuxError>)
    ensures
        match r {
            Ok((key, bytes)) => canonical(addr_str@) == Ok::<Seq<char>, Seq<char>>(key@)
                && address_bytes(addr_str@) == Ok::<Seq<u8>, Seq<char>>(bytes@),
            Err(error) => refuses(error, addr_str@),
        },
{
    match parse_address(addr_str) {
        Ok(bytes) => Ok((address_text(bytes), bytes)),
        Err(reason) => Err(LinuxError::InvalidAddress(reason)),
    }
}

proof fn lemma_field_bytes(fields: Seq<Seq<char>>, bytes: Seq<u8>)
    requires
        fields.len() == bytes.len(),
        forall|i: int|
            0 <= i < fields.len() ==> mac_address::hex_byte_value(#[trigger] fields[i]) == Some(
                bytes[i],
            ),
    ensures
        field_bytes(fields) == Ok::<Seq<u8>, Seq<char>>(bytes),
    decreases fields.len(),
{
    if fields.len() > 0 {
        assert forall|i: int| 0 <= i < fields.len() - 1 implies mac_address::hex_byte_value(
            #[trigger] fields.drop_last()[i],
        ) == Some(bytes.drop_last()[i]) by {
            assert(fields.drop_last()[i] == fields[i]);
        }
        lemma_field_bytes(fields.drop_last(), bytes.drop_last());
        assert(bytes.drop_last().push(bytes.last()) =~= bytes);
    } else {
        assert(bytes =~= Seq::<u8>::empty());
    }
}

/// The canonical text of any six bytes is an address that stands for those bytes and is its
/// own canonical text.
pub proof fn law_canonical_is_stable(bytes: Seq<u8>)
    requires
        bytes.len() == 6,
    ensures
        address_bytes(mac_address::mac_text(bytes)) == Ok::<Seq<u8>, Seq<char>>(bytes),
        canonical(mac_address::mac_text(bytes)) == Ok::<Seq<char>, Seq<char>>(
            mac_address::mac_text(bytes),
        ),
{
    mac_address::law_mac_text_reads_back(bytes);
    lemma_field_bytes(mac_address::parts_of(mac_address::mac_text(bytes), ':'), bytes);
}

/// Normalizing a normalized address changes nothing.
pub proof fn law_canonical_is_idempotent(line: Seq<char>)
    requires
        canonical(line) is Ok,
    ensures
        canonical(canonical(line)->Ok_0) == canonical(line),
{
    law_canonical_is_stable(address_bytes(line)->Ok_0);
}

/// Fields are read in their order: where all are bytes, the bytes are those of the fields, and
/// where one is not, the first such one is named.
pub proof fn law_fields_are_read_in_order(fields: Seq<Seq<char>>, i: int)
    ensures
        ({
            let all_good = forall|j: int|
                0 <= j < fields.len() ==> mac_address::hex_byte_value(#[trigger] fields[j]) is Some;
            let first_bad = 0 <= i < fields.len() && mac_address::hex_byte_value(fields[i]) is None
                && (forall|j: int|
                0 <= j < i ==> mac_address::hex_byte_value(#[trigger] fields[j]) is Some);
            &&& field_bytes(fields) is Ok <==> all_good
            &&& field_bytes(fields) matches Ok(bytes) ==> bytes.len() == fields.len() && forall|
                j: int,
            |
                0 <= j < fields.len() ==> mac_address::hex_byte_value(#[trigger] fields[j]) == Some(
                    bytes[j],
                )
            &&& first_bad ==> field_bytes(fields) == Err::<Seq<u8>, Seq<char>>(fields[i])
        }),
    decreases fields.len(),
{
    if fields.len() > 0 {
        let init = fields.drop_last();
        law_fields_are_read_in_order(init, i);
        assert forall|j: int| 0 <= j < init.len() implies #[trigger] fields[j] == init[j] by {}
        let good = forall|j: int|
            0 <= j < init.len() ==> mac_address::hex_byte_value(#[trigger] init[j]) is Some;
        if good && mac_address::hex_byte_value(fields.last()) is Some {
            assert forall|j: int| 0 <= j < fields.len() implies mac_address::hex_byte_value(
                #[trigger] fields[j],
            ) is Some by {
                if j < init.len() {
                    assert(mac_address::hex_byte_value(init[j]) is Some);
                }
            }
            let bytes = field_bytes(fields)->Ok_0;
            assert forall|j: int| 0 <= j < fields.len() implies mac_address::hex_byte_value(
                #[trigger] fields[j],
            ) == Some(bytes[j]) by {
                if j < init.len() {
                    assert(mac_address::hex_byte_value(init[j]) is Some);
                }
            }
        }
        if forall|j: int|
            0 <= j < fields.len() ==> mac_address::hex_byte_value(#[trigger] fields[j]) is Some {
            assert forall|j: int| 0 <= j < init.len() implies mac_address::hex_byte_value(
                #[trigger] init[j],
            ) is Some by {
                assert(mac_address::hex_byte_value(fields[j]) is Some);
            }
            assert(mac_address::hex_byte_value(fields[fields.len() - 1]) is Some);
        }
        if 0 <= i < fields.len() && (forall|j: int|
            0 <= j < i ==> mac_address::hex_byte_value(#[trigger] fields[j]) is Some) {
            assert forall|j: int| 0 <= j < i implies mac_address::hex_byte_value(
                #[trigger] init[j],
            ) is Some by {
                assert(mac_address::hex_byte_value(fields[j]) is Some);
            }
        }
    }
}

} // verus!
