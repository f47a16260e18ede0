//! The identifier of a service, as bytes.
use vstd::prelude::*;

use crate::linux::connect::ServiceEvent;
use crate::mac_address;

verus! {

/// Where digit `k` of an identifier stands in its text: four hyphens stand between the digits.
pub open spec fn digit_place(k: int) -> int {
    if k < 8 {
        k
    } else if k < 12 {
        k + 1
    } else if k < 16 {
        k + 2
    } else if k < 20 {
        k + 3
    } else {
        k + 4
    }
}

/// Whether a text is an identifier with hyphens: groups of 8, 4, 4, 4 and 12 hexadecimal digits.
pub open spec fn is_hyphenated(line: Seq<char>) -> bool {
    &&& line.len() == 36
    &&& line[8] == '-' && line[13] == '-' && line[18] == '-' && line[23] == '-'
    &&& forall|k: int|
        0 <= k < 32 ==> mac_address::hex_value(line[#[trigger] digit_place(k)]) is Some
}

/// The bytes of an identifier with hyphens: two digits make one byte.
pub open spec fn hyphenated_bytes(line: Seq<char>) -> Seq<u8> {
    Seq::new(
        16,
        |j: int|
            (mac_address::hex_value(line[digit_place(2 * j)])->0 * 16 + mac_address::hex_value(
                line[digit_place(2 * j + 1)],
            )->0) as u8,
    )
}

/// What `<uuid::Uuid as FromStr>::from_str` makes of a text: the bytes, or the error's message.
pub uninterp spec fn uuid_parsed(line: Seq<char>) -> Result<Seq<u8>, Seq<char>>;

/// What the bytes or the message of a text that was read are.
pub open spec fn parsed_view(parsed: Result<[u8; 16], String>) -> Result<Seq<u8>, Seq<char>> {
    match parsed {
        Ok(bytes) => Ok(bytes@),
        Err(reason) => Err(reason@),
    }
}

/// Reads an identifier with `<uuid::Uuid as FromStr>::from_str`, which bluer hands on; an error
/// is turned into its message. The result is named [`uuid_parsed`]; stated of it is only what
/// becomes of an identifier with hyphens.
#[verifier::external_body]
fn parse_uuid(line: &str) -> (r: Result<[u8; 16], String>)
    ensures
        parsed_view(r) == uuid_parsed(line@),
        is_hyphenated(line@) ==> parsed_view(r)->Ok_0 == hyphenated_bytes(line@),
        is_hyphenated(line@) ==> r is Ok,
{
    match line.parse::<bluer::Uuid>() {
        Ok(uuid) => Ok(uuid.into_bytes()),
        Err(error) => Err(error.to_string()),
    }
}

/// The bytes of a service's identifier, or the event that ends the attempt to reach it.
pub fn service_uuid(line: &str) -> (r: Result<[u8; 16], ServiceEvent>)
    ensures
        match r {
            Ok(bytes) => uuid_parsed(line@) == Ok::<Seq<u8>, Seq<char>>(bytes@),
            Err(event) => event matches ServiceEvent::InvalidUuid(reason) && uuid_parsed(line@)
                == Err::<Seq<u8>, Seq<char>>(reason@),
        },
        is_hyphenated(line@) ==> (r matches Ok(bytes) && bytes@ == hyphenated_bytes(line@)),
{
    match parse_uuid(line) {
        Ok(bytes) => Ok(bytes),
        Err(reason) => Err(ServiceEvent::InvalidUuid(reason)),
    }
}

} // verus!
