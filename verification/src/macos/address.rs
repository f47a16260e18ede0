//! Device addresses as IOBluetooth writes them.
use vstd::prelude::*;

verus! {

/// The text with one character in place of another.
pub open spec fn replaced(line: Seq<char>, from: char, to: char) -> Seq<char> {
    line.map_values(|c: char| if c == from { to } else { c })
}

/// Whether a text holds ASCII characters only.
pub open spec fn all_ascii(line: Seq<char>) -> bool {
    forall|i: int| 0 <= i < line.len() ==> (#[trigger] line[i]) as int <= 127
}

/// The upper-case form of an ASCII character.
pub open spec fn ascii_upper(c: char) -> char {
    if 'a' <= c <= 'z' {
        (c as int - 32) as char
    } else {
        c
    }
}

/// What `str::to_uppercase` makes of a text with characters beyond ASCII.
pub uninterp spec fn unicode_uppercase(line: Seq<char>) -> Seq<char>;

/// The upper-case form of a text.
pub open spec fn upper(line: Seq<char>) -> Seq<char> {
    if all_ascii(line) {
        line.map_values(|c: char| ascii_upper(c))
    } else {
        unicode_uppercase(line)
    }
}

/// `str::to_uppercase`: the letters of an ASCII text are replaced by their capitals; what a
/// text with other characters becomes is the Unicode upper-case mapping, and only named here.
#[verifier::external_body]
fn uppercase(line: &str) -> (r: String)
    ensures
        all_ascii(line@) ==> r@ == line@.map_values(|c: char| ascii_upper(c)),
        !all_ascii(line@) ==> r@ == unicode_uppercase(line@),
{
    line.to_uppercase()
}

/// Writes `to` wherever `line` holds `from`.
fn replace_char(line: &str, from: char, to: char) -> (r: String)
    ensures
        r@ == replaced(line@, from, to),
{
    let mut out: String = String::new();
    assert(out@ =~= replaced(line@.take(0), from, to));
    for c in it: line.chars()
        invariant
            it.seq() == line@,
            out@ == replaced(line@.take(it.index() as int), from, to),
    {
        let ghost n = it.index() as int;
        let ghost before = out@;
        if c == from {
            out.push(to);
        } else {
            out.push(c);
        }
        assert(out@ =~= replaced(line@.take(n + 1), from, to));
    }
    assert(line@.take(line@.len() as int) =~= line@);
    out
}

/// The address under which a device is known: upper case, with colons.
pub open spec fn normalized(raw: Seq<char>) -> Seq<char> {
    upper(replaced(raw, '-', ':'))
}

/// The address in the form that IOBluetooth reads: upper case, with hyphens.
pub open spec fn hyphenated(addr: Seq<char>) -> Seq<char> {
    upper(replaced(addr, ':', '-'))
}

/// The address under which a device is known.
pub fn normalize_addr_from_macos(raw: &str) -> (r: String)
    ensures
        r@ == normalized(raw@),
{
    uppercase(replace_char(raw, '-', ':').as_str())
}

/// The address in the form that IOBluetooth reads.
pub fn addr_to_macos_format(addr: &str) -> (r: String)
    ensures
        r@ == hyphenated(addr@),
{
    uppercase(replace_char(addr, ':', '-').as_str())
}

/// Normalizing twice is normalizing once, and the form for IOBluetooth leads back to the
/// normal form.
pub proof fn law_normal_form(raw: Seq<char>)
    requires
        all_ascii(raw),
    ensures
        normalized(normalized(raw)) == normalized(raw),
        normalized(hyphenated(normalized(raw))) == normalized(raw),
        hyphenated(normalized(raw)) == hyphenated(raw),
{
    assert forall|line: Seq<char>, from: char, to: char|
        all_ascii(line) && to as int <= 127 implies all_ascii(
        #[trigger] replaced(line, from, to),
    ) by {
        assert forall|i: int| 0 <= i < line.len() implies (
        #[trigger] replaced(line, from, to)[i]) as int <= 127 by {
            assert(line[i] as int <= 127);
        }
    }
    assert forall|line: Seq<char>| all_ascii(line) implies all_ascii(#[trigger] upper(line)) by {
        assert forall|i: int| 0 <= i < line.len() implies (#[trigger] upper(line)[i]) as int
            <= 127 by {
            assert(line[i] as int <= 127);
        }
    }
    assert(all_ascii(replaced(raw, '-', ':')));
    assert(all_ascii(normalized(raw)));
    assert(all_ascii(replaced(normalized(raw), '-', ':')));
    assert(all_ascii(replaced(normalized(raw), ':', '-')));
    assert(all_ascii(hyphenated(normalized(raw))));
    assert(all_ascii(replaced(hyphenated(normalized(raw)), '-', ':')));
    assert(all_ascii(replaced(raw, ':', '-')));
    assert(normalized(normalized(raw)) =~= normalized(raw));
    assert(normalized(hyphenated(normalized(raw))) =~= normalized(raw));
    assert(hyphenated(normalized(raw)) =~= hyphenated(raw));
}

/// In either form an address has as many characters as it is written with: letters are capitals,
/// each separator is a colon or a hyphen, and everything else is as it was.
pub proof fn law_forms_of_an_address(raw: &str, known: String, read: String)
    requires
        call_ensures(normalize_addr_from_macos, (raw,), known),
        call_ensures(addr_to_macos_format, (raw,), read),
        forall|i: int| 0 <= i < raw@.len() ==> (#[trigger] raw@[i]) as int <= 127,
    ensures
        known@.len() == raw@.len(),
        read@.len() == raw@.len(),
        forall|i: int|
            0 <= i < raw@.len() ==> {
                let c = #[trigger] raw@[i];
                &&& c == '-' || c == ':' ==> known@[i] == ':' && read@[i] == '-'
                &&& 'a' <= c <= 'z' ==> known@[i] as int == c as int - 32 && read@[i] == known@[i]
                &&& !('a' <= c <= 'z') && c != '-' && c != ':' ==> known@[i] == c && read@[i] == c
            },
{
    let colons = replaced(raw@, '-', ':');
    let hyphens = replaced(raw@, ':', '-');
    assert forall|i: int| 0 <= i < colons.len() implies (#[trigger] colons[i]) as int <= 127 by {
        assert(raw@[i] as int <= 127);
    }
    assert forall|i: int| 0 <= i < hyphens.len() implies (#[trigger] hyphens[i]) as int <= 127 by {
        assert(raw@[i] as int <= 127);
    }
    assert(all_ascii(colons));
    assert(all_ascii(hyphens));
}

/// In an address with characters beyond ASCII too, only separators are replaced before it is written
/// in capitals.
pub proof fn law_forms_of_other_addresses(raw: &str, known: String, read: String, i: int)
    requires
        call_ensures(normalize_addr_from_macos, (raw,), known),
        call_ensures(addr_to_macos_format, (raw,), read),
        0 <= i < raw@.len(),
        raw@[i] as int > 127,
    ensures
        known@ == unicode_uppercase(
            Seq::new(
                raw@.len(),
                |j: int|
                    if raw@[j] == '-' {
                        ':'
                    } else {
                        raw@[j]
                    },
            ),
        ),
        read@ == unicode_uppercase(
            Seq::new(
                raw@.len(),
                |j: int|
                    if raw@[j] == ':' {
                        '-'
                    } else {
                        raw@[j]
                    },
            ),
        ),
{
    let colons = replaced(raw@, '-', ':');
    let hyphens = replaced(raw@, ':', '-');
    assert(colons[i] as int > 127);
    assert(hyphens[i] as int > 127);
    assert(colons =~= Seq::new(raw@.len(), |j: int| if raw@[j] == '-' { ':' } else { raw@[j] }));
    assert(hyphens =~= Seq::new(raw@.len(), |j: int| if raw@[j] == ':' { '-' } else { raw@[j] }));
}

} // verus!
