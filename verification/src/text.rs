//! Text building and comparison.
use vstd::prelude::*;

verus! {

/// `String::push` appends one character to the text.
pub assume_specification[ String::push ](s: &mut String, c: char)
    ensures
        final(s)@ == old(s)@.push(c),
;

/// Whether two texts hold the same characters.
pub fn same_text(a: &str, b: &str) -> (r: bool)
    ensures
        r == (a@ == b@),
{
    let mut left = a.chars();
    let mut right = b.chars();
    let ghost mut n: nat = 0;
    loop
        invariant
            n <= a@.len(),
            n <= b@.len(),
            vstd::std_specs::iter::IteratorSpec::obeys_prophetic_iter_laws(&left),
            vstd::std_specs::iter::IteratorSpec::obeys_prophetic_iter_laws(&right),
            vstd::std_specs::iter::IteratorSpec::remaining(&left) == a@.skip(n as int),
            vstd::std_specs::iter::IteratorSpec::remaining(&right) == b@.skip(n as int),
            forall|i: int| 0 <= i < n ==> a@[i] == b@[i],
        decreases a@.len() - n,
    {
        match (left.next(), right.next()) {
            (Some(x), Some(y)) => {
                if x != y {
                    assert(a@[n as int] == x && b@[n as int] == y);
                    return false;
                }
                proof {
                    assert(a@.skip(n as int).drop_first() == a@.skip(n as int + 1));
                    assert(b@.skip(n as int).drop_first() == b@.skip(n as int + 1));
                    n = n + 1;
                }
            },
            (None, None) => {
                assert(a@ == b@);
                return true;
            },
            _ => {
                assert(a@.len() != b@.len());
                return false;
            },
        }
    }
}

/// The text `a` followed by the text `b`.
pub fn joined(a: &str, b: &str) -> (r: String)
    ensures
        r@ == a@ + b@,
{
    let mut out: String = a.to_owned();
    out.append(b);
    out
}

/// Whether `stored` holds exactly the text `wanted`.
pub fn holds_text(stored: &Option<String>, wanted: &str) -> (r: bool)
    ensures
        r == (text_of(*stored) == Some(wanted@)),
{
    match stored {
        Some(text) => same_text(text.as_str(), wanted),
        None => false,
    }
}

/// The characters of an optional text.
pub open spec fn text_of(stored: Option<String>) -> Option<Seq<char>> {
    match stored {
        Some(text) => Some(text@),
        None => None,
    }
}

/// A copy of an optional text.
pub fn copy_of(stored: &Option<String>) -> (r: Option<String>)
    ensures
        text_of(r) == text_of(*stored),
{
    match stored {
        Some(text) => Some(text.clone()),
        None => None,
    }
}

/// The text of an optional failure: `None`, or the failure inside `Some(..)`.
pub open spec fn optional_text(failure: Option<Seq<char>>) -> Seq<char> {
    match failure {
        Some(text) => "Some("@ + text + ")"@,
        None => "None"@,
    }
}

/// Writes an optional failure.
pub fn optional_failure_text(failure: &Option<String>) -> (r: String)
    ensures
        r@ == optional_text(text_of(*failure)),
{
    match failure {
        Some(failure) => joined(joined("Some(", failure.as_str()).as_str(), ")"),
        None => "None".to_owned(),
    }
}

/// Whether `part` occurs in `whole`, from some place on.
pub open spec fn occurs(part: Seq<char>, whole: Seq<char>) -> bool {
    exists|i: int| 0 <= i <= whole.len() - part.len() && #[trigger] occurs_at(part, whole, i)
}

/// Whether `part` stands in `whole` at place `i`.
pub open spec fn occurs_at(part: Seq<char>, whole: Seq<char>, i: int) -> bool {
    whole.subrange(i, i + part.len()) == part
}

/// The characters of a text, in order.
fn chars_of(line: &str) -> (r: Vec<char>)
    ensures
        r@ == line@,
{
    let mut out: Vec<char> = Vec::new();
    for c in it: line.chars()
        invariant
            it.seq() == line@,
            out@ == line@.take(it.index() as int),
    {
        let ghost n = it.index() as int;
        out.push(c);
        assert(out@ =~= line@.take(n + 1));
    }
    assert(line@.take(line@.len() as int) =~= line@);
    out
}

/// Whether `part` stands in `whole` at place `i`.
fn stands_at(whole: &Vec<char>, part: &Vec<char>, i: usize) -> (r: bool)
    requires
        i + part@.len() <= whole@.len(),
    ensures
        r == occurs_at(part@, whole@, i as int),
{
    let mut j: usize = 0;
    while j < part.len()
        invariant
            j <= part@.len(),
            i + part@.len() <= whole.len(),
            forall|k: int| 0 <= k < j ==> whole@[i + k] == part@[k],
        decreases part@.len() - j,
    {
        if whole[i + j] != part[j] {
            assert(whole@.subrange(i as int, i + part@.len())[j as int] != part@[j as int]);
            return false;
        }
        j = j + 1;
    }
    assert(whole@.subrange(i as int, i + part@.len()) =~= part@);
    true
}

/// Whether `part` occurs in `whole`.
pub fn contains_text(whole: &str, part: &str) -> (r: bool)
    ensures
        r == occurs(part@, whole@),
{
    let all: Vec<char> = chars_of(whole);
    let wanted: Vec<char> = chars_of(part);
    if wanted.len() > all.len() {
        return false;
    }
    let last: usize = all.len() - wanted.len();
    let mut i: usize = 0;
    while i < last
        invariant
            all@ == whole@,
            wanted@ == part@,
            last + wanted@.len() == all@.len(),
            i <= last,
            forall|j: int| 0 <= j < i ==> !occurs_at(part@, whole@, j),
        decreases last - i,
    {
        if stands_at(&all, &wanted, i) {
            return true;
        }
        i = i + 1;
    }
    stands_at(&all, &wanted, last)
}

/// The character of one decimal digit.
pub open spec fn digit_char(digit: nat) -> char {
    (48 + digit) as char
}

/// A number in decimal notation, without leading zeros.
pub open spec fn decimal(n: nat) -> Seq<char>
    decreases n,
{
    if n < 10 {
        seq![digit_char(n)]
    } else {
        decimal(n / 10).push(digit_char(n % 10))
    }
}

/// A number in decimal notation, with a leading minus sign below zero.
pub open spec fn signed_decimal(n: int) -> Seq<char> {
    if n < 0 {
        seq!['-'] + decimal((-n) as nat)
    } else {
        decimal(n as nat)
    }
}

/// Writes `n` in decimal notation.
pub fn decimal_text(n: u64) -> (r: String)
    ensures
        r@ == decimal(n as nat),
    decreases n,
{
    if n < 10 {
        let mut out: String = String::new();
        out.push((48 + n as u8) as char);
        assert(out@ == seq![digit_char(n as nat)]);
        out
    } else {
        let mut out: String = decimal_text(n / 10);
        out.push((48 + (n % 10) as u8) as char);
        out
    }
}

/// Writes `n` in decimal notation, with a minus sign below zero.
pub fn signed_decimal_text(n: i32) -> (r: String)
    ensures
        r@ == signed_decimal(n as int),
{
    if n < 0 {
        let mut out: String = String::new();
        out.push('-');
        let magnitude: u64 = (-(n as i64)) as u64;
        out.append(decimal_text(magnitude).as_str());
        assert(out@ == seq!['-'] + decimal(magnitude as nat));
        out
    } else {
        decimal_text(n as u64)
    }
}

/// The upper-case character of one hexadecimal digit.
pub open spec fn hex_char(digit: nat) -> char {
    if digit < 10 {
        (48 + digit) as char
    } else {
        (55 + digit) as char
    }
}

/// The last `width` upper-case hexadecimal digits of `n`.
pub open spec fn hex_fixed(n: nat, width: nat) -> Seq<char>
    decreases width,
{
    if width == 0 {
        Seq::empty()
    } else {
        hex_fixed(n / 16, (width - 1) as nat).push(hex_char(n % 16))
    }
}

/// The upper-case character of one hexadecimal digit.
pub fn hex_digit(digit: u8) -> (c: char)
    requires
        digit < 16,
    ensures
        c == hex_char(digit as nat),
{
    if digit < 10 {
        (48 + digit) as char
    } else {
        (55 + digit) as char
    }
}

/// Writes the last `width` hexadecimal digits of `n` in upper case.
pub fn hex_text(n: u128, width: usize) -> (r: String)
    ensures
        r@ == hex_fixed(n as nat, width as nat),
    decreases width,
{
    if width == 0 {
        String::new()
    } else {
        let mut out: String = hex_text(n / 16, width - 1);
        out.push(hex_digit((n % 16) as u8));
        out
    }
}

/// A text occurs in another where it stands at some place of it.
pub proof fn law_where_a_text_occurs(part: Seq<char>, whole: Seq<char>)
    ensures
        occurs(part, whole) <==> exists|i: int|
            0 <= i <= whole.len() - part.len() && #[trigger] whole.subrange(i, i + part.len())
                == part,
{
    if occurs(part, whole) {
        let i = choose|i: int|
            0 <= i <= whole.len() - part.len() && #[trigger] occurs_at(part, whole, i);
        assert(whole.subrange(i, i + part.len()) == part);
    }
    if exists|i: int|
        0 <= i <= whole.len() - part.len() && #[trigger] whole.subrange(i, i + part.len())
            == part {
        let i = choose|i: int|
            0 <= i <= whole.len() - part.len() && #[trigger] whole.subrange(i, i + part.len())
                == part;
        assert(occurs_at(part, whole, i));
    }
}

/// Whatever stands before and after it, a text is found in what holds it; and what is found can be
/// cut out.
pub proof fn law_contained_text_is_found(
    before: Seq<char>,
    after: Seq<char>,
    whole: &str,
    part: &str,
    r: bool,
)
    requires
        call_ensures(contains_text, (whole, part), r),
    ensures
        whole@ == before + part@ + after ==> r,
        r ==> exists|i: int|
            0 <= i <= whole@.len() - part@.len() && #[trigger] whole@.subrange(i, i + part@.len())
                == part@,
{
    law_where_a_text_occurs(part@, whole@);
    if whole@ == before + part@ + after {
        assert(whole@.subrange(before.len() as int, (before.len() + part@.len()) as int) =~= part@);
    }
}

/// A digit more on the right is ten times the number and the digit; a number below ten is its
/// digit.
pub proof fn law_decimal_notation(n: nat, digit: nat)
    requires
        digit < 10,
    ensures
        decimal(digit) == seq![(48 + digit) as char],
        n > 0 ==> decimal(10 * n + digit) == decimal(n).push((48 + digit) as char),
        signed_decimal(n as int) == decimal(n),
        n > 0 ==> signed_decimal(-(n as int)) == seq!['-'] + decimal(n),
{
    if n > 0 {
        assert((10 * n + digit) / 10 == n);
        assert((10 * n + digit) % 10 == digit);
    }
}

/// Hexadecimal notation has the asked width; a digit more on the right is sixteen times the number
/// and the digit, in capitals.
pub proof fn law_hexadecimal_notation(n: nat, digit: nat, width: nat)
    requires
        digit < 16,
    ensures
        hex_fixed(n, width).len() == width,
        hex_fixed(16 * n + digit, width + 1) == hex_fixed(n, width).push(
            if digit < 10 {
                (48 + digit) as char
            } else {
                (65 + digit - 10) as char
            },
        ),
    decreases width,
{
    assert((16 * n + digit) / 16 == n);
    assert((16 * n + digit) % 16 == digit);
    if width > 0 {
        law_hexadecimal_notation(n / 16, 0, (width - 1) as nat);
    }
}

/// An optional failure is written as it is, inside `Some(..)`, or as `None`.
pub proof fn law_optional_failure(failure: &Option<String>, r: String)
    requires
        call_ensures(optional_failure_text, (failure,), r),
    ensures
        failure is None ==> r@ == "None"@,
        failure matches Some(text) ==> r@ == "Some("@ + text@ + ")"@,
{
}

/// An optional text holds exactly the characters of the text, where there is one; a copy holds the
/// same.
pub proof fn law_optional_texts(text: String, stored: &Option<String>, copy: Option<String>)
    requires
        call_ensures(copy_of, (stored,), copy),
    ensures
        text_of(Some(text)) == Some(text@),
        text_of(None) is None,
        stored is None <==> copy is None,
        stored matches Some(there) ==> copy->0@ == there@,
{
}

/// Two texts are the same where their characters are; a text that follows another starts where that
/// ends.
pub proof fn law_texts(a: &str, b: &str, same: bool, both: String, n: u64, written: String)
    requires
        call_ensures(same_text, (a, b), same),
        call_ensures(joined, (a, b), both),
        call_ensures(decimal_text, (n,), written),
    ensures
        same <==> a@ == b@,
        both@.take(a@.len() as int) == a@,
        both@.skip(a@.len() as int) == b@,
        both@.len() == a@.len() + b@.len(),
        written@ == decimal(n as nat),
{
    assert((a@ + b@).take(a@.len() as int) =~= a@);
    assert((a@ + b@).skip(a@.len() as int) =~= b@);
}

} // verus!
