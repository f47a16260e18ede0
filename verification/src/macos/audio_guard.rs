//! Keeps a connected watch from taking over the default audio output.
//!
//! A bonded watch is an audio device as well, and the system may switch its default output to
//! it. The guard remembers the output that was the default before the connection, and restores
//! it when the default becomes the watch.
use vstd::prelude::*;

use crate::macos::address;
use crate::text;

verus! {

/// The number of the object that stands for the audio system.
pub const SYSTEM_OBJECT: u32 = 1;

/// The main element of an object.
pub const ELEMENT_MAIN: u32 = 0;

/// The code `dOut`: the default output device.
pub const PROP_DEFAULT_OUTPUT_DEVICE: u32 = 0x644F_7574;

/// The code `uid `: a device's unique identifier.
pub const PROP_DEVICE_UID: u32 = 0x7569_6420;

/// The code `tran`: how a device is attached.
pub const PROP_TRANSPORT_TYPE: u32 = 0x7472_616E;

/// The code `lnam`: an object's name.
pub const PROP_OBJECT_NAME: u32 = 0x6C6E_616D;

/// The code `glob`: the global scope.
pub const SCOPE_GLOBAL: u32 = 0x676C_6F62;

/// The code `blue`: attached by Bluetooth.
pub const TRANSPORT_BLUETOOTH: u32 = 0x626C_7565;

/// The code `blea`: attached by Bluetooth Low Energy.
pub const TRANSPORT_BLUETOOTH_LE: u32 = 0x626C_6561;

/// The code that four ASCII characters make up, the first in the highest byte.
pub fn fourcc(s: &[u8; 4]) -> (r: u32)
    ensures
        r == s@[0] * 0x100_0000 + s@[1] * 0x1_0000 + s@[2] * 0x100 + s@[3],
{
    (s[0] as u32) * 0x100_0000 + (s[1] as u32) * 0x1_0000 + (s[2] as u32) * 0x100 + (s[3] as u32)
}

/// Which property of an audio object is meant.
#[derive(Debug, PartialEq, Eq)]
pub struct AudioObjectPropertyAddress {
    pub selector: u32,
    pub scope: u32,
    pub element: u32,
}

/// The property with this code, in the global scope.
pub fn prop_addr(selector: u32) -> (r: AudioObjectPropertyAddress)
    ensures
        r == (AudioObjectPropertyAddress { selector, scope: SCOPE_GLOBAL, element: ELEMENT_MAIN }),
{
    AudioObjectPropertyAddress { selector, scope: SCOPE_GLOBAL, element: ELEMENT_MAIN }
}

/// The value of a property that was read with this status; zero where reading it failed.
pub fn read_value(status: i32, value: u32) -> (r: u32)
    ensures
        r == (if status == 0 {
            value
        } else {
            0
        }),
{
    if status == 0 {
        value
    } else {
        0
    }
}

/// Whether a character is a hexadecimal digit.
pub open spec fn is_hex_digit(c: char) -> bool {
    ('0' <= c <= '9') || ('a' <= c <= 'f') || ('A' <= c <= 'F')
}

/// The hexadecimal digits of a text, in upper case.
pub open spec fn hex_digits(line: Seq<char>) -> Seq<char> {
    line.filter(|c: char| is_hex_digit(c)).map_values(|c: char| address::ascii_upper(c))
}

/// The upper-case form of a hexadecimal digit.
fn upper_digit(c: char) -> (r: char)
    requires
        is_hex_digit(c),
    ensures
        r == address::ascii_upper(c),
{
    match c {
        'a' => 'A',
        'b' => 'B',
        'c' => 'C',
        'd' => 'D',
        'e' => 'E',
        'f' => 'F',
        _ => c,
    }
}

/// The hexadecimal digits of a text, in upper case, so that addresses in different notations
/// can be compared.
pub fn normalize_hex(s: &str) -> (r: String)
    ensures
        r@ == hex_digits(s@),
{
    let mut out: String = String::new();
    proof {
        reveal(Seq::filter);
        assert(s@.take(0) =~= Seq::<char>::empty());
        assert(out@ =~= hex_digits(s@.take(0)));
    }
    for c in it: s.chars()
        invariant
            it.seq() == s@,
            out@ == hex_digits(s@.take(it.index() as int)),
    {
        let ghost n = it.index() as int;
        proof {
            reveal(Seq::filter);
            assert(s@.take(n + 1).drop_last() =~= s@.take(n));
            assert(s@.take(n + 1).last() == c);
        }
        if (c >= '0' && c <= '9') || (c >= 'a' && c <= 'f') || (c >= 'A' && c <= 'F') {
            out.push(upper_digit(c));
        }
        assert(out@ =~= hex_digits(s@.take(n + 1)));
    }
    assert(s@.take(s@.len() as int) =~= s@);
    out
}

/// What the audio system says of a device.
pub struct DeviceFacts {
    pub transport: u32,
    pub uid: Option<String>,
    pub name: Option<String>,
}

/// What a [`DeviceFacts`] holds.
pub struct FactsView {
    pub transport: u32,
    pub uid: Option<Seq<char>>,
    pub name: Option<Seq<char>>,
}

impl View for DeviceFacts {
    type V = FactsView;

    open spec fn view(&self) -> FactsView {
        FactsView {
            transport: self.transport,
            uid: text::text_of(self.uid),
            name: text::text_of(self.name),
        }
    }
}

/// Whether a device is the watch: it is attached by Bluetooth, and either its identifier holds
/// the watch's address or it has the watch's name.
pub open spec fn is_watch(
    device: u32,
    facts: FactsView,
    mac_hex: Seq<char>,
    name: Option<Seq<char>>,
) -> bool {
    &&& device != 0
    &&& facts.transport == TRANSPORT_BLUETOOTH || facts.transport == TRANSPORT_BLUETOOTH_LE
    &&& {
        ||| mac_hex.len() > 0 && facts.uid is Some && text::occurs(
            mac_hex,
            hex_digits(facts.uid->0),
        )
        ||| name is Some && name->0.len() > 0 && facts.name == name
    }
}

/// Whether a text holds no character.
fn is_empty_text(line: &str) -> (r: bool)
    ensures
        r == (line@.len() == 0),
{
    proof {
        reveal_strlit("");
        if line@.len() == 0 {
            assert(line@ =~= ""@);
        }
    }
    text::same_text(line, "")
}

/// Whether a device is the watch.
pub fn is_watch_device(device: u32, facts: &DeviceFacts, mac_hex: &str, name: &Option<String>) -> (r:
    bool)
    ensures
        r == is_watch(device, facts@, mac_hex@, text::text_of(*name)),
{
    if device == 0 {
        return false;
    }
    if facts.transport != TRANSPORT_BLUETOOTH && facts.transport != TRANSPORT_BLUETOOTH_LE {
        return false;
    }
    if !is_empty_text(mac_hex) {
        match &facts.uid {
            Some(uid) => {
                if text::contains_text(normalize_hex(uid.as_str()).as_str(), mac_hex) {
                    return true;
                }
            },
            None => {},
        }
    }
    match name {
        Some(target) => !is_empty_text(target.as_str()) && text::holds_text(
            &facts.name,
            target.as_str(),
        ),
        None => false,
    }
}

/// What the guard remembers.
pub struct GuardState {
    pub active: bool,
    /// The hexadecimal digits of the watch's address.
    pub watch_mac_hex: String,
    pub watch_name: Option<String>,
    /// The output to restore; zero where there is none.
    pub preferred: u32,
}

/// What a [`GuardState`] holds.
pub struct GuardView {
    pub active: bool,
    pub watch_mac_hex: Seq<char>,
    pub watch_name: Option<Seq<char>>,
    pub preferred: u32,
}

impl View for GuardState {
    type V = GuardView;

    open spec fn view(&self) -> GuardView {
        GuardView {
            active: self.active,
            watch_mac_hex: self.watch_mac_hex@,
            watch_name: text::text_of(self.watch_name),
            preferred: self.preferred,
        }
    }
}

/// A guard that guards nothing.
pub open spec fn idle() -> GuardView {
    GuardView { active: false, watch_mac_hex: Seq::empty(), watch_name: None, preferred: 0 }
}

impl GuardState {
    /// A guard that guards nothing.
    pub fn new() -> (r: Self)
        ensures
            r@ == idle(),
    {
        let r = GuardState {
            active: false,
            watch_mac_hex: String::new(),
            watch_name: None,
            preferred: 0,
        };
        assert(r@.watch_mac_hex =~= Seq::<char>::empty());
        r
    }
}

/// Whether a device is the one that is guarded against.
pub open spec fn guarded_against(guard: GuardView, device: u32, facts: FactsView) -> bool {
    is_watch(device, facts, guard.watch_mac_hex, guard.watch_name)
}

/// What to do when the default output has changed.
#[derive(Debug, PartialEq, Eq)]
pub enum GuardAction {
    Nothing,
    /// Make this device the default output.
    Restore(u32),
    /// The watch took over, but there is no output to restore.
    NoTarget,
}

/// What to do when the default output has become `current`.
pub open spec fn guard_action(
    guard: GuardView,
    current: u32,
    current_facts: FactsView,
    preferred_facts: FactsView,
) -> GuardAction {
    if !guard.active || !guarded_against(guard, current, current_facts) {
        GuardAction::Nothing
    } else if guard.preferred != 0 && guard.preferred != current && !guarded_against(
        guard,
        guard.preferred,
        preferred_facts,
    ) {
        GuardAction::Restore(guard.preferred)
    } else {
        GuardAction::NoTarget
    }
}

/// What to do when the default output has become `current`; `preferred_facts` are about the
/// output to restore.
pub fn default_output_changed(
    guard: &GuardState,
    current: u32,
    current_facts: &DeviceFacts,
    preferred_facts: &DeviceFacts,
) -> (r: GuardAction)
    ensures
        r == guard_action(guard@, current, current_facts@, preferred_facts@),
{
    if !guard.active {
        return GuardAction::Nothing;
    }
    if !is_watch_device(current, current_facts, guard.watch_mac_hex.as_str(), &guard.watch_name) {
        return GuardAction::Nothing;
    }
    if guard.preferred != 0 && guard.preferred != current && !is_watch_device(
        guard.preferred,
        preferred_facts,
        guard.watch_mac_hex.as_str(),
        &guard.watch_name,
    ) {
        GuardAction::Restore(guard.preferred)
    } else {
        GuardAction::NoTarget
    }
}

/// The guard when it guards against the watch at `addr`; the output at this time is the one to
/// restore, unless it is the watch already.
pub open spec fn started(
    guard: GuardView,
    addr: Seq<char>,
    name: Option<Seq<char>>,
    current: u32,
    facts: FactsView,
) -> GuardView {
    GuardView {
        active: true,
        watch_mac_hex: hex_digits(addr),
        watch_name: name,
        preferred: if is_watch(current, facts, hex_digits(addr), name) {
            guard.preferred
        } else {
            current
        },
    }
}

/// Starts guarding against a watch, or changes which one is guarded against; says whether the
/// listener for the default output has to be registered.
pub fn start(
    guard: &mut GuardState,
    addr: &str,
    name: Option<String>,
    current: u32,
    facts: &DeviceFacts,
) -> (r: bool)
    ensures
        r == !old(guard)@.active,
        final(guard)@ == started(old(guard)@, addr@, text::text_of(name), current, facts@),
{
    let mac_hex: String = normalize_hex(addr);
    let current_is_watch: bool = is_watch_device(current, facts, mac_hex.as_str(), &name);
    guard.watch_mac_hex = mac_hex;
    guard.watch_name = name;
    if !current_is_watch {
        guard.preferred = current;
    }
    let need: bool = !guard.active;
    guard.active = true;
    need
}

/// Takes the status with which the listener was registered.
pub fn listener_registered(guard: &mut GuardState, status: i32)
    ensures
        final(guard)@ == (if status == 0 {
            old(guard)@
        } else {
            GuardView { active: false, ..old(guard)@ }
        }),
{
    if status != 0 {
        guard.active = false;
    }
}

/// Stops guarding; says whether the listener has to be removed.
pub fn stop(guard: &mut GuardState) -> (r: bool)
    ensures
        r == old(guard)@.active,
        final(guard)@ == idle(),
{
    let was_active: bool = guard.active;
    *guard = GuardState::new();
    was_active
}

/// Stops guarding if the watch at this address is the one that is guarded against; says whether
/// the listener has to be removed.
pub fn stop_for(guard: &mut GuardState, addr: &str) -> (r: bool)
    ensures
        if old(guard)@.watch_mac_hex == hex_digits(addr@) {
            r == old(guard)@.active && final(guard)@ == idle()
        } else {
            r == false && final(guard)@ == old(guard)@
        },
{
    let mac_hex: String = normalize_hex(addr);
    if text::same_text(guard.watch_mac_hex.as_str(), mac_hex.as_str()) {
        stop(guard)
    } else {
        false
    }
}

/// Stops guarding, whatever is guarded against; says whether the listener has to be removed.
pub fn stop_all(guard: &mut GuardState) -> (r: bool)
    ensures
        r == old(guard)@.active,
        final(guard)@ == idle(),
{
    stop(guard)
}

/// The output that was the default when guarding began is restored when the watch takes over.
pub proof fn law_earlier_output_is_restored(
    guard: GuardView,
    addr: Seq<char>,
    name: Option<Seq<char>>,
    before: u32,
    before_facts: FactsView,
    watch: u32,
    watch_facts: FactsView,
)
    requires
        before != 0,
        before != watch,
        !is_watch(before, before_facts, hex_digits(addr), name),
        is_watch(watch, watch_facts, hex_digits(addr), name),
    ensures
        guard_action(
            started(guard, addr, name, before, before_facts),
            watch,
            watch_facts,
            before_facts,
        ) == GuardAction::Restore(before),
{
}

/// Only a device that is not the watch is made the default output, and only while guarding.
pub proof fn law_watch_is_never_restored(
    guard: GuardView,
    current: u32,
    current_facts: FactsView,
    preferred_facts: FactsView,
)
    ensures
        guard_action(guard, current, current_facts, preferred_facts) matches GuardAction::Restore(
            device,
        ) ==> guard.active && device != 0 && device != current && !guarded_against(
            guard,
            device,
            preferred_facts,
        ),
        guard_action(idle(), current, current_facts, preferred_facts) == GuardAction::Nothing,
{
}

/// The codes of the audio system.
pub proof fn law_codes_of_the_audio_system(selector: u32, r: AudioObjectPropertyAddress)
    requires
        call_ensures(prop_addr, (selector,), r),
    ensures
        r.selector == selector,
        r.scope == 0x676C_6F62,
        r.element == 0,
        SYSTEM_OBJECT == 1,
        PROP_DEFAULT_OUTPUT_DEVICE == 0x644F_7574,
        PROP_DEVICE_UID == 0x7569_6420,
        PROP_TRANSPORT_TYPE == 0x7472_616E,
        PROP_OBJECT_NAME == 0x6C6E_616D,
{
}

/// A code holds its four characters, the first in the highest byte; a value counts where it was
/// read.
pub proof fn law_values_of_the_audio_system(
    s: &[u8; 4],
    code: u32,
    status: i32,
    value: u32,
    read: u32,
)
    requires
        call_ensures(fourcc, (s,), code),
        call_ensures(read_value, (status, value), read),
    ensures
        code % 0x100 == s@[3],
        code / 0x100 % 0x100 == s@[2],
        code / 0x1_0000 % 0x100 == s@[1],
        code / 0x100_0000 == s@[0],
        status == 0 ==> read == value,
        status != 0 ==> read == 0,
{
}

/// The digits of a text are its hexadecimal digits, all of them and in their order, with capitals
/// in place of small letters; other characters are left out.
pub proof fn law_digits_of_a_text(line: Seq<char>, c: char)
    ensures
        hex_digits(Seq::empty()) == Seq::<char>::empty(),
        '0' <= c <= '9' || 'A' <= c <= 'F' ==> hex_digits(line.push(c)) == hex_digits(line).push(c),
        'a' <= c <= 'f' ==> hex_digits(line.push(c)) == hex_digits(line).push(
            (c as int - 32) as char,
        ),
        !('0' <= c <= '9' || 'A' <= c <= 'F' || 'a' <= c <= 'f') ==> hex_digits(line.push(c))
            == hex_digits(line),
{
    reveal(Seq::filter);
    assert(line.push(c).drop_last() =~= line);
    assert(hex_digits(Seq::empty()) =~= Seq::<char>::empty());
    let upper = address::ascii_upper(c);
    if is_hex_digit(c) {
        assert(hex_digits(line.push(c)) =~= hex_digits(line).push(upper));
    }
}

/// A device is the watch exactly where it is attached by Bluetooth and either its identifier holds
/// the digits of the watch's address, in whatever notation, or it has the watch's name.
pub proof fn law_watch_is_told_by_address_or_name(
    device: u32,
    facts: &DeviceFacts,
    mac_hex: &str,
    name: &Option<String>,
    r: bool,
    uid: &str,
    digits: String,
)
    requires
        call_ensures(is_watch_device, (device, facts, mac_hex, name), r),
        call_ensures(normalize_hex, (uid,), digits),
    ensures
        ({
            let bluetooth = device != 0 && (facts.transport == 0x626C_7565 || facts.transport
                == 0x626C_6561);
            let by_address = mac_hex@.len() > 0 && facts.uid is Some && exists|i: int|
                0 <= i <= digits@.len() - mac_hex@.len() && #[trigger] digits@.subrange(
                    i,
                    i + mac_hex@.len(),
                ) == mac_hex@;
            let by_name = name is Some && name->0@.len() > 0 && facts.name is Some
                && facts.name->0@ == name->0@;
            &&& !bluetooth ==> !r
            &&& bluetooth && by_name ==> r
            &&& bluetooth && facts.uid is Some && facts.uid->0@ == uid@ ==> (r <==> by_address
                || by_name)
            &&& bluetooth && facts.uid is None ==> (r <==> by_name)
        }),
{
    if facts.uid is Some && facts.uid->0@ == uid@ {
        text::law_where_a_text_occurs(mac_hex@, digits@);
    }
}

/// The default output is restored exactly where guarding is on, the watch has become the default,
/// and the output from before is another device and not the watch.
pub proof fn law_output_is_restored_where_there_is_one(
    guard: &GuardState,
    current: u32,
    current_facts: &DeviceFacts,
    preferred_facts: &DeviceFacts,
    r: GuardAction,
)
    requires
        call_ensures(
            default_output_changed,
            (guard, current, current_facts, preferred_facts),
            r,
        ),
    ensures
        ({
            let taken = is_watch(
                current,
                current_facts@,
                guard.watch_mac_hex@,
                text::text_of(guard.watch_name),
            );
            let also_watch = is_watch(
                guard.preferred,
                preferred_facts@,
                guard.watch_mac_hex@,
                text::text_of(guard.watch_name),
            );
            let there = guard.preferred != 0 && guard.preferred != current && !also_watch;
            &&& !guard.active || !taken <==> r == GuardAction::Nothing
            &&& guard.active && taken && there <==> r == GuardAction::Restore(guard.preferred)
            &&& guard.active && taken && !there <==> r == GuardAction::NoTarget
        }),
{
}

/// Guarding begins with the digits of the watch's address, its name and the output of that time,
/// unless that is the watch: then the output from before stays. The listener is registered where
/// guarding was off.
pub proof fn law_guarding_begins(
    guard: &mut GuardState,
    addr: &str,
    name: Option<String>,
    current: u32,
    facts: &DeviceFacts,
    r: bool,
    digits: String,
    taken: bool,
)
    requires
        call_ensures(start, (guard, addr, name, current, facts), r),
        call_ensures(normalize_hex, (addr,), digits),
        taken == is_watch(current, facts@, digits@, text::text_of(name)),
    ensures
        r == !old(guard)@.active,
        final(guard)@.active,
        final(guard)@.watch_mac_hex == digits@,
        final(guard)@.watch_name == text::text_of(name),
        taken ==> final(guard)@.preferred == old(guard)@.preferred,
        !taken ==> final(guard)@.preferred == current,
{
}

/// Guarding ends for the watch that is guarded against, and not for another one; after that nothing
/// is remembered. A listener that could not be registered leaves guarding off.
pub proof fn law_guarding_ends(
    guard: &mut GuardState,
    addr: &str,
    digits: String,
    r: bool,
    every: &mut GuardState,
    all: bool,
    tried: &mut GuardState,
    status: i32,
)
    requires
        call_ensures(stop_for, (guard, addr), r),
        call_ensures(normalize_hex, (addr,), digits),
        call_ensures(stop_all, (every,), all),
        call_ensures(listener_registered, (tried, status), ()),
    ensures
        old(guard)@.watch_mac_hex == digits@ ==> r == old(guard)@.active && !final(guard)@.active
            && final(guard)@.watch_mac_hex.len() == 0 && final(guard)@.watch_name is None && final(guard)@.preferred == 0,
        old(guard)@.watch_mac_hex != digits@ ==> !r && final(guard)@ == old(guard)@,
        all == old(every)@.active,
        !final(every)@.active,
        final(every)@.watch_mac_hex.len() == 0,
        final(every)@.watch_name is None,
        final(every)@.preferred == 0,
        status == 0 ==> final(tried)@ == old(tried)@,
        status != 0 ==> !final(tried)@.active && final(tried)@.watch_mac_hex == old(
            tried,
        )@.watch_mac_hex && final(tried)@.watch_name == old(tried)@.watch_name && final(tried)@.preferred == old(tried)@.preferred,
{
}

/// A guard guards nothing before it was started.
pub proof fn law_guard_begins_idle(guard: GuardState)
    requires
        call_ensures(GuardState::new, (), guard),
    ensures
        !guard@.active,
        guard@.watch_mac_hex.len() == 0,
        guard@.watch_name is None,
        guard@.preferred == 0,
{
}

/// What is said of a guard or of a device is said of what it is made of.
pub proof fn law_what_a_guard_holds(guard: GuardState, facts: DeviceFacts)
    ensures
        guard@.active == guard.active,
        guard@.watch_mac_hex == guard.watch_mac_hex@,
        guard@.watch_name is Some <==> guard.watch_name is Some,
        guard.watch_name matches Some(name) ==> guard@.watch_name == Some(name@),
        guard@.preferred == guard.preferred,
        facts@.transport == facts.transport,
        facts@.uid is Some <==> facts.uid is Some,
        facts.uid matches Some(uid) ==> facts@.uid == Some(uid@),
        facts@.name is Some <==> facts.name is Some,
        facts.name matches Some(name) ==> facts@.name == Some(name@),
{
}

} // verus!
