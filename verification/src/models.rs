//! The values that callers of the plugin exchange with it.
use vstd::prelude::*;

use crate::text;

verus! {

/// A device that was found or connected.
#[derive(Debug, PartialEq, Eq)]
pub struct SPPDevice {
    pub name: Option<String>,
    pub address: String,
}

/// What an [`SPPDevice`] holds.
pub struct DeviceView {
    pub name: Option<Seq<char>>,
    pub address: Seq<char>,
}

impl View for SPPDevice {
    type V = DeviceView;

    open spec fn view(&self) -> DeviceView {
        DeviceView { name: text::text_of(self.name), address: self.address@ }
    }
}

impl Clone for SPPDevice {
    fn clone(&self) -> (r: Self)
        ensures
            r@ == self@,
    {
        SPPDevice { name: text::copy_of(&self.name), address: self.address.clone() }
    }
}

/// What an optional device holds.
pub open spec fn device_of(device: Option<SPPDevice>) -> Option<DeviceView> {
    match device {
        Some(device) => Some(device@),
        None => None,
    }
}

/// What the devices of a list hold.
pub open spec fn devices_of(devices: Seq<SPPDevice>) -> Seq<DeviceView> {
    devices.map_values(|device: SPPDevice| device@)
}

/// The devices found by a scan.
#[derive(Debug, PartialEq, Eq)]
pub struct GetScannedDevicesResult {
    pub ret: Vec<SPPDevice>,
}

/// Whether a connection was made or accepted.
#[derive(Debug, PartialEq, Eq)]
pub struct ConnectResult {
    pub ret: bool,
}

/// How many bytes one write may hold, where there is such a limit.
#[derive(Debug, PartialEq, Eq)]
pub struct GetMaxSendLenResult {
    pub ret: Option<usize>,
}

/// What a connection request asks for.
#[derive(Debug, PartialEq, Eq)]
pub struct ConnectArg {
    pub addr: String,
    pub remove_bond: bool,
    pub fallback_channels: Vec<u8>,
}

/// Whether a device with the given address is in the list.
pub open spec fn listed(devices: Seq<DeviceView>, address: Seq<char>) -> bool {
    exists|i: int| 0 <= i < devices.len() && (#[trigger] devices[i]).address == address
}

/// No two devices in the list have the same address.
pub open spec fn one_per_address(devices: Seq<DeviceView>) -> bool {
    forall|i: int, j: int|
        0 <= i < j < devices.len() ==> (#[trigger] devices[i]).address != (
        #[trigger] devices[j]).address
}

/// The list after one more device was seen: a known address stays as it is.
pub open spec fn with_device(devices: Seq<DeviceView>, device: DeviceView) -> Seq<DeviceView> {
    if listed(devices, device.address) {
        devices
    } else {
        devices.push(device)
    }
}

/// The list without the devices at the given address.
pub open spec fn without_address(devices: Seq<DeviceView>, address: Seq<char>) -> Seq<DeviceView> {
    devices.filter(|device: DeviceView| device.address != address)
}

/// The devices that a scan has found, each address once, in the order found.
pub struct DeviceList {
    devices: Vec<SPPDevice>,
}

impl View for DeviceList {
    type V = Seq<DeviceView>;

    closed spec fn view(&self) -> Seq<DeviceView> {
        devices_of(self.devices@)
    }
}

/// Dropping an address keeps addresses distinct and the other devices in order.
pub proof fn lemma_without_address(devices: Seq<DeviceView>, address: Seq<char>)
    requires
        one_per_address(devices),
    ensures
        one_per_address(without_address(devices, address)),
        !listed(without_address(devices, address), address),
        forall|other: Seq<char>|
            other != address ==> listed(without_address(devices, address), other) == listed(
                devices,
                other,
            ),
    decreases devices.len(),
{
    let keep = |device: DeviceView| device.address != address;
    reveal(Seq::filter);
    if devices.len() > 0 {
        let init = devices.drop_last();
        let last = devices.last();
        lemma_without_address(init, address);
        let kept = init.filter(keep);
        assert(devices.filter(keep) == if keep(last) { kept.push(last) } else { kept });
        assert forall|other: Seq<char>| listed(devices, other) == (listed(init, other)
            || last.address == other) by {
            if listed(init, other) {
                let i = choose|i: int| 0 <= i < init.len() && (#[trigger] init[i]).address == other;
                assert(devices[i].address == other);
            }
            if last.address == other {
                assert(devices[devices.len() - 1].address == other);
            }
            if listed(devices, other) && last.address != other {
                let i = choose|i: int|
                    0 <= i < devices.len() && (#[trigger] devices[i]).address == other;
                assert(init[i].address == other);
            }
        }
        assert(!listed(init, last.address));
        if keep(last) {
            let more = kept.push(last);
            assert forall|other: Seq<char>| listed(more, other) == (listed(kept, other)
                || last.address == other) by {
                if listed(kept, other) {
                    let i = choose|i: int|
                        0 <= i < kept.len() && (#[trigger] kept[i]).address == other;
                    assert(more[i].address == other);
                }
                if last.address == other {
                    assert(more[more.len() - 1].address == other);
                }
                if listed(more, other) && last.address != other {
                    let i = choose|i: int|
                        0 <= i < more.len() && (#[trigger] more[i]).address == other;
                    assert(kept[i].address == other);
                }
            }
            assert(!listed(kept, last.address));
            assert forall|i: int, j: int| 0 <= i < j < more.len() implies (
            #[trigger] more[i]).address != (#[trigger] more[j]).address by {
                if j == kept.len() {
                    assert(kept[i].address != last.address);
                }
            }
        }
    }
}

impl DeviceList {
    #[verifier::type_invariant]
    spec fn well_formed(self) -> bool {
        one_per_address(devices_of(self.devices@))
    }

    /// A list without devices.
    pub fn new() -> (r: Self)
        ensures
            r@ == Seq::<DeviceView>::empty(),
    {
        let r = DeviceList { devices: Vec::new() };
        assert(r@ =~= Seq::<DeviceView>::empty());
        r
    }

    /// Removes every device.
    pub fn clear(&mut self)
        ensures
            final(self)@ == Seq::<DeviceView>::empty(),
    {
        *self = Self::new();
    }

    /// Whether a device with this address is in the list.
    pub fn lists(&self, address: &str) -> (r: bool)
        ensures
            r == listed(self@, address@),
    {
        let mut i: usize = 0;
        while i < self.devices.len()
            invariant
                i <= self.devices@.len(),
                forall|j: int| 0 <= j < i ==> (#[trigger] self@[j]).address != address@,
            decreases self.devices@.len() - i,
        {
            if text::same_text(self.devices[i].address.as_str(), address) {
                assert(self@[i as int].address == address@);
                return true;
            }
            assert(self@[i as int].address == self.devices@[i as int].address@);
            i = i + 1;
        }
        false
    }

    /// Adds a device unless its address is in the list already; says whether it was added.
    pub fn remember(&mut self, device: SPPDevice) -> (r: bool)
        ensures
            r == !listed(old(self)@, device@.address),
            final(self)@ == with_device(old(self)@, device@),
    {
        proof {
            use_type_invariant(&*self);
        }
        if self.lists(device.address.as_str()) {
            return false;
        }
        let mut devices: Vec<SPPDevice> = Vec::new();
        std::mem::swap(&mut devices, &mut self.devices);
        let ghost before = devices_of(devices@);
        devices.push(device);
        proof {
            assert(devices_of(devices@) =~= before.push(device@));
            assert(one_per_address(devices_of(devices@)));
        }
        self.devices = devices;
        true
    }

    /// Drops the device with this address, if there is one.
    pub fn forget(&mut self, address: &str)
        ensures
            final(self)@ == without_address(old(self)@, address@),
    {
        proof {
            use_type_invariant(&*self);
            lemma_without_address(self@, address@);
        }
        let mut devices: Vec<SPPDevice> = Vec::new();
        std::mem::swap(&mut devices, &mut self.devices);
        let ghost before = devices_of(devices@);
        let ghost keep = |device: DeviceView| device.address != address@;
        let mut kept: Vec<SPPDevice> = Vec::new();
        let mut i: usize = 0;
        proof {
            reveal(Seq::filter);
            assert(before.take(0) =~= Seq::<DeviceView>::empty());
            assert(devices_of(kept@) =~= Seq::<DeviceView>::empty());
        }
        while i < devices.len()
            invariant
                i <= devices@.len(),
                before == devices_of(devices@),
                keep == (|device: DeviceView| device.address != address@),
                devices_of(kept@) == before.take(i as int).filter(keep),
            decreases devices@.len() - i,
        {
            proof {
                reveal(Seq::filter);
                assert(before.take(i + 1).drop_last() =~= before.take(i as int));
                assert(before.take(i + 1).last() == devices@[i as int]@);
            }
            if !text::same_text(devices[i].address.as_str(), address) {
                let ghost sofar = devices_of(kept@);
                kept.push(devices[i].clone());
                assert(devices_of(kept@) =~= sofar.push(devices@[i as int]@));
            }
            i = i + 1;
        }
        assert(before.take(i as int) =~= before);
        self.devices = kept;
    }

    /// A copy of the list; no address occurs twice in it.
    pub fn snapshot(&self) -> (r: Vec<SPPDevice>)
        ensures
            devices_of(r@) == self@,
            one_per_address(self@),
    {
        proof {
            use_type_invariant(self);
        }
        let mut r: Vec<SPPDevice> = Vec::new();
        let mut i: usize = 0;
        while i < self.devices.len()
            invariant
                i <= self.devices@.len(),
                r@.len() == i,
                forall|j: int| 0 <= j < i ==> (#[trigger] r@[j])@ == self.devices@[j]@,
            decreases self.devices@.len() - i,
        {
            r.push(self.devices[i].clone());
            i = i + 1;
        }
        assert(devices_of(r@) =~= self@);
        r
    }
}

/// A list grows at its end: a device with an address that is not listed is added as it is, and one
/// whose address is listed changes nothing. It is told which of the two it was.
pub proof fn law_devices_are_added_once(list: &mut DeviceList, device: SPPDevice, r: bool)
    requires
        call_ensures(DeviceList::remember, (list, device), r),
    ensures
        r <==> (forall|i: int|
            0 <= i < old(list)@.len() ==> (#[trigger] old(list)@[i]).address != device.address@),
        r ==> final(list)@ == old(list)@.push(device@),
        !r ==> final(list)@ == old(list)@,
{
}

/// What is kept of a list without an address is the list without the devices there: the others
/// stay, in their order.
pub proof fn law_other_devices_stay(
    devices: Seq<DeviceView>,
    device: DeviceView,
    address: Seq<char>,
)
    ensures
        without_address(Seq::empty(), address) == Seq::<DeviceView>::empty(),
        device.address == address ==> without_address(devices.push(device), address)
            == without_address(devices, address),
        device.address != address ==> without_address(devices.push(device), address)
            == without_address(devices, address).push(device),
{
    reveal(Seq::filter);
    assert(devices.push(device).drop_last() =~= devices);
}

/// The copy of a list holds its devices, in their order; no two have the same address.
pub proof fn law_copy_of_the_list(list: &DeviceList, r: Vec<SPPDevice>)
    requires
        call_ensures(DeviceList::snapshot, (list,), r),
    ensures
        r@.len() == list@.len(),
        forall|i: int|
            0 <= i < r@.len() ==> (#[trigger] r@[i]).address@ == list@[i].address && text::text_of(
                r@[i].name,
            ) == list@[i].name,
        forall|i: int, j: int| 0 <= i < j < r@.len() ==> r@[i].address@ != r@[j].address@,
{
    assert forall|i: int| 0 <= i < r@.len() implies (#[trigger] r@[i])@ == list@[i] by {
        assert(devices_of(r@)[i] == r@[i]@);
    }
    assert forall|i: int, j: int| 0 <= i < j < r@.len() implies r@[i].address@ != r@[j].address@ by {
        assert(list@[i].address != list@[j].address);
        assert(r@[i]@ == list@[i] && r@[j]@ == list@[j]);
    }
}

/// What is said of a device is said of its own name and address.
pub proof fn law_what_a_device_holds(device: SPPDevice, devices: Seq<SPPDevice>)
    ensures
        device@.address == device.address@,
        device.name is None <==> device@.name is None,
        device.name matches Some(name) ==> device@.name == Some(name@),
        device_of(Some(device)) == Some(device@),
        device_of(None) is None,
        devices_of(devices).len() == devices.len(),
        forall|i: int| 0 <= i < devices.len() ==> #[trigger] devices_of(devices)[i] == devices[i]@,
{
}

/// A list is asked for an address, and emptied or rid of one; a copy of a device is the same device.
pub proof fn law_lists(
    asked: &DeviceList,
    address: &str,
    there: bool,
    emptied: &mut DeviceList,
    rid: &mut DeviceList,
    fresh: DeviceList,
    device: &SPPDevice,
    copy: SPPDevice,
)
    requires
        call_ensures(DeviceList::lists, (asked, address), there),
        call_ensures(DeviceList::clear, (emptied,), ()),
        call_ensures(DeviceList::forget, (rid, address), ()),
        call_ensures(DeviceList::new, (), fresh),
        call_ensures(SPPDevice::clone, (device,), copy),
    ensures
        there <==> exists|i: int|
            0 <= i < asked@.len() && (#[trigger] asked@[i]).address == address@,
        final(emptied)@.len() == 0,
        final(rid)@ == old(rid)@.filter(|device: DeviceView| device.address != address@),
        fresh@.len() == 0,
        copy.address@ == device.address@,
        copy@.name == device@.name,
{
}

} // verus!
