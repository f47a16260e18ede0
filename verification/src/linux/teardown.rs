//! The end of all Bluetooth work.
use vstd::prelude::*;

use crate::linux::scan;
use crate::linux::scan::ScanHandles;
use crate::linux::state;
use crate::linux::state::{GlobalState, StateView, StoppedConnection};

verus! {

/// What has to be stopped when the application ends; `steps` gives the order.
pub struct Teardown {
    pub connections: Vec<StoppedConnection>,
    pub scan: ScanHandles,
}

/// The state without connections, without callbacks and without a scan.
pub open spec fn torn_down(st: StateView) -> StateView {
    scan::without_scan(
        StateView {
            connections: Map::empty(),
            on_connected_callbacks: Map::empty(),
            data_listener_callbacks: Map::empty(),
            ..st
        },
    )
}

/// Ends every connection, each once and in no particular order, forgets every callback, and
/// ends the scan.
pub fn disconnect_all(st: &mut GlobalState) -> (r: Teardown)
    requires
        old(st).wf(),
    ensures
        final(st).wf(),
        final(st)@ == torn_down(old(st)@),
        exists|keys: Seq<Seq<char>>|
            state::stops_each_once(old(st)@.connections, keys, r.connections@),
        r.scan == scan::scan_of(old(st)@),
{
    let ghost map = st@.connections;
    let connections: Vec<StoppedConnection> = state::disconnect_all_impl(st);
    let ghost keys = choose|keys: Seq<Seq<char>>|
        state::stops_each_once(map, keys, connections@);
    let scan: ScanHandles = scan::stop_scan_impl(st);
    let r = Teardown { connections, scan };
    assert(state::stops_each_once(old(st)@.connections, keys, r.connections@));
    r
}

} // verus!
