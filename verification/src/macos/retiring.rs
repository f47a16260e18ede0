//! Sessions whose channels are not closed yet.
use std::collections::HashMap;
use vstd::prelude::*;

use crate::macos::state::{RfcommSession, SessionView};
use crate::text;

verus! {

broadcast use vstd::std_specs::hash::group_hash_axioms;

/// Sessions by generation.
pub struct RetiringSessions {
    sessions: HashMap<usize, RfcommSession>,
}

spec fn contents(sessions: Map<usize, RfcommSession>) -> Map<usize, SessionView> {
    sessions.map_values(|session: RfcommSession| session@)
}

/// The session that retires under a generation, if any.
pub open spec fn retired(map: Map<usize, SessionView>, generation: usize) -> Option<SessionView> {
    if map.contains_key(generation) {
        Some(map[generation])
    } else {
        None
    }
}

/// Whether a session with the device at `addr` is retiring.
pub open spec fn retires(map: Map<usize, SessionView>, addr: Seq<char>) -> bool {
    exists|generation: usize| #[trigger]
        map.contains_key(generation) && map[generation].addr == addr
}

/// Taking a session out and putting another in its place changes nothing else.
pub broadcast proof fn lemma_retire_again(
    map: Map<usize, SessionView>,
    generation: usize,
    session: SessionView,
)
    ensures
        #[trigger] map.remove(generation).insert(generation, session) == map.insert(
            generation,
            session,
        ),
{
    assert(map.remove(generation).insert(generation, session) =~= map.insert(generation, session));
}

impl View for RetiringSessions {
    type V = Map<usize, SessionView>;

    closed spec fn view(&self) -> Map<usize, SessionView> {
        contents(self.sessions@)
    }
}

impl RetiringSessions {
    /// No session retires.
    pub fn new() -> (r: Self)
        ensures
            r@ == Map::<usize, SessionView>::empty(),
    {
        let r = RetiringSessions { sessions: HashMap::new() };
        assert(r@ =~= Map::<usize, SessionView>::empty());
        r
    }

    /// The session that retires under a generation.
    pub fn get(&self, generation: usize) -> (r: Option<&RfcommSession>)
        ensures
            match r {
                Some(session) => retired(self@, generation) == Some(session@),
                None => retired(self@, generation) is None,
            },
    {
        self.sessions.get(&generation)
    }

    /// Whether a session with the device at `addr` is retiring.
    pub fn any_for(&self, addr: &str) -> (r: bool)
        ensures
            r == retires(self@, addr@),
    {
        let ghost all = vstd::std_specs::hash::spec_values_iter(&self.sessions);
        let ghost listed = vstd::std_specs::iter::IteratorSpec::remaining(&all).unref();
        for session in it: self.sessions.values()
            invariant
                it.seq().unref() == listed,
                listed.to_set() == self.sessions@.values(),
                forall|i: int| 0 <= i < it.index() ==> (#[trigger] listed[i]).addr@ != addr@,
        {
            let ghost n = it.index() as int;
            assert(listed[n] == *session);
            if text::same_text(session.addr.as_str(), addr) {
                proof {
                    assert(listed.to_set().contains(*session));
                    let generation = choose|generation: usize|
                        self.sessions@.contains_key(generation) && self.sessions@[generation]
                            == *session;
                    assert(self@.contains_key(generation) && self@[generation].addr == addr@);
                }
                return true;
            }
        }
        proof {
            assert forall|generation: usize| #[trigger]
                self@.contains_key(generation) implies self@[generation].addr != addr@ by {
                let session = self.sessions@[generation];
                assert(self.sessions@.values().contains(session));
                assert(listed.contains(session));
                let i = listed.index_of(session);
                assert(listed[i].addr@ != addr@);
            }
        }
        false
    }

    /// Takes out the session that retires under a generation.
    pub fn remove(&mut self, generation: usize) -> (r: Option<RfcommSession>)
        ensures
            final(self)@ == old(self)@.remove(generation),
            match r {
                Some(session) => retired(old(self)@, generation) == Some(session@),
                None => retired(old(self)@, generation) is None && final(self)@ == old(self)@,
            },
    {
        let r = self.sessions.remove(&generation);
        assert(self@ =~= old(self)@.remove(generation));
        assert(r is None ==> self@ =~= old(self)@);
        r
    }

    /// Lets a session retire under its generation.
    pub fn insert(&mut self, session: RfcommSession)
        ensures
            final(self)@ == old(self)@.insert(session.generation, session@),
    {
        let generation: usize = session.generation;
        let _ = self.sessions.insert(generation, session);
        assert(self@ =~= old(self)@.insert(generation, session@));
    }
}

} // verus!
