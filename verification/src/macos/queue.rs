//! The devices that wait for their turn to connect.
use std::collections::VecDeque;
use vstd::prelude::*;

use crate::text;

verus! {

/// Addresses, first come first served.
pub struct AddressQueue {
    addresses: VecDeque<String>,
}

spec fn texts(addresses: Seq<String>) -> Seq<Seq<char>> {
    addresses.map_values(|address: String| address@)
}

/// The addresses that are not `address`.
pub open spec fn others(queue: Seq<Seq<char>>, address: Seq<char>) -> Seq<Seq<char>> {
    queue.filter(|queued: Seq<char>| queued != address)
}

impl View for AddressQueue {
    type V = Seq<Seq<char>>;

    closed spec fn view(&self) -> Seq<Seq<char>> {
        texts(self.addresses@)
    }
}

impl AddressQueue {
    /// A queue without addresses.
    pub fn new() -> (r: Self)
        ensures
            r@ == Seq::<Seq<char>>::empty(),
    {
        let r = AddressQueue { addresses: VecDeque::new() };
        assert(r@ =~= Seq::<Seq<char>>::empty());
        r
    }

    /// Removes every address.
    pub fn clear(&mut self)
        ensures
            final(self)@ == Seq::<Seq<char>>::empty(),
    {
        *self = Self::new();
    }

    /// Adds an address at the end.
    pub fn push_back(&mut self, address: String)
        ensures
            final(self)@ == old(self)@.push(address@),
    {
        self.addresses.push_back(address);
        assert(self@ =~= old(self)@.push(address@));
    }

    /// Removes the first address.
    pub fn pop_front(&mut self) -> (r: Option<String>)
        ensures
            match r {
                Some(address) => old(self)@.len() > 0 && address@ == old(self)@[0] && final(self)@
                    == old(self)@.skip(1),
                None => old(self)@.len() == 0 && final(self)@ == old(self)@,
            },
    {
        let r = self.addresses.pop_front();
        proof {
            if r is Some {
                assert(self@ =~= old(self)@.skip(1));
                assert(old(self)@[0] == old(self).addresses@[0]@);
            }
        }
        r
    }

    /// Removes an address wherever it stands.
    pub fn remove_all(&mut self, address: &str)
        ensures
            final(self)@ == others(old(self)@, address@),
    {
        let mut kept: VecDeque<String> = VecDeque::new();
        let ghost keep = |queued: Seq<char>| queued != address@;
        let ghost before = self@;
        let mut i: usize = 0;
        proof {
            reveal(Seq::filter);
            assert(before.take(0) =~= Seq::<Seq<char>>::empty());
            assert(texts(kept@) =~= Seq::<Seq<char>>::empty());
        }
        while i < self.addresses.len()
            invariant
                i <= self.addresses@.len(),
                before == texts(self.addresses@),
                keep == (|queued: Seq<char>| queued != address@),
                texts(kept@) == before.take(i as int).filter(keep),
            decreases self.addresses@.len() - i,
        {
            proof {
                reveal(Seq::filter);
                assert(before.take(i + 1).drop_last() =~= before.take(i as int));
                assert(before.take(i + 1).last() == self.addresses@[i as int]@);
            }
            if !text::same_text(self.addresses[i].as_str(), address) {
                let ghost sofar = texts(kept@);
                kept.push_back(self.addresses[i].clone());
                assert(texts(kept@) =~= sofar.push(self.addresses@[i as int]@));
            }
            i = i + 1;
        }
        assert(before.take(i as int) =~= before);
        self.addresses = kept;
    }
}

/// An address that was removed no longer waits, and the others wait as before.
pub proof fn lemma_others(queue: Seq<Seq<char>>, address: Seq<char>)
    ensures
        !others(queue, address).contains(address),
        forall|queued: Seq<char>|
            queued != address ==> others(queue, address).contains(queued) == queue.contains(queued),
    decreases queue.len(),
{
    reveal(Seq::filter);
    if queue.len() > 0 {
        let init = queue.drop_last();
        let last = queue.last();
        lemma_others(init, address);
        assert(queue =~= init.push(last));
        lemma_push_contains(init, last);
        lemma_push_contains(others(init, address), last);
    }
}

proof fn lemma_push_contains(queue: Seq<Seq<char>>, last: Seq<char>)
    ensures
        forall|queued: Seq<char>| #[trigger]
            queue.push(last).contains(queued) == (queue.contains(queued) || queued == last),
{
    assert forall|queued: Seq<char>| #[trigger]
        queue.push(last).contains(queued) == (queue.contains(queued) || queued == last) by {
        if queue.contains(queued) {
            assert(queue.push(last)[queue.index_of(queued)] == queued);
        }
        assert(queue.push(last)[queue.len() as int] == last);
        if queue.push(last).contains(queued) && queued != last {
            let i = queue.push(last).index_of(queued);
            assert(queue[i] == queued);
        }
    }
}

} // verus!
