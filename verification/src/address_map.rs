//! A map from device addresses to values.
use vstd::prelude::*;

use crate::text;

verus! {

/// Values keyed by device address, each address at most once.
pub struct AddressMap<V: View> {
    entries: Vec<(String, V)>,
}

/// The value that a map holds for `key`, if any.
pub open spec fn found<V>(map: Map<Seq<char>, V>, key: Seq<char>) -> Option<V> {
    if map.contains_key(key) {
        Some(map[key])
    } else {
        None
    }
}

/// Taking a value out and putting another in its place changes nothing else.
pub broadcast proof fn lemma_put_back<V>(map: Map<Seq<char>, V>, key: Seq<char>, value: V)
    ensures
        #[trigger] map.remove(key).insert(key, value) == map.insert(key, value),
{
    assert(map.remove(key).insert(key, value) =~= map.insert(key, value));
}

/// Removing what is not there changes nothing.
pub broadcast proof fn lemma_remove_absent<V>(map: Map<Seq<char>, V>, key: Seq<char>)
    requires
        !map.contains_key(key),
    ensures
        #[trigger] map.remove(key) == map,
{
    assert(map.remove(key) =~= map);
}

/// The two maps agree on every address but `key`.
pub open spec fn same_elsewhere<V>(
    one: Map<Seq<char>, V>,
    other: Map<Seq<char>, V>,
    key: Seq<char>,
) -> bool {
    forall|k: Seq<char>| k != key ==> #[trigger] found(one, k) == found(other, k)
}

/// No two entries have the same address.
pub open spec fn distinct<V>(entries: Seq<(String, V)>) -> bool {
    forall|i: int, j: int| 0 <= i < j < entries.len() ==> entries[i].0@ != entries[j].0@
}

/// Whether some entry has the address `key`.
pub open spec fn present<V>(entries: Seq<(String, V)>, key: Seq<char>) -> bool {
    exists|i: int| 0 <= i < entries.len() && entries[i].0@ == key
}

/// Where the entry with the address `key` stands.
spec fn position<V>(entries: Seq<(String, V)>, key: Seq<char>) -> int {
    choose|i: int| 0 <= i < entries.len() && entries[i].0@ == key
}

/// The map that the entries stand for.
spec fn contents<V: View>(entries: Seq<(String, V)>) -> Map<Seq<char>, V::V> {
    Map::new(
        |key: Seq<char>| present(entries, key),
        |key: Seq<char>| entries[position(entries, key)].1@,
    )
}

proof fn lemma_contents_at<V: View>(entries: Seq<(String, V)>, i: int)
    requires
        distinct(entries),
        0 <= i < entries.len(),
    ensures
        contents(entries).contains_key(entries[i].0@),
        contents(entries)[entries[i].0@] == entries[i].1@,
{
    let key = entries[i].0@;
    assert(present(entries, key));
    let p = position(entries, key);
    assert(0 <= p < entries.len() && entries[p].0@ == key);
}

proof fn lemma_contents_remove<V: View>(entries: Seq<(String, V)>, i: int)
    requires
        distinct(entries),
        0 <= i < entries.len(),
    ensures
        distinct(entries.remove(i)),
        contents(entries.remove(i)) == contents(entries).remove(entries[i].0@),
{
    let rest = entries.remove(i);
    let gone = entries[i].0@;
    assert forall|key: Seq<char>| present(rest, key) == (present(entries, key) && key != gone) by {
        if present(rest, key) {
            let p = position(rest, key);
            if p < i {
                assert(entries[p].0@ == key);
            } else {
                assert(entries[p + 1].0@ == key);
            }
        }
        if present(entries, key) && key != gone {
            let p = position(entries, key);
            if p < i {
                assert(rest[p].0@ == key);
            } else {
                assert(rest[p - 1].0@ == key);
            }
        }
    }
    assert forall|key: Seq<char>| present(rest, key) implies contents(rest)[key] == contents(
        entries,
    )[key] by {
        let p = position(rest, key);
        lemma_contents_at(rest, p);
        if p < i {
            lemma_contents_at(entries, p);
        } else {
            lemma_contents_at(entries, p + 1);
        }
    }
    assert(contents(rest) =~= contents(entries).remove(gone));
}

proof fn lemma_contents_push<V: View>(entries: Seq<(String, V)>, key: String, value: V)
    requires
        distinct(entries),
        !present(entries, key@),
    ensures
        distinct(entries.push((key, value))),
        contents(entries.push((key, value))) == contents(entries).insert(key@, value@),
{
    let more = entries.push((key, value));
    assert(distinct(more)) by {
        assert forall|i: int, j: int| 0 <= i < j < more.len() implies more[i].0@ != more[j].0@ by {
            if j == entries.len() {
                assert(entries[i].0@ != key@);
            }
        }
    }
    lemma_contents_at(more, entries.len() as int);
    assert forall|k: Seq<char>| present(more, k) == (present(entries, k) || k == key@) by {
        if present(entries, k) {
            assert(more[position(entries, k)].0@ == k);
        }
        if present(more, k) && k != key@ {
            assert(entries[position(more, k)].0@ == k);
        }
    }
    assert forall|k: Seq<char>| present(entries, k) implies contents(more)[k] == contents(
        entries,
    )[k] by {
        let p = position(entries, k);
        lemma_contents_at(entries, p);
        lemma_contents_at(more, p);
    }
    assert(contents(more) =~= contents(entries).insert(key@, value@));
}

impl<V: View> View for AddressMap<V> {
    type V = Map<Seq<char>, V::V>;

    closed spec fn view(&self) -> Map<Seq<char>, V::V> {
        contents(self.entries@)
    }
}

impl<V: View> AddressMap<V> {
    #[verifier::type_invariant]
    spec fn well_formed(self) -> bool {
        distinct(self.entries@)
    }

    /// A map without entries.
    pub fn new() -> (r: Self)
        ensures
            r@ == Map::<Seq<char>, V::V>::empty(),
    {
        let r = AddressMap { entries: Vec::new() };
        assert(r@ =~= Map::<Seq<char>, V::V>::empty());
        r
    }

    /// Where the entry for `key` stands, if there is one.
    fn find(&self, key: &str) -> (r: Option<usize>)
        ensures
            match r {
                Some(i) => i < self.entries@.len() && self.entries@[i as int].0@ == key@,
                None => !present(self.entries@, key@),
            },
    {
        let mut i: usize = 0;
        while i < self.entries.len()
            invariant
                i <= self.entries@.len(),
                forall|j: int| 0 <= j < i ==> self.entries@[j].0@ != key@,
            decreases self.entries@.len() - i,
        {
            if text::same_text(self.entries[i].0.as_str(), key) {
                return Some(i);
            }
            i = i + 1;
        }
        None
    }

    /// Whether the map has an entry for `key`.
    pub fn contains_key(&self, key: &str) -> (r: bool)
        ensures
            r == self@.contains_key(key@),
    {
        self.find(key).is_some()
    }

    /// Whether the map has no entry.
    pub fn is_empty(&self) -> (r: bool)
        ensures
            r == (self@ == Map::<Seq<char>, V::V>::empty()),
    {
        proof {
            use_type_invariant(self);
            if self.entries@.len() > 0 {
                lemma_contents_at(self.entries@, 0);
                assert(self@.contains_key(self.entries@[0].0@));
            } else {
                assert(self@ =~= Map::<Seq<char>, V::V>::empty());
            }
        }
        self.entries.len() == 0
    }

    /// The value stored for `key`.
    pub fn get(&self, key: &str) -> (r: Option<&V>)
        ensures
            match r {
                Some(value) => self@.contains_key(key@) && value@ == self@[key@],
                None => !self@.contains_key(key@),
            },
    {
        proof {
            use_type_invariant(self);
        }
        match self.find(key) {
            Some(i) => {
                proof {
                    lemma_contents_at(self.entries@, i as int);
                }
                Some(&self.entries[i].1)
            },
            None => None,
        }
    }

    /// Removes the entry for `key` and returns its value.
    pub fn remove(&mut self, key: &str) -> (r: Option<V>)
        ensures
            final(self)@ == old(self)@.remove(key@),
            match r {
                Some(value) => old(self)@.contains_key(key@) && value@ == old(self)@[key@],
                None => !old(self)@.contains_key(key@),
            },
    {
        proof {
            use_type_invariant(&*self);
        }
        match self.find(key) {
            Some(i) => {
                let mut entries: Vec<(String, V)> = Vec::new();
                std::mem::swap(&mut entries, &mut self.entries);
                proof {
                    lemma_contents_at(entries@, i as int);
                    lemma_contents_remove(entries@, i as int);
                }
                let entry = entries.remove(i);
                self.entries = entries;
                Some(entry.1)
            },
            None => {
                assert(self@ =~= self@.remove(key@));
                None
            },
        }
    }

    /// Stores `value` for `key`, in place of any value stored before.
    pub fn insert(&mut self, key: String, value: V)
        ensures
            final(self)@ == old(self)@.insert(key@, value@),
    {
        let ghost before = self@;
        let _ = self.remove(key.as_str());
        proof {
            use_type_invariant(&*self);
        }
        let mut entries: Vec<(String, V)> = Vec::new();
        std::mem::swap(&mut entries, &mut self.entries);
        proof {
            assert(!contents(entries@).contains_key(key@));
            lemma_contents_push(entries@, key, value);
            assert(before.remove(key@).insert(key@, value@) =~= before.insert(key@, value@));
        }
        entries.push((key, value));
        self.entries = entries;
    }

    /// Removes every entry.
    pub fn clear(&mut self)
        ensures
            final(self)@ == Map::<Seq<char>, V::V>::empty(),
    {
        *self = Self::new();
    }

    /// The addresses that have an entry, each once, in no particular order.
    pub fn keys(&self) -> (r: Vec<String>)
        ensures
            forall|i: int, j: int| 0 <= i < j < r@.len() ==> r@[i]@ != r@[j]@,
            forall|i: int| 0 <= i < r@.len() ==> self@.contains_key(#[trigger] r@[i]@),
            forall|key: Seq<char>|
                self@.contains_key(key) ==> exists|i: int| 0 <= i < r@.len() && r@[i]@ == key,
    {
        proof {
            use_type_invariant(self);
        }
        let mut r: Vec<String> = Vec::new();
        let mut i: usize = 0;
        while i < self.entries.len()
            invariant
                i <= self.entries@.len(),
                r@.len() == i,
                forall|j: int| 0 <= j < i ==> r@[j] == self.entries@[j].0,
            decreases self.entries@.len() - i,
        {
            r.push(self.entries[i].0.clone());
            i = i + 1;
        }
        proof {
            assert forall|j: int| 0 <= j < r@.len() implies self@.contains_key(#[trigger] r@[j]@) by {
                lemma_contents_at(self.entries@, j);
            }
            assert forall|key: Seq<char>| self@.contains_key(key) implies exists|j: int|
                0 <= j < r@.len() && r@[j]@ == key by {
                let p = position(self.entries@, key);
                assert(r@[p]@ == key);
            }
        }
        r
    }

    /// Removes and returns every entry, in no particular order.
    pub fn drain(&mut self) -> (r: Vec<(String, V)>)
        ensures
            final(self)@ == Map::<Seq<char>, V::V>::empty(),
            distinct(r@),
            forall|i: int|
                0 <= i < r@.len() ==> old(self)@.contains_key((#[trigger] r@[i]).0@) && old(
                    self,
                )@[r@[i].0@] == r@[i].1@,
            forall|key: Seq<char>| old(self)@.contains_key(key) ==> present(r@, key),
    {
        proof {
            use_type_invariant(&*self);
        }
        let mut entries: Vec<(String, V)> = Vec::new();
        std::mem::swap(&mut entries, &mut self.entries);
        proof {
            assert forall|i: int| 0 <= i < entries@.len() implies old(self)@.contains_key(
                (#[trigger] entries@[i]).0@,
            ) && old(self)@[entries@[i].0@] == entries@[i].1@ by {
                lemma_contents_at(entries@, i);
            }
            assert(self@ =~= Map::<Seq<char>, V::V>::empty());
        }
        entries
    }
}

/// What a map holds for an address is the value that is there, if any.
pub proof fn law_what_is_found<V>(map: Map<Seq<char>, V>, key: Seq<char>)
    ensures
        found(map, key) is Some <==> map.contains_key(key),
        found(map, key) matches Some(value) ==> value == map[key],
{
}

} // verus!
