//! A small map keyed by strings, kept as a list in which no key occurs twice.
use vstd::prelude::*;

verus! {

/// No two slots hold the same key.
spec fn distinct_keys<V>(slots: Seq<(String, V)>) -> bool {
    forall|i: int, j: int|
        0 <= i < j < slots.len() ==> (#[trigger] slots[i]).0@ != (#[trigger] slots[j]).0@
}

/// Some slot holds `key`.
spec fn has_key<V>(slots: Seq<(String, V)>, key: Seq<char>) -> bool {
    exists|i: int| 0 <= i < slots.len() && (#[trigger] slots[i]).0@ == key
}

/// A slot that holds `key`, where there is one.
spec fn slot_of<V>(slots: Seq<(String, V)>, key: Seq<char>) -> int {
    choose|i: int| 0 <= i < slots.len() && (#[trigger] slots[i]).0@ == key
}

/// The map that a list of slots stands for.
spec fn map_of<V>(slots: Seq<(String, V)>) -> Map<Seq<char>, V> {
    Map::new(|key: Seq<char>| has_key(slots, key), |key: Seq<char>| slots[slot_of(slots, key)].1)
}

/// A map from strings to `V`. Its view is the mathematical map it stands for.
pub struct StrMap<V> {
    slots: Vec<(String, V)>,
}

impl<V> View for StrMap<V> {
    type V = Map<Seq<char>, V>;

    closed spec fn view(&self) -> Map<Seq<char>, V> {
        map_of(self.slots@)
    }
}

impl<V> StrMap<V> {
    #[verifier::type_invariant]
    spec fn well_formed(self) -> bool {
        distinct_keys(self.slots@)
    }

    /// How many keys the map holds.
    pub closed spec fn size(&self) -> nat {
        self.slots@.len()
    }

    /// An empty map.
    pub fn new() -> (m: Self)
        ensures
            m@ == Map::<Seq<char>, V>::empty(),
            m.size() == 0,
    {
        let m = StrMap { slots: Vec::new() };
        m
    }

    /// Where `key` is kept, if it is.
    fn find(&self, key: &str) -> (at: Option<usize>)
        ensures
            match at {
                Some(i) => i < self.slots@.len() && self.slots@[i as int].0@ == key@,
                None => !has_key(self.slots@, key@),
            },
    {
        let wanted = key.to_owned();
        let mut i: usize = 0;
        while i < self.slots.len()
            invariant
                i <= self.slots@.len(),
                wanted@ == key@,
                forall|j: int| 0 <= j < i ==> (#[trigger] self.slots@[j]).0@ != key@,
            decreases self.slots@.len() - i,
        {
            if self.slots[i].0 == wanted {
                return Some(i);
            }
            i = i + 1;
        }
        None
    }

    /// Tells whether `key` has a value.
    pub fn contains_key(&self, key: &str) -> (found: bool)
        ensures
            found == self@.dom().contains(key@),
    {
        self.find(key).is_some()
    }

    /// The value kept under `key`, if there is one.
    pub fn get(&self, key: &str) -> (value: Option<&V>)
        ensures
            match value {
                Some(v) => self@.dom().contains(key@) && *v == self@[key@],
                None => !self@.dom().contains(key@),
            },
    {
        proof {
            use_type_invariant(self);
        }
        match self.find(key) {
            Some(i) => {
                Some(&self.slots[i].1)
            },
            None => None,
        }
    }

    /// Puts `value` under `key`, in place of what was there.
    pub fn insert(&mut self, key: String, value: V)
        ensures
            final(self)@ == old(self)@.insert(key@, value),
    {
        proof {
            use_type_invariant(&*self);
        }
        let at = self.find(key.as_str());
        let mut slots = Vec::new();
        std::mem::swap(&mut slots, &mut self.slots);
        let ghost before = slots@;
        match at {
            Some(i) => {
                slots.set(i, (key, value));
                proof {
                    lemma_update_slot(before, i as int, slots@[i as int]);
                }
            },
            None => {
                slots.push((key, value));
                proof {
                    lemma_push_slot(before, slots@[before.len() as int]);
                }
            },
        }
        self.slots = slots;
    }

    /// Takes some key out of the map, with its value; `None` if the map is
    /// empty. Which key leaves is not fixed.
    pub fn pop(&mut self) -> (entry: Option<(String, V)>)
        ensures
            match entry {
                Some((key, value)) => {
                    &&& old(self)@.dom().contains(key@)
                    &&& old(self)@[key@] == value
                    &&& final(self)@ == old(self)@.remove(key@)
                    &&& final(self).size() + 1 == old(self).size()
                },
                None => {
                    &&& old(self)@ == Map::<Seq<char>, V>::empty()
                    &&& final(self)@ == old(self)@
                    &&& old(self).size() == 0
                },
            },
    {
        proof {
            use_type_invariant(&*self);
        }
        let mut slots = Vec::new();
        std::mem::swap(&mut slots, &mut self.slots);
        let ghost before = slots@;
        let entry = slots.pop();
        proof {
            if before.len() > 0 {
                let last = before.len() - 1;
                lemma_remove_slot(before, last);
            }
        }
        self.slots = slots;
        entry
    }

    /// Takes `key` and its value out of the map and hands the value back.
    pub fn remove(&mut self, key: &str) -> (value: Option<V>)
        ensures
            final(self)@ == old(self)@.remove(key@),
            match value {
                Some(v) => old(self)@.dom().contains(key@) && v == old(self)@[key@],
                None => !old(self)@.dom().contains(key@),
            },
    {
        proof {
            use_type_invariant(&*self);
        }
        match self.find(key) {
            Some(i) => {
                let mut slots = Vec::new();
                std::mem::swap(&mut slots, &mut self.slots);
                let ghost before = slots@;
                let slot = slots.remove(i);
                proof {
                    lemma_remove_slot(before, i as int);
                }
                self.slots = slots;
                Some(slot.1)
            },
            None => {
                None
            },
        }
    }
}

/// Overwriting the slot of a key is an insertion under that key.
proof fn lemma_update_slot<V>(slots: Seq<(String, V)>, i: int, slot: (String, V))
    requires
        distinct_keys(slots),
        0 <= i < slots.len(),
        slot.0@ == slots[i].0@,
    ensures
        distinct_keys(slots.update(i, slot)),
        map_of(slots.update(i, slot)) == map_of(slots).insert(slot.0@, slot.1),
{
    let after = slots.update(i, slot);
    assert forall|k: Seq<char>|
        map_of(after).dom().contains(k) <==> map_of(slots).insert(slot.0@, slot.1).dom().contains(
            k,
        ) by {
        if has_key(slots, k) {
            let j = slot_of(slots, k);
            assert(after[j].0@ == k);
        }
    }
}

/// Appending a slot with a new key is an insertion under that key.
proof fn lemma_push_slot<V>(slots: Seq<(String, V)>, slot: (String, V))
    requires
        distinct_keys(slots),
        !has_key(slots, slot.0@),
    ensures
        distinct_keys(slots.push(slot)),
        map_of(slots.push(slot)) == map_of(slots).insert(slot.0@, slot.1),
{
    let after = slots.push(slot);
    assert forall|k: Seq<char>|
        map_of(after).dom().contains(k) <==> map_of(slots).insert(slot.0@, slot.1).dom().contains(
            k,
        ) by {
        if has_key(slots, k) {
            let j = slot_of(slots, k);
            assert(after[j].0@ == k);
        }
        if k == slot.0@ {
            assert(after[slots.len() as int].0@ == k);
        }
    }
}

/// Dropping the slot of a key removes that key.
proof fn lemma_remove_slot<V>(slots: Seq<(String, V)>, i: int)
    requires
        distinct_keys(slots),
        0 <= i < slots.len(),
    ensures
        distinct_keys(slots.remove(i)),
        map_of(slots.remove(i)) == map_of(slots).remove(slots[i].0@),
{
    let after = slots.remove(i);
    let gone = slots[i].0@;
    assert forall|k: Seq<char>|
        map_of(after).dom().contains(k) <==> map_of(slots).remove(gone).dom().contains(k) by {
        if has_key(slots, k) && k != gone {
            let j = slot_of(slots, k);
            let j1 = if j < i { j } else { j - 1 };
            assert(after[j1].0@ == k);
        }
    }
}

} // verus!
