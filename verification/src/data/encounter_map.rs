//! A map keyed by the five encounter types, in their declared order.

use crate::data::encounter_type::EncounterType;
use vstd::prelude::*;

verus! {

/// At most one value for each encounter type.
#[derive(Clone, Copy, Debug)]
pub struct EncounterMap<T> {
    pub unless: Option<T>,
    pub gain: Option<T>,
    pub when: Option<T>,
    pub complete: Option<T>,
    pub lose: Option<T>,
}

impl<T: Copy> EncounterMap<T> {
    /// The map without entries.
    pub open spec fn empty() -> Self {
        EncounterMap { unless: None, gain: None, when: None, complete: None, lose: None }
    }

    /// What the map holds for an encounter type.
    pub open spec fn slot(self, key: EncounterType) -> Option<T> {
        match key {
            EncounterType::Unless => self.unless,
            EncounterType::Gain => self.gain,
            EncounterType::When => self.when,
            EncounterType::Complete => self.complete,
            EncounterType::Lose => self.lose,
        }
    }

    /// The map with the entry of one encounter type replaced.
    pub open spec fn with(self, key: EncounterType, value: Option<T>) -> Self {
        match key {
            EncounterType::Unless => EncounterMap { unless: value, ..self },
            EncounterType::Gain => EncounterMap { gain: value, ..self },
            EncounterType::When => EncounterMap { when: value, ..self },
            EncounterType::Complete => EncounterMap { complete: value, ..self },
            EncounterType::Lose => EncounterMap { lose: value, ..self },
        }
    }

    /// Whether the map holds nothing.
    pub open spec fn has_none(self) -> bool {
        forall|key: EncounterType| (#[trigger] self.slot(key)) is None
    }

    /// The entries as a mathematical map.
    pub open spec fn view(self) -> Map<EncounterType, T> {
        Map::new(|key: EncounterType| self.slot(key) is Some, |key: EncounterType| self.slot(key)->Some_0)
    }

    /// The number of entries among the encounter types from place `from` on.
    pub open spec fn count_from(self, from: int) -> int
        decreases 5 - from,
    {
        if from >= 5 || from < 0 {
            0
        } else {
            (if self.slot(EncounterType::at(from)) is Some { 1int } else { 0int }) + self.count_from(from + 1)
        }
    }

    pub fn new() -> (r: Self)
        ensures
            r == Self::empty(),
            r.has_none(),
    {
        EncounterMap { unless: None, gain: None, when: None, complete: None, lose: None }
    }

    pub fn get(&self, key: EncounterType) -> (r: Option<T>)
        ensures
            r == self.slot(key),
    {
        match key {
            EncounterType::Unless => self.unless,
            EncounterType::Gain => self.gain,
            EncounterType::When => self.when,
            EncounterType::Complete => self.complete,
            EncounterType::Lose => self.lose,
        }
    }

    /// Replaces the entry of an encounter type and hands back the one that was there.
    pub fn set(&mut self, key: EncounterType, value: Option<T>) -> (r: Option<T>)
        ensures
            r == old(self).slot(key),
            *final(self) == old(self).with(key, value),
    {
        let before = self.get(key);
        match key {
            EncounterType::Unless => {
                self.unless = value;
            },
            EncounterType::Gain => {
                self.gain = value;
            },
            EncounterType::When => {
                self.when = value;
            },
            EncounterType::Complete => {
                self.complete = value;
            },
            EncounterType::Lose => {
                self.lose = value;
            },
        }
        before
    }

    pub fn contains_key(&self, encounter_type: EncounterType) -> (r: bool)
        ensures
            r == (self.slot(encounter_type) is Some),
            r == self@.contains_key(encounter_type),
    {
        self.get(encounter_type).is_some()
    }

    pub fn remove(&mut self, key: EncounterType) -> (r: Option<T>)
        ensures
            r == old(self).slot(key),
            *final(self) == old(self).with(key, None),
            final(self)@ == old(self)@.remove(key),
    {
        let r = self.set(key, None);
        proof {
            assert(self@ =~= old(self)@.remove(key)) by {
                assert forall|k: EncounterType| #[trigger] self@.contains_key(k) == old(self)@.remove(key).contains_key(k) by {}
            }
        }
        r
    }

    pub fn is_empty(&self) -> (r: bool)
        ensures
            r == self.has_none(),
            r == (*self == Self::empty()),
    {
        let r = self.unless.is_none() && self.gain.is_none() && self.when.is_none() && self.complete.is_none()
            && self.lose.is_none();
        proof {
            if !r {
                if self.unless is Some {
                    assert(self.slot(EncounterType::Unless) is Some);
                } else if self.gain is Some {
                    assert(self.slot(EncounterType::Gain) is Some);
                } else if self.when is Some {
                    assert(self.slot(EncounterType::When) is Some);
                } else if self.complete is Some {
                    assert(self.slot(EncounterType::Complete) is Some);
                } else {
                    assert(self.slot(EncounterType::Lose) is Some);
                }
            }
        }
        r
    }

    /// The number of entries.
    pub fn len(&self) -> (r: usize)
        ensures
            r == self.count_from(0),
            r <= 5,
    {
        let mut n: usize = 0;
        if self.lose.is_some() {
            n = n + 1;
        }
        assert(n == self.count_from(4)) by {
            reveal_with_fuel(EncounterMap::count_from, 2);
        }
        if self.complete.is_some() {
            n = n + 1;
        }
        assert(n == self.count_from(3));
        if self.when.is_some() {
            n = n + 1;
        }
        assert(n == self.count_from(2));
        if self.gain.is_some() {
            n = n + 1;
        }
        assert(n == self.count_from(1));
        if self.unless.is_some() {
            n = n + 1;
        }
        n
    }

    pub fn clear(&mut self)
        ensures
            *final(self) == Self::empty(),
    {
        self.unless = None;
        self.gain = None;
        self.when = None;
        self.complete = None;
        self.lose = None;
    }

    /// Two maps with the same entries are the same map.
    pub proof fn lemma_same_slots(a: Self, b: Self)
        requires
            forall|key: EncounterType| #[trigger] a.slot(key) == b.slot(key),
        ensures
            a == b,
    {
        assert(a.slot(EncounterType::Unless) == b.slot(EncounterType::Unless));
        assert(a.slot(EncounterType::Gain) == b.slot(EncounterType::Gain));
        assert(a.slot(EncounterType::When) == b.slot(EncounterType::When));
        assert(a.slot(EncounterType::Complete) == b.slot(EncounterType::Complete));
        assert(a.slot(EncounterType::Lose) == b.slot(EncounterType::Lose));
    }
}

} // verus!
