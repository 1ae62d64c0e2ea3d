//! The set of sounding voices, keyed by pitch.
//!
//! A note-on inserts the voice for its pitch, replacing one that already
//! sounds there; a note-off removes it. The voice type is a parameter: the
//! map moves voices in and out and never looks inside one.

use std::collections::HashMap;
use vstd::prelude::*;

verus! {

broadcast use vstd::std_specs::hash::group_hash_axioms;

/// The voices that sound, at most one for each pitch.
#[derive(Debug)]
pub struct IterablePolyphonyHashMap<V> {
    hashmap: HashMap<u8, V>,
    sample_rate: u32,
}

impl<V> View for IterablePolyphonyHashMap<V> {
    type V = Map<u8, V>;

    /// The sounding voices by pitch.
    closed spec fn view(&self) -> Map<u8, V> {
        self.hashmap@
    }
}

impl<V: Clone> Clone for IterablePolyphonyHashMap<V> {
    /// A map in which the same voices sound.
    fn clone(&self) -> (copy: Self)
        ensures
            copy@ == self@,
            copy.spec_sample_rate() == self.spec_sample_rate(),
    {
        IterablePolyphonyHashMap { hashmap: self.hashmap.clone(), sample_rate: self.sample_rate }
    }
}

impl<V> IterablePolyphonyHashMap<V> {
    /// The sample rate that every voice of the map runs at.
    pub closed spec fn spec_sample_rate(&self) -> u32 {
        self.sample_rate
    }

    /// A map in which nothing sounds.
    pub fn new(sample_rate: u32) -> (map: Self)
        ensures
            map@ == Map::<u8, V>::empty(),
            map.spec_sample_rate() == sample_rate,
    {
        IterablePolyphonyHashMap { hashmap: HashMap::new(), sample_rate }
    }

    /// Takes over voices that already sound. There has to be at least one.
    pub fn from(hashmap: HashMap<u8, V>, sample_rate: u32) -> (map: Self)
        requires
            exists|k: u8| hashmap@.contains_key(k),
        ensures
            map@ == hashmap@,
            map.spec_sample_rate() == sample_rate,
    {
        IterablePolyphonyHashMap { hashmap, sample_rate }
    }

    /// Note-on: `v` sounds at pitch `k`, in place of any voice that sounded
    /// there before.
    pub fn insert(&mut self, k: u8, v: V)
        ensures
            final(self)@ == old(self)@.insert(k, v),
            final(self).spec_sample_rate() == old(self).spec_sample_rate(),
    {
        let _ = self.hashmap.insert(k, v);
    }

    /// Note-off: the voice at pitch `k` leaves the map and is handed back.
    /// Nothing changes when none sounds there.
    pub fn remove(&mut self, k: &u8) -> (voice: Option<V>)
        ensures
            final(self)@ == old(self)@.remove(*k),
            final(self).spec_sample_rate() == old(self).spec_sample_rate(),
            voice == if old(self)@.contains_key(*k) {
                Some(old(self)@[*k])
            } else {
                None
            },
            !old(self)@.contains_key(*k) ==> final(self)@ == old(self)@,
    {
        let voice = self.hashmap.remove(k);
        assert(!old(self)@.contains_key(*k) ==> final(self)@ =~= old(self)@);
        voice
    }

    /// All notes off.
    pub fn clear(&mut self)
        ensures
            final(self)@ == Map::<u8, V>::empty(),
            final(self).spec_sample_rate() == old(self).spec_sample_rate(),
    {
        self.hashmap.clear()
    }

    /// Number of sounding voices.
    pub fn len(&self) -> (n: usize)
        ensures
            n == self@.len(),
    {
        self.hashmap.len()
    }

    pub fn is_empty(&self) -> (empty: bool)
        ensures
            empty <==> self@ == Map::<u8, V>::empty(),
    {
        let empty = self.hashmap.is_empty();
        assert(self@.is_empty() ==> self@ =~= Map::<u8, V>::empty());
        empty
    }

    /// The voice that sounds at pitch `k`, if any.
    pub fn get(&self, k: &u8) -> (voice: Option<&V>)
        ensures
            voice == if self@.contains_key(*k) {
                Some(&self@[*k])
            } else {
                None
            },
    {
        self.hashmap.get(k)
    }

    pub fn sample_rate(&self) -> (rate: u32)
        ensures
            rate == self.spec_sample_rate(),
    {
        self.sample_rate
    }

    /// Hands the sounding voices out for the mixer to advance each of them.
    /// Whatever the caller leaves in the map is what sounds afterwards.
    pub fn voices_mut(&mut self) -> (voices: &mut HashMap<u8, V>)
        ensures
            voices@ == old(self)@,
            final(self)@ == final(voices)@,
            final(self).spec_sample_rate() == old(self).spec_sample_rate(),
    {
        &mut self.hashmap
    }
}

/// Two notes on, one off: once voices were inserted at two different
/// pitches and the first was removed again, the second sounds, the first
/// does not, and every other pitch is as it was.
pub proof fn lemma_notes_on_then_off<V>(m: Map<u8, V>, first: u8, v1: V, second: u8, v2: V)
    requires
        first != second,
    ensures
        m.insert(first, v1).insert(second, v2).dom() == m.dom().insert(first).insert(second),
        m.insert(first, v1).insert(second, v2)[first] == v1,
        m.insert(first, v1).insert(second, v2)[second] == v2,
        m.insert(first, v1).insert(second, v2).remove(first) == m.remove(first).insert(second, v2),
        !m.insert(first, v1).insert(second, v2).remove(first).contains_key(first),
        m.insert(first, v1).insert(second, v2).remove(first)[second] == v2,
{
    assert(m.insert(first, v1).insert(second, v2).dom() =~= m.dom().insert(first).insert(second));
    assert(m.insert(first, v1).insert(second, v2).remove(first) =~= m.remove(first).insert(
        second,
        v2,
    ));
}

/// At most one voice per pitch: a second note-on at a pitch replaces the
/// voice of the first.
pub proof fn lemma_one_voice_per_pitch<V>(m: Map<u8, V>, pitch: u8, v1: V, v2: V)
    ensures
        m.insert(pitch, v1).insert(pitch, v2) == m.insert(pitch, v2),
{
    assert(m.insert(pitch, v1).insert(pitch, v2) =~= m.insert(pitch, v2));
}

} // verus!
