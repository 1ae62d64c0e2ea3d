//! Pitch arithmetic on note numbers, and the octave shift of a key map.
//!
//! A key map gives the note that each key of a keyboard plays. Its keys are
//! the code points of the characters on the keys.

use std::collections::HashMap;
use vstd::prelude::*;
use vstd::std_specs::hash::spec_keys_iter;
use vstd::std_specs::iter::IteratorSpec;

verus! {

broadcast use vstd::std_specs::hash::group_hash_axioms;

/// Semitones in an octave.
pub const OCTAVE: u8 = 12;

/// The note number of the reference pitch, the A above middle C.
pub const REFERENCE_NOTE: u8 = 69;

/// Note numbers run from 0 up to, and not including, this one.
pub const NOTE_LIMIT: u8 = 128;

/// Cents in a semitone.
pub const CENTS_PER_SEMITONE: i16 = 100;

/// The largest deviation from a note, in cents, in either direction.
pub const MAX_CENTS_DEVIATION: i8 = 50;

/// Distance of note `midi` from the reference pitch in semitones. Each
/// twelve of them double the frequency.
pub open spec fn semitones_from_reference(midi: u8) -> int {
    midi - REFERENCE_NOTE
}

/// Distance from the reference pitch, in cents, of the pitch that lies
/// `cents_dev` cents off note `midi`.
pub open spec fn cents_from_reference(midi: u8, cents_dev: i8) -> int {
    semitones_from_reference(midi) * CENTS_PER_SEMITONE + cents_dev
}

/// The distance of note `midi` from the reference pitch in semitones, or an
/// error for a number that is no note.
pub fn midi_to_semitones(midi: u8) -> (r: Result<i8, String>)
    ensures
        match r {
            Ok(semitones) => midi < NOTE_LIMIT && semitones == semitones_from_reference(midi),
            Err(e) => midi >= NOTE_LIMIT && e@ == "MIDI must range between 0-128"@,
        },
{
    if midi >= NOTE_LIMIT {
        return Err("MIDI must range between 0-128".to_owned());
    }
    if midi >= REFERENCE_NOTE {
        Ok((midi - REFERENCE_NOTE) as i8)
    } else {
        Ok(-((REFERENCE_NOTE - midi) as i8))
    }
}

/// The distance from the reference pitch, in cents, of the pitch that lies
/// `cents_dev` cents off note `midi`. A deviation of more than half a
/// semitone is an error, and so is a number that is no note; the deviation
/// is looked at first.
pub fn midi_cents_to_offset(midi: u8, cents_dev: i8) -> (r: Result<i16, String>)
    ensures
        match r {
            Ok(cents) => {
                &&& -MAX_CENTS_DEVIATION <= cents_dev <= MAX_CENTS_DEVIATION
                &&& midi < NOTE_LIMIT
                &&& cents == cents_from_reference(midi, cents_dev)
            },
            Err(e) => if cents_dev < -MAX_CENTS_DEVIATION || cents_dev > MAX_CENTS_DEVIATION {
                e@ == "Cents deviation must be between -50 and 50"@
            } else {
                midi >= NOTE_LIMIT && e@ == "MIDI must range between 0-128"@
            },
        },
{
    if cents_dev < -MAX_CENTS_DEVIATION || cents_dev > MAX_CENTS_DEVIATION {
        return Err("Cents deviation must be between -50 and 50".to_owned());
    }
    match midi_to_semitones(midi) {
        Ok(semitones) => {
            let semitones: i16 = semitones as i16;
            Ok(semitones * CENTS_PER_SEMITONE + cents_dev as i16)
        },
        Err(e) => Err(e),
    }
}

/// An octave up is twelve semitones up: the note an octave above a note
/// lies twelve semitones further from the reference pitch.
pub proof fn lemma_octave_is_twelve_semitones(midi: u8)
    requires
        midi + OCTAVE < NOTE_LIMIT,
    ensures
        semitones_from_reference((midi + OCTAVE) as u8) == semitones_from_reference(midi) + 12,
        semitones_from_reference(REFERENCE_NOTE) == 0,
{
}

/// The keys of `map`, each once, in the order in which the map hands them
/// out.
fn collect_keys(map: &HashMap<u32, u8>) -> (keys: Vec<u32>)
    ensures
        keys@.no_duplicates(),
        keys@.to_set() == map@.dom(),
{
    let mut keys: Vec<u32> = Vec::new();
    let ghost all = spec_keys_iter(map).remaining();
    for k in it: map.keys()
        invariant
            it.seq() == all,
            keys@.len() == it.index(),
            forall|j: int| 0 <= j < keys@.len() ==> keys@[j] == *all[j],
    {
        keys.push(*k);
    }
    assert(keys@ =~= all.unref());
    keys
}

/// `after` holds the keys of `before`, each with its pitch moved by
/// `semitones`.
pub open spec fn is_shifted(before: Map<u32, u8>, after: Map<u32, u8>, semitones: int) -> bool {
    &&& after.dom() == before.dom()
    &&& forall|k: u32| #[trigger] before.contains_key(k) ==> after[k] == before[k] + semitones
}

/// Every pitch of `map` stays within a byte when moved by `semitones`.
pub open spec fn can_shift(map: Map<u32, u8>, semitones: int) -> bool {
    forall|k: u32| #[trigger] map.contains_key(k) ==> 0 <= map[k] + semitones <= u8::MAX
}

/// Moves every pitch of `midi_map` by `semitones`, up or down.
fn shift_pitches(midi_map: &mut HashMap<u32, u8>, semitones: i16)
    requires
        can_shift(old(midi_map)@, semitones as int),
    ensures
        is_shifted(old(midi_map)@, final(midi_map)@, semitones as int),
{
    let keys = collect_keys(midi_map);
    let mut i: usize = 0;
    while i < keys.len()
        invariant
            i <= keys.len(),
            keys@.no_duplicates(),
            keys@.to_set() == old(midi_map)@.dom(),
            midi_map@.dom() == old(midi_map)@.dom(),
            can_shift(old(midi_map)@, semitones as int),
            forall|j: int|
                0 <= j < i ==> midi_map@[#[trigger] keys@[j]] == old(midi_map)@[keys@[j]]
                    + semitones,
            forall|j: int|
                i <= j < keys.len() ==> midi_map@[#[trigger] keys@[j]] == old(midi_map)@[keys@[j]],
        decreases keys.len() - i,
    {
        let k = keys[i];
        assert(keys@.to_set().contains(keys@[i as int]));
        let pitch = match midi_map.get(&k) {
            Some(pitch) => *pitch,
            None => 0,
        };
        let shifted = (pitch as i16 + semitones) as u8;
        let _ = midi_map.insert(k, shifted);
        assert(midi_map@.dom() =~= old(midi_map)@.dom());
        i += 1;
    }
    assert forall|k: u32| #[trigger] old(midi_map)@.contains_key(k) implies midi_map@[k] == old(
        midi_map,
    )@[k] + semitones by {
        assert(keys@.to_set().contains(k));
        let j = choose|j: int| 0 <= j < keys@.len() && keys@[j] == k;
        assert(midi_map@[keys@[j]] == old(midi_map)@[keys@[j]] + semitones);
    }
}

/// Moves every pitch of the key map up by an octave. No pitch may leave the
/// range of a byte by it.
pub fn increase_octave(midi_map: &mut HashMap<u32, u8>)
    requires
        can_shift(old(midi_map)@, OCTAVE as int),
    ensures
        is_shifted(old(midi_map)@, final(midi_map)@, OCTAVE as int),
{
    shift_pitches(midi_map, 12);
}

/// Moves every pitch of the key map down by an octave. No pitch may lie in
/// the lowest octave.
pub fn decrease_octave(midi_map: &mut HashMap<u32, u8>)
    requires
        can_shift(old(midi_map)@, -OCTAVE),
    ensures
        is_shifted(old(midi_map)@, final(midi_map)@, -OCTAVE),
{
    shift_pitches(midi_map, -12);
}

/// A shift and the shift back give every key the pitch it had: up an
/// octave and down again, or down and up again.
pub proof fn lemma_shifts_cancel(
    before: Map<u32, u8>,
    between: Map<u32, u8>,
    after: Map<u32, u8>,
    semitones: int,
)
    requires
        is_shifted(before, between, semitones),
        is_shifted(between, after, -semitones),
    ensures
        after == before,
{
    assert(after =~= before);
}

/// A key map that was moved up by an octave can be moved down again, and
/// the other way round.
pub proof fn lemma_shift_can_be_undone(before: Map<u32, u8>, after: Map<u32, u8>, semitones: int)
    requires
        is_shifted(before, after, semitones),
    ensures
        can_shift(after, -semitones),
{
}

} // verus!
