//! The optional stages of a voice.
//!
//! A voice always has its oscillators; its filter and its modulator are
//! there or not. Asking for a kind of stage creates it where the voice has
//! none and changes the kind in place where it has one, so that a stage that
//! is already running keeps what it has built up; asking for none takes the
//! stage out.

use vstd::prelude::*;

verus! {

/// What is to be done with an optional stage of a voice.
#[derive(Debug, PartialEq, Eq)]
pub enum StageUpdate<K> {
    /// The stage leaves the voice.
    Remove,
    /// The voice has no such stage yet: one of this kind is made.
    Create(K),
    /// The stage the voice has is switched to this kind.
    Change(K),
}

pub open spec fn spec_stage_update<K>(requested: Option<K>, present: bool) -> StageUpdate<K> {
    match requested {
        None => StageUpdate::Remove,
        Some(kind) => if present {
            StageUpdate::Change(kind)
        } else {
            StageUpdate::Create(kind)
        },
    }
}

/// What is to be done with a stage when `requested` is asked for and the
/// voice has the stage (`present`) or has not.
#[verifier::when_used_as_spec(spec_stage_update)]
pub fn stage_update<K>(requested: Option<K>, present: bool) -> (update: StageUpdate<K>)
    ensures
        update == spec_stage_update(requested, present),
{
    match requested {
        None => StageUpdate::Remove,
        Some(kind) => if present {
            StageUpdate::Change(kind)
        } else {
            StageUpdate::Create(kind)
        },
    }
}

} // verus!
