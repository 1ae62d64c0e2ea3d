//! The step counter of an attack / decay / sustain / release envelope.
//!
//! The envelope advances by one step per sample. From the step count and the
//! lengths of the attack and the decay it follows which stage the envelope is
//! in and how far that stage has run; the caller turns that into a level.

use vstd::prelude::*;

verus! {

/// The parameters of an envelope that can be set while it runs.
#[derive(Clone, Copy, Debug, PartialEq, Eq)]
pub enum EnvelopeParam {
    /// Attack time.
    AttackMs,
    /// Decay time.
    DecayMs,
    /// Sustain level, a fraction of the full level.
    SustainPercentage,
    /// Release time.
    ReleaseMs,
}

/// Where an envelope stands after a step, with the two integers whose
/// quotient says how far the stage has run.
#[derive(Clone, Copy, Debug, PartialEq, Eq)]
pub enum EnvelopeStage {
    /// The level rises from zero and stands at `step / attack_steps` of the
    /// full level.
    Attack { step: usize, attack_steps: usize },
    /// The level falls from the full level towards the sustain level and has
    /// covered `elapsed / decay_steps` of the way.
    Decay { elapsed: usize, decay_steps: usize },
    /// The level is the sustain level.
    Sustain,
}

/// The mathematical state of an envelope: steps taken since the last reset,
/// and the lengths of the three timed stages in steps.
pub struct EnvelopeState {
    pub step: nat,
    pub attack: nat,
    pub decay: nat,
    pub release: nat,
}

/// The stage of an envelope that has taken `step` steps.
pub open spec fn stage_at(step: nat, attack: nat, decay: nat) -> EnvelopeStage {
    if step < attack {
        EnvelopeStage::Attack { step: step as usize, attack_steps: attack as usize }
    } else if step < attack + decay {
        EnvelopeStage::Decay { elapsed: (step - attack) as usize, decay_steps: decay as usize }
    } else {
        EnvelopeStage::Sustain
    }
}

impl EnvelopeState {
    /// State one step later. The counter stops at the largest step count
    /// that a machine word holds.
    pub open spec fn tick(self) -> Self {
        EnvelopeState {
            step: if self.step < usize::MAX {
                self.step + 1
            } else {
                self.step
            },
            attack: self.attack,
            decay: self.decay,
            release: self.release,
        }
    }

    /// State `n` steps later.
    pub open spec fn tick_n(self, n: nat) -> Self
        decreases n,
    {
        if n == 0 {
            self
        } else {
            self.tick().tick_n((n - 1) as nat)
        }
    }

    pub open spec fn stage(self) -> EnvelopeStage {
        stage_at(self.step, self.attack, self.decay)
    }

    /// State with the step counter back at zero.
    pub open spec fn restarted(self) -> Self {
        EnvelopeState { step: 0, attack: self.attack, decay: self.decay, release: self.release }
    }

    /// State after `param` was set to `steps`. The sustain level is no
    /// length and leaves the state as it is.
    pub open spec fn with_param(self, param: EnvelopeParam, steps: nat) -> Self {
        match param {
            EnvelopeParam::AttackMs => EnvelopeState {
                step: self.step,
                attack: steps,
                decay: self.decay,
                release: self.release,
            },
            EnvelopeParam::DecayMs => EnvelopeState {
                step: self.step,
                attack: self.attack,
                decay: steps,
                release: self.release,
            },
            EnvelopeParam::SustainPercentage => self,
            EnvelopeParam::ReleaseMs => EnvelopeState {
                step: self.step,
                attack: self.attack,
                decay: self.decay,
                release: steps,
            },
        }
    }
}

/// The step counter of an envelope and the lengths of its stages.
#[derive(Clone, Copy, Debug)]
pub struct Envelope {
    current_step: usize,
    attack_step: usize,
    decay_step: usize,
    release_step: usize,
}

impl View for Envelope {
    type V = EnvelopeState;

    closed spec fn view(&self) -> EnvelopeState {
        EnvelopeState {
            step: self.current_step as nat,
            attack: self.attack_step as nat,
            decay: self.decay_step as nat,
            release: self.release_step as nat,
        }
    }
}

impl Envelope {
    /// An envelope at step zero with the given stage lengths in steps.
    pub fn new(attack_step: usize, decay_step: usize, release_step: usize) -> (envelope: Self)
        ensures
            envelope@ == (EnvelopeState {
                step: 0,
                attack: attack_step as nat,
                decay: decay_step as nat,
                release: release_step as nat,
            }),
    {
        Envelope { current_step: 0, attack_step, decay_step, release_step }
    }

    /// Takes one step and says which stage the envelope is in after it.
    pub fn next_stage(&mut self) -> (stage: EnvelopeStage)
        ensures
            final(self)@ == old(self)@.tick(),
            stage == final(self)@.stage(),
    {
        if self.current_step < usize::MAX {
            self.current_step += 1;
        }
        if self.current_step < self.attack_step {
            EnvelopeStage::Attack { step: self.current_step, attack_steps: self.attack_step }
        } else if self.current_step - self.attack_step < self.decay_step {
            EnvelopeStage::Decay {
                elapsed: self.current_step - self.attack_step,
                decay_steps: self.decay_step,
            }
        } else {
            EnvelopeStage::Sustain
        }
    }

    /// Puts the step counter back to zero, for a voice that is struck again.
    pub fn reset(&mut self)
        ensures
            final(self)@ == old(self)@.restarted(),
    {
        self.current_step = 0;
    }

    /// Sets the length of a timed stage to `steps`. The sustain level is no
    /// length: for it the envelope stays as it is.
    pub fn set_param(&mut self, param: EnvelopeParam, steps: usize)
        ensures
            final(self)@ == old(self)@.with_param(param, steps as nat),
    {
        match param {
            EnvelopeParam::AttackMs => {
                self.attack_step = steps;
            },
            EnvelopeParam::DecayMs => {
                self.decay_step = steps;
            },
            EnvelopeParam::SustainPercentage => {},
            EnvelopeParam::ReleaseMs => {
                self.release_step = steps;
            },
        }
    }

    pub fn current_step(&self) -> (step: usize)
        ensures
            step == self@.step,
    {
        self.current_step
    }

    pub fn attack_step(&self) -> (steps: usize)
        ensures
            steps == self@.attack,
    {
        self.attack_step
    }

    pub fn decay_step(&self) -> (steps: usize)
        ensures
            steps == self@.decay,
    {
        self.decay_step
    }

    pub fn release_step(&self) -> (steps: usize)
        ensures
            steps == self@.release,
    {
        self.release_step
    }
}

/// `n` steps move the counter on by `n`, as long as it stays within a
/// machine word, and leave the stage lengths alone.
pub proof fn lemma_tick_n(s: EnvelopeState, n: nat)
    requires
        s.step + n <= usize::MAX,
    ensures
        s.tick_n(n) == (EnvelopeState {
            step: s.step + n,
            attack: s.attack,
            decay: s.decay,
            release: s.release,
        }),
    decreases n,
{
    if n > 0 {
        lemma_tick_n(s.tick(), (n - 1) as nat);
    }
}

/// The step counter never runs backwards, and no step changes the length of
/// a stage.
pub proof fn lemma_steps_only_count_up(s: EnvelopeState, n: nat)
    ensures
        s.tick_n(n).step >= s.step,
        s.tick_n(n).attack == s.attack,
        s.tick_n(n).decay == s.decay,
        s.tick_n(n).release == s.release,
    decreases n,
{
    if n > 0 {
        lemma_steps_only_count_up(s.tick(), (n - 1) as nat);
    }
}

/// The attack ends at the full level: the step that completes the attack
/// is the first of the decay, with none of the way down covered. An
/// envelope without a decay goes to the sustain level at once.
pub proof fn lemma_attack_ends_at_full_level(s: EnvelopeState)
    requires
        s.attack <= usize::MAX,
        s.decay <= usize::MAX,
    ensures
        s.decay > 0 ==> s.restarted().tick_n(s.attack).stage() == (EnvelopeStage::Decay {
            elapsed: 0,
            decay_steps: s.decay as usize,
        }),
        s.decay == 0 ==> s.restarted().tick_n(s.attack).stage() == EnvelopeStage::Sustain,
        forall|n: nat|
            0 < n < s.attack ==> #[trigger] s.restarted().tick_n(n).stage() == (
            EnvelopeStage::Attack { step: n as usize, attack_steps: s.attack as usize }),
{
    lemma_tick_n(s.restarted(), s.attack);
    assert forall|n: nat| 0 < n < s.attack implies #[trigger] s.restarted().tick_n(n).stage() == (
    EnvelopeStage::Attack { step: n as usize, attack_steps: s.attack as usize }) by {
        lemma_tick_n(s.restarted(), n);
    }
}

/// The sustain level is reached and kept: once the attack and the decay
/// have run, every further step finds the envelope in the sustain stage.
/// The two stages together have to fit the step counter, which stops at the
/// largest count that a machine word holds.
pub proof fn lemma_sustain_is_reached(s: EnvelopeState, n: nat)
    requires
        s.attack + s.decay <= usize::MAX,
        s.attack + s.decay <= n,
    ensures
        s.restarted().tick_n(n).stage() == EnvelopeStage::Sustain,
{
    lemma_sustain_from(s.restarted(), n);
}

/// The step counter never runs backwards, so an envelope that has left the
/// attack and the decay behind stays in the sustain stage.
proof fn lemma_sustain_from(s: EnvelopeState, n: nat)
    requires
        s.attack + s.decay <= usize::MAX,
        s.attack + s.decay <= s.step + n,
    ensures
        s.tick_n(n).stage() == EnvelopeStage::Sustain,
    decreases n,
{
    if n > 0 {
        lemma_sustain_from(s.tick(), (n - 1) as nat);
    }
}

} // verus!
