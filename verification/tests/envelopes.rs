use synth_backend::envelopes::{Envelope, EnvelopeParam, EnvelopeStage};

fn level(stage: EnvelopeStage, sustain: f32) -> f32 {
    match stage {
        EnvelopeStage::Attack { step, attack_steps } => step as f32 / attack_steps as f32,
        EnvelopeStage::Decay { elapsed, decay_steps } => {
            1.0 - (1.0 - sustain) * (elapsed as f32 / decay_steps as f32)
        }
        EnvelopeStage::Sustain => sustain,
    }
}

#[test]
fn new_envelope_stands_at_step_zero() {
    let envelope = Envelope::new(4410, 8820, 13230);
    assert_eq!(envelope.current_step(), 0);
    assert_eq!(envelope.attack_step(), 4410);
    assert_eq!(envelope.decay_step(), 8820);
    assert_eq!(envelope.release_step(), 13230);
}

#[test]
fn stages_follow_the_step_count() {
    let mut envelope = Envelope::new(3, 2, 0);
    assert_eq!(envelope.next_stage(), EnvelopeStage::Attack { step: 1, attack_steps: 3 });
    assert_eq!(envelope.next_stage(), EnvelopeStage::Attack { step: 2, attack_steps: 3 });
    assert_eq!(envelope.next_stage(), EnvelopeStage::Decay { elapsed: 0, decay_steps: 2 });
    assert_eq!(envelope.next_stage(), EnvelopeStage::Decay { elapsed: 1, decay_steps: 2 });
    assert_eq!(envelope.next_stage(), EnvelopeStage::Sustain);
    assert_eq!(envelope.next_stage(), EnvelopeStage::Sustain);
    assert_eq!(envelope.current_step(), 6);
}

#[test]
fn attack_ends_at_full_level() {
    let attack_steps = 441;
    let sustain = 0.5;
    let mut envelope = Envelope::new(attack_steps, 100, 0);
    let mut last = 0.0;
    for _ in 0..attack_steps {
        last = level(envelope.next_stage(), sustain);
    }
    assert_eq!(last, 1.0);
}

#[test]
fn level_just_before_the_end_of_the_attack() {
    let mut envelope = Envelope::new(4, 4, 0);
    envelope.next_stage();
    envelope.next_stage();
    let stage = envelope.next_stage();
    assert_eq!(level(stage, 0.25), 0.75);
}

#[test]
fn decay_falls_towards_the_sustain_level() {
    let mut envelope = Envelope::new(2, 4, 0);
    envelope.next_stage();
    envelope.next_stage();
    let stage = envelope.next_stage();
    assert_eq!(stage, EnvelopeStage::Decay { elapsed: 1, decay_steps: 4 });
    assert_eq!(level(stage, 0.5), 0.875);
}

#[test]
fn sustain_level_is_reached_and_kept() {
    let sustain = 0.3;
    let mut envelope = Envelope::new(10, 20, 5);
    for _ in 0..29 {
        assert_ne!(envelope.next_stage(), EnvelopeStage::Sustain);
    }
    for _ in 0..1000 {
        let stage = envelope.next_stage();
        assert_eq!(stage, EnvelopeStage::Sustain);
        assert_eq!(level(stage, sustain), sustain);
    }
}

#[test]
fn envelope_without_attack_and_decay_sustains_at_once() {
    let mut envelope = Envelope::new(0, 0, 0);
    assert_eq!(envelope.next_stage(), EnvelopeStage::Sustain);
}

#[test]
fn envelope_without_decay_goes_from_attack_to_sustain() {
    let mut envelope = Envelope::new(2, 0, 0);
    assert_eq!(envelope.next_stage(), EnvelopeStage::Attack { step: 1, attack_steps: 2 });
    assert_eq!(envelope.next_stage(), EnvelopeStage::Sustain);
}

#[test]
fn reset_restarts_the_attack() {
    let mut envelope = Envelope::new(2, 2, 0);
    for _ in 0..10 {
        envelope.next_stage();
    }
    envelope.reset();
    assert_eq!(envelope.current_step(), 0);
    assert_eq!(envelope.attack_step(), 2);
    assert_eq!(envelope.next_stage(), EnvelopeStage::Attack { step: 1, attack_steps: 2 });
}

#[test]
fn set_param_changes_one_stage_length() {
    let mut envelope = Envelope::new(1, 2, 3);
    envelope.set_param(EnvelopeParam::AttackMs, 10);
    assert_eq!((envelope.attack_step(), envelope.decay_step(), envelope.release_step()), (10, 2, 3));
    envelope.set_param(EnvelopeParam::DecayMs, 20);
    assert_eq!((envelope.attack_step(), envelope.decay_step(), envelope.release_step()), (10, 20, 3));
    envelope.set_param(EnvelopeParam::ReleaseMs, 30);
    assert_eq!((envelope.attack_step(), envelope.decay_step(), envelope.release_step()), (10, 20, 30));
    envelope.set_param(EnvelopeParam::SustainPercentage, 40);
    assert_eq!((envelope.attack_step(), envelope.decay_step(), envelope.release_step()), (10, 20, 30));
    assert_eq!(envelope.current_step(), 0);
}

#[test]
fn set_param_takes_effect_while_running() {
    let mut envelope = Envelope::new(2, 2, 0);
    for _ in 0..4 {
        envelope.next_stage();
    }
    envelope.set_param(EnvelopeParam::AttackMs, 10);
    assert_eq!(envelope.next_stage(), EnvelopeStage::Attack { step: 5, attack_steps: 10 });
}

#[test]
fn stage_lengths_beyond_the_counter_do_not_overflow() {
    let mut envelope = Envelope::new(usize::MAX, usize::MAX, 0);
    assert_eq!(
        envelope.next_stage(),
        EnvelopeStage::Attack { step: 1, attack_steps: usize::MAX }
    );
}
