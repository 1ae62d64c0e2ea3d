use rand::random;
use std::collections::HashMap;
use synth_backend::utils::{
    decrease_octave, increase_octave, midi_cents_to_offset, midi_to_semitones,
};

fn midi_to_hz(midi: u8) -> Result<f32, String> {
    let semitones = midi_to_semitones(midi)?;
    Ok(f32::powf(2.0, semitones as f32 / 12.0) * 440.0)
}

fn midi_cents_to_hz(midi: u8, cents_dev: i8) -> Result<f32, String> {
    let cents = midi_cents_to_offset(midi, cents_dev)?;
    Ok(f32::powf(2.0, cents as f32 / 1200.0) * 440.0)
}

fn is_close_f32(a: f32, b: f32) -> bool {
    (a - b).abs() <= 0.01
}

#[test]
fn lib_test_1() {
    assert!(is_close_f32(midi_to_hz(69).unwrap(), 440.0));
}

#[test]
fn lib_test_2_octave_above() {
    let value = random::<f32>();
    let random_midi: u8 = (value * 115.0).trunc() as u8;
    let random_freq = midi_to_hz(random_midi).unwrap_or_default();
    let octave_above = random_midi + 12;
    assert!(
        is_close_f32(midi_to_hz(octave_above).unwrap_or_default(), random_freq * 2.0),
        "Octave above midi value {octave_above}, does not match random_freq {random_freq} * 2"
    );
}

#[test]
fn lib_test_3_octave_below() {
    let value = random::<f32>();
    let random_midi: u8 = ((value * 115.0) + 12.0).trunc() as u8;
    let random_freq = midi_to_hz(random_midi).unwrap_or_default();
    let octave_below = random_midi - 12;
    assert!(
        is_close_f32(midi_to_hz(octave_below).unwrap_or_default(), random_freq / 2.0),
        "Octave below midi value {octave_below}, does not match random_freq {random_freq} / 2"
    );
}

#[test]
#[should_panic]
fn lib_test_4_midi_upper_bound() {
    let value = midi_to_hz(129);
    match value {
        Ok(_) => (),
        Err(err) => panic!("{}", err),
    }
}

#[test]
#[should_panic]
fn lib_test_2_lower_bound_on_cents() {
    let value = midi_cents_to_hz(20, -51);
    match value {
        Ok(_) => (),
        Err(err) => panic!("{}", err),
    }
}

#[test]
#[should_panic]
fn lib_test_3_upper_bound_on_cents() {
    let value = midi_cents_to_hz(20, 51);
    match value {
        Ok(_) => (),
        Err(err) => panic!("{}", err),
    }
}

#[test]
fn concert_pitch_without_deviation() {
    assert!(is_close_f32(midi_cents_to_hz(69, 0).unwrap_or_default(), 440.0));
}

#[test]
fn every_octave_doubles_the_frequency() {
    assert_eq!(midi_to_hz(69), Ok(440.0));
    for pitch in 0..=115u8 {
        let low = midi_to_hz(pitch).unwrap();
        let high = midi_to_hz(pitch + 12).unwrap();
        assert!((high - 2.0 * low).abs() <= 0.01, "pitch {pitch}: {low} and {high}");
        assert_eq!(
            midi_to_semitones(pitch + 12).unwrap(),
            midi_to_semitones(pitch).unwrap() + 12
        );
    }
}

#[test]
fn semitones_are_counted_from_the_reference_note() {
    assert_eq!(midi_to_semitones(69), Ok(0));
    assert_eq!(midi_to_semitones(0), Ok(-69));
    assert_eq!(midi_to_semitones(60), Ok(-9));
    assert_eq!(midi_to_semitones(127), Ok(58));
}

#[test]
fn numbers_from_128_on_are_no_notes() {
    for midi in 128..=255u8 {
        assert_eq!(midi_to_semitones(midi), Err("MIDI must range between 0-128".to_string()));
    }
}

#[test]
fn cents_add_to_the_semitones() {
    assert_eq!(midi_cents_to_offset(69, 0), Ok(0));
    assert_eq!(midi_cents_to_offset(70, -50), Ok(50));
    assert_eq!(midi_cents_to_offset(0, -50), Ok(-6950));
    assert_eq!(midi_cents_to_offset(127, 50), Ok(5850));
    assert_eq!(midi_cents_to_offset(20, 7), Ok(-4893));
}

#[test]
fn deviation_of_more_than_half_a_semitone_is_an_error() {
    let message = "Cents deviation must be between -50 and 50".to_string();
    assert_eq!(midi_cents_to_offset(20, -51), Err(message.clone()));
    assert_eq!(midi_cents_to_offset(20, 51), Err(message.clone()));
    assert_eq!(midi_cents_to_offset(20, i8::MIN), Err(message.clone()));
    assert_eq!(midi_cents_to_offset(200, 127), Err(message));
}

#[test]
fn note_out_of_range_with_a_fair_deviation_is_an_error() {
    assert_eq!(
        midi_cents_to_offset(129, 0),
        Err("MIDI must range between 0-128".to_string())
    );
    assert_eq!(
        midi_cents_to_offset(128, 50),
        Err("MIDI must range between 0-128".to_string())
    );
}

#[test]
fn octave_up_raises_every_pitch_by_twelve() {
    let mut keys: HashMap<u32, u8> =
        HashMap::from([('A' as u32, 60), ('W' as u32, 61), ('K' as u32, 72)]);
    increase_octave(&mut keys);
    assert_eq!(keys, HashMap::from([('A' as u32, 72), ('W' as u32, 73), ('K' as u32, 84)]));
}

#[test]
fn octave_down_lowers_every_pitch_by_twelve() {
    let mut keys: HashMap<u32, u8> =
        HashMap::from([('A' as u32, 60), ('W' as u32, 61), ('K' as u32, 72)]);
    decrease_octave(&mut keys);
    assert_eq!(keys, HashMap::from([('A' as u32, 48), ('W' as u32, 49), ('K' as u32, 60)]));
}

#[test]
fn octave_up_then_down_is_where_it_started() {
    let start: HashMap<u32, u8> = (0..13).map(|i| (i as u32, 60 + i as u8)).collect();
    let mut keys = start.clone();
    increase_octave(&mut keys);
    assert_ne!(keys, start);
    decrease_octave(&mut keys);
    assert_eq!(keys, start);
    decrease_octave(&mut keys);
    increase_octave(&mut keys);
    assert_eq!(keys, start);
}

#[test]
fn octave_shift_reaches_the_ends_of_the_byte() {
    let mut keys: HashMap<u32, u8> = HashMap::from([(0, 243), (1, 0)]);
    increase_octave(&mut keys);
    assert_eq!(keys, HashMap::from([(0, 255), (1, 12)]));
    decrease_octave(&mut keys);
    assert_eq!(keys, HashMap::from([(0, 243), (1, 0)]));
}

#[test]
fn octave_shift_of_an_empty_map_is_empty() {
    let mut keys: HashMap<u32, u8> = HashMap::new();
    increase_octave(&mut keys);
    decrease_octave(&mut keys);
    assert!(keys.is_empty());
}
