use synth_backend::oscillators::{check_sample_rate, Oscillator, WaveTable};

fn table_of(oscillator: Oscillator, size: usize, gain: f32) -> Vec<f32> {
    (0..size)
        .map(|i| match oscillator.level_at(i, size) {
            Some(parts) => parts as f32 / size as f32 * gain,
            None => (2.0 * std::f32::consts::PI * (i as f32) / (size as f32)).sin() * gain,
        })
        .collect()
}

#[test]
fn square_wave_has_exactly_two_levels() {
    let size = 1000;
    let mut levels: Vec<i128> = (0..size)
        .map(|i| Oscillator::Square.level_at(i, size).unwrap())
        .collect();
    levels.sort();
    levels.dedup();
    assert_eq!(levels, vec![0, 1000]);
    assert_eq!(Oscillator::Square.level_at(499, size), Some(1000));
    assert_eq!(Oscillator::Square.level_at(500, size), Some(0));
}

#[test]
fn bidirectional_square_wave_has_exactly_two_levels() {
    let size = 9;
    let mut levels: Vec<i128> = (0..size)
        .map(|i| Oscillator::BidirectionalSquare.level_at(i, size).unwrap())
        .collect();
    assert_eq!(levels, vec![9, 9, 9, 9, -9, -9, -9, -9, -9]);
    levels.sort();
    levels.dedup();
    assert_eq!(levels.len(), 2);
}

#[test]
fn saw_falls_from_just_below_the_full_level_to_its_negative() {
    let levels: Vec<i128> = (0..4).map(|i| Oscillator::Saw.level_at(i, 4).unwrap()).collect();
    assert_eq!(levels, vec![2, 0, -2, -4]);
    assert_eq!(table_of(Oscillator::Saw, 4, 1.0), vec![0.5, 0.0, -0.5, -1.0]);
}

#[test]
fn triangle_rises_then_falls() {
    let levels: Vec<i128> = (0..8).map(|i| Oscillator::Triangle.level_at(i, 8).unwrap()).collect();
    assert_eq!(levels, vec![-8, -4, 0, 4, 8, 4, 0, -4]);
    assert_eq!(
        table_of(Oscillator::Triangle, 8, 0.5),
        vec![-0.5, -0.25, 0.0, 0.25, 0.5, 0.25, 0.0, -0.25]
    );
}

#[test]
fn triangle_of_odd_size_overshoots_at_the_turn() {
    let levels: Vec<i128> = (0..5).map(|i| Oscillator::Triangle.level_at(i, 5).unwrap()).collect();
    assert_eq!(levels, vec![-5, -1, 7, 3, -1]);
}

#[test]
fn sine_and_noise_have_no_exact_level() {
    assert_eq!(Oscillator::Sine.level_at(0, 16), None);
    assert_eq!(Oscillator::WhiteNoise.level_at(0, 16), None);
}

#[test]
fn no_level_outside_the_table() {
    assert_eq!(Oscillator::Saw.level_at(16, 16), None);
    assert_eq!(Oscillator::Square.level_at(0, 0), None);
    assert_eq!(Oscillator::Triangle.level_at(usize::MAX, 3), None);
}

#[test]
fn levels_of_the_largest_table_fit() {
    let size = usize::MAX;
    assert_eq!(
        Oscillator::Triangle.level_at(size - 1, size),
        Some(3 * (size as i128) - 4 * (size as i128 - 1))
    );
    assert_eq!(Oscillator::Saw.level_at(size - 1, size), Some(-(size as i128)));
}

#[test]
fn only_noise_has_no_table() {
    assert!(Oscillator::Sine.has_table());
    assert!(Oscillator::Square.has_table());
    assert!(Oscillator::BidirectionalSquare.has_table());
    assert!(Oscillator::Saw.has_table());
    assert!(Oscillator::Triangle.has_table());
    assert!(!Oscillator::WhiteNoise.has_table());
}

#[test]
fn pair_wraps_from_the_last_entry_to_the_first() {
    let table = WaveTable::new(vec![0.0f32, 0.5, 1.0, 0.5]);
    assert_eq!(table.len(), 4);
    assert_eq!(table.get_pair(0), Some((0.0, 0.5)));
    assert_eq!(table.get_pair(2), Some((1.0, 0.5)));
    assert_eq!(table.get_pair(3), Some((0.5, 0.0)));
    assert_eq!(table.get_pair(4), None);
}

#[test]
fn pair_of_a_single_entry_table_is_that_entry_twice() {
    let table = WaveTable::new(vec![7u8]);
    assert_eq!(table.get_pair(0), Some((7, 7)));
}

#[test]
fn empty_table_has_no_pair() {
    let table: WaveTable<f32> = WaveTable::new(Vec::new());
    assert_eq!(table.len(), 0);
    assert_eq!(table.get_pair(0), None);
}

#[test]
fn sine_table_has_the_rms_of_a_sine() {
    let size = 4096;
    let gain = 0.8;
    let table = WaveTable::new(table_of(Oscillator::Sine, size, gain));
    let mut sum = 0.0f64;
    for i in 0..size {
        let (at, _) = table.get_pair(i).unwrap();
        sum += (at as f64) * (at as f64);
    }
    let rms = (sum / size as f64).sqrt();
    assert!((rms - gain as f64 / 2.0f64.sqrt()).abs() < 1e-4);
}

#[test]
fn sine_voice_at_concert_pitch_is_periodic() {
    let sample_rate = 44100usize;
    let size = 44100usize;
    let table = WaveTable::new(table_of(Oscillator::Sine, size, 1.0));
    let increment = 440.0f32 * size as f32 / sample_rate as f32;
    let mut index = 0.0f32;
    let mut samples = Vec::new();
    for _ in 0..2206 {
        let whole = index.trunc() as usize;
        let frac = index - whole as f32;
        let (at, next) = table.get_pair(whole).unwrap();
        samples.push((1.0 - frac) * at + frac * next);
        index = (index + increment) % size as f32;
    }
    assert_eq!(samples[0], 0.0);
    assert!((samples[100] - samples[0]).abs() < 0.02);
    assert!(samples[25] > 0.99);
    assert!((samples[2205] - samples[0]).abs() < 1e-6);
}

#[test]
fn oscillators_of_one_rate_go_together() {
    assert_eq!(check_sample_rate(44100, 44100), Ok(()));
    assert_eq!(check_sample_rate(0, 0), Ok(()));
}

#[test]
fn oscillator_of_another_rate_is_turned_away() {
    assert_eq!(
        check_sample_rate(44100, 48000),
        Err("Sample rate must be the same!".to_string())
    );
}
