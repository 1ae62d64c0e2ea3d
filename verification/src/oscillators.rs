//! Waveforms and the layout of a wavetable.
//!
//! A wavetable holds one period of a waveform. The piecewise-linear shapes
//! are given here exactly, as a whole number of `1 / size` parts of the full
//! level at each position of a table of `size` entries; the caller turns that
//! into a sample and scales it by the gain. Reading a table between two
//! positions takes the entry at the position and the next one, which for the
//! last entry is the first: the period closes on itself.

use vstd::arithmetic::div_mod::{lemma_mod_self_0, lemma_small_mod};
use vstd::prelude::*;

verus! {

/// The waveforms an oscillator can produce.
#[derive(Clone, Copy, Debug, PartialEq, Eq)]
pub enum Oscillator {
    /// Sine wave.
    Sine,
    /// Square wave between the full level and zero.
    Square,
    /// Square wave between the full level and its negative.
    BidirectionalSquare,
    /// Falling sawtooth wave.
    Saw,
    /// Triangle wave.
    Triangle,
    /// White noise, drawn anew for every sample.
    WhiteNoise,
}

/// The level of `oscillator` at position `i` of a table of `size` entries,
/// in parts of `1 / size` of the full level. `None` for the waveforms that
/// are no piecewise-linear function of the position.
pub open spec fn shape_level(oscillator: Oscillator, i: int, size: int) -> Option<int> {
    match oscillator {
        Oscillator::Sine => None,
        Oscillator::Square => Some(
            if i < size / 2 {
                size
            } else {
                0
            },
        ),
        Oscillator::BidirectionalSquare => Some(
            if i < size / 2 {
                size
            } else {
                -size
            },
        ),
        Oscillator::Saw => Some(size - 2 * (i + 1)),
        Oscillator::Triangle => Some(
            if i < size / 2 {
                4 * i - size
            } else {
                3 * size - 4 * i
            },
        ),
        Oscillator::WhiteNoise => None,
    }
}

impl Oscillator {
    /// Whether the waveform is read from a table. White noise is not.
    pub fn has_table(&self) -> (tabled: bool)
        ensures
            tabled <==> *self != Oscillator::WhiteNoise,
    {
        match self {
            Oscillator::WhiteNoise => false,
            _ => true,
        }
    }

    /// The exact level of the waveform at position `i` of a table of `size`
    /// entries, in parts of `1 / size` of the full level. `None` for a
    /// position outside the table, and for the sine and the noise, which
    /// have no such level.
    pub fn level_at(&self, i: usize, size: usize) -> (level: Option<i128>)
        ensures
            i >= size ==> level is None,
            i < size ==> match shape_level(*self, i as int, size as int) {
                Some(parts) => level == Some(parts as i128) && parts as i128 == parts,
                None => level is None,
            },
    {
        if i >= size {
            return None;
        }
        let at: i128 = i as i128;
        let n: i128 = size as i128;
        let first_half = i < size / 2;
        match self {
            Oscillator::Sine => None,
            Oscillator::Square => Some(
                if first_half {
                    n
                } else {
                    0
                },
            ),
            Oscillator::BidirectionalSquare => Some(
                if first_half {
                    n
                } else {
                    -n
                },
            ),
            Oscillator::Saw => Some(n - 2 * (at + 1)),
            Oscillator::Triangle => Some(
                if first_half {
                    4 * at - n
                } else {
                    3 * n - 4 * at
                },
            ),
            Oscillator::WhiteNoise => None,
        }
    }
}

/// A square wave has exactly two levels: every position of the table holds
/// the full level or zero, the first position holds the full level and the
/// last holds zero.
pub proof fn lemma_square_has_two_levels(size: int)
    requires
        size >= 2,
    ensures
        forall|i: int|
            0 <= i < size ==> #[trigger] shape_level(Oscillator::Square, i, size) == Some(size)
                || shape_level(Oscillator::Square, i, size) == Some(0int),
        shape_level(Oscillator::Square, 0, size) == Some(size),
        shape_level(Oscillator::Square, size - 1, size) == Some(0int),
{
}

/// A bidirectional square wave has exactly two levels: the full level over
/// the first half of the table and its negative over the rest.
pub proof fn lemma_bidirectional_square_has_two_levels(size: int)
    requires
        size >= 2,
    ensures
        forall|i: int|
            0 <= i < size ==> #[trigger] shape_level(Oscillator::BidirectionalSquare, i, size)
                == Some(size) || shape_level(Oscillator::BidirectionalSquare, i, size) == Some(
                -size,
            ),
        shape_level(Oscillator::BidirectionalSquare, 0, size) == Some(size),
        shape_level(Oscillator::BidirectionalSquare, size - 1, size) == Some(-size),
{
}

/// The sawtooth falls by two parts from each position to the next and stays
/// within the full level in both directions, ending on its negative.
pub proof fn lemma_saw_falls_within_full_level(i: int, size: int)
    requires
        0 <= i < size,
    ensures
        -size <= shape_level(Oscillator::Saw, i, size)->0 <= size - 2,
        i + 1 < size ==> shape_level(Oscillator::Saw, i + 1, size)->0 == shape_level(
            Oscillator::Saw,
            i,
            size,
        )->0 - 2,
        shape_level(Oscillator::Saw, size - 1, size) == Some(-size),
{
}

/// The triangle starts at the negative full level, rises by four parts a
/// position over the first half of the table and falls by four parts a
/// position over the rest. In a table of even size it stays within the full
/// level and reaches it at the middle position.
pub proof fn lemma_triangle_rises_then_falls(i: int, size: int)
    requires
        0 <= i < size,
    ensures
        size >= 2 ==> shape_level(Oscillator::Triangle, 0, size) == Some(-size),
        i + 1 < size / 2 ==> shape_level(Oscillator::Triangle, i + 1, size)->0 == shape_level(
            Oscillator::Triangle,
            i,
            size,
        )->0 + 4,
        size / 2 <= i && i + 1 < size ==> shape_level(Oscillator::Triangle, i + 1, size)->0
            == shape_level(Oscillator::Triangle, i, size)->0 - 4,
        size % 2 == 0 ==> -size <= shape_level(Oscillator::Triangle, i, size)->0 <= size,
        size % 2 == 0 ==> shape_level(Oscillator::Triangle, size / 2, size) == Some(size),
{
}

/// Oscillators sound together only at one sample rate: an oscillator whose
/// rate differs from that of the bank it is to join is turned away.
pub fn check_sample_rate(bank_rate: u32, oscillator_rate: u32) -> (r: Result<(), String>)
    ensures
        r is Ok <==> oscillator_rate == bank_rate,
        r matches Err(e) ==> e@ == "Sample rate must be the same!"@,
{
    if oscillator_rate != bank_rate {
        return Err("Sample rate must be the same!".to_owned());
    }
    Ok(())
}

/// One period of a waveform, read with wraparound.
#[derive(Debug)]
pub struct WaveTable<T> {
    samples: Vec<T>,
}

impl<T> View for WaveTable<T> {
    type V = Seq<T>;

    closed spec fn view(&self) -> Seq<T> {
        self.samples@
    }
}

impl<T: Copy> Clone for WaveTable<T> {
    /// A table with the same entries.
    fn clone(&self) -> (copy: Self)
        ensures
            copy@ == self@,
    {
        let size = self.samples.len();
        let mut samples: Vec<T> = Vec::with_capacity(size);
        let mut i: usize = 0;
        while i < size
            invariant
                i <= size,
                size == self.samples@.len(),
                samples@ == self.samples@.take(i as int),
            decreases size - i,
        {
            samples.push(self.samples[i]);
            assert(self.samples@.take(i as int).push(self.samples@[i as int])
                =~= self.samples@.take(i + 1));
            i += 1;
        }
        assert(self.samples@.take(size as int) =~= self.samples@);
        WaveTable { samples }
    }
}

impl<T: Copy> WaveTable<T> {
    /// The table that holds `samples` in their order.
    pub fn new(samples: Vec<T>) -> (table: Self)
        ensures
            table@ == samples@,
    {
        WaveTable { samples }
    }

    /// Number of entries.
    pub fn len(&self) -> (n: usize)
        ensures
            n == self@.len(),
    {
        self.samples.len()
    }

    /// The entry at `index` and the entry after it, between which a read at
    /// a fractional position falls. After the last entry comes the first.
    /// `None` for an index outside the table.
    pub fn get_pair(&self, index: usize) -> (pair: Option<(T, T)>)
        ensures
            pair is Some <==> index < self@.len(),
            pair matches Some((at, next)) ==> {
                &&& at == self@[index as int]
                &&& next == self@[(index + 1) % (self@.len() as int)]
                &&& index + 1 < self@.len() ==> next == self@[index + 1]
                &&& index + 1 == self@.len() ==> next == self@[0]
            },
    {
        let size = self.samples.len();
        if index >= size {
            return None;
        }
        let following = if index + 1 == size {
            0
        } else {
            index + 1
        };
        proof {
            if index + 1 < size {
                lemma_small_mod((index + 1) as nat, size as nat);
            } else {
                lemma_mod_self_0(size as int);
            }
        }
        Some((self.samples[index], self.samples[following]))
    }
}

} // verus!
