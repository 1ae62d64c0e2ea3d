//! The delay line behind a vibrato.
//!
//! A low-frequency oscillator either scales the amplitude of its input or
//! bends its pitch. To bend the pitch it reads the input back from a delay
//! line at a distance that swings around the width of the vibrato. The line
//! is a ring buffer that is kept full: each new sample pushes the oldest one
//! out, so the distance between the newest and the oldest sample never
//! changes.

use crate::ring_buffer::{is_default, lemma_pop_push_slides, lemma_push_appends, RingBuffer};
use vstd::prelude::*;

verus! {

/// What a low-frequency oscillator modulates.
#[derive(Clone, Copy, Debug, PartialEq, Eq)]
pub enum LFOType {
    /// The amplitude of the input.
    Amplitude,
    /// The pitch of the input.
    Frequency,
}

/// Number of samples that the delay line of a vibrato of `width` samples
/// holds: the swing of one width to either side of the middle tap, a width
/// of margin, and a sample at either end.
pub open spec fn delay_line_size(width: nat) -> nat {
    2 + 3 * width
}

/// The largest whole distance from the oldest sample at which a vibrato of
/// `width` samples reads, reached when the modulator stands at its peak.
pub open spec fn max_read_offset(width: nat) -> nat {
    1 + 2 * width
}

/// Size of the delay line of a vibrato of `width_sample` samples, or `None`
/// where the size is more than a machine can address.
pub fn delay_line_capacity(width_sample: usize) -> (capacity: Option<usize>)
    ensures
        capacity is Some <==> delay_line_size(width_sample as nat) <= usize::MAX,
        capacity matches Some(n) ==> n == delay_line_size(width_sample as nat),
{
    match width_sample.checked_mul(3) {
        Some(swing) => swing.checked_add(2),
        None => None,
    }
}

/// A delay line that is always full.
#[derive(Debug)]
pub struct DelayLine<T> {
    line: RingBuffer<T>,
}

impl<T> View for DelayLine<T> {
    type V = Seq<T>;

    /// The samples in the line, oldest first.
    closed spec fn view(&self) -> Seq<T> {
        self.line@.contents()
    }
}

impl<T> DelayLine<T> {
    /// The line is full and holds at least its two end samples.
    #[verifier::type_invariant]
    spec fn inv(self) -> bool {
        &&& self.line@.wf()
        &&& self.line@.is_full()
        &&& self.line@.capacity() >= 2
    }
}

impl<T: Copy> Clone for DelayLine<T> {
    /// A line that holds the same samples.
    fn clone(&self) -> (copy: Self)
        ensures
            copy@ == self@,
    {
        proof {
            use_type_invariant(self);
        }
        DelayLine { line: self.line.clone() }
    }
}

/// Drops the oldest item of a full buffer and queues `input` behind the
/// others.
fn slide<T: Copy + Default>(line: &mut RingBuffer<T>, input: T)
    requires
        old(line)@.wf(),
        old(line)@.is_full(),
        old(line)@.capacity() >= 2,
    ensures
        final(line)@.wf(),
        final(line)@.is_full(),
        final(line)@.capacity() == old(line)@.capacity(),
        final(line)@.contents() == old(line)@.contents().drop_first().push(input),
    no_unwind
{
    proof {
        lemma_pop_push_slides(line@, input);
    }
    let _ = line.pop();
    line.push(input);
}

/// Fills an empty buffer up with default values.
fn fill<T: Copy + Default>(line: &mut RingBuffer<T>)
    requires
        old(line)@.is_empty(),
    ensures
        final(line)@.wf(),
        final(line)@.is_full(),
        final(line)@.capacity() == old(line)@.capacity(),
        forall|i: int|
            0 <= i < final(line)@.capacity() ==> is_default(#[trigger] final(line)@.contents()[i]),
{
    let capacity = line.capacity();
    let zero = T::default();
    let mut i: usize = line.len();
    while i < capacity
        invariant
            i <= capacity,
            capacity == line@.capacity(),
            line@.wf(),
            line@.len() == i,
            is_default(zero),
            forall|j: int| 0 <= j < i ==> is_default(#[trigger] line@.contents()[j]),
        decreases capacity - i,
    {
        proof {
            lemma_push_appends(line@, zero);
        }
        line.push(zero);
        i += 1;
    }
}

impl<T: Copy + Default> DelayLine<T> {
    /// The delay line of a vibrato of `width_sample` samples, full of
    /// silence. `None` where a line of that size cannot be addressed.
    pub fn new(width_sample: usize) -> (line: Option<Self>)
        ensures
            line is Some <==> delay_line_size(width_sample as nat) <= usize::MAX,
            line matches Some(l) ==> {
                &&& l@.len() == delay_line_size(width_sample as nat)
                &&& forall|i: int| 0 <= i < l@.len() ==> is_default(#[trigger] l@[i])
            },
    {
        match delay_line_capacity(width_sample) {
            Some(capacity) => {
                let mut line = RingBuffer::new(capacity);
                fill(&mut line);
                Some(DelayLine { line })
            },
            None => None,
        }
    }

    /// Number of samples in the line.
    pub fn len(&self) -> (n: usize)
        ensures
            n == self@.len(),
            n >= 2,
    {
        proof {
            use_type_invariant(self);
        }
        self.line.capacity()
    }

    /// Takes `input` in as the newest sample and drops the oldest one.
    pub fn feed(&mut self, input: T)
        ensures
            final(self)@ == old(self)@.drop_first().push(input),
            final(self)@.len() == old(self)@.len(),
    {
        proof {
            use_type_invariant(&*self);
        }
        slide(&mut self.line, input);
    }

    /// The samples `offset` and `offset + 1` places after the oldest one,
    /// between which a read at a fractional distance falls; `None` where the
    /// second of them would lie past the newest sample.
    pub fn get_taps(&self, offset: usize) -> (taps: Option<(T, T)>)
        ensures
            taps is Some <==> offset + 1 < self@.len(),
            taps matches Some((near, far)) ==> near == self@[offset as int] && far == self@[offset
                + 1],
    {
        self.line.get_taps(offset)
    }

    /// Puts silence in place of every sample.
    pub fn reset(&mut self)
        ensures
            final(self)@.len() == old(self)@.len(),
            forall|i: int| 0 <= i < final(self)@.len() ==> is_default(#[trigger] final(self)@[i]),
    {
        let mut line = RingBuffer::new(self.len());
        fill(&mut line);
        self.line = line;
    }
}

/// The line of a vibrato serves every distance at which the vibrato reads:
/// with a width of at least one sample, the largest read offset still has a
/// sample behind it in a line of the size made for that width.
pub proof fn lemma_delay_line_serves_the_swing(width: nat, offset: nat)
    requires
        width >= 1,
        offset <= max_read_offset(width),
    ensures
        offset + 1 < delay_line_size(width),
{
}

} // verus!
