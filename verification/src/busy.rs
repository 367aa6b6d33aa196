//! An instrument that does nothing but take its time.

use crate::entity::{Entity, MidiEvent, WorkEvent};
use crate::sample::StereoSample;
use crate::types::{ControlIndex, ControlValue, MidiChannel, MidiMessage, TimeRange, Uid};
use vstd::prelude::*;

verus! {

/// How far a [`BusyWaiter`] counts each time it is asked for audio.
pub const BUSY_STEPS: u64 = 100000;

/// Spends a while counting whenever it is asked for audio, leaves the batch as
/// it was, and says that it is sounding.
#[derive(Clone, Copy, Debug, PartialEq, Eq, Structural)]
pub struct BusyWaiter {
    pub uid: Uid,
}

/// The sum of the numbers up to `n`.
pub open spec fn triangle(n: nat) -> nat
    decreases n,
{
    if n == 0 {
        0
    } else {
        n + triangle((n - 1) as nat)
    }
}

/// The sum of the numbers up to `n` is half of `n * (n + 1)`.
pub proof fn lemma_triangle(n: nat)
    ensures
        2 * triangle(n) == n * (n + 1),
    decreases n,
{
    if n > 0 {
        lemma_triangle((n - 1) as nat);
        assert(2 * (n + triangle((n - 1) as nat)) == n * (n + 1)) by (nonlinear_arith)
            requires
                2 * triangle((n - 1) as nat) == (n - 1) * n,
        ;
    } else {
        assert(n * (n + 1) == 0) by (nonlinear_arith)
            requires
                n == 0,
        ;
    }
}

impl BusyWaiter {
    /// The instrument, with the identifier zero.
    pub fn new() -> (entity: Self)
        ensures
            entity == (BusyWaiter { uid: Uid(0) }),
    {
        BusyWaiter { uid: Uid(0) }
    }

    /// Adds up the numbers up to [`BUSY_STEPS`].
    pub fn keep_busy() -> (sum: u64)
        ensures
            sum == triangle(BUSY_STEPS as nat),
    {
        let mut sum: u64 = 0;
        let mut i: u64 = 0;
        while i < BUSY_STEPS
            invariant
                i <= BUSY_STEPS,
                sum == triangle(i as nat),
            decreases BUSY_STEPS - i,
        {
            proof {
                lemma_triangle(i as nat);
                assert(i * (i + 1) <= 100000 * 100001) by (nonlinear_arith)
                    requires
                        i <= 100000,
                ;
            }
            i += 1;
            sum = sum + i;
        }
        sum
    }
}

impl Entity for BusyWaiter {
    /// Takes no notice of MIDI.
    fn handle_midi_message(&mut self, channel: MidiChannel, message: MidiMessage) -> (emitted: Vec<
        MidiEvent,
    >)
        ensures
            *final(self) == *old(self),
            emitted@ == Seq::<MidiEvent>::empty(),
    {
        Vec::new()
    }

    /// Has no parameter to set.
    fn control_set_param_by_index(&mut self, index: ControlIndex, value: ControlValue)
        ensures
            *final(self) == *old(self),
    {
    }

    /// Has no timed work to do.
    fn work(&mut self, range: TimeRange) -> (events: Vec<WorkEvent>)
        ensures
            *final(self) == *old(self),
            events@ == Seq::<WorkEvent>::empty(),
    {
        Vec::new()
    }

    /// Takes its time, leaves the batch silent, and says that it sounds.
    fn generate(&mut self, values: &mut Vec<StereoSample>) -> (active: bool)
        ensures
            *final(self) == *old(self),
            final(values)@ == old(values)@,
            active,
    {
        let _ = Self::keep_busy();
        true
    }

    /// Leaves the batch as it is.
    fn transform(&mut self, samples: &mut Vec<StereoSample>)
        ensures
            *final(self) == *old(self),
            final(samples)@ == old(samples)@,
    {
    }
}

} // verus!
