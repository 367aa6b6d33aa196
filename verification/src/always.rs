//! An instrument that puts out the same value in every frame.

use crate::entity::{Entity, MidiEvent, WorkEvent};
use crate::sample::StereoSample;
use crate::types::{ControlIndex, ControlValue, MidiChannel, MidiMessage, TimeRange, Uid};
use vstd::prelude::*;

verus! {

/// Fills every batch with one value on both channels. It is sounding unless
/// that value is zero.
#[derive(Clone, Copy, Debug, PartialEq, Eq, Structural)]
pub struct AlwaysSame {
    pub uid: Uid,
    pub value: i32,
}

impl AlwaysSame {
    /// An instrument that puts out `value`, with the identifier zero.
    pub fn new_with(value: i32) -> (entity: Self)
        ensures
            entity == (AlwaysSame { uid: Uid(0), value }),
    {
        AlwaysSame { uid: Uid(0), value }
    }

    /// A batch of `count` frames of this instrument.
    pub open spec fn output(&self, count: nat) -> Seq<StereoSample> {
        Seq::new(count, |i: int| StereoSample { left: self.value, right: self.value })
    }
}

impl Entity for AlwaysSame {
    /// Takes no notice of MIDI.
    fn handle_midi_message(&mut self, channel: MidiChannel, message: MidiMessage) -> (emitted: Vec<
        MidiEvent,
    >)
        ensures
            *final(self) == *old(self),
            emitted@ == Seq::<MidiEvent>::empty(),
    {
        Vec::new()
    }

    /// Has no parameter to set.
    fn control_set_param_by_index(&mut self, index: ControlIndex, value: ControlValue)
        ensures
            *final(self) == *old(self),
    {
    }

    /// Has no timed work to do.
    fn work(&mut self, range: TimeRange) -> (events: Vec<WorkEvent>)
        ensures
            *final(self) == *old(self),
            events@ == Seq::<WorkEvent>::empty(),
    {
        Vec::new()
    }

    /// Fills the batch with the value of the instrument.
    fn generate(&mut self, values: &mut Vec<StereoSample>) -> (active: bool)
        ensures
            *final(self) == *old(self),
            final(values)@ == old(self).output(old(values)@.len()),
            active == (old(self).value != 0),
    {
        let mut i: usize = 0;
        while i < values.len()
            invariant
                i <= values.len(),
                values.len() == old(values).len(),
                *self == *old(self),
                forall|j: int|
                    0 <= j < i ==> values@[j] == (StereoSample {
                        left: self.value,
                        right: self.value,
                    }),
            decreases values.len() - i,
        {
            values.set(i, StereoSample { left: self.value, right: self.value });
            i += 1;
        }
        self.value != 0
    }

    /// Leaves the batch as it is.
    fn transform(&mut self, samples: &mut Vec<StereoSample>)
        ensures
            *final(self) == *old(self),
            final(samples)@ == old(samples)@,
    {
    }
}

} // verus!
