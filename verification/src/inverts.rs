//! An effect that turns every sample upside down.

use crate::entity::{Entity, MidiEvent, WorkEvent};
use crate::sample::StereoSample;
use crate::types::{ControlIndex, ControlValue, MidiChannel, MidiMessage, TimeRange, Uid};
use vstd::prelude::*;

verus! {

/// Negates both channels of every frame it is given. As an instrument it
/// leaves the batch silent.
#[derive(Clone, Copy, Debug, PartialEq, Eq, Structural)]
pub struct AlwaysSame {
    pub uid: Uid,
}

/// `input` with every frame negated.
pub open spec fn inverted_batch(input: Seq<StereoSample>) -> Seq<StereoSample> {
    input.map_values(|sample: StereoSample| sample.spec_inverted())
}

impl AlwaysSame {
    /// The effect, with the identifier zero.
    pub fn new() -> (entity: Self)
        ensures
            entity == (AlwaysSame { uid: Uid(0) }),
    {
        AlwaysSame { uid: Uid(0) }
    }
}

impl Entity for AlwaysSame {
    /// Takes no notice of MIDI.
    fn handle_midi_message(&mut self, channel: MidiChannel, message: MidiMessage) -> (emitted: Vec<
        MidiEvent,
    >)
        ensures
            *final(self) == *old(self),
            emitted@ == Seq::<MidiEvent>::empty(),
    {
        Vec::new()
    }

    /// Has no parameter to set.
    fn control_set_param_by_index(&mut self, index: ControlIndex, value: ControlValue)
        ensures
            *final(self) == *old(self),
    {
    }

    /// Has no timed work to do.
    fn work(&mut self, range: TimeRange) -> (events: Vec<WorkEvent>)
        ensures
            *final(self) == *old(self),
            events@ == Seq::<WorkEvent>::empty(),
    {
        Vec::new()
    }

    /// Leaves the batch silent.
    fn generate(&mut self, values: &mut Vec<StereoSample>) -> (active: bool)
        ensures
            *final(self) == *old(self),
            final(values)@ == old(values)@,
            !active,
    {
        false
    }

    /// Negates every frame of the batch.
    fn transform(&mut self, samples: &mut Vec<StereoSample>)
        ensures
            *final(self) == *old(self),
            final(samples)@ == inverted_batch(old(samples)@),
    {
        let mut i: usize = 0;
        while i < samples.len()
            invariant
                i <= samples.len(),
                samples.len() == old(samples).len(),
                *self == *old(self),
                forall|j: int| 0 <= j < i ==> samples@[j] == old(samples)@[j].spec_inverted(),
                forall|j: int| i <= j < samples.len() ==> samples@[j] == old(samples)@[j],
            decreases samples.len() - i,
        {
            let sample = samples[i].inverted();
            samples.set(i, sample);
            i += 1;
        }
    }
}

} // verus!
