//! An effect that turns the volume down.

use crate::entity::{Entity, MidiEvent, WorkEvent};
use crate::sample::StereoSample;
use crate::types::{
    ControlIndex, ControlValue, MidiChannel, MidiMessage, Normal, TimeRange, Uid,
};
use vstd::prelude::*;

verus! {

/// The parameter of a [`Quietener`] that control signals can drive: its quiet
/// factor.
pub const QUIET_FACTOR_INDEX: usize = 0;

/// Multiplies both channels of every frame by its quiet factor. As an
/// instrument it leaves the batch silent.
#[derive(Clone, Copy, Debug, PartialEq, Eq, Structural)]
pub struct Quietener {
    pub uid: Uid,
    pub quiet_factor: Normal,
}

/// `input` with every frame multiplied by `factor`.
pub open spec fn quietened(input: Seq<StereoSample>, factor: Normal) -> Seq<StereoSample> {
    input.map_values(|sample: StereoSample| sample.spec_scaled(factor.0 as nat, 65535))
}

impl Quietener {
    /// An effect with the quiet factor given and the identifier zero.
    pub fn new_with(quiet_factor: Normal) -> (entity: Self)
        ensures
            entity == (Quietener { uid: Uid(0), quiet_factor }),
    {
        Quietener { uid: Uid(0), quiet_factor }
    }

    pub fn set_quiet_factor(&mut self, quiet_factor: Normal)
        ensures
            *final(self) == (Quietener { quiet_factor, ..*old(self) }),
    {
        self.quiet_factor = quiet_factor;
    }
}

impl Entity for Quietener {
    /// Takes no notice of MIDI.
    fn handle_midi_message(&mut self, channel: MidiChannel, message: MidiMessage) -> (emitted: Vec<
        MidiEvent,
    >)
        ensures
            *final(self) == *old(self),
            emitted@ == Seq::<MidiEvent>::empty(),
    {
        Vec::new()
    }

    /// Sets the quiet factor, which is the one parameter there is.
    fn control_set_param_by_index(&mut self, index: ControlIndex, value: ControlValue)
        ensures
            *final(self) == if index.0 == QUIET_FACTOR_INDEX {
                Quietener { quiet_factor: Normal(value.0), ..*old(self) }
            } else {
                *old(self)
            },
    {
        if index.0 == QUIET_FACTOR_INDEX {
            self.quiet_factor = Normal(value.0);
        }
    }

    /// Has no timed work to do.
    fn work(&mut self, range: TimeRange) -> (events: Vec<WorkEvent>)
        ensures
            *final(self) == *old(self),
            events@ == Seq::<WorkEvent>::empty(),
    {
        Vec::new()
    }

    /// Leaves the batch silent.
    fn generate(&mut self, values: &mut Vec<StereoSample>) -> (active: bool)
        ensures
            *final(self) == *old(self),
            final(values)@ == old(values)@,
            !active,
    {
        false
    }

    /// Multiplies every frame of the batch by the quiet factor.
    fn transform(&mut self, samples: &mut Vec<StereoSample>)
        ensures
            *final(self) == *old(self),
            final(samples)@ == quietened(old(samples)@, old(self).quiet_factor),
    {
        let mut i: usize = 0;
        while i < samples.len()
            invariant
                i <= samples.len(),
                samples.len() == old(samples).len(),
                *self == *old(self),
                forall|j: int|
                    0 <= j < i ==> samples@[j] == old(samples)@[j].spec_scaled(
                        self.quiet_factor.0 as nat,
                        65535,
                    ),
                forall|j: int| i <= j < samples.len() ==> samples@[j] == old(samples)@[j],
            decreases samples.len() - i,
        {
            let sample = samples[i].scaled(self.quiet_factor.0, 65535);
            samples.set(i, sample);
            i += 1;
        }
    }
}

} // verus!
