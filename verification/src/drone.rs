//! A controller that turns a slowly changing level into a control signal.

use crate::entity::{Entity, MidiEvent, WorkEvent};
use crate::sample::StereoSample;
use crate::types::{ControlIndex, ControlValue, MidiChannel, MidiMessage, Normal, TimeRange, Uid};
use vstd::prelude::*;

verus! {

/// Where a [`DroneController`] takes its level from, such as an oscillator.
pub trait Signal {
    /// Moves the signal on by `count` steps and hands back the level at the
    /// first of them; nothing if there is no such step.
    fn advance(&mut self, count: usize) -> (level: Option<Normal>);
}

/// Follows a signal while audio is generated, and emits the level it has
/// reached as a control value whenever its timed work finds the level changed.
/// It produces no sound itself.
pub struct DroneController<S: Signal> {
    pub uid: Uid,
    /// The level that the signal last stood at.
    pub value: Normal,
    /// The level that was last emitted.
    pub last_value: Normal,
    pub time_range: TimeRange,
    pub signal: S,
}

impl<S: Signal> DroneController<S> {
    /// A controller on `signal`, with the identifier zero. Its level starts at
    /// the top, and that level counts as emitted.
    pub fn new_with(signal: S) -> (entity: Self)
        ensures
            entity.uid == Uid(0),
            entity.value == Normal::spec_maximum(),
            entity.last_value == Normal::spec_maximum(),
            entity.time_range == (TimeRange { start: 0, end: 0 }),
            entity.signal == signal,
    {
        DroneController {
            uid: Uid(0),
            value: Normal::maximum(),
            last_value: Normal::maximum(),
            time_range: TimeRange { start: 0, end: 0 },
            signal,
        }
    }
}

impl<S: Signal> DroneController<S> {
    /// Takes the level that the signal handed back: the controller stands at
    /// that level from now on, or where it stood if the signal gave none.
    pub fn take_level(&mut self, level: Option<Normal>)
        ensures
            *final(self) == (DroneController {
                value: match level {
                    Some(reached) => reached,
                    None => old(self).value,
                },
                ..*old(self)
            }),
    {
        if let Some(reached) = level {
            self.value = reached;
        }
    }
}

impl<S: Signal> Entity for DroneController<S> {
    /// Takes no notice of MIDI.
    fn handle_midi_message(&mut self, channel: MidiChannel, message: MidiMessage) -> (emitted: Vec<
        MidiEvent,
    >)
        ensures
            *final(self) == *old(self),
            emitted@ == Seq::<MidiEvent>::empty(),
    {
        Vec::new()
    }

    /// Has no parameter to set.
    fn control_set_param_by_index(&mut self, index: ControlIndex, value: ControlValue)
        ensures
            *final(self) == *old(self),
    {
    }

    /// Emits the level as a control value if it is another than the one that
    /// was emitted last.
    fn work(&mut self, range: TimeRange) -> (events: Vec<WorkEvent>)
        ensures
            *final(self) == (DroneController {
                time_range: range,
                last_value: old(self).value,
                ..*old(self)
            }),
            events@ == if old(self).value != old(self).last_value {
                seq![WorkEvent::Control(ControlValue(old(self).value.0))]
            } else {
                Seq::empty()
            },
    {
        self.time_range = range;
        let mut events: Vec<WorkEvent> = Vec::new();
        if self.value.0 != self.last_value.0 {
            events.push(WorkEvent::Control(ControlValue(self.value.0)));
            self.last_value = self.value;
        }
        events
    }

    /// Moves the signal on by as many steps as the batch has frames and takes
    /// the level that the signal hands back, as [`DroneController::take_level`]
    /// says. Leaves the batch silent. What the signal hands back, and what
    /// becomes of the signal, is the signal's own affair.
    fn generate(&mut self, values: &mut Vec<StereoSample>) -> (active: bool)
        ensures
            final(values)@ == old(values)@,
            !active,
            final(self).uid == old(self).uid,
            final(self).last_value == old(self).last_value,
            final(self).time_range == old(self).time_range,
    {
        let level = self.signal.advance(values.len());
        self.take_level(level);
        false
    }

    /// Leaves the batch as it is.
    fn transform(&mut self, samples: &mut Vec<StereoSample>)
        ensures
            *final(self) == *old(self),
            final(samples)@ == old(samples)@,
    {
    }
}

} // verus!
