//! A controller that plays one note on every other beat, taking turns between
//! two pitches.

use crate::entity::{Entity, MidiEvent, WorkEvent};
use crate::sample::StereoSample;
use crate::types::{ControlIndex, ControlValue, MidiChannel, MidiMessage, TimeRange, Uid};
use vstd::prelude::*;

verus! {

/// The highest key that a MIDI note can have.
pub const TOP_KEY: u8 = 127;

/// The velocity with which the arpeggiator plays and releases its notes.
pub const FULL_VELOCITY: u8 = 127;

/// The key that the arpeggiator starts from until it is told another.
pub const MIDDLE_C: u8 = 60;

/// How far the higher of the two pitches lies above the lower: a fifth.
pub const FIFTH: u8 = 7;

/// Plays a note when a beat begins and releases it when the next one begins.
/// The notes take turns between a base key and the key a fifth above it. A
/// note-on message from outside sets the base key.
#[derive(Clone, Copy, Debug)]
pub struct Arpeggiator {
    uid: Uid,
    last_beat: u64,
    is_playing: bool,
    should_play_low_note: bool,
    base_note: u8,
    note_we_are_playing: u8,
    time_range: TimeRange,
    frames_per_beat: u64,
}

/// The beat in which the frame `position` lies. Without a length of the beat
/// there is only the beat zero.
pub open spec fn beat_of(position: u64, frames_per_beat: u64) -> u64 {
    if frames_per_beat == 0 {
        0
    } else {
        position / frames_per_beat
    }
}

impl Arpeggiator {
    #[verifier::type_invariant]
    spec fn base_note_is_a_key(&self) -> bool {
        self.base_note <= TOP_KEY
    }

    /// An arpeggiator for beats of `frames_per_beat` frames, with the
    /// identifier zero. It is silent, has seen no beat, starts from middle C
    /// and will play the higher pitch first.
    pub fn new_with(frames_per_beat: u64) -> (entity: Self)
        ensures
            entity.base_note() == MIDDLE_C,
            !entity.is_playing(),
            entity.last_beat() == 0,
            entity.frames_per_beat() == frames_per_beat,
            !entity.should_play_low_note(),
    {
        Arpeggiator {
            uid: Uid(0),
            last_beat: 0,
            is_playing: false,
            should_play_low_note: false,
            base_note: MIDDLE_C,
            note_we_are_playing: 0,
            time_range: TimeRange { start: 0, end: 0 },
            frames_per_beat,
        }
    }

    pub closed spec fn base_note(&self) -> u8 {
        self.base_note
    }

    pub closed spec fn is_playing(&self) -> bool {
        self.is_playing
    }

    pub closed spec fn last_beat(&self) -> u64 {
        self.last_beat
    }

    pub closed spec fn frames_per_beat(&self) -> u64 {
        self.frames_per_beat
    }

    pub closed spec fn should_play_low_note(&self) -> bool {
        self.should_play_low_note
    }

    pub closed spec fn note_we_are_playing(&self) -> u8 {
        self.note_we_are_playing
    }

    /// The key of the note that would be played next.
    pub closed spec fn note_to_play(&self) -> u8 {
        if self.should_play_low_note {
            self.base_note
        } else {
            (self.base_note + FIFTH) as u8
        }
    }

    fn get_note_to_play(&self) -> (note: u8)
        ensures
            note == self.note_to_play(),
    {
        proof {
            use_type_invariant(self);
        }
        if self.should_play_low_note {
            self.base_note
        } else {
            self.base_note + FIFTH
        }
    }

    /// The arpeggiator after a MIDI message: a note-on with a proper key sets
    /// the base key, anything else changes nothing.
    pub closed spec fn heard(&self, message: MidiMessage) -> Self {
        match message {
            MidiMessage::NoteOn { key, vel } => if key <= TOP_KEY {
                Arpeggiator { base_note: key, ..*self }
            } else {
                *self
            },
            _ => *self,
        }
    }

    /// The arpeggiator after its work for the stretch of time `range`, and
    /// what it plays. Only when the stretch ends in a later beat than any
    /// before does something happen: a note that sounds is released and the
    /// turn passes to the other pitch, or else the note whose turn it is
    /// begins.
    pub closed spec fn worked(&self, range: TimeRange) -> (Self, Seq<WorkEvent>) {
        let latest_beat = beat_of(range.end, self.frames_per_beat);
        let timed = Arpeggiator { time_range: range, ..*self };
        if latest_beat > self.last_beat {
            if self.is_playing {
                (
                    Arpeggiator {
                        last_beat: latest_beat,
                        is_playing: false,
                        should_play_low_note: !self.should_play_low_note,
                        ..timed
                    },
                    seq![
                        WorkEvent::Midi(
                            MidiChannel(0),
                            MidiMessage::NoteOff {
                                key: self.note_we_are_playing,
                                vel: FULL_VELOCITY,
                            },
                        ),
                    ],
                )
            } else {
                (
                    Arpeggiator {
                        last_beat: latest_beat,
                        is_playing: true,
                        note_we_are_playing: self.note_to_play(),
                        ..timed
                    },
                    seq![
                        WorkEvent::Midi(
                            MidiChannel(0),
                            MidiMessage::NoteOn { key: self.note_to_play(), vel: FULL_VELOCITY },
                        ),
                    ],
                )
            }
        } else {
            (timed, Seq::empty())
        }
    }

    /// What `worked` says, for those who cannot see inside: nothing is played
    /// unless a new beat has begun; then a sounding note is released, or the
    /// note whose turn it is begins. A note is never begun while another
    /// sounds, nor released while none does.
    pub proof fn lemma_worked(&self, range: TimeRange)
        ensures
            beat_of(range.end, self.frames_per_beat()) <= self.last_beat() ==> self.worked(range).1
                == Seq::<WorkEvent>::empty() && self.worked(range).0.is_playing()
                == self.is_playing(),
            beat_of(range.end, self.frames_per_beat()) > self.last_beat() && self.is_playing()
                ==> self.worked(range).1 == seq![
                WorkEvent::Midi(
                    MidiChannel(0),
                    MidiMessage::NoteOff { key: self.note_we_are_playing(), vel: FULL_VELOCITY },
                ),
            ] && !self.worked(range).0.is_playing() && self.worked(range).0.should_play_low_note()
                != self.should_play_low_note(),
            beat_of(range.end, self.frames_per_beat()) > self.last_beat() && !self.is_playing()
                ==> self.worked(range).1 == seq![
                WorkEvent::Midi(
                    MidiChannel(0),
                    MidiMessage::NoteOn { key: self.note_to_play(), vel: FULL_VELOCITY },
                ),
            ] && self.worked(range).0.is_playing() && self.worked(range).0.note_we_are_playing()
                == self.note_to_play(),
            self.worked(range).0.last_beat() >= self.last_beat(),
            self.worked(range).0.base_note() == self.base_note(),
            self.note_to_play() == if self.should_play_low_note() {
                self.base_note() as int
            } else {
                (self.base_note() + FIFTH) as u8 as int
            },
    {
    }
}

impl Entity for Arpeggiator {
    /// Takes its base key from a note-on message.
    fn handle_midi_message(&mut self, channel: MidiChannel, message: MidiMessage) -> (emitted: Vec<
        MidiEvent,
    >)
        ensures
            *final(self) == old(self).heard(message),
            emitted@ == Seq::<MidiEvent>::empty(),
    {
        proof {
            use_type_invariant(&*self);
        }
        match message {
            MidiMessage::NoteOn { key, vel } => {
                if key <= TOP_KEY {
                    self.base_note = key;
                }
            },
            _ => {},
        }
        Vec::new()
    }

    /// Has no parameter to set.
    fn control_set_param_by_index(&mut self, index: ControlIndex, value: ControlValue)
        ensures
            *final(self) == *old(self),
    {
    }

    /// Plays or releases a note when a new beat has begun.
    fn work(&mut self, range: TimeRange) -> (events: Vec<WorkEvent>)
        ensures
            (*final(self), events@) == old(self).worked(range),
    {
        proof {
            use_type_invariant(&*self);
        }
        self.time_range = range;
        let latest_beat = if self.frames_per_beat == 0 {
            0
        } else {
            self.time_range.end / self.frames_per_beat
        };
        let beat_changed = latest_beat > self.last_beat;
        if beat_changed {
            self.last_beat = latest_beat;
        }
        let mut events: Vec<WorkEvent> = Vec::new();
        if self.is_playing {
            if beat_changed {
                events.push(
                    WorkEvent::Midi(
                        MidiChannel(0),
                        MidiMessage::NoteOff { key: self.note_we_are_playing, vel: FULL_VELOCITY },
                    ),
                );
                self.is_playing = false;
                self.should_play_low_note = !self.should_play_low_note;
            }
        } else if beat_changed {
            self.note_we_are_playing = self.get_note_to_play();
            events.push(
                WorkEvent::Midi(
                    MidiChannel(0),
                    MidiMessage::NoteOn { key: self.note_we_are_playing, vel: FULL_VELOCITY },
                ),
            );
            self.is_playing = true;
        }
        events
    }

    /// Leaves the batch silent.
    fn generate(&mut self, values: &mut Vec<StereoSample>) -> (active: bool)
        ensures
            *final(self) == *old(self),
            final(values)@ == old(values)@,
            !active,
    {
        false
    }

    /// Leaves the batch as it is.
    fn transform(&mut self, samples: &mut Vec<StereoSample>)
        ensures
            *final(self) == *old(self),
            final(samples)@ == old(samples)@,
    {
    }
}

} // verus!
