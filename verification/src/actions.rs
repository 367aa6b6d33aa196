//! What an entity or a track tells its subscribers: audio, MIDI, and changes
//! of a control signal. Each names the unit it comes from.

use crate::sample::StereoSample;
use crate::types::{ControlValue, MidiChannel, MidiMessage, Uid};
use vstd::prelude::*;

verus! {

/// Whether a batch was generated afresh or is the outcome of a transformation.
#[derive(Clone, Copy, Debug, PartialEq, Eq, Structural)]
pub enum AudioKind {
    Frames,
    Transformed,
}

/// The actor has produced a batch of audio.
#[derive(Clone, Debug)]
pub struct AudioAction {
    pub source_uid: Uid,
    pub kind: AudioKind,
    pub frames: Vec<StereoSample>,
}

/// An [`AudioAction`] by its contents.
pub struct AudioActionView {
    pub source_uid: Uid,
    pub kind: AudioKind,
    pub frames: Seq<StereoSample>,
}

impl View for AudioAction {
    type V = AudioActionView;

    open spec fn view(&self) -> AudioActionView {
        AudioActionView { source_uid: self.source_uid, kind: self.kind, frames: self.frames@ }
    }
}

/// The actor has produced a MIDI message.
#[derive(Clone, Copy, Debug, PartialEq, Eq, Structural)]
pub struct MidiAction {
    pub source_uid: Uid,
    pub channel: MidiChannel,
    pub message: MidiMessage,
}

/// The entity's control signal has changed.
#[derive(Clone, Copy, Debug, PartialEq, Eq, Structural)]
pub struct ControlAction {
    pub source_uid: Uid,
    pub value: ControlValue,
}

/// The views of the items of `items`, in order.
pub open spec fn views<T: View>(items: Seq<T>) -> Seq<T::V> {
    items.map_values(|item: T| item@)
}

/// The views of no items.
pub proof fn lemma_views_empty<T: View>()
    ensures
        views(Seq::<T>::empty()) == Seq::<T::V>::empty(),
{
}

} // verus!
