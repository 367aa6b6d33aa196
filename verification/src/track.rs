//! A track: the entities it owns, the tracks that send to it, and the cycle in
//! which it gathers one batch of audio from its sources, passes it through its
//! effect chain and hands it on.
//!
//! The entities of a track are kept in the order in which they were added. In
//! each cycle every one of them is asked for audio as a source, and then, in
//! that same order, for a transformation of the gathered batch.

use crate::actions::{views, AudioAction, ControlAction, MidiAction};
use crate::entity::{EntityActor, EntityRequest, EntityRequestView};
use crate::mixer::Mixer;
use crate::sample::{copy_batch, merge, silent_batch, StereoSample, MAX_BATCH};
use crate::seqs::occurrences;
use crate::subscription::{kept, kept_through, lemma_kept_through_push, rounds_fit, Subscription};
use crate::track_model::{
    accepts_frames, accepts_track_action, actor_uids, actor_with, after_effect_step,
    after_frames, after_needs_audio, after_request, after_retire, after_source_step,
    after_track_action, after_track_frames, after_unlinks, ask_actors, ask_sends,
    attach_effects, detach_effects, differs_from, is_publish, lemma_actor_at,
    lemma_other_sends_keeps_uids_single, lemma_others_keeps_uids_single,
    lemma_unlinks_touch_only_links, lemma_with_actor_keeps_uids_single,
    lemma_with_send_keeps_uids_single, link_effects, linked, midi_effects, other_links,
    other_sends, others, publish_frames, send_uids, touches, track_wf, unlink_effects,
    with_actor, with_send, TrackActionView, TrackEffectView, TrackStateView, TrackView,
};
use crate::traits::ProvidesActorService;
use crate::types::{ControlIndex, MidiChannel, MidiMessage, TimeRange, TrackUid, Uid};
use crossbeam_channel::Sender;
use std::collections::VecDeque;
use vstd::prelude::*;

verus! {

/// What a track's worker can be asked to do.
#[derive(Clone, Debug)]
pub enum TrackRequest {
    /// Add a subscriber to the track's actions.
    Subscribe(Sender<TrackAction>),
    /// Remove a subscriber from the track's actions.
    Unsubscribe(Sender<TrackAction>),
    /// Handle an incoming MIDI message.
    Midi(MidiChannel, MidiMessage),
    /// Do the timed work for the given stretch of time.
    Work(TimeRange),
    /// Produce this many frames of audio.
    NeedsAudio(usize),
    /// Stop consuming the given track's output.
    RemoveSend(TrackUid),
    /// Stop working.
    Quit,
}

/// A track whose output this track consumes, with the channel on which that
/// track takes requests.
#[derive(Clone, Debug)]
pub struct SendTrack {
    pub uid: TrackUid,
    pub sender: Sender<TrackRequest>,
}

/// The handle on a track's worker: the track's identifier, the channel on
/// which the worker takes requests, the channel on which it hears from the
/// tracks that send to it, and the channel on which it is told of a new track
/// that sends to it.
#[derive(Clone, Debug)]
pub struct TrackActor {
    pub uid: TrackUid,
    pub requests: Sender<TrackRequest>,
    pub track_actions: Sender<TrackAction>,
    pub sends: Sender<SendTrack>,
}

impl TrackActor {
    /// A further handle on the same worker.
    pub fn duplicate(&self) -> (actor: TrackActor)
        ensures
            actor == *self,
    {
        TrackActor {
            uid: self.uid,
            requests: self.requests.clone(),
            track_actions: self.track_actions.clone(),
            sends: self.sends.clone(),
        }
    }

    /// The identifier of the track.
    pub fn uid(&self) -> (uid: TrackUid)
        ensures
            uid == self.uid,
    {
        self.uid
    }

    /// The channel on which the worker hears from the tracks that send to it.
    pub fn action_sender(&self) -> (sender: &Sender<TrackAction>)
        ensures
            *sender == self.track_actions,
    {
        &self.track_actions
    }

    /// This track as one that sends to another.
    pub fn as_send(&self) -> (send: SendTrack)
        ensures
            send == (SendTrack { uid: self.uid, sender: self.requests }),
    {
        SendTrack { uid: self.uid, sender: self.requests.clone() }
    }
}

impl ProvidesActorService<TrackRequest, TrackAction> for TrackActor {
    fn sender(&self) -> (sender: &Sender<TrackRequest>)
        ensures
            *sender == self.requests,
    {
        &self.requests
    }
}

/// What a track tells its subscribers.
#[derive(Clone, Debug)]
pub enum TrackAction {
    /// A MIDI message that was routed within the track and may matter beyond it.
    Midi(MidiChannel, MidiMessage),
    /// The batch of frames that the track produced in answer to a request for
    /// audio.
    Frames(TrackUid, Vec<StereoSample>),
}

impl View for TrackAction {
    type V = TrackActionView;

    open spec fn view(&self) -> TrackActionView {
        match *self {
            TrackAction::Midi(channel, message) => TrackActionView::Midi(channel, message),
            TrackAction::Frames(uid, frames) => TrackActionView::Frames(uid, frames@),
        }
    }
}

/// Something a track wants done as the outcome of handling a message.
#[derive(Debug)]
pub enum TrackEffect {
    /// Put the request on the channel of the entity.
    ToEntity(EntityActor, EntityRequest),
    /// Put the request on the channel of the track that sends to this one.
    ToSend(SendTrack, TrackRequest),
    /// Tell the subscribers.
    Publish(TrackAction),
}

impl View for TrackEffect {
    type V = TrackEffectView;

    open spec fn view(&self) -> TrackEffectView {
        match *self {
            TrackEffect::ToEntity(actor, request) => TrackEffectView::ToEntity(actor, request@),
            TrackEffect::ToSend(send, request) => TrackEffectView::ToSend(send, request),
            TrackEffect::Publish(action) => TrackEffectView::Publish(action@),
        }
    }
}

/// A route for control signals: when `source_uid` emits a control value, the
/// parameter `param` of `target_uid` takes it.
#[derive(Clone, Copy, Debug, PartialEq, Eq, Structural)]
pub struct ControlLink {
    pub source_uid: Uid,
    pub target_uid: Uid,
    pub param: ControlIndex,
}

/// The channels on which a track hears from its entities.
#[derive(Clone, Debug)]
pub struct ActionSubscriptionSenders {
    pub entity: Sender<AudioAction>,
    pub midi: Sender<MidiAction>,
    pub control: Sender<ControlAction>,
}

/// Where a track stands in its generation cycle.
#[derive(Debug)]
pub enum TrackState {
    /// No cycle is running.
    Idle,
    /// This many sources have yet to deliver their batch.
    AwaitingSources(usize),
    /// The effects named have yet to be asked, in this order; unless the cycle
    /// has just ended, the answer of the one asked last is awaited.
    AwaitingEffect(VecDeque<Uid>),
}

impl View for TrackState {
    type V = TrackStateView;

    open spec fn view(&self) -> TrackStateView {
        match *self {
            TrackState::Idle => TrackStateView::Idle,
            TrackState::AwaitingSources(count) => TrackStateView::AwaitingSources(count as nat),
            TrackState::AwaitingEffect(queue) => TrackStateView::AwaitingEffect(queue@),
        }
    }
}

/// The state and the owned data of one track.
#[derive(Debug)]
pub struct Track {
    uid: TrackUid,
    is_master_track: bool,
    state: TrackState,
    buffer: Vec<StereoSample>,
    actors: Vec<EntityActor>,
    send_tracks: Vec<SendTrack>,
    control_links: Vec<ControlLink>,
    mixer: Option<Mixer>,
    subscription: Subscription<TrackAction>,
    actor_subscription_senders: ActionSubscriptionSenders,
}

impl View for Track {
    type V = TrackView;

    closed spec fn view(&self) -> TrackView {
        TrackView {
            uid: self.uid,
            is_master_track: self.is_master_track,
            state: self.state@,
            buffer: self.buffer@,
            actors: self.actors@,
            send_tracks: self.send_tracks@,
            control_links: self.control_links@,
            mixer: match self.mixer {
                Some(mixer) => Some(mixer@),
                None => None,
            },
            subscribers: self.subscription@,
            senders: self.actor_subscription_senders,
        }
    }
}

impl SendTrack {
    /// A further handle on the same track.
    pub fn duplicate(&self) -> (send: SendTrack)
        ensures
            send == *self,
    {
        SendTrack { uid: self.uid, sender: self.sender.clone() }
    }
}

/// Why a link could not be made: the track does not own both entities.
#[derive(Clone, Copy, Debug, PartialEq, Eq, Structural)]
pub struct LinkError {
    pub source_uid: Uid,
    pub target_uid: Uid,
}

/// A copy of a request that carries no batch of frames.
fn plain_copy(request: &EntityRequest) -> (copy: EntityRequest)
    requires
        !(request is NeedsTransformation),
    ensures
        copy@ == request@,
{
    match request {
        EntityRequest::ActionSubscribe(s) => EntityRequest::ActionSubscribe(s.clone()),
        EntityRequest::ActionUnsubscribe(s) => EntityRequest::ActionUnsubscribe(s.clone()),
        EntityRequest::MidiSubscribe(s) => EntityRequest::MidiSubscribe(s.clone()),
        EntityRequest::MidiUnsubscribe(s) => EntityRequest::MidiUnsubscribe(s.clone()),
        EntityRequest::ControlSubscribe(s) => EntityRequest::ControlSubscribe(s.clone()),
        EntityRequest::ControlUnsubscribe(s) => EntityRequest::ControlUnsubscribe(s.clone()),
        EntityRequest::ControlLinkAdd(uid, index) => EntityRequest::ControlLinkAdd(*uid, *index),
        EntityRequest::ControlLinkRemove(uid, index) => EntityRequest::ControlLinkRemove(
            *uid,
            *index,
        ),
        EntityRequest::Midi(channel, message) => EntityRequest::Midi(*channel, *message),
        EntityRequest::Control(index, value) => EntityRequest::Control(*index, *value),
        EntityRequest::Work(range) => EntityRequest::Work(*range),
        EntityRequest::NeedsAudio(count) => EntityRequest::NeedsAudio(*count),
        EntityRequest::NeedsTransformation(_) => EntityRequest::Quit,
        EntityRequest::Quit => EntityRequest::Quit,
    }
}

impl Track {
    /// The track is as [`track_wf`] asks, and so are its parts.
    pub open spec fn wf(&self) -> bool {
        track_wf(self@) && self.parts_wf()
    }

    /// The mixing bus, where there is one, is in order.
    pub closed spec fn parts_wf(&self) -> bool {
        self.mixer matches Some(mixer) ==> mixer.wf()
    }

    /// An idle track without entities, sending tracks, links or subscribers.
    /// The aggregating track gets a mixing bus, any other track none.
    pub fn new_with(
        uid: TrackUid,
        is_master_track: bool,
        actor_subscription_senders: ActionSubscriptionSenders,
    ) -> (track: Track)
        ensures
            track.wf(),
            track@ == (TrackView {
                uid,
                is_master_track,
                state: TrackStateView::Idle,
                buffer: Seq::empty(),
                actors: Seq::empty(),
                send_tracks: Seq::empty(),
                control_links: Seq::empty(),
                mixer: if is_master_track {
                    Some(Seq::empty())
                } else {
                    None
                },
                subscribers: Seq::empty(),
                senders: actor_subscription_senders,
            }),
    {
        let mixer = if is_master_track {
            Some(Mixer::new())
        } else {
            None
        };
        Track {
            uid,
            is_master_track,
            state: TrackState::Idle,
            buffer: Vec::new(),
            actors: Vec::new(),
            send_tracks: Vec::new(),
            control_links: Vec::new(),
            mixer,
            subscription: Subscription::default(),
            actor_subscription_senders,
        }
    }

    /// The identifier of the track.
    pub fn uid(&self) -> (uid: TrackUid)
        ensures
            uid == self@.uid,
    {
        self.uid
    }

    /// Whether no cycle is running.
    pub fn is_idle(&self) -> (idle: bool)
        ensures
            idle == (self@.state is Idle),
    {
        match self.state {
            TrackState::Idle => true,
            _ => false,
        }
    }

    /// Whether the track can take `frames` as it stands.
    pub fn can_accept(&self, frames: &Vec<StereoSample>) -> (accepted: bool)
        ensures
            accepted == accepts_frames(self@, frames@),
    {
        match self.state {
            TrackState::Idle => false,
            _ => frames.len() == self.buffer.len(),
        }
    }

    fn find_actor(&self, uid: Uid) -> (found: Option<usize>)
        requires
            actor_uids(self@.actors).no_duplicates(),
        ensures
            found matches Some(i) ==> i < self@.actors.len() && self@.actors[i as int].uid == uid
                && actor_with(self@.actors, uid) == self@.actors[i as int],
            found.is_some() == actor_uids(self@.actors).contains(uid),
    {
        let mut i: usize = 0;
        while i < self.actors.len()
            invariant
                i <= self.actors.len(),
                actor_uids(self@.actors).no_duplicates(),
                forall|j: int| 0 <= j < i ==> self.actors@[j].uid != uid,
            decreases self.actors.len() - i,
        {
            if self.actors[i].uid == uid {
                proof {
                    lemma_actor_at(self@.actors, i as int);
                }
                return Some(i);
            }
            i += 1;
        }
        assert forall|j: int| 0 <= j < actor_uids(self@.actors).len() implies actor_uids(
            self@.actors,
        )[j] != uid by {
        }
        None
    }

    fn issue_outgoing_frames_action(&mut self) -> (effects: Vec<TrackEffect>)
        ensures
            final(self)@ == (TrackView { state: TrackStateView::Idle, ..old(self)@ }),
            views(effects@) == seq![publish_frames(old(self)@)],
            final(self).mixer == old(self).mixer,
    {
        self.state = TrackState::Idle;
        let mut effects: Vec<TrackEffect> = Vec::new();
        effects.push(TrackEffect::Publish(TrackAction::Frames(self.uid, copy_batch(&self.buffer))));
        effects
    }

    fn advance_state_awaiting_effect(&mut self) -> (effects: Vec<TrackEffect>)
        requires
            old(self)@.state is AwaitingEffect,
            actor_uids(old(self)@.actors).no_duplicates(),
        ensures
            (final(self)@, views(effects@)) == after_effect_step(old(self)@),
            final(self).mixer == old(self).mixer,
    {
        let next = match &mut self.state {
            TrackState::AwaitingEffect(uids) => uids.pop_front(),
            _ => None,
        };
        match next {
            Some(uid) => {
                let mut effects: Vec<TrackEffect> = Vec::new();
                match self.find_actor(uid) {
                    Some(i) => {
                        effects.push(
                            TrackEffect::ToEntity(
                                self.actors[i].duplicate(),
                                EntityRequest::NeedsTransformation(copy_batch(&self.buffer)),
                            ),
                        );
                    },
                    None => {
                    },
                }
                effects
            },
            None => self.issue_outgoing_frames_action(),
        }
    }

    fn advance_state_awaiting_sources(&mut self) -> (effects: Vec<TrackEffect>)
        requires
            old(self)@.state is AwaitingSources,
            old(self)@.state->AwaitingSources_0 >= 1,
            actor_uids(old(self)@.actors).no_duplicates(),
        ensures
            (final(self)@, views(effects@)) == after_source_step(old(self)@),
            final(self).mixer == old(self).mixer,
    {
        let count = match self.state {
            TrackState::AwaitingSources(count) => count,
            _ => 1,
        };
        if count == 1 {
            let mut queue: VecDeque<Uid> = VecDeque::new();
            let mut i: usize = 0;
            while i < self.actors.len()
                invariant
                    i <= self.actors.len(),
                    *self == *old(self),
                    queue@ == actor_uids(self.actors@.take(i as int)),
                decreases self.actors.len() - i,
            {
                queue.push_back(self.actors[i].uid);
                i += 1;
            }
            assert(self.actors@.take(i as int) =~= self.actors@);
            self.state = TrackState::AwaitingEffect(queue);
            self.advance_state_awaiting_effect()
        } else {
            self.state = TrackState::AwaitingSources(count - 1);
            let effects: Vec<TrackEffect> = Vec::new();
            effects
        }
    }

    fn ask_all(&self, request: &EntityRequest) -> (effects: Vec<TrackEffect>)
        requires
            !(request is NeedsTransformation),
        ensures
            views(effects@) == ask_actors(self@.actors, request@),
    {
        let mut effects: Vec<TrackEffect> = Vec::new();
        let mut j: usize = 0;
        while j < self.actors.len()
            invariant
                j <= self.actors.len(),
                !(request is NeedsTransformation),
                views(effects@) == ask_actors(self.actors@.take(j as int), request@),
            decreases self.actors.len() - j,
        {
            let ghost before = views(effects@);
            let copy = plain_copy(request);
            effects.push(TrackEffect::ToEntity(self.actors[j].duplicate(), copy));
            assert(views(effects@) =~= before.push(
                TrackEffectView::ToEntity(self.actors@[j as int], request@),
            ));
            j += 1;
        }
        effects
    }

    /// Starts a cycle for `count` frames on an idle track.
    pub fn handle_needs_audio(&mut self, count: usize) -> (effects: Vec<TrackEffect>)
        requires
            old(self).wf(),
            old(self)@.state is Idle,
            count <= MAX_BATCH,
        ensures
            final(self).wf(),
            (final(self)@, views(effects@)) == after_needs_audio(old(self)@, count),
    {
        self.buffer = silent_batch(count);
        let new_sources_count = self.send_tracks.len() + self.actors.len();
        if new_sources_count == 0 {
            self.issue_outgoing_frames_action()
        } else {
            self.state = TrackState::AwaitingSources(new_sources_count);
            let mut effects: Vec<TrackEffect> = Vec::new();
            let mut i: usize = 0;
            while i < self.send_tracks.len()
                invariant
                    i <= self.send_tracks.len(),
                    self.send_tracks == old(self).send_tracks,
                    views(effects@) == ask_sends(self.send_tracks@.take(i as int), count),
                decreases self.send_tracks.len() - i,
            {
                let ghost before = views(effects@);
                effects.push(
                    TrackEffect::ToSend(
                        self.send_tracks[i].duplicate(),
                        TrackRequest::NeedsAudio(count),
                    ),
                );
                assert(views(effects@) =~= before.push(
                    TrackEffectView::ToSend(
                        self.send_tracks@[i as int],
                        TrackRequest::NeedsAudio(count),
                    ),
                ));
                i += 1;
            }
            let mut rest = self.ask_all(&EntityRequest::NeedsAudio(count));
            let ghost first = views(effects@);
            let ghost second = views(rest@);
            effects.append(&mut rest);
            assert(views(effects@) =~= first + second);
            effects
        }
    }

    /// Takes a batch of frames that an entity produced, or that a sending
    /// track produced where this track has no mixing bus.
    pub fn handle_incoming_frames(&mut self, frames: Vec<StereoSample>) -> (effects: Vec<
        TrackEffect,
    >)
        requires
            old(self).wf(),
            accepts_frames(old(self)@, frames@),
        ensures
            final(self).wf(),
            (final(self)@, views(effects@)) == after_frames(old(self)@, frames@),
    {
        let awaiting_sources = match self.state {
            TrackState::AwaitingSources(_) => true,
            _ => false,
        };
        if awaiting_sources {
            merge(&mut self.buffer, &frames);
            self.advance_state_awaiting_sources()
        } else {
            self.buffer = frames;
            self.advance_state_awaiting_effect()
        }
    }

    /// Takes a batch of frames that the track `track_uid` produced and mixes
    /// it into the gathered batch. This is for the aggregating track while it
    /// awaits its sources.
    pub fn handle_incoming_track_frames(
        &mut self,
        track_uid: TrackUid,
        frames: Vec<StereoSample>,
    ) -> (effects: Vec<TrackEffect>)
        requires
            old(self).wf(),
            old(self)@.state is AwaitingSources,
            old(self)@.is_master_track,
            frames@.len() <= MAX_BATCH,
        ensures
            final(self).wf(),
            (final(self)@, views(effects@)) == after_track_frames(old(self)@, track_uid, frames@),
    {
        match &self.mixer {
            Some(mixer) => {
                mixer.mix(track_uid, &frames, &mut self.buffer);
            },
            None => {},
        }
        self.advance_state_awaiting_sources()
    }

    /// Hands on a MIDI message that one of the track's entities emitted.
    pub fn handle_midi_action(&self, action: MidiAction) -> (effects: Vec<TrackEffect>)
        ensures
            views(effects@) == midi_effects(self@, action),
    {
        let mut effects: Vec<TrackEffect> = Vec::new();
        effects.push(TrackEffect::Publish(TrackAction::Midi(action.channel, action.message)));
        let ghost request = EntityRequestView::Midi(action.channel, action.message);
        let ghost head = views(effects@);
        let mut i: usize = 0;
        while i < self.actors.len()
            invariant
                i <= self.actors.len(),
                request == EntityRequestView::Midi(action.channel, action.message),
                views(effects@) == head + ask_actors(
                    others(self.actors@.take(i as int), action.source_uid),
                    request,
                ),
            decreases self.actors.len() - i,
        {
            let ghost before = views(effects@);
            proof {
                crate::seqs::lemma_filter_push(
                    self.actors@.take(i as int),
                    self.actors@[i as int],
                    |actor: EntityActor| actor.uid != action.source_uid,
                );
                assert(self.actors@.take(i as int).push(self.actors@[i as int])
                    =~= self.actors@.take(i as int + 1));
            }
            if self.actors[i].uid != action.source_uid {
                effects.push(
                    TrackEffect::ToEntity(
                        self.actors[i].duplicate(),
                        EntityRequest::Midi(action.channel, action.message),
                    ),
                );
                assert(views(effects@) =~= before.push(
                    TrackEffectView::ToEntity(self.actors@[i as int], request),
                ));
            }
            i += 1;
        }
        assert(self.actors@.take(i as int) =~= self.actors@);
        effects
    }

    /// Takes what an entity of the track produced.
    pub fn handle_entity_action(&mut self, action: AudioAction) -> (effects: Vec<TrackEffect>)
        requires
            old(self).wf(),
            accepts_frames(old(self)@, action@.frames),
        ensures
            final(self).wf(),
            (final(self)@, views(effects@)) == after_frames(old(self)@, action@.frames),
    {
        self.handle_incoming_frames(action.frames)
    }

    /// Takes what a track that sends to this one produced.
    pub fn handle_track_action(&mut self, action: TrackAction) -> (effects: Vec<TrackEffect>)
        requires
            old(self).wf(),
            accepts_track_action(old(self)@, action@),
        ensures
            final(self).wf(),
            (final(self)@, views(effects@)) == after_track_action(old(self)@, action@),
    {
        match action {
            TrackAction::Midi(channel, message) => {
                let mut effects: Vec<TrackEffect> = Vec::new();
                effects.push(TrackEffect::Publish(TrackAction::Midi(channel, message)));
                effects
            },
            TrackAction::Frames(track_uid, frames) => {
                if self.mixer.is_some() {
                    self.handle_incoming_track_frames(track_uid, frames)
                } else {
                    self.handle_incoming_frames(frames)
                }
            },
        }
    }

    /// Takes `actor` into the track and has it send its audio and MIDI here.
    /// An entity of the same identifier that the track held gives way to it.
    pub fn add_actor(&mut self, actor: EntityActor) -> (effects: Vec<TrackEffect>)
        requires
            old(self).wf(),
            old(self)@.actors.len() + old(self)@.send_tracks.len() < usize::MAX,
        ensures
            final(self).wf(),
            final(self)@ == (TrackView {
                actors: with_actor(old(self)@.actors, actor),
                ..old(self)@
            }),
            views(effects@) == attach_effects(old(self)@, actor),
    {
        proof {
            lemma_with_actor_keeps_uids_single(self@.actors, actor);
        }
        let mut effects: Vec<TrackEffect> = Vec::new();
        effects.push(
            TrackEffect::ToEntity(
                actor.duplicate(),
                EntityRequest::ActionSubscribe(self.actor_subscription_senders.entity.clone()),
            ),
        );
        effects.push(
            TrackEffect::ToEntity(
                actor.duplicate(),
                EntityRequest::MidiSubscribe(self.actor_subscription_senders.midi.clone()),
            ),
        );
        match self.find_actor(actor.uid) {
            Some(i) => {
                assert forall|j: int| 0 <= j < self.actors@.len() && j != i implies self.actors@[j].uid
                    != actor.uid by {
                    assert(actor_uids(self.actors@)[j] == self.actors@[j].uid);
                    assert(actor_uids(self.actors@)[i as int] == actor.uid);
                }
                self.actors.set(i, actor);
                assert(self@.actors =~= with_actor(old(self)@.actors, actor));
            },
            None => {
                self.actors.push(actor);
            },
        }
        effects
    }

    /// Lets the entity `uid` go and has it stop sending here. Nothing happens
    /// if the track does not hold it.
    pub fn remove_actor(&mut self, uid: Uid) -> (effects: Vec<TrackEffect>)
        requires
            old(self).wf(),
        ensures
            final(self).wf(),
            final(self)@ == (TrackView { actors: others(old(self)@.actors, uid), ..old(self)@ }),
            views(effects@) == if actor_uids(old(self)@.actors).contains(uid) {
                detach_effects(old(self)@, actor_with(old(self)@.actors, uid))
            } else {
                Seq::empty()
            },
    {
        let mut effects: Vec<TrackEffect> = Vec::new();
        match self.find_actor(uid) {
            Some(i) => {
                effects.push(
                    TrackEffect::ToEntity(
                        self.actors[i].duplicate(),
                        EntityRequest::ActionUnsubscribe(
                            self.actor_subscription_senders.entity.clone(),
                        ),
                    ),
                );
                effects.push(
                    TrackEffect::ToEntity(
                        self.actors[i].duplicate(),
                        EntityRequest::MidiUnsubscribe(self.actor_subscription_senders.midi.clone()),
                    ),
                );
                effects.push(
                    TrackEffect::ToEntity(
                        self.actors[i].duplicate(),
                        EntityRequest::ControlUnsubscribe(
                            self.actor_subscription_senders.control.clone(),
                        ),
                    ),
                );
            },
            None => {
            },
        }
        let mut staying: Vec<EntityActor> = Vec::new();
        let mut i: usize = 0;
        while i < self.actors.len()
            invariant
                i <= self.actors.len(),
                *self == *old(self),
                staying@ == others(self.actors@.take(i as int), uid),
            decreases self.actors.len() - i,
        {
            proof {
                crate::seqs::lemma_filter_push(
                    self.actors@.take(i as int),
                    self.actors@[i as int],
                    |actor: EntityActor| actor.uid != uid,
                );
                assert(self.actors@.take(i as int).push(self.actors@[i as int])
                    =~= self.actors@.take(i as int + 1));
            }
            if self.actors[i].uid != uid {
                staying.push(self.actors[i].duplicate());
            }
            i += 1;
        }
        proof {
            assert(self.actors@.take(i as int) =~= self.actors@);
            lemma_others_keeps_uids_single(self@.actors, uid);
        }
        self.actors = staying;
        effects
    }

    /// Has this track consume the output of `send`. A sending track of the
    /// same identifier gives way to it. Where there is a mixing bus, the track
    /// is registered there at its fresh settings.
    pub fn add_send(&mut self, send: SendTrack)
        requires
            old(self).wf(),
            old(self)@.actors.len() + old(self)@.send_tracks.len() < usize::MAX,
        ensures
            final(self).wf(),
            final(self)@ == (TrackView {
                send_tracks: with_send(old(self)@.send_tracks, send),
                mixer: match old(self)@.mixer {
                    Some(tracks) => Some(crate::mixer::with_track(tracks, send.uid)),
                    None => None,
                },
                ..old(self)@
            }),
    {
        proof {
            lemma_with_send_keeps_uids_single(self@.send_tracks, send);
        }
        let uid = send.uid;
        let mut i: usize = 0;
        let mut found: Option<usize> = None;
        while i < self.send_tracks.len()
            invariant_except_break
                found.is_none(),
                forall|j: int| 0 <= j < i ==> self.send_tracks@[j].uid != uid,
            invariant
                i <= self.send_tracks.len(),
                *self == *old(self),
            ensures
                *self == *old(self),
                found matches Some(k) ==> k < self.send_tracks.len() && self.send_tracks@[k as int].uid
                    == uid,
                found.is_none() ==> forall|j: int|
                    0 <= j < self.send_tracks.len() ==> self.send_tracks@[j].uid != uid,
            decreases self.send_tracks.len() - i,
        {
            if self.send_tracks[i].uid == uid {
                found = Some(i);
                break ;
            }
            i += 1;
        }
        match found {
            Some(k) => {
                assert(send_uids(self@.send_tracks)[k as int] == uid);
                assert forall|j: int|
                    0 <= j < self.send_tracks@.len() && j != k implies self.send_tracks@[j].uid
                    != uid by {
                    assert(send_uids(self.send_tracks@)[j] == self.send_tracks@[j].uid);
                }
                self.send_tracks.set(k, send);
                assert(self@.send_tracks =~= with_send(old(self)@.send_tracks, send));
            },
            None => {
                assert forall|j: int| 0 <= j < send_uids(self@.send_tracks).len() implies send_uids(
                    self@.send_tracks,
                )[j] != uid by {
                }
                self.send_tracks.push(send);
            },
        }
        match &mut self.mixer {
            Some(mixer) => {
                mixer.add_track(uid);
            },
            None => {},
        }
    }

    /// Has this track stop consuming the output of the track `uid`. The mixing
    /// bus keeps the settings of that track.
    pub fn remove_send(&mut self, uid: TrackUid)
        requires
            old(self).wf(),
        ensures
            final(self).wf(),
            final(self)@ == (TrackView {
                send_tracks: other_sends(old(self)@.send_tracks, uid),
                ..old(self)@
            }),
    {
        let mut staying: Vec<SendTrack> = Vec::new();
        let mut i: usize = 0;
        while i < self.send_tracks.len()
            invariant
                i <= self.send_tracks.len(),
                *self == *old(self),
                staying@ == other_sends(self.send_tracks@.take(i as int), uid),
            decreases self.send_tracks.len() - i,
        {
            proof {
                crate::seqs::lemma_filter_push(
                    self.send_tracks@.take(i as int),
                    self.send_tracks@[i as int],
                    |send: SendTrack| send.uid != uid,
                );
                assert(self.send_tracks@.take(i as int).push(self.send_tracks@[i as int])
                    =~= self.send_tracks@.take(i as int + 1));
            }
            if self.send_tracks[i].uid != uid {
                staying.push(self.send_tracks[i].duplicate());
            }
            i += 1;
        }
        proof {
            assert(self.send_tracks@.take(i as int) =~= self.send_tracks@);
            lemma_other_sends_keeps_uids_single(self@.send_tracks, uid);
        }
        self.send_tracks = staying;
    }

    fn has_link_between(links: &Vec<ControlLink>, source_uid: Uid, target_uid: Uid) -> (found: bool)
        ensures
            found == linked(links@, source_uid, target_uid),
    {
        let mut i: usize = 0;
        while i < links.len()
            invariant
                i <= links.len(),
                forall|j: int|
                    0 <= j < i ==> !((#[trigger] links@[j]).source_uid == source_uid
                        && links@[j].target_uid == target_uid),
            decreases links.len() - i,
        {
            if links[i].source_uid == source_uid && links[i].target_uid == target_uid {
                return true;
            }
            i += 1;
        }
        false
    }

    /// Routes the control signal of `source_uid` to the parameter `index` of
    /// `target_uid`. The track has to own both entities.
    pub fn link(&mut self, source_uid: Uid, target_uid: Uid, index: ControlIndex) -> (result:
        Result<Vec<TrackEffect>, LinkError>)
        requires
            old(self).wf(),
        ensures
            final(self).wf(),
            actor_uids(old(self)@.actors).contains(source_uid) && actor_uids(
                old(self)@.actors,
            ).contains(target_uid) ==> {
                let link = ControlLink { source_uid, target_uid, param: index };
                &&& result matches Ok(effects) && views(effects@) == link_effects(old(self)@, link)
                &&& final(self)@ == (TrackView {
                    control_links: old(self)@.control_links.push(link),
                    ..old(self)@
                })
            },
            !(actor_uids(old(self)@.actors).contains(source_uid) && actor_uids(
                old(self)@.actors,
            ).contains(target_uid)) ==> {
                &&& result matches Err(error) && error == (LinkError { source_uid, target_uid })
                &&& final(self)@ == old(self)@
            },
    {
        if let Some(s) = self.find_actor(source_uid) {
            if let Some(t) = self.find_actor(target_uid) {
                let mut effects: Vec<TrackEffect> = Vec::new();
                effects.push(
                    TrackEffect::ToEntity(
                        self.actors[s].duplicate(),
                        EntityRequest::ControlSubscribe(self.actors[t].control_actions.clone()),
                    ),
                );
                effects.push(
                    TrackEffect::ToEntity(
                        self.actors[t].duplicate(),
                        EntityRequest::ControlLinkAdd(source_uid, index),
                    ),
                );
                let link = ControlLink { source_uid, target_uid, param: index };
                self.control_links.push(link);
                return Ok(effects);
            }
        }
        Err(LinkError { source_uid, target_uid })
    }

    /// Takes away every link from `source_uid` to the parameter `index` of
    /// `target_uid`, and no other link. Nothing happens unless the track owns
    /// both entities.
    pub fn unlink(&mut self, source_uid: Uid, target_uid: Uid, index: ControlIndex) -> (effects:
        Vec<TrackEffect>)
        requires
            old(self).wf(),
        ensures
            final(self).wf(),
            actor_uids(old(self)@.actors).contains(source_uid) && actor_uids(
                old(self)@.actors,
            ).contains(target_uid) ==> {
                let link = ControlLink { source_uid, target_uid, param: index };
                &&& views(effects@) == unlink_effects(old(self)@, link)
                &&& final(self)@ == (TrackView {
                    control_links: other_links(old(self)@.control_links, link),
                    ..old(self)@
                })
            },
            !(actor_uids(old(self)@.actors).contains(source_uid) && actor_uids(
                old(self)@.actors,
            ).contains(target_uid)) ==> {
                &&& views(effects@) == Seq::<TrackEffectView>::empty()
                &&& final(self)@ == old(self)@
            },
    {
        let mut effects: Vec<TrackEffect> = Vec::new();
        if let Some(s) = self.find_actor(source_uid) {
            if let Some(t) = self.find_actor(target_uid) {
                let link = ControlLink { source_uid, target_uid, param: index };
                let mut staying: Vec<ControlLink> = Vec::new();
                let mut i: usize = 0;
                while i < self.control_links.len()
                    invariant
                        i <= self.control_links.len(),
                        *self == *old(self),
                        link == (ControlLink { source_uid, target_uid, param: index }),
                        staying@ == other_links(self.control_links@.take(i as int), link),
                    decreases self.control_links.len() - i,
                {
                    proof {
                        crate::seqs::lemma_filter_push(
                            self.control_links@.take(i as int),
                            self.control_links@[i as int],
                            differs_from(link),
                        );
                        assert(self.control_links@.take(i as int).push(
                            self.control_links@[i as int],
                        ) =~= self.control_links@.take(i as int + 1));
                    }
                    let entry = self.control_links[i];
                    if !(entry.source_uid == source_uid && entry.target_uid == target_uid
                        && entry.param == index) {
                        staying.push(entry);
                    }
                    i += 1;
                }
                assert(self.control_links@.take(i as int) =~= self.control_links@);
                if !Self::has_link_between(&staying, source_uid, target_uid) {
                    effects.push(
                        TrackEffect::ToEntity(
                            self.actors[s].duplicate(),
                            EntityRequest::ControlUnsubscribe(
                                self.actors[t].control_actions.clone(),
                            ),
                        ),
                    );
                }
                effects.push(
                    TrackEffect::ToEntity(
                        self.actors[t].duplicate(),
                        EntityRequest::ControlLinkRemove(source_uid, index),
                    ),
                );
                self.control_links = staying;
                return effects;
            }
        }
        effects
    }

    /// Handles one request to the track's worker. Says what is to be done in
    /// consequence, and whether the worker is to stop.
    pub fn handle_request(&mut self, request: TrackRequest) -> (outcome: (Vec<TrackEffect>, bool))
        requires
            old(self).wf(),
            request matches TrackRequest::NeedsAudio(count) ==> old(self)@.state is Idle && count
                <= MAX_BATCH,
        ensures
            final(self).wf(),
            (final(self)@, views(outcome.0@)) == after_request(old(self)@, request),
            outcome.1 == (request is Quit),
    {
        match request {
            TrackRequest::Subscribe(sender) => {
                self.subscription.subscribe(&sender);
                let effects: Vec<TrackEffect> = Vec::new();
                (effects, false)
            },
            TrackRequest::Unsubscribe(sender) => {
                self.subscription.unsubscribe(&sender);
                let effects: Vec<TrackEffect> = Vec::new();
                (effects, false)
            },
            TrackRequest::Midi(channel, message) => {
                (self.ask_all(&EntityRequest::Midi(channel, message)), false)
            },
            TrackRequest::Work(range) => { (self.ask_all(&EntityRequest::Work(range)), false) },
            TrackRequest::NeedsAudio(count) => { (self.handle_needs_audio(count), false) },
            TrackRequest::RemoveSend(uid) => {
                self.remove_send(uid);
                let effects: Vec<TrackEffect> = Vec::new();
                (effects, false)
            },
            TrackRequest::Quit => { (self.ask_all(&EntityRequest::Quit), true) },
        }
    }

    /// Carries out what a handler asked for: puts each request on the channel
    /// it is meant for, and offers each action to the subscribers, all in the
    /// order of `effects`. A request that a channel refuses is dropped. Each
    /// action makes one round of deliveries, with one outcome for every
    /// subscriber there is at the time, and a subscriber whose channel refuses
    /// is dropped from the subscribers in that round. What the channels answer
    /// is their own affair; whatever they answer, the subscribers afterwards
    /// are those that [`kept_through`] names for the rounds, and nothing else
    /// of the track changes.
    pub fn perform(&mut self, effects: Vec<TrackEffect>)
        requires
            old(self).wf(),
        ensures
            final(self).wf(),
            final(self)@ == (TrackView { subscribers: final(self)@.subscribers, ..old(self)@ }),
            exists|rounds: Seq<Seq<bool>>|
                rounds.len() == occurrences(effects@, is_publish()) && rounds_fit(
                    old(self)@.subscribers,
                    rounds,
                ) && final(self)@.subscribers == #[trigger] kept_through(
                    old(self)@.subscribers,
                    rounds,
                ),
    {
        let ghost all = effects@;
        let ghost mut rounds: Seq<Seq<bool>> = Seq::empty();
        let ghost mut done: int = 0;
        let mut rest = effects;
        while rest.len() > 0
            invariant
                self.wf(),
                0 <= done <= all.len(),
                rest@ == all.skip(done),
                self@ == (TrackView { subscribers: self@.subscribers, ..old(self)@ }),
                rounds.len() == occurrences(all.take(done), is_publish()),
                rounds_fit(old(self)@.subscribers, rounds),
                self@.subscribers == kept_through(old(self)@.subscribers, rounds),
            decreases rest.len(),
        {
            let effect = rest.remove(0);
            proof {
                assert(all.take(done + 1) =~= all.take(done).push(all[done]));
                crate::seqs::lemma_occurrences_push(all.take(done), all[done], is_publish());
                done = done + 1;
            }
            match effect {
                TrackEffect::ToEntity(actor, request) => {
                    actor.send(request);
                },
                TrackEffect::ToSend(send, request) => {
                    let _ = crate::channel::try_send(&send.sender, request);
                },
                TrackEffect::Publish(action) => {
                    let ghost before = self@.subscribers;
                    self.subscription.broadcast_mut(action);
                    proof {
                        let accepted = choose|accepted: Seq<bool>|
                            accepted.len() == before.len() && self@.subscribers
                                == #[trigger] kept(before, accepted);
                        lemma_kept_through_push(old(self)@.subscribers, rounds, accepted);
                        rounds = rounds.push(accepted);
                    }
                },
            }
        }
    }

    /// Retires the entity `uid`: takes away every link from or to it, tells it
    /// to stop working, and lets it go.
    pub fn retire_actor(&mut self, uid: Uid) -> (effects: Vec<TrackEffect>)
        requires
            old(self).wf(),
        ensures
            final(self).wf(),
            (final(self)@, views(effects@)) == after_retire(old(self)@, uid),
    {
        let mut doomed: Vec<ControlLink> = Vec::new();
        let mut i: usize = 0;
        while i < self.control_links.len()
            invariant
                i <= self.control_links.len(),
                *self == *old(self),
                doomed@ == self.control_links@.take(i as int).filter(touches(uid)),
            decreases self.control_links.len() - i,
        {
            proof {
                crate::seqs::lemma_filter_push(
                    self.control_links@.take(i as int),
                    self.control_links@[i as int],
                    touches(uid),
                );
                assert(self.control_links@.take(i as int).push(self.control_links@[i as int])
                    =~= self.control_links@.take(i as int + 1));
            }
            let link = self.control_links[i];
            if link.source_uid == uid || link.target_uid == uid {
                doomed.push(link);
            }
            i += 1;
        }
        assert(self.control_links@.take(i as int) =~= self.control_links@);
        let mut effects: Vec<TrackEffect> = Vec::new();
        let mut k: usize = 0;
        while k < doomed.len()
            invariant
                k <= doomed.len(),
                self.wf(),
                (self@, views(effects@)) == after_unlinks(old(self)@, doomed@.take(k as int)),
            decreases doomed.len() - k,
        {
            let link = doomed[k];
            let mut more = self.unlink(link.source_uid, link.target_uid, link.param);
            effects.append(&mut more);
            proof {
                assert(doomed@.take(k as int + 1).drop_last() =~= doomed@.take(k as int));
            }
            k += 1;
        }
        assert(doomed@.take(k as int) =~= doomed@);
        proof {
            lemma_unlinks_touch_only_links(old(self)@, doomed@);
        }
        if let Some(a) = self.find_actor(uid) {
            effects.push(TrackEffect::ToEntity(self.actors[a].duplicate(), EntityRequest::Quit));
        }
        let mut last = self.remove_actor(uid);
        effects.append(&mut last);
        effects
    }

    /// Whether the track can take `action` as it stands.
    pub fn can_accept_action(&self, action: &TrackAction) -> (accepted: bool)
        ensures
            accepted == accepts_track_action(self@, action@),
    {
        match action {
            TrackAction::Midi(_, _) => true,
            TrackAction::Frames(_, frames) => {
                if self.mixer.is_some() {
                    match self.state {
                        TrackState::AwaitingSources(_) => frames.len() <= MAX_BATCH,
                        _ => false,
                    }
                } else {
                    self.can_accept(frames)
                }
            },
        }
    }

    /// Whether the track can take one more entity or sending track.
    pub fn has_room(&self) -> (room: bool)
        ensures
            room == (self@.actors.len() + self@.send_tracks.len() < usize::MAX),
    {
        self.actors.len() < usize::MAX - self.send_tracks.len()
    }

    /// How many sources have yet to deliver their batch, if the track awaits
    /// sources.
    pub fn awaited_sources(&self) -> (awaited: Option<usize>)
        ensures
            awaited == match self@.state {
                TrackStateView::AwaitingSources(count) => Some(count as usize),
                _ => None,
            },
            awaited matches Some(count) ==> count == self@.state->AwaitingSources_0,
    {
        match self.state {
            TrackState::AwaitingSources(count) => Some(count),
            _ => None,
        }
    }

    /// How many effects have yet to be asked, if the track awaits an effect.
    pub fn effects_to_ask(&self) -> (left: Option<usize>)
        ensures
            left matches Some(count) ==> self@.state is AwaitingEffect && count
                == self@.state->AwaitingEffect_0.len(),
            left.is_none() ==> !(self@.state is AwaitingEffect),
    {
        match &self.state {
            TrackState::AwaitingEffect(queue) => Some(queue.len()),
            _ => None,
        }
    }

    /// The batch that the running cycle has gathered so far.
    pub fn buffer(&self) -> (buffer: &Vec<StereoSample>)
        ensures
            buffer@ == self@.buffer,
    {
        &self.buffer
    }

    /// The number of entities that the track owns.
    pub fn actor_count(&self) -> (count: usize)
        ensures
            count == self@.actors.len(),
    {
        self.actors.len()
    }

    /// The number of tracks that send to this one.
    pub fn send_count(&self) -> (count: usize)
        ensures
            count == self@.send_tracks.len(),
    {
        self.send_tracks.len()
    }

    /// The number of subscribers.
    pub fn subscriber_count(&self) -> (count: usize)
        ensures
            count == self@.subscribers.len(),
    {
        self.subscription.len()
    }

    /// The links between the entities of the track, in the order in which they
    /// were made.
    pub fn control_links(&self) -> (links: &Vec<ControlLink>)
        ensures
            links@ == self@.control_links,
    {
        &self.control_links
    }

    /// The mixing bus, which an aggregating track has.
    pub fn mixer(&self) -> (mixer: Option<&Mixer>)
        requires
            self.wf(),
        ensures
            match mixer {
                Some(bus) => bus.wf() && self@.mixer == Some(bus@),
                None => self@.mixer.is_none(),
            },
    {
        match &self.mixer {
            Some(mixer) => Some(mixer),
            None => None,
        }
    }

    /// Whether the track is the aggregating one.
    pub fn is_master_track(&self) -> (is_master: bool)
        ensures
            is_master == self@.is_master_track,
    {
        self.is_master_track
    }

    /// Sets the level at which the track `track_uid` enters the mixing bus.
    /// Nothing changes where there is no bus or the bus does not know the
    /// track.
    pub fn set_level(&mut self, track_uid: TrackUid, level: crate::types::Normal)
        requires
            old(self).wf(),
        ensures
            final(self).wf(),
            final(self)@ == (TrackView {
                mixer: match old(self)@.mixer {
                    Some(tracks) => Some(crate::mixer::with_level(tracks, track_uid, level)),
                    None => None,
                },
                ..old(self)@
            }),
    {
        match &mut self.mixer {
            Some(mixer) => {
                mixer.set_level(track_uid, level);
            },
            None => {},
        }
    }

    /// Mutes or unmutes the track `track_uid` on the mixing bus. Nothing
    /// changes where there is no bus or the bus does not know the track.
    pub fn set_muted(&mut self, track_uid: TrackUid, muted: bool)
        requires
            old(self).wf(),
        ensures
            final(self).wf(),
            final(self)@ == (TrackView {
                mixer: match old(self)@.mixer {
                    Some(tracks) => Some(crate::mixer::with_mute(tracks, track_uid, muted)),
                    None => None,
                },
                ..old(self)@
            }),
    {
        match &mut self.mixer {
            Some(mixer) => {
                mixer.set_muted(track_uid, muted);
            },
            None => {},
        }
    }
}

} // verus!
