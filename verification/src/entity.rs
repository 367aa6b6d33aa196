//! Requests to an entity's worker, and the handle that a track keeps on it.

use crate::actions::{
    views, AudioAction, AudioActionView, AudioKind, ControlAction, MidiAction,
};
use crate::channel::try_send;
use crate::sample::{silence, silent_batch, StereoSample, MAX_BATCH};
use crate::seqs::occurrences;
use crate::subscription::{
    kept, kept_through, lemma_kept_through_push, rounds_fit, subscribed, unsubscribed,
    Subscription,
};
use crate::traits::ProvidesActorService;
use crate::types::{ControlIndex, ControlValue, MidiChannel, MidiMessage, TimeRange, Uid};
use crossbeam_channel::Sender;
use vstd::prelude::*;

verus! {

/// What an entity's worker can be asked to do.
#[derive(Clone, Debug)]
pub enum EntityRequest {
    /// Connect a receiver to this entity's audio output.
    ActionSubscribe(Sender<AudioAction>),
    /// Disconnect a receiver from this entity's audio output.
    ActionUnsubscribe(Sender<AudioAction>),
    /// Connect a receiver to this entity's MIDI output.
    MidiSubscribe(Sender<MidiAction>),
    /// Disconnect a receiver from this entity's MIDI output.
    MidiUnsubscribe(Sender<MidiAction>),
    /// Connect a receiver to this entity's control output.
    ControlSubscribe(Sender<ControlAction>),
    /// Disconnect a receiver from this entity's control output.
    ControlUnsubscribe(Sender<ControlAction>),
    /// Let the given source entity drive the given parameter of this entity.
    ControlLinkAdd(Uid, ControlIndex),
    /// Stop the given source entity from driving the given parameter.
    ControlLinkRemove(Uid, ControlIndex),
    /// Handle this MIDI message.
    Midi(MidiChannel, MidiMessage),
    /// Set the given parameter to the given value.
    Control(ControlIndex, ControlValue),
    /// Do the timed work for the given stretch of time.
    Work(TimeRange),
    /// Produce this many frames of audio.
    NeedsAudio(usize),
    /// Transform this batch of audio.
    NeedsTransformation(Vec<StereoSample>),
    /// Stop working.
    Quit,
}

/// An [`EntityRequest`] by its contents.
pub enum EntityRequestView {
    ActionSubscribe(Sender<AudioAction>),
    ActionUnsubscribe(Sender<AudioAction>),
    MidiSubscribe(Sender<MidiAction>),
    MidiUnsubscribe(Sender<MidiAction>),
    ControlSubscribe(Sender<ControlAction>),
    ControlUnsubscribe(Sender<ControlAction>),
    ControlLinkAdd(Uid, ControlIndex),
    ControlLinkRemove(Uid, ControlIndex),
    Midi(MidiChannel, MidiMessage),
    Control(ControlIndex, ControlValue),
    Work(TimeRange),
    NeedsAudio(usize),
    NeedsTransformation(Seq<StereoSample>),
    Quit,
}

impl View for EntityRequest {
    type V = EntityRequestView;

    open spec fn view(&self) -> EntityRequestView {
        match *self {
            EntityRequest::ActionSubscribe(s) => EntityRequestView::ActionSubscribe(s),
            EntityRequest::ActionUnsubscribe(s) => EntityRequestView::ActionUnsubscribe(s),
            EntityRequest::MidiSubscribe(s) => EntityRequestView::MidiSubscribe(s),
            EntityRequest::MidiUnsubscribe(s) => EntityRequestView::MidiUnsubscribe(s),
            EntityRequest::ControlSubscribe(s) => EntityRequestView::ControlSubscribe(s),
            EntityRequest::ControlUnsubscribe(s) => EntityRequestView::ControlUnsubscribe(s),
            EntityRequest::ControlLinkAdd(uid, index) => EntityRequestView::ControlLinkAdd(
                uid,
                index,
            ),
            EntityRequest::ControlLinkRemove(uid, index) => EntityRequestView::ControlLinkRemove(
                uid,
                index,
            ),
            EntityRequest::Midi(channel, message) => EntityRequestView::Midi(channel, message),
            EntityRequest::Control(index, value) => EntityRequestView::Control(index, value),
            EntityRequest::Work(range) => EntityRequestView::Work(range),
            EntityRequest::NeedsAudio(count) => EntityRequestView::NeedsAudio(count),
            EntityRequest::NeedsTransformation(frames) => EntityRequestView::NeedsTransformation(
                frames@,
            ),
            EntityRequest::Quit => EntityRequestView::Quit,
        }
    }
}

/// The handle on an entity's worker: the entity's identifier, the channel on
/// which the worker takes requests, and the channel on which it takes control
/// actions from the entities linked to it.
#[derive(Clone, Debug)]
pub struct EntityActor {
    pub uid: Uid,
    pub requests: Sender<EntityRequest>,
    pub control_actions: Sender<ControlAction>,
}

impl EntityActor {
    /// A handle on the worker of entity `uid` that listens on the two channels.
    pub fn new(
        uid: Uid,
        requests: Sender<EntityRequest>,
        control_actions: Sender<ControlAction>,
    ) -> (actor: EntityActor)
        ensures
            actor.uid == uid,
            actor.requests == requests,
            actor.control_actions == control_actions,
    {
        EntityActor { uid, requests, control_actions }
    }

    /// A further handle on the same worker.
    pub fn duplicate(&self) -> (actor: EntityActor)
        ensures
            actor == *self,
    {
        EntityActor {
            uid: self.uid,
            requests: self.requests.clone(),
            control_actions: self.control_actions.clone(),
        }
    }

    /// The identifier of the entity.
    pub fn uid(&self) -> (uid: Uid)
        ensures
            uid == self.uid,
    {
        self.uid
    }

    /// The channel on which the worker takes control actions.
    pub fn control_sender(&self) -> (sender: &Sender<ControlAction>)
        ensures
            *sender == self.control_actions,
    {
        &self.control_actions
    }

    /// Puts `msg` on the worker's request channel. A request that the channel
    /// refuses is dropped.
    pub fn send(&self, msg: EntityRequest) {
        let _ = try_send(&self.requests, msg);
    }
}

impl ProvidesActorService<EntityRequest, AudioAction> for EntityActor {
    fn sender(&self) -> (sender: &Sender<EntityRequest>)
        ensures
            *sender == self.requests,
    {
        &self.requests
    }
}

/// Something an entity brings about while it does its timed work.
#[derive(Clone, Copy, Debug, PartialEq, Eq, Structural)]
pub enum WorkEvent {
    /// A MIDI message.
    Midi(MidiChannel, MidiMessage),
    /// A new value of the entity's control signal.
    Control(ControlValue),
}

/// A MIDI message with the channel it is meant for.
#[derive(Clone, Copy, Debug, PartialEq, Eq, Structural)]
pub struct MidiEvent {
    pub channel: MidiChannel,
    pub message: MidiMessage,
}

/// What an instrument or an effect has to offer so that a worker can run it.
/// What an entity does with a message or a batch is its own affair; all that
/// is asked of it is that a batch keeps its length.
pub trait Entity {
    /// Handles an incoming MIDI message and hands back the messages that the
    /// entity emits in answer.
    fn handle_midi_message(&mut self, channel: MidiChannel, message: MidiMessage) -> (emitted: Vec<
        MidiEvent,
    >);

    /// Sets the parameter `index` to `value`.
    fn control_set_param_by_index(&mut self, index: ControlIndex, value: ControlValue);

    /// Does the timed work for `range` and hands back what it brought about.
    fn work(&mut self, range: TimeRange) -> (events: Vec<WorkEvent>);

    /// Generates audio into `values`, which arrives silent, and tells whether
    /// the entity is sounding.
    fn generate(&mut self, values: &mut Vec<StereoSample>) -> (active: bool)
        requires
            old(values)@ == silence(old(values)@.len()),
        ensures
            final(values)@.len() == old(values)@.len(),
    ;

    /// Transforms `samples` in place.
    fn transform(&mut self, samples: &mut Vec<StereoSample>)
        ensures
            final(samples)@.len() == old(samples)@.len(),
    ;
}

/// That the source entity `source_uid` drives the parameter `param` of the
/// entity that holds this record.
#[derive(Clone, Copy, Debug, PartialEq, Eq, Structural)]
pub struct InboundLink {
    pub source_uid: Uid,
    pub param: ControlIndex,
}

/// Something an entity's worker wants its subscribers to be told.
#[derive(Debug)]
pub enum EntityEffect {
    Audio(AudioAction),
    Midi(MidiAction),
    Control(ControlAction),
}

/// An [`EntityEffect`] by its contents.
pub enum EntityEffectView {
    Audio(AudioActionView),
    Midi(MidiAction),
    Control(ControlAction),
}

impl View for EntityEffect {
    type V = EntityEffectView;

    open spec fn view(&self) -> EntityEffectView {
        match *self {
            EntityEffect::Audio(action) => EntityEffectView::Audio(action@),
            EntityEffect::Midi(action) => EntityEffectView::Midi(action),
            EntityEffect::Control(action) => EntityEffectView::Control(action),
        }
    }
}

/// What an entity's worker keeps beside the entity itself.
pub struct EntityWorkerView {
    pub uid: Uid,
    pub audio_subscribers: Seq<Sender<AudioAction>>,
    pub midi_subscribers: Seq<Sender<MidiAction>>,
    pub control_subscribers: Seq<Sender<ControlAction>>,
    /// The links by which other entities drive this one, in the order in
    /// which they were made.
    pub links: Seq<InboundLink>,
    /// Whether the entity sounded when it last produced or transformed audio:
    /// what it said of itself after producing, and whether the batch held a
    /// frame that is not silent after transforming.
    pub is_sound_active: bool,
}

/// The test that a link is another one than `link`.
pub open spec fn is_other_link(link: InboundLink) -> spec_fn(InboundLink) -> bool {
    |l: InboundLink| l != link
}

/// The test that a link comes from `source_uid`.
pub open spec fn comes_from(source_uid: Uid) -> spec_fn(InboundLink) -> bool {
    |l: InboundLink| l.source_uid == source_uid
}

/// The parameters that `source_uid` drives, in the order in which the links
/// were made.
pub open spec fn driven_by(links: Seq<InboundLink>, source_uid: Uid) -> Seq<ControlIndex> {
    links.filter(comes_from(source_uid)).map_values(|l: InboundLink| l.param)
}

/// The MIDI messages `emitted`, each as an action of the entity `uid`.
pub open spec fn midi_actions(uid: Uid, emitted: Seq<MidiEvent>) -> Seq<EntityEffectView> {
    emitted.map_values(
        |event: MidiEvent|
            EntityEffectView::Midi(
                MidiAction { source_uid: uid, channel: event.channel, message: event.message },
            ),
    )
}

/// What the entity `uid` brought about in its timed work, each item as an
/// action of that entity.
pub open spec fn work_actions(uid: Uid, events: Seq<WorkEvent>) -> Seq<EntityEffectView> {
    events.map_values(
        |event: WorkEvent|
            match event {
                WorkEvent::Midi(channel, message) => EntityEffectView::Midi(
                    MidiAction { source_uid: uid, channel, message },
                ),
                WorkEvent::Control(value) => EntityEffectView::Control(
                    ControlAction { source_uid: uid, value },
                ),
            },
    )
}

/// The one audio action of the entity `uid` that carries `frames`.
pub open spec fn audio_action(uid: Uid, kind: AudioKind, frames: Seq<StereoSample>) -> Seq<
    EntityEffectView,
> {
    seq![EntityEffectView::Audio(AudioActionView { source_uid: uid, kind, frames })]
}

/// Whether the worker can take `request`: a batch asked for or handed in is
/// within the bound on batches.
pub open spec fn accepts_request(request: EntityRequestView) -> bool {
    match request {
        EntityRequestView::NeedsAudio(count) => count <= MAX_BATCH,
        EntityRequestView::NeedsTransformation(frames) => frames.len() <= MAX_BATCH,
        _ => true,
    }
}

/// What a request makes of the subscribers and the links of a worker.
pub open spec fn wiring_after(worker: EntityWorkerView, request: EntityRequestView) -> EntityWorkerView {
    match request {
        EntityRequestView::ActionSubscribe(sender) => EntityWorkerView {
            audio_subscribers: subscribed(worker.audio_subscribers, sender),
            ..worker
        },
        EntityRequestView::ActionUnsubscribe(sender) => EntityWorkerView {
            audio_subscribers: unsubscribed(worker.audio_subscribers, sender),
            ..worker
        },
        EntityRequestView::MidiSubscribe(sender) => EntityWorkerView {
            midi_subscribers: subscribed(worker.midi_subscribers, sender),
            ..worker
        },
        EntityRequestView::MidiUnsubscribe(sender) => EntityWorkerView {
            midi_subscribers: unsubscribed(worker.midi_subscribers, sender),
            ..worker
        },
        EntityRequestView::ControlSubscribe(sender) => EntityWorkerView {
            control_subscribers: subscribed(worker.control_subscribers, sender),
            ..worker
        },
        EntityRequestView::ControlUnsubscribe(sender) => EntityWorkerView {
            control_subscribers: unsubscribed(worker.control_subscribers, sender),
            ..worker
        },
        EntityRequestView::ControlLinkAdd(source_uid, param) => EntityWorkerView {
            links: worker.links.push(InboundLink { source_uid, param }),
            ..worker
        },
        EntityRequestView::ControlLinkRemove(source_uid, param) => EntityWorkerView {
            links: worker.links.filter(is_other_link(InboundLink { source_uid, param })),
            ..worker
        },
        _ => worker,
    }
}

/// Whether some frame of `frames` is not silent.
pub open spec fn sounding(frames: Seq<StereoSample>) -> bool {
    exists|i: int| 0 <= i < frames.len() && !(#[trigger] frames[i]).spec_is_silent()
}

/// Whether `effects` is what a worker may want told in answer to `request`,
/// whatever its entity does, and `active` what it may note of the entity's
/// sounding: for a request for audio or for a transformation, one audio action
/// of the right kind with a batch of the right length, and after a
/// transformation the note says whether that batch sounds; for MIDI and for
/// timed work, what the entity handed back, as actions of the entity; for
/// anything else, nothing.
pub open spec fn answers(
    uid: Uid,
    request: EntityRequestView,
    effects: Seq<EntityEffectView>,
    active: bool,
) -> bool {
    match request {
        EntityRequestView::Midi(_, _) => exists|emitted: Seq<MidiEvent>|
            effects == #[trigger] midi_actions(uid, emitted),
        EntityRequestView::Work(_) => exists|events: Seq<WorkEvent>|
            effects == #[trigger] work_actions(uid, events),
        EntityRequestView::NeedsAudio(count) => exists|frames: Seq<StereoSample>|
            frames.len() == count && effects == #[trigger] audio_action(
                uid,
                AudioKind::Frames,
                frames,
            ),
        EntityRequestView::NeedsTransformation(input) => exists|frames: Seq<StereoSample>|
            frames.len() == input.len() && active == sounding(frames) && effects
                == #[trigger] audio_action(uid, AudioKind::Transformed, frames),
        _ => effects == Seq::<EntityEffectView>::empty(),
    }
}

/// Whether some frame of `frames` is not silent.
pub fn is_sounding(frames: &Vec<StereoSample>) -> (active: bool)
    ensures
        active == sounding(frames@),
{
    let mut i: usize = 0;
    while i < frames.len()
        invariant
            i <= frames.len(),
            forall|j: int| 0 <= j < i ==> (#[trigger] frames@[j]).spec_is_silent(),
        decreases frames.len() - i,
    {
        if !frames[i].is_silent() {
            return true;
        }
        i += 1;
    }
    false
}

/// The state that the worker of one entity keeps: the entity itself, those
/// who want to hear of its audio, its MIDI messages and its control signal,
/// and the links by which other entities drive its parameters.
pub struct EntityWorker<E: Entity> {
    uid: Uid,
    entity: E,
    audio_subscription: Subscription<AudioAction>,
    midi_subscription: Subscription<MidiAction>,
    control_subscription: Subscription<ControlAction>,
    links: Vec<InboundLink>,
    is_sound_active: bool,
}

impl<E: Entity> View for EntityWorker<E> {
    type V = EntityWorkerView;

    closed spec fn view(&self) -> EntityWorkerView {
        EntityWorkerView {
            uid: self.uid,
            audio_subscribers: self.audio_subscription@,
            midi_subscribers: self.midi_subscription@,
            control_subscribers: self.control_subscription@,
            links: self.links@,
            is_sound_active: self.is_sound_active,
        }
    }
}

/// No channel is subscribed twice to any of the three outputs.
pub open spec fn worker_wf(worker: EntityWorkerView) -> bool {
    &&& worker.audio_subscribers.no_duplicates()
    &&& worker.midi_subscribers.no_duplicates()
    &&& worker.control_subscribers.no_duplicates()
}

/// The MIDI messages that the entity `uid` emitted, as actions of that
/// entity.
pub fn midi_effects(uid: Uid, emitted: Vec<MidiEvent>) -> (effects: Vec<EntityEffect>)
    ensures
        views(effects@) == midi_actions(uid, emitted@),
{
    let mut effects: Vec<EntityEffect> = Vec::new();
    let mut i: usize = 0;
    while i < emitted.len()
        invariant
            i <= emitted.len(),
            views(effects@) == midi_actions(uid, emitted@.take(i as int)),
        decreases emitted.len() - i,
    {
        let ghost before = views(effects@);
        let event = emitted[i];
        let action = MidiAction { source_uid: uid, channel: event.channel, message: event.message };
        effects.push(EntityEffect::Midi(action));
        assert(views(effects@) =~= before.push(EntityEffectView::Midi(action)));
        i += 1;
    }
    effects
}

/// What the entity `uid` brought about in its timed work, as actions of that
/// entity.
pub fn work_effects(uid: Uid, events: Vec<WorkEvent>) -> (effects: Vec<EntityEffect>)
    ensures
        views(effects@) == work_actions(uid, events@),
{
    let mut effects: Vec<EntityEffect> = Vec::new();
    let mut i: usize = 0;
    while i < events.len()
        invariant
            i <= events.len(),
            views(effects@) == work_actions(uid, events@.take(i as int)),
        decreases events.len() - i,
    {
        let ghost before = views(effects@);
        let effect = match events[i] {
            WorkEvent::Midi(channel, message) => EntityEffect::Midi(
                MidiAction { source_uid: uid, channel, message },
            ),
            WorkEvent::Control(value) => EntityEffect::Control(
                ControlAction { source_uid: uid, value },
            ),
        };
        let ghost added = effect@;
        effects.push(effect);
        assert(views(effects@) =~= before.push(added));
        i += 1;
    }
    effects
}

/// The batch `frames` that the entity `uid` produced, as the one audio action
/// of that entity.
pub fn audio_effects(uid: Uid, kind: AudioKind, frames: Vec<StereoSample>) -> (effects: Vec<
    EntityEffect,
>)
    ensures
        views(effects@) == audio_action(uid, kind, frames@),
{
    let mut effects: Vec<EntityEffect> = Vec::new();
    effects.push(EntityEffect::Audio(AudioAction { source_uid: uid, kind, frames }));
    effects
}

impl<E: Entity> EntityWorker<E> {
    /// A worker for `entity` under the identifier `uid`, with no subscriber
    /// and no link.
    pub fn new_with(uid: Uid, entity: E) -> (worker: Self)
        ensures
            worker_wf(worker@),
            worker@ == (EntityWorkerView {
                uid,
                audio_subscribers: Seq::empty(),
                midi_subscribers: Seq::empty(),
                control_subscribers: Seq::empty(),
                links: Seq::empty(),
                is_sound_active: false,
            }),
            *worker.spec_entity() == entity,
    {
        EntityWorker {
            uid,
            entity,
            audio_subscription: Subscription::default(),
            midi_subscription: Subscription::default(),
            control_subscription: Subscription::default(),
            links: Vec::new(),
            is_sound_active: false,
        }
    }

    /// The identifier of the entity.
    pub fn uid(&self) -> (uid: Uid)
        ensures
            uid == self@.uid,
    {
        self.uid
    }

    /// Whether the entity sounded when it last produced or transformed audio.
    pub fn is_sound_active(&self) -> (active: bool)
        ensures
            active == self@.is_sound_active,
    {
        self.is_sound_active
    }

    pub closed spec fn spec_entity(&self) -> &E {
        &self.entity
    }

    /// The entity itself.
    #[verifier::when_used_as_spec(spec_entity)]
    pub fn entity(&self) -> (entity: &E)
        ensures
            entity == self.spec_entity(),
    {
        &self.entity
    }

    /// The links by which other entities drive this one, in the order in
    /// which they were made.
    pub fn links(&self) -> (links: &Vec<InboundLink>)
        ensures
            links@ == self@.links,
    {
        &self.links
    }

    /// Whether the worker can take `request`.
    pub fn can_accept(request: &EntityRequest) -> (accepted: bool)
        ensures
            accepted == accepts_request(request@),
    {
        match request {
            EntityRequest::NeedsAudio(count) => *count <= MAX_BATCH,
            EntityRequest::NeedsTransformation(frames) => frames.len() <= MAX_BATCH,
            _ => true,
        }
    }

    /// Hands a MIDI message to the entity and passes on what it emits.
    pub fn handle_midi(&mut self, channel: MidiChannel, message: MidiMessage) -> (effects: Vec<
        EntityEffect,
    >)
        ensures
            final(self)@ == old(self)@,
            answers(
                old(self)@.uid,
                EntityRequestView::Midi(channel, message),
                views(effects@),
                final(self)@.is_sound_active,
            ),
    {
        let emitted = self.entity.handle_midi_message(channel, message);
        let effects = midi_effects(self.uid, emitted);
        effects
    }

    /// Handles one request to the worker. Says what the subscribers are to be
    /// told, and whether the worker is to stop. What the entity makes of the
    /// request is its own affair; the subscribers and the links change as the
    /// request asks and not otherwise, and the note of whether the entity is
    /// sounding changes only when audio is asked for or transformed.
    pub fn handle_request(&mut self, request: EntityRequest) -> (outcome: (Vec<EntityEffect>, bool))
        requires
            worker_wf(old(self)@),
            accepts_request(request@),
        ensures
            worker_wf(final(self)@),
            final(self)@ == (EntityWorkerView {
                is_sound_active: final(self)@.is_sound_active,
                ..wiring_after(old(self)@, request@)
            }),
            !(request is NeedsAudio || request is NeedsTransformation)
                ==> final(self)@.is_sound_active == old(self)@.is_sound_active,
            answers(old(self)@.uid, request@, views(outcome.0@), final(self)@.is_sound_active),
            outcome.1 == (request is Quit),
    {
        let mut effects: Vec<EntityEffect> = Vec::new();
        proof {
            crate::actions::lemma_views_empty::<EntityEffect>();
        }
        match request {
            EntityRequest::ActionSubscribe(sender) => {
                self.audio_subscription.subscribe(&sender);
            },
            EntityRequest::ActionUnsubscribe(sender) => {
                self.audio_subscription.unsubscribe(&sender);
            },
            EntityRequest::MidiSubscribe(sender) => {
                self.midi_subscription.subscribe(&sender);
            },
            EntityRequest::MidiUnsubscribe(sender) => {
                self.midi_subscription.unsubscribe(&sender);
            },
            EntityRequest::ControlSubscribe(sender) => {
                self.control_subscription.subscribe(&sender);
            },
            EntityRequest::ControlUnsubscribe(sender) => {
                self.control_subscription.unsubscribe(&sender);
            },
            EntityRequest::ControlLinkAdd(source_uid, param) => {
                self.links.push(InboundLink { source_uid, param });
            },
            EntityRequest::ControlLinkRemove(source_uid, param) => {
                self.remove_link(InboundLink { source_uid, param });
            },
            EntityRequest::Midi(channel, message) => {
                return (self.handle_midi(channel, message), false);
            },
            EntityRequest::Control(index, value) => {
                self.entity.control_set_param_by_index(index, value);
            },
            EntityRequest::Work(range) => {
                let events = self.entity.work(range);
                let effects = work_effects(self.uid, events);
                return (effects, false);
            },
            EntityRequest::NeedsAudio(count) => {
                let mut buffer = silent_batch(count);
                let is_active = self.entity.generate(&mut buffer);
                self.is_sound_active = is_active;
                let ghost frames = buffer@;
                let effects = audio_effects(self.uid, AudioKind::Frames, buffer);
                return (effects, false);
            },
            EntityRequest::NeedsTransformation(frames) => {
                let mut buffer = frames;
                self.entity.transform(&mut buffer);
                self.is_sound_active = is_sounding(&buffer);
                let effects = audio_effects(self.uid, AudioKind::Transformed, buffer);
                return (effects, false);
            },
            EntityRequest::Quit => {
                return (effects, true);
            },
        }
        (effects, false)
    }

    fn remove_link(&mut self, link: InboundLink)
        ensures
            final(self)@ == (EntityWorkerView {
                links: old(self)@.links.filter(is_other_link(link)),
                ..old(self)@
            }),
    {
        let mut staying: Vec<InboundLink> = Vec::new();
        let mut i: usize = 0;
        while i < self.links.len()
            invariant
                i <= self.links.len(),
                self@ == old(self)@,
                self.links == old(self).links,
                staying@ == self.links@.take(i as int).filter(is_other_link(link)),
            decreases self.links.len() - i,
        {
            proof {
                crate::seqs::lemma_filter_push(
                    self.links@.take(i as int),
                    self.links@[i as int],
                    is_other_link(link),
                );
                assert(self.links@.take(i as int).push(self.links@[i as int])
                    =~= self.links@.take(i as int + 1));
            }
            let entry = self.links[i];
            if !(entry.source_uid == link.source_uid && entry.param == link.param) {
                staying.push(entry);
            }
            i += 1;
        }
        assert(self.links@.take(i as int) =~= self.links@);
        self.links = staying;
    }

    /// Takes a control signal that a linked entity emitted, and sets with it
    /// every parameter of the entity that this source drives, in the order in
    /// which the links were made, and no other. Hands back the parameters
    /// that were set.
    pub fn handle_control_action(&mut self, action: ControlAction) -> (set: Vec<ControlIndex>)
        ensures
            final(self)@ == old(self)@,
            set@ == driven_by(old(self)@.links, action.source_uid),
    {
        let mut set: Vec<ControlIndex> = Vec::new();
        let mut i: usize = 0;
        let ghost pred = comes_from(action.source_uid);
        while i < self.links.len()
            invariant
                i <= self.links.len(),
                pred == comes_from(action.source_uid),
                self@ == old(self)@,
                self.links == old(self).links,
                set@ == driven_by(self.links@.take(i as int), action.source_uid),
            decreases self.links.len() - i,
        {
            proof {
                crate::seqs::lemma_filter_push(
                    self.links@.take(i as int),
                    self.links@[i as int],
                    pred,
                );
                assert(self.links@.take(i as int).push(self.links@[i as int])
                    =~= self.links@.take(i as int + 1));
            }
            let entry = self.links[i];
            if entry.source_uid == action.source_uid {
                self.entity.control_set_param_by_index(entry.param, action.value);
                set.push(entry.param);
            }
            i += 1;
        }
        assert(self.links@.take(i as int) =~= self.links@);
        set
    }

    /// Carries out what a handler asked for: offers each action to those who
    /// subscribed to its kind, in the order of `effects`. Each action makes
    /// one round of deliveries among the subscribers of its kind, with one
    /// outcome for every subscriber there is at the time, and a subscriber
    /// whose channel refuses is dropped in that round. What the channels
    /// answer is their own affair; whatever they answer, the subscribers of
    /// each kind afterwards are those that [`kept_through`] names for the
    /// rounds of that kind, and nothing else of the worker changes.
    pub fn perform(&mut self, effects: Vec<EntityEffect>)
        requires
            worker_wf(old(self)@),
        ensures
            worker_wf(final(self)@),
            final(self).spec_entity() == old(self).spec_entity(),
            final(self)@ == (EntityWorkerView {
                audio_subscribers: final(self)@.audio_subscribers,
                midi_subscribers: final(self)@.midi_subscribers,
                control_subscribers: final(self)@.control_subscribers,
                ..old(self)@
            }),
            exists|rounds: Seq<Seq<bool>>|
                rounds.len() == occurrences(effects@, is_audio()) && rounds_fit(
                    old(self)@.audio_subscribers,
                    rounds,
                ) && final(self)@.audio_subscribers == #[trigger] kept_through(
                    old(self)@.audio_subscribers,
                    rounds,
                ),
            exists|rounds: Seq<Seq<bool>>|
                rounds.len() == occurrences(effects@, is_midi()) && rounds_fit(
                    old(self)@.midi_subscribers,
                    rounds,
                ) && final(self)@.midi_subscribers == #[trigger] kept_through(
                    old(self)@.midi_subscribers,
                    rounds,
                ),
            exists|rounds: Seq<Seq<bool>>|
                rounds.len() == occurrences(effects@, is_control()) && rounds_fit(
                    old(self)@.control_subscribers,
                    rounds,
                ) && final(self)@.control_subscribers == #[trigger] kept_through(
                    old(self)@.control_subscribers,
                    rounds,
                ),
    {
        let ghost all = effects@;
        let ghost mut audio: Seq<Seq<bool>> = Seq::empty();
        let ghost mut midi: Seq<Seq<bool>> = Seq::empty();
        let ghost mut control: Seq<Seq<bool>> = Seq::empty();
        let ghost mut done: int = 0;
        let mut rest = effects;
        while rest.len() > 0
            invariant
                worker_wf(self@),
                self.spec_entity() == old(self).spec_entity(),
                0 <= done <= all.len(),
                rest@ == all.skip(done),
                self@ == (EntityWorkerView {
                    audio_subscribers: self@.audio_subscribers,
                    midi_subscribers: self@.midi_subscribers,
                    control_subscribers: self@.control_subscribers,
                    ..old(self)@
                }),
                audio.len() == occurrences(all.take(done), is_audio()),
                rounds_fit(old(self)@.audio_subscribers, audio),
                self@.audio_subscribers == kept_through(old(self)@.audio_subscribers, audio),
                midi.len() == occurrences(all.take(done), is_midi()),
                rounds_fit(old(self)@.midi_subscribers, midi),
                self@.midi_subscribers == kept_through(old(self)@.midi_subscribers, midi),
                control.len() == occurrences(all.take(done), is_control()),
                rounds_fit(old(self)@.control_subscribers, control),
                self@.control_subscribers == kept_through(
                    old(self)@.control_subscribers,
                    control,
                ),
            decreases rest.len(),
        {
            let effect = rest.remove(0);
            proof {
                assert(all.take(done + 1) =~= all.take(done).push(all[done]));
                crate::seqs::lemma_occurrences_push(all.take(done), all[done], is_audio());
                crate::seqs::lemma_occurrences_push(all.take(done), all[done], is_midi());
                crate::seqs::lemma_occurrences_push(all.take(done), all[done], is_control());
                done = done + 1;
            }
            match effect {
                EntityEffect::Audio(action) => {
                    let ghost before = self@.audio_subscribers;
                    self.audio_subscription.broadcast_mut(action);
                    proof {
                        let accepted = choose|accepted: Seq<bool>|
                            accepted.len() == before.len() && self@.audio_subscribers
                                == #[trigger] kept(before, accepted);
                        lemma_kept_through_push(old(self)@.audio_subscribers, audio, accepted);
                        audio = audio.push(accepted);
                    }
                },
                EntityEffect::Midi(action) => {
                    let ghost before = self@.midi_subscribers;
                    self.midi_subscription.broadcast_mut(action);
                    proof {
                        let accepted = choose|accepted: Seq<bool>|
                            accepted.len() == before.len() && self@.midi_subscribers
                                == #[trigger] kept(before, accepted);
                        lemma_kept_through_push(old(self)@.midi_subscribers, midi, accepted);
                        midi = midi.push(accepted);
                    }
                },
                EntityEffect::Control(action) => {
                    let ghost before = self@.control_subscribers;
                    self.control_subscription.broadcast_mut(action);
                    proof {
                        let accepted = choose|accepted: Seq<bool>|
                            accepted.len() == before.len() && self@.control_subscribers
                                == #[trigger] kept(before, accepted);
                        lemma_kept_through_push(old(self)@.control_subscribers, control, accepted);
                        control = control.push(accepted);
                    }
                },
            }
        }
        assert(all.take(done) =~= all);
    }
}

/// The test that an effect is an audio action.
pub open spec fn is_audio() -> spec_fn(EntityEffect) -> bool {
    |effect: EntityEffect| effect is Audio
}

/// The test that an effect is a MIDI action.
pub open spec fn is_midi() -> spec_fn(EntityEffect) -> bool {
    |effect: EntityEffect| effect is Midi
}

/// The test that an effect is a control action.
pub open spec fn is_control() -> spec_fn(EntityEffect) -> bool {
    |effect: EntityEffect| effect is Control
}

/// The parameters that a source drives are those of the links that come from
/// it, and no others.
pub proof fn lemma_driven_by_is_linked(links: Seq<InboundLink>, source_uid: Uid)
    ensures
        forall|param: ControlIndex| #[trigger]
            driven_by(links, source_uid).contains(param) <==> links.contains(
                InboundLink { source_uid, param },
            ),
{
    let pred = comes_from(source_uid);
    let from = links.filter(pred);
    crate::seqs::lemma_filter_is_within(links, pred);
    assert forall|param: ControlIndex| #[trigger]
        driven_by(links, source_uid).contains(param) <==> links.contains(
            InboundLink { source_uid, param },
        ) by {
        let link = InboundLink { source_uid, param };
        if driven_by(links, source_uid).contains(param) {
            let i = choose|i: int|
                0 <= i < driven_by(links, source_uid).len() && driven_by(links, source_uid)[i]
                    == param;
            assert(from.contains(from[i]));
        }
        if links.contains(link) {
            assert(from.contains(link));
            let i = choose|i: int| 0 <= i < from.len() && from[i] == link;
            assert(driven_by(links, source_uid)[i] == param);
        }
    }
}

/// A new link adds its parameter to those that its source drives, at the end,
/// and leaves what other sources drive as it was.
pub proof fn lemma_link_adds_one_pairing(links: Seq<InboundLink>, link: InboundLink, other: Uid)
    ensures
        driven_by(links.push(link), link.source_uid) == driven_by(links, link.source_uid).push(
            link.param,
        ),
        other != link.source_uid ==> driven_by(links.push(link), other) == driven_by(links, other),
{
    crate::seqs::lemma_filter_push(links, link, comes_from(link.source_uid));
    crate::seqs::lemma_filter_push(links, link, comes_from(other));
}

/// Taking a link away stops that pairing and no other: the link is gone, every
/// other link stands, and what other sources drive is as it was.
pub proof fn lemma_unlink_stops_one_pairing(links: Seq<InboundLink>, link: InboundLink)
    ensures
        !links.filter(is_other_link(link)).contains(link),
        !driven_by(links.filter(is_other_link(link)), link.source_uid).contains(link.param),
        forall|other: InboundLink|
            other != link ==> (#[trigger] links.filter(is_other_link(link)).contains(other)
                <==> links.contains(other)),
        forall|source_uid: Uid|
            source_uid != link.source_uid ==> #[trigger] driven_by(
                links.filter(is_other_link(link)),
                source_uid,
            ) == driven_by(links, source_uid),
{
    let after = links.filter(is_other_link(link));
    crate::seqs::lemma_filter_is_within(links, is_other_link(link));
    lemma_driven_by_is_linked(after, link.source_uid);
    assert forall|source_uid: Uid| source_uid != link.source_uid implies #[trigger] driven_by(
        after,
        source_uid,
    ) == driven_by(links, source_uid) by {
        lemma_unlink_leaves_other_sources(links, link, source_uid);
    }
}

/// Taking away a link of one source leaves the links of another source as
/// they were.
proof fn lemma_unlink_leaves_other_sources(
    links: Seq<InboundLink>,
    link: InboundLink,
    source_uid: Uid,
)
    requires
        source_uid != link.source_uid,
    ensures
        links.filter(is_other_link(link)).filter(comes_from(source_uid)) == links.filter(
            comes_from(source_uid),
        ),
    decreases links.len(),
{
    if links.len() > 0 {
        let before = links.drop_last();
        let last = links.last();
        assert(links =~= before.push(last));
        lemma_unlink_leaves_other_sources(before, link, source_uid);
        crate::seqs::lemma_filter_push(before, last, is_other_link(link));
        crate::seqs::lemma_filter_push(before, last, comes_from(source_uid));
        if last != link {
            crate::seqs::lemma_filter_push(
                before.filter(is_other_link(link)),
                last,
                comes_from(source_uid),
            );
        }
    }
}

} // verus!
