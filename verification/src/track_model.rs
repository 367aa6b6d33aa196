//! What a track is and does, said over its contents: its state, what each
//! message makes of it, and what it asks for in consequence.

use crate::actions::MidiAction;
use crate::entity::{EntityActor, EntityRequestView};
use crate::mixer::{distinct, mixed, MixerTrack};
use crate::sample::{merged, silence, StereoSample, MAX_BATCH};
use crate::track::{
    ActionSubscriptionSenders, ControlLink, SendTrack, TrackAction, TrackEffect, TrackRequest,
};
use crate::types::{MidiChannel, MidiMessage, TrackUid, Uid};
use crossbeam_channel::Sender;
use vstd::prelude::*;

verus! {

/// A [`TrackAction`] by its contents.
pub enum TrackActionView {
    Midi(MidiChannel, MidiMessage),
    Frames(TrackUid, Seq<StereoSample>),
}

/// A [`TrackEffect`] by its contents.
pub enum TrackEffectView {
    ToEntity(EntityActor, EntityRequestView),
    ToSend(SendTrack, TrackRequest),
    Publish(TrackActionView),
}

/// A [`TrackState`] by its contents.
pub enum TrackStateView {
    Idle,
    AwaitingSources(nat),
    AwaitingEffect(Seq<Uid>),
}

/// A track by its contents.
pub struct TrackView {
    pub uid: TrackUid,
    pub is_master_track: bool,
    pub state: TrackStateView,
    /// The batch that the running cycle has gathered so far.
    pub buffer: Seq<StereoSample>,
    /// The owned entities, in the order in which they were added.
    pub actors: Seq<EntityActor>,
    /// The tracks that send to this one, in the order in which they were added.
    pub send_tracks: Seq<SendTrack>,
    pub control_links: Seq<ControlLink>,
    /// The mixing bus, which an aggregating track has.
    pub mixer: Option<Seq<MixerTrack>>,
    pub subscribers: Seq<Sender<TrackAction>>,
    pub senders: ActionSubscriptionSenders,
}

/// The identifiers of `actors`, in order.
pub open spec fn actor_uids(actors: Seq<EntityActor>) -> Seq<Uid> {
    actors.map_values(|actor: EntityActor| actor.uid)
}

/// The identifiers of `send_tracks`, in order.
pub open spec fn send_uids(send_tracks: Seq<SendTrack>) -> Seq<TrackUid> {
    send_tracks.map_values(|send: SendTrack| send.uid)
}

/// What is expected of a track at all times: no entity and no sending track is
/// held twice, the gathered batch is within the bound on batches, a count of
/// awaited sources is not zero, and the track has a mixing bus exactly if it is
/// the aggregating one.
pub open spec fn track_wf(track: TrackView) -> bool {
    &&& actor_uids(track.actors).no_duplicates()
    &&& send_uids(track.send_tracks).no_duplicates()
    &&& track.actors.len() + track.send_tracks.len() <= usize::MAX
    &&& track.buffer.len() <= MAX_BATCH
    &&& track.state matches TrackStateView::AwaitingSources(count) ==> 1 <= count <= usize::MAX
    &&& track.mixer.is_some() == track.is_master_track
    &&& track.mixer matches Some(tracks) ==> distinct(tracks)
    &&& track.subscribers.no_duplicates()
}

/// The entity among `actors` that `uid` names.
pub open spec fn actor_with(actors: Seq<EntityActor>, uid: Uid) -> EntityActor
    recommends
        actor_uids(actors).contains(uid),
{
    actors[choose|i: int| 0 <= i < actors.len() && (#[trigger] actors[i]).uid == uid]
}

/// Where no entity is held twice, the entity that an identifier names is the
/// one found under it.
pub proof fn lemma_actor_at(actors: Seq<EntityActor>, i: int)
    requires
        actor_uids(actors).no_duplicates(),
        0 <= i < actors.len(),
    ensures
        actor_uids(actors).contains(actors[i].uid),
        actor_with(actors, actors[i].uid) == actors[i],
{
    assert(actor_uids(actors)[i] == actors[i].uid);
    let j = choose|j: int| 0 <= j < actors.len() && (#[trigger] actors[j]).uid == actors[i].uid;
    assert(actor_uids(actors)[j] == actors[j].uid);
}

/// One request of the same contents for each of `actors`, in order.
pub open spec fn ask_actors(actors: Seq<EntityActor>, request: EntityRequestView) -> Seq<
    TrackEffectView,
> {
    Seq::new(actors.len(), |i: int| TrackEffectView::ToEntity(actors[i], request))
}

/// One request for `count` frames for each of `send_tracks`, in order.
pub open spec fn ask_sends(send_tracks: Seq<SendTrack>, count: usize) -> Seq<TrackEffectView> {
    Seq::new(
        send_tracks.len(),
        |i: int| TrackEffectView::ToSend(send_tracks[i], TrackRequest::NeedsAudio(count)),
    )
}

/// The announcement of the batch that `track` has gathered.
pub open spec fn publish_frames(track: TrackView) -> TrackEffectView {
    TrackEffectView::Publish(TrackActionView::Frames(track.uid, track.buffer))
}

/// A request for `count` frames reaches an idle track: the batch is reset to
/// `count` silent frames and every source is asked for as many, the sending
/// tracks first. A track without sources announces the silent batch at once and
/// stays idle.
pub open spec fn after_needs_audio(track: TrackView, count: usize) -> (
    TrackView,
    Seq<TrackEffectView>,
) {
    let sources = track.send_tracks.len() + track.actors.len();
    let cleared = TrackView { buffer: silence(count as nat), ..track };
    if sources == 0 {
        (TrackView { state: TrackStateView::Idle, ..cleared }, seq![publish_frames(cleared)])
    } else {
        (
            TrackView { state: TrackStateView::AwaitingSources(sources), ..cleared },
            ask_sends(track.send_tracks, count) + ask_actors(
                track.actors,
                EntityRequestView::NeedsAudio(count),
            ),
        )
    }
}

/// One step down the effect chain of a track that awaits effects: the effect
/// at the head of the queue leaves the queue and, if the track still owns it,
/// is asked to transform the batch. With an empty queue the cycle ends: the
/// batch is announced and the track is idle again.
pub open spec fn after_effect_step(track: TrackView) -> (TrackView, Seq<TrackEffectView>)
    recommends
        track.state is AwaitingEffect,
{
    let queue = track.state->AwaitingEffect_0;
    if queue.len() == 0 {
        (TrackView { state: TrackStateView::Idle, ..track }, seq![publish_frames(track)])
    } else {
        (
            TrackView { state: TrackStateView::AwaitingEffect(queue.drop_first()), ..track },
            if actor_uids(track.actors).contains(queue[0]) {
                seq![
                    TrackEffectView::ToEntity(
                        actor_with(track.actors, queue[0]),
                        EntityRequestView::NeedsTransformation(track.buffer),
                    ),
                ]
            } else {
                Seq::empty()
            },
        )
    }
}

/// One source of a track that awaits sources has delivered: one source fewer
/// is awaited, and after the last one the effect chain starts with every owned
/// entity in the queue, in the order in which they were added.
pub open spec fn after_source_step(track: TrackView) -> (TrackView, Seq<TrackEffectView>)
    recommends
        track.state is AwaitingSources,
{
    let count = track.state->AwaitingSources_0;
    if count == 1 {
        after_effect_step(
            TrackView {
                state: TrackStateView::AwaitingEffect(actor_uids(track.actors)),
                ..track
            },
        )
    } else {
        (
            TrackView { state: TrackStateView::AwaitingSources((count - 1) as nat), ..track },
            Seq::empty(),
        )
    }
}

/// A batch of frames arrives from an entity, or from a sending track where
/// there is no mixing bus. While sources are awaited it is added to the
/// gathered batch; while an effect is awaited it takes the place of the
/// gathered batch.
pub open spec fn after_frames(track: TrackView, frames: Seq<StereoSample>) -> (
    TrackView,
    Seq<TrackEffectView>,
)
    recommends
        !(track.state is Idle),
{
    match track.state {
        TrackStateView::Idle => (track, Seq::empty()),
        TrackStateView::AwaitingSources(_) => after_source_step(
            TrackView { buffer: merged(track.buffer, frames), ..track },
        ),
        TrackStateView::AwaitingEffect(_) => after_effect_step(
            TrackView { buffer: frames, ..track },
        ),
    }
}

/// A batch of frames arrives at the aggregating track from the track
/// `track_uid`: it is mixed into the gathered batch at that track's share of
/// the bus.
pub open spec fn after_track_frames(
    track: TrackView,
    track_uid: TrackUid,
    frames: Seq<StereoSample>,
) -> (TrackView, Seq<TrackEffectView>)
    recommends
        track.state is AwaitingSources,
        track.mixer.is_some(),
{
    after_source_step(
        TrackView {
            buffer: mixed(track.mixer.unwrap(), track_uid, frames, track.buffer),
            ..track
        },
    )
}

/// Whether `track` can take a batch of frames as it stands: a cycle is
/// running, and the batch is as long as the one that the cycle gathers.
pub open spec fn accepts_frames(track: TrackView, frames: Seq<StereoSample>) -> bool {
    &&& !(track.state is Idle)
    &&& frames.len() == track.buffer.len()
}

/// The entities of `actors` other than the one that `uid` names, in order.
pub open spec fn others(actors: Seq<EntityActor>, uid: Uid) -> Seq<EntityActor> {
    actors.filter(|actor: EntityActor| actor.uid != uid)
}

/// The sending tracks of `send_tracks` other than the one that `uid` names, in
/// order.
pub open spec fn other_sends(send_tracks: Seq<SendTrack>, uid: TrackUid) -> Seq<SendTrack> {
    send_tracks.filter(|send: SendTrack| send.uid != uid)
}

/// The links of `links` other than `link`, in order.
pub open spec fn other_links(links: Seq<ControlLink>, link: ControlLink) -> Seq<ControlLink> {
    links.filter(differs_from(link))
}

/// The test that a link is another one than `link`.
pub open spec fn differs_from(link: ControlLink) -> spec_fn(ControlLink) -> bool {
    |l: ControlLink| l != link
}

/// Whether some link leads from `source_uid` to `target_uid`.
pub open spec fn linked(links: Seq<ControlLink>, source_uid: Uid, target_uid: Uid) -> bool {
    exists|i: int|
        0 <= i < links.len() && (#[trigger] links[i]).source_uid == source_uid
            && links[i].target_uid == target_uid
}

/// The entities after `actor` has been added: it takes the place of an entity
/// of the same identifier, or else stands at the end.
pub open spec fn with_actor(actors: Seq<EntityActor>, actor: EntityActor) -> Seq<EntityActor> {
    if actor_uids(actors).contains(actor.uid) {
        actors.map_values(
            |a: EntityActor|
                if a.uid == actor.uid {
                    actor
                } else {
                    a
                },
        )
    } else {
        actors.push(actor)
    }
}

/// The sending tracks after `send` has been added: it takes the place of a
/// track of the same identifier, or else stands at the end.
pub open spec fn with_send(send_tracks: Seq<SendTrack>, send: SendTrack) -> Seq<SendTrack> {
    if send_uids(send_tracks).contains(send.uid) {
        send_tracks.map_values(
            |s: SendTrack|
                if s.uid == send.uid {
                    send
                } else {
                    s
                },
        )
    } else {
        send_tracks.push(send)
    }
}

/// What a track does with a MIDI message that one of its entities emitted: it
/// tells its subscribers, and hands the message to every entity but the one it
/// came from.
pub open spec fn midi_effects(track: TrackView, action: MidiAction) -> Seq<TrackEffectView> {
    seq![TrackEffectView::Publish(TrackActionView::Midi(action.channel, action.message))]
        + ask_actors(
        others(track.actors, action.source_uid),
        EntityRequestView::Midi(action.channel, action.message),
    )
}

/// What an entity is told when it joins the track: to send its audio and its
/// MIDI messages to the track.
pub open spec fn attach_effects(track: TrackView, actor: EntityActor) -> Seq<TrackEffectView> {
    seq![
        TrackEffectView::ToEntity(actor, EntityRequestView::ActionSubscribe(track.senders.entity)),
        TrackEffectView::ToEntity(actor, EntityRequestView::MidiSubscribe(track.senders.midi)),
    ]
}

/// What an entity is told when it leaves the track: to stop sending to it.
pub open spec fn detach_effects(track: TrackView, actor: EntityActor) -> Seq<TrackEffectView> {
    seq![
        TrackEffectView::ToEntity(
            actor,
            EntityRequestView::ActionUnsubscribe(track.senders.entity),
        ),
        TrackEffectView::ToEntity(actor, EntityRequestView::MidiUnsubscribe(track.senders.midi)),
        TrackEffectView::ToEntity(
            actor,
            EntityRequestView::ControlUnsubscribe(track.senders.control),
        ),
    ]
}

/// What a new link asks for: the source sends its control signal to the
/// target, and the target lets the source drive the parameter.
pub open spec fn link_effects(track: TrackView, link: ControlLink) -> Seq<TrackEffectView> {
    let source = actor_with(track.actors, link.source_uid);
    let target = actor_with(track.actors, link.target_uid);
    seq![
        TrackEffectView::ToEntity(
            source,
            EntityRequestView::ControlSubscribe(target.control_actions),
        ),
        TrackEffectView::ToEntity(
            target,
            EntityRequestView::ControlLinkAdd(link.source_uid, link.param),
        ),
    ]
}

/// What the removal of a link asks for: the target stops letting the source
/// drive the parameter, and if no other link leads from the source to the
/// target, the source stops sending its control signal there.
pub open spec fn unlink_effects(track: TrackView, link: ControlLink) -> Seq<TrackEffectView> {
    let source = actor_with(track.actors, link.source_uid);
    let target = actor_with(track.actors, link.target_uid);
    let release = TrackEffectView::ToEntity(
        target,
        EntityRequestView::ControlLinkRemove(link.source_uid, link.param),
    );
    if linked(other_links(track.control_links, link), link.source_uid, link.target_uid) {
        seq![release]
    } else {
        seq![
            TrackEffectView::ToEntity(
                source,
                EntityRequestView::ControlUnsubscribe(target.control_actions),
            ),
            release,
        ]
    }
}

/// What becomes of a track, and what it asks for, when a request reaches it.
pub open spec fn after_request(track: TrackView, request: TrackRequest) -> (
    TrackView,
    Seq<TrackEffectView>,
) {
    match request {
        TrackRequest::Subscribe(sender) => (
            TrackView {
                subscribers: crate::subscription::subscribed(track.subscribers, sender),
                ..track
            },
            Seq::empty(),
        ),
        TrackRequest::Unsubscribe(sender) => (
            TrackView {
                subscribers: crate::subscription::unsubscribed(track.subscribers, sender),
                ..track
            },
            Seq::empty(),
        ),
        TrackRequest::Midi(channel, message) => (
            track,
            ask_actors(track.actors, EntityRequestView::Midi(channel, message)),
        ),
        TrackRequest::Work(range) => (track, ask_actors(track.actors, EntityRequestView::Work(range))),
        TrackRequest::NeedsAudio(count) => after_needs_audio(track, count),
        TrackRequest::RemoveSend(uid) => (
            TrackView { send_tracks: other_sends(track.send_tracks, uid), ..track },
            Seq::empty(),
        ),
        TrackRequest::Quit => (track, ask_actors(track.actors, EntityRequestView::Quit)),
    }
}

/// What becomes of a track, and what it asks for, when an action of a track
/// that sends to it arrives: MIDI is passed on to the subscribers; frames go to
/// the mixing bus where there is one, and into the gathered batch otherwise.
pub open spec fn after_track_action(track: TrackView, action: TrackActionView) -> (
    TrackView,
    Seq<TrackEffectView>,
) {
    match action {
        TrackActionView::Midi(channel, message) => (
            track,
            seq![TrackEffectView::Publish(TrackActionView::Midi(channel, message))],
        ),
        TrackActionView::Frames(track_uid, frames) => if track.mixer.is_some() {
            after_track_frames(track, track_uid, frames)
        } else {
            after_frames(track, frames)
        },
    }
}

/// Whether `track` can take `action` as it stands.
pub open spec fn accepts_track_action(track: TrackView, action: TrackActionView) -> bool {
    action matches TrackActionView::Frames(_, frames) ==> if track.mixer.is_some() {
        track.state is AwaitingSources && frames.len() <= MAX_BATCH
    } else {
        accepts_frames(track, frames)
    }
}

/// A MIDI message that an entity emitted is handed to every other entity of
/// the track, once each and in the order of the track, and never back to the
/// entity it came from.
pub proof fn lemma_midi_never_returns(track: TrackView, action: MidiAction)
    requires
        actor_uids(track.actors).no_duplicates(),
    ensures
        forall|i: int|
            0 <= i < midi_effects(track, action).len() ==> (#[trigger] midi_effects(
                track,
                action,
            )[i] matches TrackEffectView::ToEntity(actor, request) ==> actor.uid
                != action.source_uid && track.actors.contains(actor) && request
                == EntityRequestView::Midi(action.channel, action.message)),
        forall|j: int|
            0 <= j < track.actors.len() && (#[trigger] track.actors[j]).uid != action.source_uid
                ==> midi_effects(track, action).contains(
                TrackEffectView::ToEntity(
                    track.actors[j],
                    EntityRequestView::Midi(action.channel, action.message),
                ),
            ),
        midi_effects(track, action).no_duplicates(),
{
    let pred = |actor: EntityActor| actor.uid != action.source_uid;
    let rest = others(track.actors, action.source_uid);
    let request = EntityRequestView::Midi(action.channel, action.message);
    let effects = midi_effects(track, action);
    crate::seqs::lemma_filter_is_within(track.actors, pred);
    lemma_others_keeps_uids_single(track.actors, action.source_uid);
    assert forall|i: int| 0 <= i < effects.len() implies (#[trigger] effects[i] matches TrackEffectView::ToEntity(
        actor,
        r,
    ) ==> actor.uid != action.source_uid && track.actors.contains(actor) && r == request) by {
        if i >= 1 {
            assert(rest.contains(rest[i - 1]));
        }
    }
    assert forall|j: int|
        0 <= j < track.actors.len() && (#[trigger] track.actors[j]).uid
            != action.source_uid implies effects.contains(
        TrackEffectView::ToEntity(track.actors[j], request),
    ) by {
        assert(rest.contains(track.actors[j]));
        let k = choose|k: int| 0 <= k < rest.len() && rest[k] == track.actors[j];
        assert(effects[k + 1] == TrackEffectView::ToEntity(track.actors[j], request));
    }
    assert forall|i: int, j: int| 0 <= i < effects.len() && 0 <= j < effects.len() && i != j implies effects[i]
        != effects[j] by {
        if i >= 1 && j >= 1 {
            assert(actor_uids(rest)[i - 1] == rest[i - 1].uid);
            assert(actor_uids(rest)[j - 1] == rest[j - 1].uid);
        }
    }
}

/// Adding an entity keeps every identifier single.
pub proof fn lemma_with_actor_keeps_uids_single(actors: Seq<EntityActor>, actor: EntityActor)
    requires
        actor_uids(actors).no_duplicates(),
    ensures
        actor_uids(with_actor(actors, actor)).no_duplicates(),
        actor_uids(with_actor(actors, actor)).contains(actor.uid),
        actor_with(with_actor(actors, actor), actor.uid) == actor,
        actor_uids(actors).contains(actor.uid) ==> with_actor(actors, actor).len() == actors.len(),
{
    let after = with_actor(actors, actor);
    if actor_uids(actors).contains(actor.uid) {
        assert(actor_uids(after) =~= actor_uids(actors));
        let i = choose|i: int| 0 <= i < actor_uids(actors).len() && actor_uids(actors)[i] == actor.uid;
    } else {
        assert(actor_uids(after) =~= actor_uids(actors).push(actor.uid));
        lemma_actor_at(after, actors.len() as int);
    }
}

/// Adding a sending track keeps every identifier single.
pub proof fn lemma_with_send_keeps_uids_single(send_tracks: Seq<SendTrack>, send: SendTrack)
    requires
        send_uids(send_tracks).no_duplicates(),
    ensures
        send_uids(with_send(send_tracks, send)).no_duplicates(),
        send_uids(send_tracks).contains(send.uid) ==> with_send(send_tracks, send).len()
            == send_tracks.len(),
{
    let after = with_send(send_tracks, send);
    if send_uids(send_tracks).contains(send.uid) {
        assert(send_uids(after) =~= send_uids(send_tracks));
    } else {
        assert(send_uids(after) =~= send_uids(send_tracks).push(send.uid));
    }
}

/// Leaving out an entity keeps every identifier single, and leaves nothing
/// behind under the identifier that left.
pub proof fn lemma_others_keeps_uids_single(actors: Seq<EntityActor>, uid: Uid)
    requires
        actor_uids(actors).no_duplicates(),
    ensures
        actor_uids(others(actors, uid)).no_duplicates(),
        !actor_uids(others(actors, uid)).contains(uid),
        others(actors, uid).len() <= actors.len(),
{
    let pred = |actor: EntityActor| actor.uid != uid;
    crate::seqs::lemma_filter_keeps_keys_single(actors, pred, |actor: EntityActor| actor.uid);
    let rest = others(actors, uid);
    assert forall|i: int| 0 <= i < actor_uids(rest).len() implies actor_uids(rest)[i] != uid by {
    }
}

/// Leaving out a sending track keeps every identifier single.
pub proof fn lemma_other_sends_keeps_uids_single(send_tracks: Seq<SendTrack>, uid: TrackUid)
    requires
        send_uids(send_tracks).no_duplicates(),
    ensures
        send_uids(other_sends(send_tracks, uid)).no_duplicates(),
        other_sends(send_tracks, uid).len() <= send_tracks.len(),
{
    let pred = |send: SendTrack| send.uid != uid;
    crate::seqs::lemma_filter_keeps_keys_single(send_tracks, pred, |send: SendTrack| send.uid);
}

/// What becomes of a track, and what it asks for, when `link` is taken away.
pub open spec fn after_unlink(track: TrackView, link: ControlLink) -> (
    TrackView,
    Seq<TrackEffectView>,
) {
    if actor_uids(track.actors).contains(link.source_uid) && actor_uids(track.actors).contains(
        link.target_uid,
    ) {
        (
            TrackView { control_links: other_links(track.control_links, link), ..track },
            unlink_effects(track, link),
        )
    } else {
        (track, Seq::empty())
    }
}

/// What becomes of a track, and what it asks for, when the links of `links`
/// are taken away one after the other.
pub open spec fn after_unlinks(track: TrackView, links: Seq<ControlLink>) -> (
    TrackView,
    Seq<TrackEffectView>,
)
    decreases links.len(),
{
    if links.len() == 0 {
        (track, Seq::empty())
    } else {
        let (before, asked) = after_unlinks(track, links.drop_last());
        let (after, more) = after_unlink(before, links.last());
        (after, asked + more)
    }
}

/// The test that a link leads from or to the entity `uid`.
pub open spec fn touches(uid: Uid) -> spec_fn(ControlLink) -> bool {
    |link: ControlLink| link.source_uid == uid || link.target_uid == uid
}

/// What becomes of a track, and what it asks for, when the entity `uid` is
/// retired: every link from or to it is taken away, in the order in which the
/// links were made; the entity is told to stop working; and it leaves the
/// track.
pub open spec fn after_retire(track: TrackView, uid: Uid) -> (TrackView, Seq<TrackEffectView>) {
    let (unlinked, asked) = after_unlinks(track, track.control_links.filter(touches(uid)));
    if actor_uids(track.actors).contains(uid) {
        let actor = actor_with(track.actors, uid);
        (
            TrackView { actors: others(track.actors, uid), ..unlinked },
            asked + seq![TrackEffectView::ToEntity(actor, EntityRequestView::Quit)]
                + detach_effects(track, actor),
        )
    } else {
        (TrackView { actors: others(track.actors, uid), ..unlinked }, asked)
    }
}

/// Taking links away leaves everything of the track but its links as it was.
pub proof fn lemma_unlinks_touch_only_links(track: TrackView, links: Seq<ControlLink>)
    ensures
        after_unlinks(track, links).0 == (TrackView {
            control_links: after_unlinks(track, links).0.control_links,
            ..track
        }),
    decreases links.len(),
{
    if links.len() > 0 {
        lemma_unlinks_touch_only_links(track, links.drop_last());
    }
}

/// The test that an effect is an action to tell the subscribers.
pub open spec fn is_publish() -> spec_fn(TrackEffect) -> bool {
    |effect: TrackEffect| effect is Publish
}

/// Whether every batch of frames that `effects` carries is within the bound
/// on batches.
pub open spec fn batches_bounded(effects: Seq<TrackEffectView>) -> bool {
    forall|i: int|
        0 <= i < effects.len() ==> match #[trigger] effects[i] {
            TrackEffectView::ToEntity(_, EntityRequestView::NeedsTransformation(frames)) => frames.len()
                <= MAX_BATCH,
            TrackEffectView::ToEntity(_, EntityRequestView::NeedsAudio(count)) => count
                <= MAX_BATCH,
            TrackEffectView::ToSend(_, TrackRequest::NeedsAudio(count)) => count <= MAX_BATCH,
            TrackEffectView::Publish(TrackActionView::Frames(_, frames)) => frames.len()
                <= MAX_BATCH,
            _ => true,
        }
}

/// No message of a generation cycle carries or asks for more frames than a
/// batch may hold, and the track stays as [`track_wf`] asks: this holds of the
/// start of a cycle and of every batch that the track takes in.
pub proof fn lemma_cycle_stays_within_bounds(
    track: TrackView,
    count: usize,
    frames: Seq<StereoSample>,
    track_uid: TrackUid,
)
    requires
        track_wf(track),
    ensures
        track.state is Idle && count <= MAX_BATCH ==> track_wf(after_needs_audio(track, count).0)
            && batches_bounded(after_needs_audio(track, count).1),
        accepts_frames(track, frames) ==> track_wf(after_frames(track, frames).0)
            && batches_bounded(after_frames(track, frames).1),
        track.state is AwaitingSources && track.mixer.is_some() ==> track_wf(
            after_track_frames(track, track_uid, frames).0,
        ) && batches_bounded(after_track_frames(track, track_uid, frames).1),
{
}

} // verus!
