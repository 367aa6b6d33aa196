//! The engine: the tracks, the transport that tells each cycle its stretch of
//! time, and the settings that all of them share.

use crate::seqs::occurrences;
use crate::subscription::{
    kept, kept_through, lemma_kept_through_push, rounds_fit, subscribed, Subscription,
};
use crate::track::{SendTrack, TrackAction, TrackActor, TrackRequest};
use crate::traits::ProvidesActorService;
use crate::types::{
    MidiChannel, MidiMessage, TimeRange, TrackUid, TrackUidFactory, Uid, UidFactory,
};
use crossbeam_channel::Sender;
use vstd::prelude::*;

verus! {

/// The MIDI controller that asks every voice to fall silent.
pub const ALL_NOTES_OFF: u8 = 123;

/// Frames per second.
#[derive(Clone, Copy, Debug, PartialEq, Eq, Structural)]
pub struct SampleRate(pub usize);

/// Beats per minute, in thousandths.
#[derive(Clone, Copy, Debug, PartialEq, Eq, Structural)]
pub struct Tempo(pub u32);

/// The metre: so many beats to the bar, each of such a note value.
#[derive(Clone, Copy, Debug, PartialEq, Eq, Structural)]
pub struct TimeSignature {
    pub top: u8,
    pub bottom: u8,
}

/// The settings that the engine hands down.
#[derive(Clone, Copy, Debug, PartialEq, Eq, Structural)]
pub struct Configurables {
    pub sample_rate: SampleRate,
    pub tempo: Tempo,
    pub time_signature: TimeSignature,
}

/// The clock of the engine: how many frames have gone by while it was
/// performing, and whether it is performing.
#[derive(Clone, Copy, Debug, PartialEq, Eq, Structural)]
pub struct Transport {
    pub position: u64,
    pub is_performing: bool,
}

impl Transport {
    /// The stretch of time that a cycle of `count` frames covers from here.
    pub open spec fn upcoming(self, count: usize) -> TimeRange {
        TimeRange { start: self.position, end: (self.position + count) as u64 }
    }

    /// The clock after a cycle of `count` frames: moved on by as many while it
    /// is performing, and where it was while it is not.
    pub open spec fn advanced(self, count: usize) -> Transport {
        if self.is_performing {
            Transport { position: (self.position + count) as u64, ..self }
        } else {
            self
        }
    }

    /// Whether the clock has room for a cycle of `count` frames.
    pub open spec fn spec_can_advance(&self, count: usize) -> bool {
        self.position + count <= u64::MAX
    }

    #[verifier::when_used_as_spec(spec_can_advance)]
    pub fn can_advance(&self, count: usize) -> (can: bool)
        ensures
            can == self.spec_can_advance(count),
    {
        count as u64 <= u64::MAX - self.position
    }

    /// Tells the stretch of time that a cycle of `count` frames covers, and
    /// moves the clock on to its end if the clock is performing. A clock that
    /// is not performing stays where it is, so that the next cycle is told
    /// the same stretch again.
    pub fn advance(&mut self, count: usize) -> (range: TimeRange)
        requires
            old(self).spec_can_advance(count),
        ensures
            range == old(self).upcoming(count),
            *final(self) == old(self).advanced(count),
    {
        let start = self.position;
        let end = start + count as u64;
        if self.is_performing {
            self.position = end;
        }
        TimeRange { start, end }
    }
}

/// Something the engine wants done as the outcome of a call.
#[derive(Debug)]
pub enum EngineEffect {
    /// Put the request on the channel of every track that the engine
    /// broadcasts to.
    ToAllTracks(TrackRequest),
    /// Put the request on the channel of this track.
    ToTrack(TrackActor, TrackRequest),
    /// Tell this track of a track that is to send to it.
    AddSend(TrackActor, SendTrack),
}

/// Why the engine could not make a track: every identifier has been given
/// out.
#[derive(Clone, Copy, Debug, PartialEq, Eq, Structural)]
pub enum EngineError {
    OutOfTrackUids,
}

/// The engine by its contents.
pub struct EngineView {
    pub master_track: TrackActor,
    /// The ordinary tracks, in the order in which they were made.
    pub tracks: Seq<TrackActor>,
    /// The number that the next track will carry.
    pub upcoming_track: nat,
    /// The number that the next entity will carry.
    pub upcoming_entity: nat,
    /// Where a request to all tracks goes.
    pub track_subscribers: Seq<Sender<TrackRequest>>,
    pub transport: Transport,
    pub config: Configurables,
}

/// The identifiers of `tracks`, in order.
pub open spec fn track_uids(tracks: Seq<TrackActor>) -> Seq<TrackUid> {
    tracks.map_values(|track: TrackActor| track.uid)
}

/// The tracks of `tracks` other than the one that `uid` names, in order.
pub open spec fn other_tracks(tracks: Seq<TrackActor>, uid: TrackUid) -> Seq<TrackActor> {
    tracks.filter(|track: TrackActor| track.uid != uid)
}

/// The track among `tracks` that `uid` names.
pub open spec fn track_with(tracks: Seq<TrackActor>, uid: TrackUid) -> TrackActor
    recommends
        track_uids(tracks).contains(uid),
{
    tracks[choose|i: int| 0 <= i < tracks.len() && (#[trigger] tracks[i]).uid == uid]
}

/// What is expected of an engine at all times: every track carries an
/// identifier that was minted, the aggregating track the earliest, so that
/// none is held twice and none is that of the aggregating track, and no
/// channel is subscribed twice.
pub open spec fn engine_wf(engine: EngineView) -> bool {
    &&& engine.master_track.uid.0 < engine.upcoming_track
    &&& forall|i: int|
        0 <= i < engine.tracks.len() ==> engine.master_track.uid.0 < (
        #[trigger] engine.tracks[i]).uid.0 < engine.upcoming_track
    &&& track_uids(engine.tracks).no_duplicates()
    &&& engine.track_subscribers.no_duplicates()
}

/// What a new cycle of `count` frames asks for: every track does its timed
/// work for the stretch of time, then the aggregating track produces the
/// frames.
pub open spec fn generation_effects(engine: EngineView, count: usize) -> Seq<EngineEffect> {
    seq![
        EngineEffect::ToAllTracks(TrackRequest::Work(engine.transport.upcoming(count))),
        EngineEffect::ToTrack(engine.master_track, TrackRequest::NeedsAudio(count)),
    ]
}

/// What a new track asks for: it sends its actions to the aggregating track,
/// and the aggregating track takes it up as one that sends to it.
pub open spec fn creation_effects(engine: EngineView, track: TrackActor) -> Seq<EngineEffect> {
    seq![
        EngineEffect::ToTrack(track, TrackRequest::Subscribe(engine.master_track.track_actions)),
        EngineEffect::AddSend(
            engine.master_track,
            SendTrack { uid: track.uid, sender: track.requests },
        ),
    ]
}

/// What the end of a track asks for: the aggregating track lets it go, and
/// the track, if the engine holds it, stops sending there and stops working.
pub open spec fn deletion_effects(engine: EngineView, uid: TrackUid) -> Seq<EngineEffect> {
    let release = seq![
        EngineEffect::ToTrack(engine.master_track, TrackRequest::RemoveSend(uid)),
    ];
    if track_uids(engine.tracks).contains(uid) {
        let track = track_with(engine.tracks, uid);
        release + seq![
            EngineEffect::ToTrack(
                track,
                TrackRequest::Unsubscribe(engine.master_track.track_actions),
            ),
            EngineEffect::ToTrack(track, TrackRequest::Quit),
        ]
    } else {
        release
    }
}

/// The engine: it holds a handle on every track and broadcasts to them.
#[derive(Debug)]
pub struct Engine {
    master_track: TrackActor,
    tracks: Vec<TrackActor>,
    track_uid_factory: TrackUidFactory,
    entity_uid_factory: UidFactory,
    track_subscription: Subscription<TrackRequest>,
    transport: Transport,
    c: Configurables,
}

impl View for Engine {
    type V = EngineView;

    closed spec fn view(&self) -> EngineView {
        EngineView {
            master_track: self.master_track,
            tracks: self.tracks@,
            upcoming_track: self.track_uid_factory.upcoming(),
            upcoming_entity: self.entity_uid_factory.upcoming(),
            track_subscribers: self.track_subscription@,
            transport: self.transport,
            config: self.c,
        }
    }
}

impl Engine {
    /// An engine around the aggregating track, which is the worker that
    /// listens on the channels given. The engine mints the identifier of that
    /// track from `track_uid_factory` and broadcasts to it; the clock stands
    /// at zero. Fails once every track identifier has been given out.
    pub fn new_with_sender(
        requests: Sender<TrackRequest>,
        track_actions: Sender<TrackAction>,
        sends: Sender<SendTrack>,
        config: Configurables,
        track_uid_factory: TrackUidFactory,
        entity_uid_factory: UidFactory,
    ) -> (result: Result<Engine, EngineError>)
        ensures
            track_uid_factory.upcoming() < usize::MAX ==> (result matches Ok(engine) && engine_wf(
                engine@,
            ) && engine@ == (EngineView {
                master_track: TrackActor {
                    uid: TrackUid(track_uid_factory.upcoming() as usize),
                    requests,
                    track_actions,
                    sends,
                },
                tracks: Seq::empty(),
                upcoming_track: track_uid_factory.upcoming() + 1,
                upcoming_entity: entity_uid_factory.upcoming(),
                track_subscribers: seq![requests],
                transport: Transport { position: 0, is_performing: false },
                config,
            })),
            track_uid_factory.upcoming() >= usize::MAX ==> (result matches Err(error) && error
                == EngineError::OutOfTrackUids),
    {
        let mut track_uid_factory = track_uid_factory;
        match track_uid_factory.mint_next() {
            Some(uid) => {
                let master_track = TrackActor { uid, requests, track_actions, sends };
                let mut track_subscription: Subscription<TrackRequest> = Subscription::default();
                track_subscription.subscribe(master_track.sender());
                let engine = Engine {
                    master_track,
                    tracks: Vec::new(),
                    track_uid_factory,
                    entity_uid_factory,
                    track_subscription,
                    transport: Transport { position: 0, is_performing: false },
                    c: config,
                };
                Ok(engine)
            },
            None => Err(EngineError::OutOfTrackUids),
        }
    }

    /// The settings as they are.
    pub fn config(&self) -> (config: Configurables)
        ensures
            config == self@.config,
    {
        self.c
    }

    /// The clock as it is.
    pub fn transport(&self) -> (transport: Transport)
        ensures
            transport == self@.transport,
    {
        self.transport
    }

    /// The handle on the aggregating track.
    pub fn master_track(&self) -> (track: &TrackActor)
        ensures
            *track == self@.master_track,
    {
        &self.master_track
    }

    /// The number of ordinary tracks.
    pub fn track_count(&self) -> (count: usize)
        ensures
            count == self@.tracks.len(),
    {
        self.tracks.len()
    }

    pub fn update_sample_rate(&mut self, sample_rate: SampleRate)
        ensures
            final(self)@ == (EngineView {
                config: Configurables { sample_rate, ..old(self)@.config },
                ..old(self)@
            }),
    {
        self.c.sample_rate = sample_rate;
    }

    pub fn update_tempo(&mut self, tempo: Tempo)
        ensures
            final(self)@ == (EngineView {
                config: Configurables { tempo, ..old(self)@.config },
                ..old(self)@
            }),
    {
        self.c.tempo = tempo;
    }

    pub fn update_time_signature(&mut self, time_signature: TimeSignature)
        ensures
            final(self)@ == (EngineView {
                config: Configurables { time_signature, ..old(self)@.config },
                ..old(self)@
            }),
    {
        self.c.time_signature = time_signature;
    }

    /// Starts the clock.
    pub fn play(&mut self)
        ensures
            final(self)@ == (EngineView {
                transport: Transport { is_performing: true, ..old(self)@.transport },
                ..old(self)@
            }),
    {
        self.transport.is_performing = true;
    }

    /// Sets the clock back to zero.
    pub fn skip_to_start(&mut self)
        ensures
            final(self)@ == (EngineView {
                transport: Transport { position: 0, ..old(self)@.transport },
                ..old(self)@
            }),
    {
        self.transport.position = 0;
    }

    /// Whether the clock is running.
    pub fn is_performing(&self) -> (performing: bool)
        ensures
            performing == self@.transport.is_performing,
    {
        self.transport.is_performing
    }

    /// Stops the clock and asks every track to silence its voices.
    pub fn stop(&mut self) -> (effects: Vec<EngineEffect>)
        ensures
            final(self)@ == (EngineView {
                transport: Transport { is_performing: false, ..old(self)@.transport },
                ..old(self)@
            }),
            effects@ == seq![
                EngineEffect::ToAllTracks(
                    TrackRequest::Midi(
                        MidiChannel(0),
                        MidiMessage::Controller { controller: ALL_NOTES_OFF, value: 0 },
                    ),
                ),
            ],
    {
        self.transport.is_performing = false;
        let mut effects: Vec<EngineEffect> = Vec::new();
        effects.push(
            EngineEffect::ToAllTracks(
                TrackRequest::Midi(
                    MidiChannel(0),
                    MidiMessage::Controller { controller: ALL_NOTES_OFF, value: 0 },
                ),
            ),
        );
        effects
    }

    /// Hands an incoming MIDI message to every track.
    pub fn handle_midi_message(&self, channel: MidiChannel, message: MidiMessage) -> (effects: Vec<
        EngineEffect,
    >)
        ensures
            effects@ == seq![EngineEffect::ToAllTracks(TrackRequest::Midi(channel, message))],
    {
        let mut effects: Vec<EngineEffect> = Vec::new();
        effects.push(EngineEffect::ToAllTracks(TrackRequest::Midi(channel, message)));
        effects
    }

    /// Asks every track to stop working.
    pub fn request_quit(&self) -> (effects: Vec<EngineEffect>)
        ensures
            effects@ == seq![EngineEffect::ToAllTracks(TrackRequest::Quit)],
    {
        let mut effects: Vec<EngineEffect> = Vec::new();
        effects.push(EngineEffect::ToAllTracks(TrackRequest::Quit));
        effects
    }

    /// Starts a cycle of `count` frames: the clock tells the stretch of time
    /// and moves on if it is performing, every track is asked to do its timed
    /// work for that stretch, and the aggregating track is asked for the
    /// frames.
    pub fn start_generation(&mut self, count: usize) -> (effects: Vec<EngineEffect>)
        requires
            old(self)@.transport.spec_can_advance(count),
        ensures
            final(self)@ == (EngineView {
                transport: old(self)@.transport.advanced(count),
                ..old(self)@
            }),
            effects@ == generation_effects(old(self)@, count),
    {
        let time_range = self.transport.advance(count);
        let mut effects: Vec<EngineEffect> = Vec::new();
        effects.push(EngineEffect::ToAllTracks(TrackRequest::Work(time_range)));
        effects.push(
            EngineEffect::ToTrack(self.master_track.duplicate(), TrackRequest::NeedsAudio(count)),
        );
        effects
    }

    /// Mints the identifier for the next entity; none once every number has
    /// been given out.
    pub fn mint_entity_uid(&mut self) -> (minted: Option<Uid>)
        ensures
            old(self)@.upcoming_entity < usize::MAX ==> minted == Some(
                Uid(old(self)@.upcoming_entity as usize),
            ) && final(self)@ == (EngineView {
                upcoming_entity: old(self)@.upcoming_entity + 1,
                ..old(self)@
            }),
            old(self)@.upcoming_entity >= usize::MAX ==> minted.is_none() && final(self)@ == old(
                self,
            )@,
    {
        self.entity_uid_factory.mint_next()
    }

    fn find_track(&self, uid: TrackUid) -> (found: Option<usize>)
        requires
            track_uids(self@.tracks).no_duplicates(),
        ensures
            found matches Some(i) ==> i < self@.tracks.len() && self@.tracks[i as int].uid == uid
                && track_with(self@.tracks, uid) == self@.tracks[i as int],
            found.is_some() == track_uids(self@.tracks).contains(uid),
    {
        let mut i: usize = 0;
        while i < self.tracks.len()
            invariant
                i <= self.tracks.len(),
                track_uids(self@.tracks).no_duplicates(),
                forall|j: int| 0 <= j < i ==> self.tracks@[j].uid != uid,
            decreases self.tracks.len() - i,
        {
            if self.tracks[i].uid == uid {
                proof {
                    assert(track_uids(self@.tracks)[i as int] == uid);
                    let j = choose|j: int|
                        0 <= j < self@.tracks.len() && (#[trigger] self@.tracks[j]).uid == uid;
                    assert(track_uids(self@.tracks)[j] == uid);
                }
                return Some(i);
            }
            i += 1;
        }
        assert forall|j: int| 0 <= j < track_uids(self@.tracks).len() implies track_uids(
            self@.tracks,
        )[j] != uid by {
        }
        None
    }

    /// Takes a new track into the engine. The track is the worker that
    /// listens on the channels given; the engine mints its identifier, which
    /// no track has had before, broadcasts to it from now on, and has it wired
    /// to the aggregating track. Fails, and changes nothing, once every
    /// identifier has been given out.
    pub fn create_track(
        &mut self,
        requests: Sender<TrackRequest>,
        track_actions: Sender<TrackAction>,
        sends: Sender<SendTrack>,
    ) -> (result: Result<(TrackUid, Vec<EngineEffect>), EngineError>)
        requires
            engine_wf(old(self)@),
        ensures
            engine_wf(final(self)@),
            old(self)@.upcoming_track < usize::MAX ==> {
                let uid = TrackUid(old(self)@.upcoming_track as usize);
                let track = TrackActor { uid, requests, track_actions, sends };
                &&& result matches Ok(made) && made.0 == uid && made.1@ == creation_effects(
                    old(self)@,
                    track,
                )
                &&& uid != old(self)@.master_track.uid
                &&& !track_uids(old(self)@.tracks).contains(uid)
                &&& final(self)@ == (EngineView {
                    tracks: old(self)@.tracks.push(track),
                    upcoming_track: old(self)@.upcoming_track + 1,
                    track_subscribers: subscribed(old(self)@.track_subscribers, requests),
                    ..old(self)@
                })
            },
            old(self)@.upcoming_track >= usize::MAX ==> result == Err::<
                (TrackUid, Vec<EngineEffect>),
                EngineError,
            >(EngineError::OutOfTrackUids) && final(self)@ == old(self)@,
    {
        match self.track_uid_factory.mint_next() {
            Some(track_uid) => {
                let track_actor = TrackActor { uid: track_uid, requests, track_actions, sends };
                let mut effects: Vec<EngineEffect> = Vec::new();
                effects.push(
                    EngineEffect::ToTrack(
                        track_actor.duplicate(),
                        TrackRequest::Subscribe(self.master_track.action_sender().clone()),
                    ),
                );
                effects.push(
                    EngineEffect::AddSend(self.master_track.duplicate(), track_actor.as_send()),
                );
                self.track_subscription.subscribe(track_actor.sender());
                proof {
                    let before = track_uids(self.tracks@);
                    assert(track_uids(self.tracks@.push(track_actor)) =~= before.push(track_uid));
                    assert forall|i: int| 0 <= i < before.len() implies before[i] != track_uid by {
                    }
                    assert forall|i: int|
                        0 <= i < self.tracks@.push(track_actor).len() implies self.master_track.uid.0 < (
                    #[trigger] self.tracks@.push(track_actor)[i]).uid.0 < track_uid.0 + 1 by {
                    }
                }
                self.tracks.push(track_actor);
                Ok((track_uid, effects))
            },
            None => Err(EngineError::OutOfTrackUids),
        }
    }

    /// Lets the track `uid` go: it leaves the list of tracks, the aggregating
    /// track is told to let it go, and the track itself to stop.
    pub fn delete_track(&mut self, uid: TrackUid) -> (effects: Vec<EngineEffect>)
        requires
            engine_wf(old(self)@),
        ensures
            engine_wf(final(self)@),
            final(self)@ == (EngineView {
                tracks: other_tracks(old(self)@.tracks, uid),
                ..old(self)@
            }),
            effects@ == deletion_effects(old(self)@, uid),
    {
        let mut effects: Vec<EngineEffect> = Vec::new();
        effects.push(
            EngineEffect::ToTrack(self.master_track.duplicate(), TrackRequest::RemoveSend(uid)),
        );
        if let Some(i) = self.find_track(uid) {
            effects.push(
                EngineEffect::ToTrack(
                    self.tracks[i].duplicate(),
                    TrackRequest::Unsubscribe(self.master_track.action_sender().clone()),
                ),
            );
            effects.push(EngineEffect::ToTrack(self.tracks[i].duplicate(), TrackRequest::Quit));
        }
        let mut staying: Vec<TrackActor> = Vec::new();
        let mut i: usize = 0;
        while i < self.tracks.len()
            invariant
                i <= self.tracks.len(),
                *self == *old(self),
                staying@ == other_tracks(self.tracks@.take(i as int), uid),
            decreases self.tracks.len() - i,
        {
            proof {
                crate::seqs::lemma_filter_push(
                    self.tracks@.take(i as int),
                    self.tracks@[i as int],
                    |track: TrackActor| track.uid != uid,
                );
                assert(self.tracks@.take(i as int).push(self.tracks@[i as int])
                    =~= self.tracks@.take(i as int + 1));
            }
            if self.tracks[i].uid != uid {
                staying.push(self.tracks[i].duplicate());
            }
            i += 1;
        }
        proof {
            assert(self.tracks@.take(i as int) =~= self.tracks@);
            lemma_other_tracks_stay_well(
                self@.tracks,
                uid,
                self@.master_track.uid.0 as nat,
                self@.upcoming_track,
            );
        }
        self.tracks = staying;
        effects
    }

    /// Carries out what a call asked for: puts each request on the channel it
    /// is meant for, in the order of `effects`. A request that a channel
    /// refuses is dropped. Each request to all tracks makes one round of
    /// deliveries, with one outcome for every track that the engine
    /// broadcasts to at the time, and a track whose channel refuses is dropped
    /// from those in that round. What the channels answer is their own
    /// affair; whatever they answer, the tracks that the engine broadcasts to
    /// afterwards are those that [`kept_through`] names for the rounds, and
    /// nothing else of the engine changes.
    pub fn perform(&mut self, effects: Vec<EngineEffect>)
        requires
            engine_wf(old(self)@),
        ensures
            engine_wf(final(self)@),
            final(self)@ == (EngineView {
                track_subscribers: final(self)@.track_subscribers,
                ..old(self)@
            }),
            exists|rounds: Seq<Seq<bool>>|
                rounds.len() == occurrences(effects@, is_broadcast()) && rounds_fit(
                    old(self)@.track_subscribers,
                    rounds,
                ) && final(self)@.track_subscribers == #[trigger] kept_through(
                    old(self)@.track_subscribers,
                    rounds,
                ),
    {
        let ghost all = effects@;
        let ghost mut rounds: Seq<Seq<bool>> = Seq::empty();
        let ghost mut done: int = 0;
        let mut rest = effects;
        while rest.len() > 0
            invariant
                engine_wf(self@),
                0 <= done <= all.len(),
                rest@ == all.skip(done),
                self@ == (EngineView { track_subscribers: self@.track_subscribers, ..old(self)@ }),
                rounds.len() == occurrences(all.take(done), is_broadcast()),
                rounds_fit(old(self)@.track_subscribers, rounds),
                self@.track_subscribers == kept_through(old(self)@.track_subscribers, rounds),
            decreases rest.len(),
        {
            let effect = rest.remove(0);
            proof {
                assert(all.take(done + 1) =~= all.take(done).push(all[done]));
                crate::seqs::lemma_occurrences_push(all.take(done), all[done], is_broadcast());
                done = done + 1;
            }
            match effect {
                EngineEffect::ToAllTracks(request) => {
                    let ghost before = self@.track_subscribers;
                    self.track_subscription.broadcast_mut(request);
                    proof {
                        let accepted = choose|accepted: Seq<bool>|
                            accepted.len() == before.len() && self@.track_subscribers
                                == #[trigger] kept(before, accepted);
                        lemma_kept_through_push(old(self)@.track_subscribers, rounds, accepted);
                        rounds = rounds.push(accepted);
                    }
                },
                EngineEffect::ToTrack(track, request) => {
                    track.send_request(request);
                },
                EngineEffect::AddSend(track, send) => {
                    let _ = crate::channel::try_send(&track.sends, send);
                },
            }
        }
    }
}

/// The test that an effect is a request to all tracks.
pub open spec fn is_broadcast() -> spec_fn(EngineEffect) -> bool {
    |effect: EngineEffect| effect is ToAllTracks
}

/// Leaving out a track keeps what is expected of the list of tracks.
pub proof fn lemma_other_tracks_stay_well(
    tracks: Seq<TrackActor>,
    uid: TrackUid,
    first: nat,
    upcoming: nat,
)
    requires
        track_uids(tracks).no_duplicates(),
        forall|i: int| 0 <= i < tracks.len() ==> first < (#[trigger] tracks[i]).uid.0 < upcoming,
    ensures
        track_uids(other_tracks(tracks, uid)).no_duplicates(),
        !track_uids(other_tracks(tracks, uid)).contains(uid),
        forall|i: int|
            0 <= i < other_tracks(tracks, uid).len() ==> first < (#[trigger] other_tracks(
                tracks,
                uid,
            )[i]).uid.0 < upcoming,
{
    let pred = |track: TrackActor| track.uid != uid;
    crate::seqs::lemma_filter_is_within(tracks, pred);
    crate::seqs::lemma_filter_keeps_keys_single(tracks, pred, |track: TrackActor| track.uid);
    let out = other_tracks(tracks, uid);
    assert forall|i: int| 0 <= i < out.len() implies first < (#[trigger] out[i]).uid.0
        < upcoming by {
        assert(out.contains(out[i]));
    }
    assert forall|i: int| 0 <= i < track_uids(out).len() implies track_uids(out)[i] != uid by {
    }
}

} // verus!
