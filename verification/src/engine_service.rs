//! The bridge between the audio device, which asks for frames as its queue
//! runs low, and the engine, which produces them in cycles of bounded size.
//!
//! The bridge keeps count of the frames that are still owed. A cycle never
//! covers more frames than a batch may hold; when a batch comes back while
//! frames are still owed, the next cycle starts at once.

use crate::actions::views;
use crate::engine::{
    generation_effects, is_broadcast, Engine, EngineEffect, EngineView, SampleRate,
};
use crate::queue::{push_frames, AudioQueue};
use crate::sample::{StereoSample, MAX_BATCH};
use crate::seqs::occurrences;
use crate::subscription::{kept_through, lemma_kept_through_add, rounds_fit};
use crate::types::{MidiChannel, MidiMessage};
use crate::wav_writer::{WavWriterInput, WavWriterInputView};
use crossbeam_channel::Sender;
use vstd::prelude::*;

verus! {

/// What the client tells the bridge.
#[derive(Debug)]
pub enum EngineServiceInput {
    /// The audio device was set up anew: its sample rate, its number of
    /// channels, and the queue that it takes frames from.
    Configure(SampleRate, u16, AudioQueue),
    /// A MIDI message arrived from outside.
    Midi(MidiChannel, MidiMessage),
    /// The queue of the audio device has room for this many frames more.
    AudioQueueNeedsAudio(usize),
    /// The bridge is to stop.
    Quit,
}

/// What the bridge tells the client.
#[derive(Clone, Copy, Debug, PartialEq, Eq, Structural)]
pub enum EngineServiceEvent {
    /// The engine has started up.
    Reset,
    /// The engine produced a MIDI message.
    Midi(MidiChannel, MidiMessage),
}

/// Something the bridge wants done as the outcome of handling a message.
#[derive(Debug)]
pub enum ServiceEffect {
    /// The engine is to do this.
    Engine(EngineEffect),
    /// The recorder is to take this.
    Writer(WavWriterInput),
    /// The client is to hear of this.
    Event(EngineServiceEvent),
}

/// A [`ServiceEffect`] by its contents.
pub enum ServiceEffectView {
    Engine(EngineEffect),
    Writer(WavWriterInputView),
    Event(EngineServiceEvent),
}

impl View for ServiceEffect {
    type V = ServiceEffectView;

    open spec fn view(&self) -> ServiceEffectView {
        match *self {
            ServiceEffect::Engine(effect) => ServiceEffectView::Engine(effect),
            ServiceEffect::Writer(input) => ServiceEffectView::Writer(input@),
            ServiceEffect::Event(event) => ServiceEffectView::Event(event),
        }
    }
}

/// The bridge by its contents.
pub struct EngineServiceView {
    pub engine: EngineView,
    pub audio_queue: Option<AudioQueue>,
    /// The frames that the audio device has asked for and not yet got.
    pub frames_requested: nat,
}

/// The size of the cycle that is started while `frames_requested` frames are
/// owed: all of them, but no more than a batch may hold.
pub open spec fn cycle_size(frames_requested: nat) -> usize {
    if frames_requested < MAX_BATCH {
        frames_requested as usize
    } else {
        MAX_BATCH
    }
}

/// The cycle that a call for `count` frames starts while `frames_requested`
/// frames are owed: none while frames are owed, since then a cycle is under
/// way.
pub open spec fn notice_starts(frames_requested: nat, count: nat) -> Option<usize> {
    if frames_requested == 0 {
        Some(cycle_size(count))
    } else {
        None
    }
}

/// The frames that are owed after a batch of `length` frames has come in.
pub open spec fn owed_after_batch(frames_requested: nat, length: nat) -> nat {
    if frames_requested > length {
        (frames_requested - length) as nat
    } else {
        0
    }
}

/// The cycle that starts when a batch of `length` frames has come in: none
/// when nothing is owed any more.
pub open spec fn batch_starts(frames_requested: nat, length: nat) -> Option<usize> {
    if frames_requested > length {
        Some(cycle_size((frames_requested - length) as nat))
    } else {
        None
    }
}

/// Each effect of the engine as an effect of the bridge.
pub open spec fn of_engine(effects: Seq<EngineEffect>) -> Seq<ServiceEffectView> {
    effects.map_values(|effect: EngineEffect| ServiceEffectView::Engine(effect))
}

/// The engine after it has started a cycle of `count` frames.
pub open spec fn engine_after_generation(engine: EngineView, count: usize) -> EngineView {
    EngineView { transport: engine.transport.advanced(count), ..engine }
}

/// The bridge after it has started the cycle `starts`, if any, and what
/// starting it asks for.
pub open spec fn with_cycle(service: EngineServiceView, starts: Option<usize>) -> (
    EngineServiceView,
    Seq<ServiceEffectView>,
) {
    match starts {
        Some(count) => (
            EngineServiceView { engine: engine_after_generation(service.engine, count), ..service },
            of_engine(generation_effects(service.engine, count)),
        ),
        None => (service, Seq::empty()),
    }
}

/// What becomes of the bridge, and what it asks for, when an input reaches it.
pub open spec fn after_service_input(service: EngineServiceView, input: EngineServiceInput) -> (
    EngineServiceView,
    Seq<ServiceEffectView>,
) {
    match input {
        EngineServiceInput::Configure(sample_rate, channel_count, queue) => (
            EngineServiceView {
                audio_queue: Some(queue),
                engine: EngineView {
                    config: crate::engine::Configurables {
                        sample_rate,
                        ..service.engine.config
                    },
                    ..service.engine
                },
                ..service
            },
            seq![ServiceEffectView::Writer(WavWriterInputView::Reset(sample_rate, channel_count))],
        ),
        EngineServiceInput::Midi(channel, message) => (
            service,
            seq![
                ServiceEffectView::Engine(
                    EngineEffect::ToAllTracks(crate::track::TrackRequest::Midi(channel, message)),
                ),
            ],
        ),
        EngineServiceInput::AudioQueueNeedsAudio(count) => with_cycle(
            EngineServiceView {
                frames_requested: service.frames_requested + count as nat,
                ..service
            },
            notice_starts(service.frames_requested, count as nat),
        ),
        EngineServiceInput::Quit => (
            service,
            seq![
                ServiceEffectView::Engine(
                    EngineEffect::ToAllTracks(crate::track::TrackRequest::Quit),
                ),
                ServiceEffectView::Writer(WavWriterInputView::Quit),
            ],
        ),
    }
}

/// What becomes of the bridge, and what it asks for, when the batch that a
/// cycle produced comes in: the recorder gets the batch, the count of frames
/// owed goes down by its length, and while frames are still owed the next
/// cycle starts.
pub open spec fn after_batch(service: EngineServiceView, frames: Seq<StereoSample>) -> (
    EngineServiceView,
    Seq<ServiceEffectView>,
) {
    let (next, asked) = with_cycle(
        EngineServiceView {
            frames_requested: owed_after_batch(service.frames_requested, frames.len()),
            ..service
        },
        batch_starts(service.frames_requested, frames.len()),
    );
    (next, seq![ServiceEffectView::Writer(WavWriterInputView::Frames(frames))] + asked)
}

/// Whether the bridge can take `input` as it stands: the count of frames owed
/// and the clock have room for what it asks.
pub open spec fn accepts_input(service: EngineServiceView, input: EngineServiceInput) -> bool {
    input matches EngineServiceInput::AudioQueueNeedsAudio(count) ==> service.frames_requested
        + count <= usize::MAX && service.engine.transport.spec_can_advance(MAX_BATCH)
}

/// No cycle covers more frames than a batch may hold, nor more than are owed.
pub proof fn lemma_cycle_is_bounded(frames_requested: nat)
    ensures
        cycle_size(frames_requested) <= MAX_BATCH,
        cycle_size(frames_requested) <= frames_requested,
        frames_requested >= 1 ==> cycle_size(frames_requested) >= 1,
{
}

/// The state and the owned data of the bridge.
#[derive(Debug)]
pub struct EngineService {
    engine: Engine,
    audio_queue: Option<AudioQueue>,
    frames_requested: usize,
    writer: Sender<WavWriterInput>,
    events: Sender<EngineServiceEvent>,
}

impl View for EngineService {
    type V = EngineServiceView;

    closed spec fn view(&self) -> EngineServiceView {
        EngineServiceView {
            engine: self.engine@,
            audio_queue: self.audio_queue,
            frames_requested: self.frames_requested as nat,
        }
    }
}

impl EngineService {
    /// A bridge around `engine` that owes no frames and has no queue yet. It
    /// will hand batches to the recorder that listens on `writer`, and tell
    /// the client on `events`.
    pub fn new(
        engine: Engine,
        writer: Sender<WavWriterInput>,
        events: Sender<EngineServiceEvent>,
    ) -> (service: Self)
        ensures
            service@ == (EngineServiceView {
                engine: engine@,
                audio_queue: None,
                frames_requested: 0,
            }),
    {
        EngineService { engine, audio_queue: None, frames_requested: 0, writer, events }
    }

    /// The engine.
    pub fn engine(&self) -> (engine: &Engine)
        ensures
            engine@ == self@.engine,
    {
        &self.engine
    }

    /// The engine, to work on.
    pub fn engine_mut(&mut self) -> (engine: &mut Engine)
        ensures
            engine@ == old(self)@.engine,
            final(self)@ == (EngineServiceView { engine: final(engine)@, ..old(self)@ }),
    {
        &mut self.engine
    }

    /// The frames that the audio device has asked for and not yet got.
    pub fn frames_requested(&self) -> (frames: usize)
        ensures
            frames == self@.frames_requested,
    {
        self.frames_requested
    }

    /// Whether the bridge can take `input` as it stands.
    pub fn can_accept(&self, input: &EngineServiceInput) -> (accepted: bool)
        ensures
            accepted == accepts_input(self@, *input),
    {
        match input {
            EngineServiceInput::AudioQueueNeedsAudio(count) => {
                *count <= usize::MAX - self.frames_requested && self.engine.transport().can_advance(
                    MAX_BATCH,
                )
            },
            _ => true,
        }
    }

    fn wrap(effects: Vec<EngineEffect>) -> (wrapped: Vec<ServiceEffect>)
        ensures
            views(wrapped@) == of_engine(effects@),
    {
        let mut rest = effects;
        let mut wrapped: Vec<ServiceEffect> = Vec::new();
        while rest.len() > 0
            invariant
                views(wrapped@) + of_engine(rest@) == of_engine(effects@),
            decreases rest.len(),
        {
            let effect = rest.remove(0);
            wrapped.push(ServiceEffect::Engine(effect));
        }
        wrapped
    }

    fn start_cycle(&mut self, count: usize) -> (effects: Vec<ServiceEffect>)
        requires
            old(self)@.engine.transport.spec_can_advance(count),
        ensures
            (final(self)@, views(effects@)) == with_cycle(old(self)@, Some(count)),
    {
        Self::wrap(self.engine.start_generation(count))
    }

    /// Handles one input from the client. Says what is to be done in
    /// consequence, and whether the bridge is to stop.
    pub fn handle_input(&mut self, input: EngineServiceInput) -> (outcome: (Vec<ServiceEffect>, bool))
        requires
            accepts_input(old(self)@, input),
        ensures
            (final(self)@, views(outcome.0@)) == after_service_input(old(self)@, input),
            outcome.1 == (input is Quit),
    {
        match input {
            EngineServiceInput::Configure(sample_rate, channel_count, new_audio_queue) => {
                self.audio_queue = Some(new_audio_queue);
                self.engine.update_sample_rate(sample_rate);
                let mut effects: Vec<ServiceEffect> = Vec::new();
                effects.push(ServiceEffect::Writer(WavWriterInput::Reset(sample_rate, channel_count)));
                (effects, false)
            },
            EngineServiceInput::Midi(channel, message) => {
                let effects = Self::wrap(self.engine.handle_midi_message(channel, message));
                (effects, false)
            },
            EngineServiceInput::AudioQueueNeedsAudio(count) => {
                let start_generation = self.frames_requested == 0;
                self.frames_requested = self.frames_requested + count;
                if start_generation {
                    let size = if self.frames_requested < MAX_BATCH {
                        self.frames_requested
                    } else {
                        MAX_BATCH
                    };
                    (self.start_cycle(size), false)
                } else {
                    let effects: Vec<ServiceEffect> = Vec::new();
                    (effects, false)
                }
            },
            EngineServiceInput::Quit => {
                let mut effects = Self::wrap(self.engine.request_quit());
                let ghost before = views(effects@);
                effects.push(ServiceEffect::Writer(WavWriterInput::Quit));
                assert(views(effects@) =~= before.push(
                    ServiceEffectView::Writer(WavWriterInputView::Quit),
                ));
                (effects, true)
            },
        }
    }

    /// Takes the batch that a cycle produced: every frame goes into the queue
    /// of the audio device, where there is one, and the batch goes to the
    /// recorder. Tells what is to be done in consequence, and how many frames
    /// of the queue had to make room.
    pub fn handle_frames(&mut self, frames: Vec<StereoSample>) -> (outcome: (Vec<ServiceEffect>, usize))
        requires
            frames@.len() <= MAX_BATCH,
            old(self)@.engine.transport.spec_can_advance(MAX_BATCH),
        ensures
            (final(self)@, views(outcome.0@)) == after_batch(old(self)@, frames@),
            outcome.1 <= frames@.len(),
            old(self)@.audio_queue.is_none() ==> outcome.1 == 0,
    {
        let frames_len = frames.len();
        let displaced = match &self.audio_queue {
            Some(queue) => push_frames(queue, &frames),
            None => 0,
        };
        let mut effects: Vec<ServiceEffect> = Vec::new();
        effects.push(ServiceEffect::Writer(WavWriterInput::Frames(frames)));
        if self.frames_requested > frames_len {
            self.frames_requested = self.frames_requested - frames_len;
            let size = if self.frames_requested < MAX_BATCH {
                self.frames_requested
            } else {
                MAX_BATCH
            };
            let mut more = self.start_cycle(size);
            effects.append(&mut more);
        } else {
            self.frames_requested = 0;
        }
        (effects, displaced)
    }

    /// Passes on to the client a MIDI message that the engine produced.
    pub fn handle_midi_action(&self, channel: MidiChannel, message: MidiMessage) -> (effects: Vec<
        ServiceEffect,
    >)
        ensures
            views(effects@) == seq![
                ServiceEffectView::Event(EngineServiceEvent::Midi(channel, message)),
            ],
    {
        let mut effects: Vec<ServiceEffect> = Vec::new();
        effects.push(ServiceEffect::Event(EngineServiceEvent::Midi(channel, message)));
        effects
    }

    /// Carries out what a handler asked for, in the order of `effects`: has
    /// the engine put requests on the channels of its tracks, hands inputs to
    /// the recorder, and tells the client. What a channel refuses is dropped.
    /// Each request to all tracks makes one round of deliveries, in which a
    /// track whose channel refuses is dropped from those that the engine
    /// broadcasts to. Whatever the channels answer, the tracks that the
    /// engine broadcasts to afterwards are those that [`kept_through`] names
    /// for the rounds, and nothing else of the bridge changes.
    pub fn perform(&mut self, effects: Vec<ServiceEffect>)
        requires
            crate::engine::engine_wf(old(self)@.engine),
        ensures
            crate::engine::engine_wf(final(self)@.engine),
            final(self)@ == (EngineServiceView {
                engine: EngineView {
                    track_subscribers: final(self)@.engine.track_subscribers,
                    ..old(self)@.engine
                },
                ..old(self)@
            }),
            exists|rounds: Seq<Seq<bool>>|
                rounds.len() == occurrences(effects@, is_engine_broadcast()) && rounds_fit(
                    old(self)@.engine.track_subscribers,
                    rounds,
                ) && final(self)@.engine.track_subscribers == #[trigger] kept_through(
                    old(self)@.engine.track_subscribers,
                    rounds,
                ),
    {
        let ghost all = effects@;
        let ghost start = self@.engine.track_subscribers;
        let ghost mut rounds: Seq<Seq<bool>> = Seq::empty();
        let ghost mut done: int = 0;
        let mut rest = effects;
        while rest.len() > 0
            invariant
                crate::engine::engine_wf(self@.engine),
                0 <= done <= all.len(),
                rest@ == all.skip(done),
                start == old(self)@.engine.track_subscribers,
                self@ == (EngineServiceView {
                    engine: EngineView {
                        track_subscribers: self@.engine.track_subscribers,
                        ..old(self)@.engine
                    },
                    ..old(self)@
                }),
                rounds.len() == occurrences(all.take(done), is_engine_broadcast()),
                rounds_fit(start, rounds),
                self@.engine.track_subscribers == kept_through(start, rounds),
            decreases rest.len(),
        {
            let effect = rest.remove(0);
            proof {
                assert(all.take(done + 1) =~= all.take(done).push(all[done]));
                crate::seqs::lemma_occurrences_push(
                    all.take(done),
                    all[done],
                    is_engine_broadcast(),
                );
                done = done + 1;
            }
            match effect {
                ServiceEffect::Engine(engine_effect) => {
                    let ghost before = self@.engine.track_subscribers;
                    let mut one: Vec<EngineEffect> = Vec::new();
                    one.push(engine_effect);
                    proof {
                        crate::seqs::lemma_occurrences_push(
                            Seq::<EngineEffect>::empty(),
                            engine_effect,
                            is_broadcast(),
                        );
                    }
                    self.engine.perform(one);
                    proof {
                        let more = choose|more: Seq<Seq<bool>>|
                            more.len() == occurrences(one@, is_broadcast()) && rounds_fit(
                                before,
                                more,
                            ) && self@.engine.track_subscribers == #[trigger] kept_through(
                                before,
                                more,
                            );
                        lemma_kept_through_add(start, rounds, more);
                        rounds = rounds + more;
                    }
                },
                ServiceEffect::Writer(input) => {
                    let _ = crate::channel::try_send(&self.writer, input);
                },
                ServiceEffect::Event(event) => {
                    let _ = crate::channel::try_send(&self.events, event);
                },
            }
        }
    }
}

/// The test that an effect is a request of the engine to all its tracks.
pub open spec fn is_engine_broadcast() -> spec_fn(ServiceEffect) -> bool {
    |effect: ServiceEffect| effect matches ServiceEffect::Engine(inner) && inner is ToAllTracks
}

/// Something that happens to the bridge, as far as its count of frames goes.
pub enum BridgeEvent {
    /// The audio device asks for this many frames.
    Notice(nat),
    /// A batch of this many frames comes in.
    Batch(nat),
}

/// The books of the bridge: what it owes, the size of the cycle that is under
/// way, if any, and all that was asked of it and delivered by it so far.
pub struct Bridge {
    pub frames_requested: nat,
    pub in_flight: Option<usize>,
    pub asked: nat,
    pub delivered: nat,
}

/// The books after `event`.
pub open spec fn bridge_after(bridge: Bridge, event: BridgeEvent) -> Bridge {
    match event {
        BridgeEvent::Notice(count) => Bridge {
            frames_requested: bridge.frames_requested + count,
            in_flight: match notice_starts(bridge.frames_requested, count) {
                Some(size) => Some(size),
                None => bridge.in_flight,
            },
            asked: bridge.asked + count,
            delivered: bridge.delivered,
        },
        BridgeEvent::Batch(length) => Bridge {
            frames_requested: owed_after_batch(bridge.frames_requested, length),
            in_flight: batch_starts(bridge.frames_requested, length),
            asked: bridge.asked,
            delivered: bridge.delivered + length,
        },
    }
}

/// The books after `events`, from a bridge at rest.
pub open spec fn bridge_run(events: Seq<BridgeEvent>) -> Bridge
    decreases events.len(),
{
    if events.len() == 0 {
        Bridge { frames_requested: 0, in_flight: None, asked: 0, delivered: 0 }
    } else {
        bridge_after(bridge_run(events.drop_last()), events.last())
    }
}

/// Whether `events` is a run as the protocol has it: the audio device never
/// asks for zero frames, and a batch comes in only in answer to the cycle that
/// is under way, with as many frames as that cycle was for.
pub open spec fn orderly(events: Seq<BridgeEvent>) -> bool
    decreases events.len(),
{
    events.len() > 0 ==> orderly(events.drop_last()) && match events.last() {
        BridgeEvent::Notice(count) => count >= 1,
        BridgeEvent::Batch(length) => bridge_run(events.drop_last()).in_flight == Some(
            length as usize,
        ) && length <= usize::MAX,
    }
}

/// Through any orderly run the bridge keeps pace: a cycle is under way exactly
/// while frames are owed, it covers at least one frame and no more than a
/// batch may hold nor than are owed, and what was asked for is what was
/// delivered plus what is owed. So whenever the bridge is at rest, all frames
/// that were asked for have been delivered.
pub proof fn lemma_bridge_keeps_pace(events: Seq<BridgeEvent>)
    requires
        orderly(events),
    ensures
        bridge_run(events).in_flight.is_some() == (bridge_run(events).frames_requested > 0),
        bridge_run(events).in_flight matches Some(size) ==> 1 <= size <= MAX_BATCH && size
            <= bridge_run(events).frames_requested,
        bridge_run(events).asked == bridge_run(events).delivered + bridge_run(
            events,
        ).frames_requested,
        bridge_run(events).frames_requested == 0 ==> bridge_run(events).delivered == bridge_run(
            events,
        ).asked,
    decreases events.len(),
{
    if events.len() > 0 {
        lemma_bridge_keeps_pace(events.drop_last());
    }
}

} // verus!
