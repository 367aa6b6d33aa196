use actor_system::engine::{
    Configurables, Engine, EngineEffect, SampleRate, Tempo, TimeSignature,
};
use actor_system::engine_service::{
    EngineService, EngineServiceEvent, EngineServiceInput, ServiceEffect,
};
use actor_system::queue::push_frames;
use actor_system::sample::StereoSample;
use actor_system::track::TrackRequest;
use actor_system::types::{MidiChannel, MidiMessage, TimeRange, TrackUidFactory, UidFactory};
use actor_system::wav_writer::WavWriterInput;
use crossbeam_channel::{unbounded, Receiver};
use crossbeam_queue::ArrayQueue;
use std::sync::Arc;

fn s(left: i32, right: i32) -> StereoSample {
    StereoSample { left, right }
}

struct Outside {
    master: Receiver<TrackRequest>,
    writer: Receiver<WavWriterInput>,
    events: Receiver<EngineServiceEvent>,
}

fn new_service() -> (EngineService, Outside) {
    let (requests, master) = unbounded();
    let (actions, _actions_r) = unbounded();
    let (sends, _sends_r) = unbounded();
    let mut engine = Engine::new_with_sender(
        requests,
        actions,
        sends,
        Configurables {
            sample_rate: SampleRate(44100),
            tempo: Tempo(128000),
            time_signature: TimeSignature { top: 4, bottom: 4 },
        },
        TrackUidFactory::new(0),
        UidFactory::new(1),
    )
    .unwrap();
    engine.play();
    let (writer, writer_r) = unbounded();
    let (events, events_r) = unbounded();
    (EngineService::new(engine, writer, events), Outside { master, writer: writer_r, events: events_r })
}

/// The size of the cycle that `effects` starts, if it starts one.
fn cycle_started(effects: &Vec<ServiceEffect>) -> Option<usize> {
    let mut started = None;
    for effect in effects {
        if let ServiceEffect::Engine(EngineEffect::ToTrack(_, TrackRequest::NeedsAudio(count))) =
            effect
        {
            assert!(started.is_none());
            started = Some(*count);
        }
    }
    started
}

#[test]
fn new_service_owes_nothing() {
    let (service, _outside) = new_service();
    assert_eq!(service.frames_requested(), 0);
    assert_eq!(service.engine().track_count(), 0);
}

#[test]
fn first_notice_starts_a_cycle_of_at_most_sixty_four_frames() {
    let (mut service, _outside) = new_service();
    let (effects, quit) = service.handle_input(EngineServiceInput::AudioQueueNeedsAudio(32));
    assert!(!quit);
    assert_eq!(cycle_started(&effects), Some(32));
    assert_eq!(service.frames_requested(), 32);
    let (mut service, _outside) = new_service();
    let (effects, _) = service.handle_input(EngineServiceInput::AudioQueueNeedsAudio(1000));
    assert_eq!(cycle_started(&effects), Some(64));
    assert_eq!(service.frames_requested(), 1000);
    assert_eq!(service.engine().transport().position, 64);
}

#[test]
fn notices_of_32_then_96_are_served_in_cycles_of_at_most_64() {
    let (mut service, _outside) = new_service();
    let queue = Arc::new(ArrayQueue::new(1024));
    service.handle_input(EngineServiceInput::Configure(SampleRate(44100), 2, queue.clone()));
    let mut cycles = Vec::new();
    let (effects, _) = service.handle_input(EngineServiceInput::AudioQueueNeedsAudio(32));
    let mut pending = cycle_started(&effects);
    assert_eq!(pending, Some(32));
    // While the first cycle is under way, the second notice comes in.
    let (effects, _) = service.handle_input(EngineServiceInput::AudioQueueNeedsAudio(96));
    assert_eq!(cycle_started(&effects), None);
    assert_eq!(service.frames_requested(), 128);
    while let Some(size) = pending {
        assert!(size <= 64);
        cycles.push(size);
        let (effects, displaced) = service.handle_frames(vec![s(1, 1); size]);
        assert_eq!(displaced, 0);
        pending = cycle_started(&effects);
    }
    assert_eq!(cycles, vec![32, 64, 32]);
    assert_eq!(cycles.iter().sum::<usize>(), 128);
    assert_eq!(queue.len(), 128);
    assert_eq!(service.frames_requested(), 0);
    assert_eq!(service.engine().transport().position, 128);
}

#[test]
fn a_batch_longer_than_what_is_owed_settles_the_debt() {
    let (mut service, _outside) = new_service();
    service.handle_input(EngineServiceInput::AudioQueueNeedsAudio(10));
    let (effects, _) = service.handle_frames(vec![s(0, 0); 64]);
    assert_eq!(cycle_started(&effects), None);
    assert_eq!(service.frames_requested(), 0);
    // The next notice starts a cycle again.
    let (effects, _) = service.handle_input(EngineServiceInput::AudioQueueNeedsAudio(5));
    assert_eq!(cycle_started(&effects), Some(5));
}

#[test]
fn a_batch_goes_to_the_queue_and_to_the_recorder() {
    let (mut service, outside) = new_service();
    let queue = Arc::new(ArrayQueue::new(8));
    let (effects, quit) =
        service.handle_input(EngineServiceInput::Configure(SampleRate(48000), 2, queue.clone()));
    assert!(!quit);
    assert_eq!(effects.len(), 1);
    assert!(matches!(
        &effects[0],
        ServiceEffect::Writer(WavWriterInput::Reset(SampleRate(48000), 2))
    ));
    assert_eq!(service.engine().config().sample_rate, SampleRate(48000));
    service.handle_input(EngineServiceInput::AudioQueueNeedsAudio(3));
    let frames = vec![s(1, -1), s(2, -2), s(3, -3)];
    let (effects, displaced) = service.handle_frames(frames.clone());
    assert_eq!(displaced, 0);
    assert_eq!(queue.pop(), Some(s(1, -1)));
    assert_eq!(queue.pop(), Some(s(2, -2)));
    assert_eq!(queue.pop(), Some(s(3, -3)));
    assert_eq!(queue.pop(), None);
    assert_eq!(effects.len(), 1);
    assert!(matches!(
        &effects[0],
        ServiceEffect::Writer(WavWriterInput::Frames(f)) if *f == frames
    ));
    service.perform(effects);
    assert!(matches!(outside.writer.try_recv(), Ok(WavWriterInput::Frames(f)) if f == frames));
}

#[test]
fn a_full_queue_lets_the_oldest_frames_go() {
    let (mut service, _outside) = new_service();
    let queue = Arc::new(ArrayQueue::new(2));
    service.handle_input(EngineServiceInput::Configure(SampleRate(48000), 2, queue.clone()));
    service.handle_input(EngineServiceInput::AudioQueueNeedsAudio(3));
    let (_effects, displaced) = service.handle_frames(vec![s(1, 1), s(2, 2), s(3, 3)]);
    assert_eq!(displaced, 1);
    assert_eq!(queue.pop(), Some(s(2, 2)));
    assert_eq!(queue.pop(), Some(s(3, 3)));
}

#[test]
fn push_frames_counts_what_had_to_make_room() {
    let queue = Arc::new(ArrayQueue::new(3));
    assert_eq!(push_frames(&queue, &vec![s(1, 1), s(2, 2)]), 0);
    assert_eq!(push_frames(&queue, &vec![s(3, 3), s(4, 4), s(5, 5)]), 2);
    assert_eq!(queue.pop(), Some(s(3, 3)));
    assert_eq!(queue.pop(), Some(s(4, 4)));
    assert_eq!(queue.pop(), Some(s(5, 5)));
    assert_eq!(push_frames(&queue, &vec![]), 0);
}

#[test]
fn without_a_queue_frames_still_reach_the_recorder() {
    let (mut service, _outside) = new_service();
    service.handle_input(EngineServiceInput::AudioQueueNeedsAudio(2));
    let (effects, displaced) = service.handle_frames(vec![s(1, 1), s(2, 2)]);
    assert_eq!(displaced, 0);
    assert_eq!(effects.len(), 1);
}

#[test]
fn midi_from_outside_goes_to_every_track() {
    let (mut service, outside) = new_service();
    let message = MidiMessage::NoteOn { key: 3, vel: 4 };
    let (effects, quit) = service.handle_input(EngineServiceInput::Midi(MidiChannel(1), message));
    assert!(!quit);
    assert_eq!(effects.len(), 1);
    service.perform(effects);
    assert!(matches!(
        outside.master.try_recv(),
        Ok(TrackRequest::Midi(MidiChannel(1), m)) if m == message
    ));
}

#[test]
fn midi_from_the_engine_goes_to_the_client() {
    let (mut service, outside) = new_service();
    let message = MidiMessage::NoteOff { key: 3, vel: 4 };
    let effects = service.handle_midi_action(MidiChannel(2), message);
    assert_eq!(effects.len(), 1);
    service.perform(effects);
    assert_eq!(
        outside.events.try_recv(),
        Ok(EngineServiceEvent::Midi(MidiChannel(2), message))
    );
}

#[test]
fn quit_stops_tracks_recorder_and_bridge() {
    let (mut service, outside) = new_service();
    let (effects, quit) = service.handle_input(EngineServiceInput::Quit);
    assert!(quit);
    assert_eq!(effects.len(), 2);
    service.perform(effects);
    assert!(matches!(outside.master.try_recv(), Ok(TrackRequest::Quit)));
    assert!(matches!(outside.writer.try_recv(), Ok(WavWriterInput::Quit)));
}

#[test]
fn a_cycle_tells_the_tracks_its_stretch_of_time() {
    let (mut service, outside) = new_service();
    let (effects, _) = service.handle_input(EngineServiceInput::AudioQueueNeedsAudio(100));
    service.perform(effects);
    assert!(matches!(
        outside.master.try_recv(),
        Ok(TrackRequest::Work(TimeRange { start: 0, end: 64 }))
    ));
    assert!(matches!(outside.master.try_recv(), Ok(TrackRequest::NeedsAudio(64))));
    let (effects, _) = service.handle_frames(vec![s(0, 0); 64]);
    service.perform(effects);
    assert!(matches!(
        outside.master.try_recv(),
        Ok(TrackRequest::Work(TimeRange { start: 64, end: 100 }))
    ));
    assert!(matches!(outside.master.try_recv(), Ok(TrackRequest::NeedsAudio(36))));
}

#[test]
fn can_accept_tells_when_a_notice_fits() {
    let (mut service, _outside) = new_service();
    assert!(service.can_accept(&EngineServiceInput::AudioQueueNeedsAudio(usize::MAX)));
    assert!(service.can_accept(&EngineServiceInput::Quit));
    service.handle_input(EngineServiceInput::AudioQueueNeedsAudio(1));
    assert!(!service.can_accept(&EngineServiceInput::AudioQueueNeedsAudio(usize::MAX)));
    assert!(service.can_accept(&EngineServiceInput::AudioQueueNeedsAudio(usize::MAX - 1)));
}

#[test]
fn the_engine_inside_the_bridge_can_be_worked_on() {
    let (mut service, _outside) = new_service();
    let effects = service.engine_mut().stop();
    assert_eq!(effects.len(), 1);
    assert!(!service.engine().is_performing());
    // With the clock stopped a cycle covers the same stretch again.
    service.handle_input(EngineServiceInput::AudioQueueNeedsAudio(128));
    service.handle_frames(vec![s(0, 0); 64]);
    assert_eq!(service.engine().transport().position, 0);
    assert_eq!(service.frames_requested(), 64);
}
