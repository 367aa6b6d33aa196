use actor_system::engine::{
    Configurables, Engine, EngineEffect, EngineError, SampleRate, Tempo, TimeSignature, Transport,
};
use actor_system::track::{SendTrack, TrackAction, TrackActor, TrackRequest};
use actor_system::traits::ProvidesActorService;
use actor_system::types::{
    MidiChannel, MidiMessage, TimeRange, TrackUid, TrackUidFactory, Uid, UidFactory,
};
use crossbeam_channel::{unbounded, Receiver};

struct Wires {
    requests: Receiver<TrackRequest>,
    actions: Receiver<TrackAction>,
    sends: Receiver<SendTrack>,
}

fn config() -> Configurables {
    Configurables {
        sample_rate: SampleRate(44100),
        tempo: Tempo(128000),
        time_signature: TimeSignature { top: 4, bottom: 4 },
    }
}

fn new_engine() -> (Engine, Wires) {
    let (requests, requests_r) = unbounded();
    let (actions, actions_r) = unbounded();
    let (sends, sends_r) = unbounded();
    let engine = Engine::new_with_sender(
        requests,
        actions,
        sends,
        config(),
        TrackUidFactory::new(0),
        UidFactory::new(1),
    )
    .unwrap();
    (engine, Wires { requests: requests_r, actions: actions_r, sends: sends_r })
}

fn add_track(engine: &mut Engine) -> (TrackUid, Vec<EngineEffect>, Wires) {
    let (requests, requests_r) = unbounded();
    let (actions, actions_r) = unbounded();
    let (sends, sends_r) = unbounded();
    let (uid, effects) = engine.create_track(requests, actions, sends).unwrap();
    (uid, effects, Wires { requests: requests_r, actions: actions_r, sends: sends_r })
}

#[test]
fn new_engine_has_a_master_track_and_a_clock_at_zero() {
    let (engine, _wires) = new_engine();
    assert_eq!(engine.master_track().uid(), TrackUid(0));
    assert_eq!(engine.track_count(), 0);
    assert_eq!(engine.transport(), Transport { position: 0, is_performing: false });
    assert_eq!(engine.config(), config());
    assert!(!engine.is_performing());
}

#[test]
fn engine_cannot_be_made_without_a_track_identifier() {
    let (requests, _r) = unbounded();
    let (actions, _a) = unbounded();
    let (sends, _s) = unbounded();
    let result = Engine::new_with_sender(
        requests,
        actions,
        sends,
        config(),
        TrackUidFactory::new(usize::MAX),
        UidFactory::new(1),
    );
    assert_eq!(result.err(), Some(EngineError::OutOfTrackUids));
}

#[test]
fn create_track_fails_once_identifiers_have_run_out() {
    let (requests, _r) = unbounded();
    let (actions, _a) = unbounded();
    let (sends, _s) = unbounded();
    let mut engine = Engine::new_with_sender(
        requests,
        actions,
        sends,
        config(),
        TrackUidFactory::new(usize::MAX - 2),
        UidFactory::new(1),
    )
    .unwrap();
    let (uid, _effects, _w) = add_track(&mut engine);
    assert_eq!(uid, TrackUid(usize::MAX - 1));
    let (requests, _r) = unbounded();
    let (actions, _a) = unbounded();
    let (sends, _s) = unbounded();
    assert_eq!(
        engine.create_track(requests, actions, sends).err(),
        Some(EngineError::OutOfTrackUids)
    );
    assert_eq!(engine.track_count(), 1);
}

#[test]
fn start_generation_advances_the_clock_and_asks_for_work_then_audio() {
    let (mut engine, wires) = new_engine();
    engine.play();
    let effects = engine.start_generation(64);
    assert_eq!(engine.transport().position, 64);
    assert_eq!(effects.len(), 2);
    assert!(matches!(
        &effects[0],
        EngineEffect::ToAllTracks(TrackRequest::Work(TimeRange { start: 0, end: 64 }))
    ));
    assert!(matches!(
        &effects[1],
        EngineEffect::ToTrack(track, TrackRequest::NeedsAudio(64)) if track.uid == TrackUid(0)
    ));
    let effects = engine.start_generation(10);
    assert!(matches!(
        &effects[0],
        EngineEffect::ToAllTracks(TrackRequest::Work(TimeRange { start: 64, end: 74 }))
    ));
    engine.perform(effects);
    assert!(matches!(
        wires.requests.try_recv(),
        Ok(TrackRequest::Work(TimeRange { start: 64, end: 74 }))
    ));
    assert!(matches!(wires.requests.try_recv(), Ok(TrackRequest::NeedsAudio(10))));
    assert!(wires.requests.try_recv().is_err());
    assert_eq!(engine.transport().position, 74);
}

#[test]
fn a_clock_that_is_not_performing_tells_the_same_stretch_again() {
    let (mut engine, _wires) = new_engine();
    let effects = engine.start_generation(64);
    assert!(matches!(
        &effects[0],
        EngineEffect::ToAllTracks(TrackRequest::Work(TimeRange { start: 0, end: 64 }))
    ));
    assert_eq!(engine.transport().position, 0);
    let effects = engine.start_generation(32);
    assert!(matches!(
        &effects[0],
        EngineEffect::ToAllTracks(TrackRequest::Work(TimeRange { start: 0, end: 32 }))
    ));
    assert!(matches!(
        &effects[1],
        EngineEffect::ToTrack(_, TrackRequest::NeedsAudio(32))
    ));
    let mut transport = Transport { position: 7, is_performing: false };
    assert_eq!(transport.advance(3), TimeRange { start: 7, end: 10 });
    assert_eq!(transport, Transport { position: 7, is_performing: false });
}

#[test]
fn transport_tells_whether_it_can_advance() {
    let mut transport = Transport { position: u64::MAX - 10, is_performing: true };
    assert!(transport.can_advance(10));
    assert!(!transport.can_advance(11));
    assert_eq!(
        transport.advance(10),
        TimeRange { start: u64::MAX - 10, end: u64::MAX }
    );
    assert!(transport.can_advance(0));
    assert!(!transport.can_advance(1));
    assert!(transport.is_performing);
}

#[test]
fn create_track_wires_the_track_to_the_master() {
    let (mut engine, master) = new_engine();
    let (uid, effects, wires) = add_track(&mut engine);
    assert_eq!(uid, TrackUid(1));
    assert_eq!(engine.track_count(), 1);
    assert_eq!(effects.len(), 2);
    assert!(matches!(
        &effects[0],
        EngineEffect::ToTrack(track, TrackRequest::Subscribe(_)) if track.uid == TrackUid(1)
    ));
    assert!(matches!(
        &effects[1],
        EngineEffect::AddSend(track, send) if track.uid == TrackUid(0) && send.uid == TrackUid(1)
    ));
    engine.perform(effects);
    // The new track is told to send its actions to the master.
    match wires.requests.try_recv() {
        Ok(TrackRequest::Subscribe(sender)) => {
            sender.try_send(TrackAction::Frames(TrackUid(1), vec![])).unwrap();
            assert!(matches!(
                master.actions.try_recv(),
                Ok(TrackAction::Frames(TrackUid(1), _))
            ));
        }
        other => panic!("unexpected message {:?}", other),
    }
    // The master is told of the track that sends to it.
    match master.sends.try_recv() {
        Ok(send) => {
            assert_eq!(send.uid, TrackUid(1));
            send.sender.try_send(TrackRequest::NeedsAudio(3)).unwrap();
            assert!(matches!(wires.requests.try_recv(), Ok(TrackRequest::NeedsAudio(3))));
        }
        other => panic!("unexpected message {:?}", other),
    }
    assert!(wires.sends.try_recv().is_err());
    assert!(wires.actions.try_recv().is_err());
    let (second, _effects, _w) = add_track(&mut engine);
    assert_eq!(second, TrackUid(2));
}

#[test]
fn requests_to_all_tracks_reach_master_and_tracks() {
    let (mut engine, master) = new_engine();
    let (_uid1, _e1, w1) = add_track(&mut engine);
    let (_uid2, _e2, w2) = add_track(&mut engine);
    let message = MidiMessage::NoteOn { key: 60, vel: 1 };
    let effects = engine.handle_midi_message(MidiChannel(5), message);
    assert_eq!(effects.len(), 1);
    engine.perform(effects);
    for receiver in [&master.requests, &w1.requests, &w2.requests] {
        assert!(matches!(
            receiver.try_recv(),
            Ok(TrackRequest::Midi(MidiChannel(5), m)) if m == message
        ));
        assert!(receiver.try_recv().is_err());
    }
    let effects = engine.request_quit();
    engine.perform(effects);
    for receiver in [&master.requests, &w1.requests, &w2.requests] {
        assert!(matches!(receiver.try_recv(), Ok(TrackRequest::Quit)));
    }
}

#[test]
fn a_track_whose_channel_is_closed_gets_no_more_broadcasts() {
    let (mut engine, master) = new_engine();
    let (_uid1, _e1, w1) = add_track(&mut engine);
    drop(w1);
    let effects = engine.request_quit();
    engine.perform(effects);
    assert!(matches!(master.requests.try_recv(), Ok(TrackRequest::Quit)));
    let effects = engine.request_quit();
    engine.perform(effects);
    assert!(matches!(master.requests.try_recv(), Ok(TrackRequest::Quit)));
}

#[test]
fn delete_track_unwires_and_stops_the_track() {
    let (mut engine, master) = new_engine();
    let (uid1, _e1, w1) = add_track(&mut engine);
    let (uid2, _e2, _w2) = add_track(&mut engine);
    let effects = engine.delete_track(uid1);
    assert_eq!(engine.track_count(), 1);
    assert_eq!(effects.len(), 3);
    assert!(matches!(
        &effects[0],
        EngineEffect::ToTrack(track, TrackRequest::RemoveSend(uid))
            if track.uid == TrackUid(0) && *uid == uid1
    ));
    assert!(matches!(
        &effects[1],
        EngineEffect::ToTrack(track, TrackRequest::Unsubscribe(_)) if track.uid == uid1
    ));
    assert!(matches!(
        &effects[2],
        EngineEffect::ToTrack(track, TrackRequest::Quit) if track.uid == uid1
    ));
    engine.perform(effects);
    assert!(matches!(master.requests.try_recv(), Ok(TrackRequest::RemoveSend(uid)) if uid == uid1));
    assert!(matches!(w1.requests.try_recv(), Ok(TrackRequest::Unsubscribe(_))));
    assert!(matches!(w1.requests.try_recv(), Ok(TrackRequest::Quit)));
    // A track that is not there: only the master is told.
    let effects = engine.delete_track(uid1);
    assert_eq!(effects.len(), 1);
    assert_eq!(engine.track_count(), 1);
    let effects = engine.delete_track(uid2);
    assert_eq!(effects.len(), 3);
    assert_eq!(engine.track_count(), 0);
    // A new track never gets an identifier that was used before.
    let (uid3, _e3, _w3) = add_track(&mut engine);
    assert_eq!(uid3, TrackUid(3));
}

#[test]
fn stop_asks_every_track_to_silence_its_voices() {
    let (mut engine, _master) = new_engine();
    engine.play();
    assert!(engine.is_performing());
    let effects = engine.stop();
    assert!(!engine.is_performing());
    assert_eq!(effects.len(), 1);
    assert!(matches!(
        &effects[0],
        EngineEffect::ToAllTracks(TrackRequest::Midi(
            MidiChannel(0),
            MidiMessage::Controller { controller: 123, value: 0 }
        ))
    ));
}

#[test]
fn settings_can_be_changed_one_by_one() {
    let (mut engine, _master) = new_engine();
    engine.update_sample_rate(SampleRate(48000));
    engine.update_tempo(Tempo(90000));
    engine.update_time_signature(TimeSignature { top: 3, bottom: 4 });
    assert_eq!(
        engine.config(),
        Configurables {
            sample_rate: SampleRate(48000),
            tempo: Tempo(90000),
            time_signature: TimeSignature { top: 3, bottom: 4 },
        }
    );
}

#[test]
fn skip_to_start_sets_the_clock_back() {
    let (mut engine, _master) = new_engine();
    engine.play();
    engine.start_generation(64);
    assert_eq!(engine.transport().position, 64);
    engine.skip_to_start();
    assert_eq!(engine.transport().position, 0);
}

#[test]
fn engine_mints_entity_identifiers() {
    let (mut engine, _master) = new_engine();
    assert_eq!(engine.mint_entity_uid(), Some(Uid(1)));
    assert_eq!(engine.mint_entity_uid(), Some(Uid(2)));
}

#[test]
fn track_actor_is_a_handle_on_the_worker() {
    let (requests, requests_r) = unbounded();
    let (track_actions, actions_r) = unbounded();
    let (sends, _sends_r) = unbounded();
    let actor = TrackActor { uid: TrackUid(4), requests, track_actions, sends };
    assert_eq!(actor.uid(), TrackUid(4));
    actor.send_request(TrackRequest::NeedsAudio(2));
    assert!(matches!(requests_r.try_recv(), Ok(TrackRequest::NeedsAudio(2))));
    actor.sender().try_send(TrackRequest::Quit).unwrap();
    assert!(matches!(requests_r.try_recv(), Ok(TrackRequest::Quit)));
    actor
        .action_sender()
        .try_send(TrackAction::Midi(MidiChannel(1), MidiMessage::ProgramChange { program: 1 }))
        .unwrap();
    assert!(actions_r.try_recv().is_ok());
    let send = actor.as_send();
    assert_eq!(send.uid, TrackUid(4));
    send.sender.try_send(TrackRequest::Quit).unwrap();
    assert!(matches!(requests_r.try_recv(), Ok(TrackRequest::Quit)));
    let copy = actor.duplicate();
    copy.send_request(TrackRequest::NeedsAudio(1));
    assert!(matches!(requests_r.try_recv(), Ok(TrackRequest::NeedsAudio(1))));
}
