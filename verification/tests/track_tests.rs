use actor_system::actions::{AudioAction, AudioKind, ControlAction, MidiAction};
use actor_system::entity::{EntityActor, EntityRequest};
use actor_system::sample::StereoSample;
use actor_system::track::{
    ActionSubscriptionSenders, ControlLink, LinkError, SendTrack, Track, TrackAction,
    TrackEffect, TrackRequest,
};
use actor_system::types::{
    ControlIndex, MidiChannel, MidiMessage, Normal, TimeRange, TrackUid, Uid,
};
use crossbeam_channel::{unbounded, Receiver};

fn s(left: i32, right: i32) -> StereoSample {
    StereoSample { left, right }
}

struct Inbox {
    entity: Receiver<AudioAction>,
    midi: Receiver<MidiAction>,
    control: Receiver<ControlAction>,
}

fn new_track(uid: usize, is_master: bool) -> (Track, ActionSubscriptionSenders, Inbox) {
    let (entity, entity_r) = unbounded();
    let (midi, midi_r) = unbounded();
    let (control, control_r) = unbounded();
    let senders = ActionSubscriptionSenders { entity, midi, control };
    let track = Track::new_with(TrackUid(uid), is_master, senders.clone());
    (track, senders, Inbox { entity: entity_r, midi: midi_r, control: control_r })
}

fn new_actor(uid: usize) -> (EntityActor, Receiver<EntityRequest>, Receiver<ControlAction>) {
    let (requests, requests_r) = unbounded();
    let (control, control_r) = unbounded();
    (EntityActor::new(Uid(uid), requests, control), requests_r, control_r)
}

fn new_send(uid: usize) -> (SendTrack, Receiver<TrackRequest>) {
    let (sender, receiver) = unbounded();
    (SendTrack { uid: TrackUid(uid), sender }, receiver)
}

fn published_frames(effects: &Vec<TrackEffect>) -> Vec<(TrackUid, Vec<StereoSample>)> {
    let mut found = Vec::new();
    for effect in effects {
        if let TrackEffect::Publish(TrackAction::Frames(uid, frames)) = effect {
            found.push((*uid, frames.clone()));
        }
    }
    found
}

fn transformation_requests(effects: &Vec<TrackEffect>) -> Vec<(Uid, Vec<StereoSample>)> {
    let mut found = Vec::new();
    for effect in effects {
        if let TrackEffect::ToEntity(actor, EntityRequest::NeedsTransformation(frames)) = effect {
            found.push((actor.uid, frames.clone()));
        }
    }
    found
}

fn audio_requests(effects: &Vec<TrackEffect>) -> Vec<(Uid, usize)> {
    let mut found = Vec::new();
    for effect in effects {
        if let TrackEffect::ToEntity(actor, EntityRequest::NeedsAudio(count)) = effect {
            found.push((actor.uid, *count));
        }
    }
    found
}

#[test]
fn new_track_is_idle_and_empty() {
    let (track, _senders, _inbox) = new_track(3, false);
    assert_eq!(track.uid(), TrackUid(3));
    assert!(track.is_idle());
    assert!(!track.is_master_track());
    assert_eq!(track.actor_count(), 0);
    assert_eq!(track.send_count(), 0);
    assert_eq!(track.subscriber_count(), 0);
    assert_eq!(track.awaited_sources(), None);
    assert_eq!(track.effects_to_ask(), None);
    assert!(track.control_links().is_empty());
    assert!(track.buffer().is_empty());
}

#[test]
fn track_without_sources_answers_with_silence_at_once() {
    for n in [0usize, 1, 17, 63, 64] {
        let (mut track, _senders, _inbox) = new_track(3, false);
        let effects = track.handle_needs_audio(n);
        assert_eq!(effects.len(), 1);
        assert_eq!(published_frames(&effects), vec![(TrackUid(3), vec![s(0, 0); n])]);
        assert!(track.is_idle());
    }
}

#[test]
fn track_asks_every_source_and_counts_them() {
    let (mut track, _senders, _inbox) = new_track(3, false);
    let (a1, _r1, _c1) = new_actor(10);
    let (a2, _r2, _c2) = new_actor(11);
    let (send, _sr) = new_send(40);
    track.add_actor(a1);
    track.add_actor(a2);
    track.add_send(send);
    let effects = track.handle_needs_audio(8);
    assert_eq!(effects.len(), 3);
    match &effects[0] {
        TrackEffect::ToSend(send, TrackRequest::NeedsAudio(8)) => {
            assert_eq!(send.uid, TrackUid(40))
        }
        other => panic!("unexpected effect {:?}", other),
    }
    assert_eq!(audio_requests(&effects), vec![(Uid(10), 8), (Uid(11), 8)]);
    assert_eq!(track.awaited_sources(), Some(3));
    assert!(!track.is_idle());
    assert_eq!(track.buffer(), &vec![s(0, 0); 8]);
}

#[test]
fn track_with_sources_yields_one_batch_of_the_merged_sum() {
    let (mut track, _senders, _inbox) = new_track(3, false);
    let (send1, _s1) = new_send(40);
    let (send2, _s2) = new_send(41);
    track.add_send(send1);
    track.add_send(send2);
    let mut all = track.handle_needs_audio(2);
    all.extend(track.handle_track_action(TrackAction::Frames(TrackUid(41), vec![s(1, 2), s(3, 4)])));
    assert_eq!(track.awaited_sources(), Some(1));
    assert!(published_frames(&all).is_empty());
    all.extend(track.handle_track_action(TrackAction::Frames(TrackUid(40), vec![s(10, 20), s(30, 40)])));
    assert_eq!(
        published_frames(&all),
        vec![(TrackUid(3), vec![s(11, 22), s(33, 44)])]
    );
    assert!(track.is_idle());
}

#[test]
fn effects_are_asked_in_the_order_in_which_they_were_added() {
    let (mut track, _senders, _inbox) = new_track(3, false);
    let (a1, _r1, _c1) = new_actor(12);
    let (a2, _r2, _c2) = new_actor(10);
    let (a3, _r3, _c3) = new_actor(11);
    track.add_actor(a1);
    track.add_actor(a2);
    track.add_actor(a3);
    let mut all = track.handle_needs_audio(1);
    // The three entities deliver as sources, in another order than they were asked.
    let source = |uid: usize, v: i32| AudioAction {
        source_uid: Uid(uid),
        kind: AudioKind::Frames,
        frames: vec![s(v, v)],
    };
    all.extend(track.handle_entity_action(source(11, 1)));
    all.extend(track.handle_entity_action(source(12, 10)));
    assert!(transformation_requests(&all).is_empty());
    all.extend(track.handle_entity_action(source(10, 100)));
    // The first effect gets the merged sum.
    assert_eq!(transformation_requests(&all), vec![(Uid(12), vec![s(111, 111)])]);
    assert_eq!(track.effects_to_ask(), Some(2));
    let answer = |uid: usize, v: i32| AudioAction {
        source_uid: Uid(uid),
        kind: AudioKind::Transformed,
        frames: vec![s(v, v)],
    };
    // Each later effect gets the answer of the one before.
    all.extend(track.handle_entity_action(answer(12, 222)));
    all.extend(track.handle_entity_action(answer(10, 333)));
    assert_eq!(
        transformation_requests(&all),
        vec![
            (Uid(12), vec![s(111, 111)]),
            (Uid(10), vec![s(222, 222)]),
            (Uid(11), vec![s(333, 333)]),
        ]
    );
    assert!(published_frames(&all).is_empty());
    all.extend(track.handle_entity_action(answer(11, 444)));
    // The track announces the answer of the last effect, once.
    assert_eq!(published_frames(&all), vec![(TrackUid(3), vec![s(444, 444)])]);
    assert!(track.is_idle());
}

#[test]
fn an_effect_that_left_is_passed_over_without_a_request() {
    let (mut track, _senders, _inbox) = new_track(3, false);
    let (a1, _r1, _c1) = new_actor(10);
    let (a2, _r2, _c2) = new_actor(11);
    track.add_actor(a1);
    track.add_actor(a2);
    track.handle_needs_audio(1);
    track.handle_incoming_frames(vec![s(1, 1)]);
    let effects = track.handle_incoming_frames(vec![s(2, 2)]);
    assert_eq!(transformation_requests(&effects), vec![(Uid(10), vec![s(3, 3)])]);
    assert_eq!(track.effects_to_ask(), Some(1));
    track.remove_actor(Uid(11));
    let effects = track.handle_incoming_frames(vec![s(5, 5)]);
    assert!(effects.is_empty());
    assert_eq!(track.effects_to_ask(), Some(0));
    assert_eq!(track.buffer(), &vec![s(5, 5)]);
}

#[test]
fn can_accept_tells_when_frames_are_welcome() {
    let (mut track, _senders, _inbox) = new_track(3, false);
    let (a1, _r1, _c1) = new_actor(10);
    track.add_actor(a1);
    assert!(!track.can_accept(&vec![s(0, 0); 4]));
    track.handle_needs_audio(4);
    assert!(track.can_accept(&vec![s(0, 0); 4]));
    assert!(!track.can_accept(&vec![s(0, 0); 3]));
    assert!(!track.can_accept(&vec![s(0, 0); 64]));
    track.handle_incoming_frames(vec![s(1, 1); 4]);
    assert_eq!(track.effects_to_ask(), Some(0));
    assert!(track.can_accept(&vec![s(0, 0); 4]));
    assert!(!track.can_accept(&vec![s(0, 0); 5]));
}

#[test]
fn midi_from_an_entity_reaches_every_other_entity_but_not_itself() {
    let (mut track, _senders, _inbox) = new_track(3, false);
    let (a1, _r1, _c1) = new_actor(10);
    let (a2, _r2, _c2) = new_actor(11);
    let (a3, _r3, _c3) = new_actor(12);
    track.add_actor(a1);
    track.add_actor(a2);
    track.add_actor(a3);
    let message = MidiMessage::NoteOn { key: 60, vel: 100 };
    let effects = track.handle_midi_action(MidiAction {
        source_uid: Uid(11),
        channel: MidiChannel(2),
        message,
    });
    assert_eq!(effects.len(), 3);
    match &effects[0] {
        TrackEffect::Publish(TrackAction::Midi(channel, m)) => {
            assert_eq!(*channel, MidiChannel(2));
            assert_eq!(*m, message);
        }
        other => panic!("unexpected effect {:?}", other),
    }
    let mut targets = Vec::new();
    for effect in &effects[1..] {
        match effect {
            TrackEffect::ToEntity(actor, EntityRequest::Midi(channel, m)) => {
                assert_eq!(*channel, MidiChannel(2));
                assert_eq!(*m, message);
                targets.push(actor.uid);
            }
            other => panic!("unexpected effect {:?}", other),
        }
    }
    assert_eq!(targets, vec![Uid(10), Uid(12)]);
}

#[test]
fn midi_from_outside_reaches_every_entity() {
    let (mut track, _senders, _inbox) = new_track(3, false);
    let (a1, _r1, _c1) = new_actor(10);
    let (a2, _r2, _c2) = new_actor(11);
    track.add_actor(a1);
    track.add_actor(a2);
    let message = MidiMessage::Controller { controller: 1, value: 2 };
    let (effects, quit) = track.handle_request(TrackRequest::Midi(MidiChannel(0), message));
    assert!(!quit);
    let mut targets = Vec::new();
    for effect in &effects {
        match effect {
            TrackEffect::ToEntity(actor, EntityRequest::Midi(MidiChannel(0), m)) => {
                assert_eq!(*m, message);
                targets.push(actor.uid);
            }
            other => panic!("unexpected effect {:?}", other),
        }
    }
    assert_eq!(targets, vec![Uid(10), Uid(11)]);
}

#[test]
fn work_and_quit_reach_every_entity() {
    let (mut track, _senders, _inbox) = new_track(3, false);
    let (a1, _r1, _c1) = new_actor(10);
    let (a2, _r2, _c2) = new_actor(11);
    track.add_actor(a1);
    track.add_actor(a2);
    let range = TimeRange { start: 5, end: 69 };
    let (effects, quit) = track.handle_request(TrackRequest::Work(range));
    assert!(!quit);
    assert_eq!(effects.len(), 2);
    for effect in &effects {
        assert!(matches!(effect, TrackEffect::ToEntity(_, EntityRequest::Work(r)) if *r == range));
    }
    let (effects, quit) = track.handle_request(TrackRequest::Quit);
    assert!(quit);
    assert_eq!(effects.len(), 2);
    for effect in &effects {
        assert!(matches!(effect, TrackEffect::ToEntity(_, EntityRequest::Quit)));
    }
}

#[test]
fn needs_audio_request_starts_a_cycle() {
    let (mut track, _senders, _inbox) = new_track(3, false);
    let (effects, quit) = track.handle_request(TrackRequest::NeedsAudio(5));
    assert!(!quit);
    assert_eq!(published_frames(&effects), vec![(TrackUid(3), vec![s(0, 0); 5])]);
}

#[test]
fn subscribe_and_unsubscribe_requests_change_the_subscribers() {
    let (mut track, _senders, _inbox) = new_track(3, false);
    let (sender, receiver) = unbounded();
    let (effects, _) = track.handle_request(TrackRequest::Subscribe(sender.clone()));
    assert!(effects.is_empty());
    track.handle_request(TrackRequest::Subscribe(sender.clone()));
    assert_eq!(track.subscriber_count(), 1);
    let effects = track.handle_needs_audio(2);
    track.perform(effects);
    match receiver.try_recv() {
        Ok(TrackAction::Frames(uid, frames)) => {
            assert_eq!(uid, TrackUid(3));
            assert_eq!(frames, vec![s(0, 0); 2]);
        }
        other => panic!("unexpected message {:?}", other),
    }
    assert!(receiver.try_recv().is_err());
    track.handle_request(TrackRequest::Unsubscribe(sender));
    assert_eq!(track.subscriber_count(), 0);
    let effects = track.handle_needs_audio(2);
    track.perform(effects);
    assert!(receiver.try_recv().is_err());
}

#[test]
fn perform_puts_requests_on_the_channels_they_are_meant_for() {
    let (mut track, _senders, _inbox) = new_track(3, false);
    let (a1, r1, _c1) = new_actor(10);
    let (a2, r2, _c2) = new_actor(11);
    let (send, sr) = new_send(40);
    let attach = track.add_actor(a1);
    track.perform(attach);
    let attach = track.add_actor(a2);
    track.perform(attach);
    track.add_send(send);
    assert!(matches!(r1.try_recv(), Ok(EntityRequest::ActionSubscribe(_))));
    assert!(matches!(r1.try_recv(), Ok(EntityRequest::MidiSubscribe(_))));
    assert!(matches!(r2.try_recv(), Ok(EntityRequest::ActionSubscribe(_))));
    assert!(matches!(r2.try_recv(), Ok(EntityRequest::MidiSubscribe(_))));
    let effects = track.handle_needs_audio(6);
    track.perform(effects);
    assert!(matches!(sr.try_recv(), Ok(TrackRequest::NeedsAudio(6))));
    assert!(sr.try_recv().is_err());
    assert!(matches!(r1.try_recv(), Ok(EntityRequest::NeedsAudio(6))));
    assert!(r1.try_recv().is_err());
    assert!(matches!(r2.try_recv(), Ok(EntityRequest::NeedsAudio(6))));
    assert!(r2.try_recv().is_err());
}

#[test]
fn perform_drops_subscribers_whose_channel_is_closed() {
    let (mut track, _senders, _inbox) = new_track(3, false);
    let (s1, r1) = unbounded();
    let (s2, r2) = unbounded();
    track.handle_request(TrackRequest::Subscribe(s1));
    track.handle_request(TrackRequest::Subscribe(s2));
    drop(r1);
    let effects = track.handle_needs_audio(1);
    track.perform(effects);
    assert_eq!(track.subscriber_count(), 1);
    assert!(matches!(r2.try_recv(), Ok(TrackAction::Frames(TrackUid(3), _))));
}

#[test]
fn add_actor_subscribes_the_track_to_the_entity() {
    let (mut track, senders, _inbox) = new_track(3, false);
    let (a1, _r1, _c1) = new_actor(10);
    let effects = track.add_actor(a1);
    assert_eq!(effects.len(), 2);
    match &effects[0] {
        TrackEffect::ToEntity(actor, EntityRequest::ActionSubscribe(sender)) => {
            assert_eq!(actor.uid, Uid(10));
            assert!(sender.same_channel(&senders.entity));
        }
        other => panic!("unexpected effect {:?}", other),
    }
    match &effects[1] {
        TrackEffect::ToEntity(actor, EntityRequest::MidiSubscribe(sender)) => {
            assert_eq!(actor.uid, Uid(10));
            assert!(sender.same_channel(&senders.midi));
        }
        other => panic!("unexpected effect {:?}", other),
    }
    assert_eq!(track.actor_count(), 1);
}

#[test]
fn adding_an_entity_again_replaces_it_in_place() {
    let (mut track, _senders, _inbox) = new_track(3, false);
    let (a1, _r1, _c1) = new_actor(10);
    let (a2, _r2, _c2) = new_actor(11);
    let (again, again_r, _c3) = new_actor(10);
    track.add_actor(a1);
    track.add_actor(a2);
    track.add_actor(again);
    assert_eq!(track.actor_count(), 2);
    let effects = track.handle_needs_audio(1);
    assert_eq!(audio_requests(&effects), vec![(Uid(10), 1), (Uid(11), 1)]);
    track.perform(effects);
    assert!(matches!(again_r.try_recv(), Ok(EntityRequest::NeedsAudio(1))));
}

#[test]
fn remove_actor_unsubscribes_the_track_from_the_entity() {
    let (mut track, senders, _inbox) = new_track(3, false);
    let (a1, _r1, _c1) = new_actor(10);
    let (a2, _r2, _c2) = new_actor(11);
    track.add_actor(a1);
    track.add_actor(a2);
    let effects = track.remove_actor(Uid(10));
    assert_eq!(effects.len(), 3);
    match &effects[0] {
        TrackEffect::ToEntity(actor, EntityRequest::ActionUnsubscribe(sender)) => {
            assert_eq!(actor.uid, Uid(10));
            assert!(sender.same_channel(&senders.entity));
        }
        other => panic!("unexpected effect {:?}", other),
    }
    match &effects[1] {
        TrackEffect::ToEntity(actor, EntityRequest::MidiUnsubscribe(sender)) => {
            assert_eq!(actor.uid, Uid(10));
            assert!(sender.same_channel(&senders.midi));
        }
        other => panic!("unexpected effect {:?}", other),
    }
    match &effects[2] {
        TrackEffect::ToEntity(actor, EntityRequest::ControlUnsubscribe(sender)) => {
            assert_eq!(actor.uid, Uid(10));
            assert!(sender.same_channel(&senders.control));
        }
        other => panic!("unexpected effect {:?}", other),
    }
    assert_eq!(track.actor_count(), 1);
    assert!(track.remove_actor(Uid(10)).is_empty());
    assert_eq!(track.actor_count(), 1);
}

#[test]
fn sends_can_be_added_replaced_and_removed() {
    let (mut track, _senders, _inbox) = new_track(3, false);
    let (send1, _r1) = new_send(40);
    let (send2, _r2) = new_send(41);
    let (again, again_r) = new_send(40);
    track.add_send(send1);
    track.add_send(send2);
    track.add_send(again);
    assert_eq!(track.send_count(), 2);
    let effects = track.handle_needs_audio(1);
    track.perform(effects);
    assert!(matches!(again_r.try_recv(), Ok(TrackRequest::NeedsAudio(1))));
    let (mut other, _s, _i) = new_track(4, false);
    let (send3, _r3) = new_send(40);
    let (send4, _r4) = new_send(41);
    other.add_send(send3);
    other.add_send(send4);
    let (effects, quit) = other.handle_request(TrackRequest::RemoveSend(TrackUid(40)));
    assert!(effects.is_empty());
    assert!(!quit);
    assert_eq!(other.send_count(), 1);
    let effects = other.handle_needs_audio(1);
    assert_eq!(effects.len(), 1);
    assert!(matches!(&effects[0], TrackEffect::ToSend(send, _) if send.uid == TrackUid(41)));
}

#[test]
fn master_track_mixes_tracks_at_their_share_of_the_bus() {
    let (mut master, _senders, _inbox) = new_track(0, true);
    assert!(master.is_master_track());
    let (send1, _r1) = new_send(1);
    let (send2, _r2) = new_send(2);
    master.add_send(send1);
    master.add_send(send2);
    master.set_level(TrackUid(1), Normal(1));
    master.set_level(TrackUid(2), Normal(3));
    let mut all = master.handle_needs_audio(1);
    all.extend(master.handle_track_action(TrackAction::Frames(TrackUid(1), vec![s(400, -400)])));
    all.extend(master.handle_track_action(TrackAction::Frames(TrackUid(2), vec![s(400, -400)])));
    assert_eq!(published_frames(&all), vec![(TrackUid(0), vec![s(400, -400)])]);
}

#[test]
fn master_track_leaves_out_muted_tracks() {
    let (mut master, _senders, _inbox) = new_track(0, true);
    let (send1, _r1) = new_send(1);
    let (send2, _r2) = new_send(2);
    master.add_send(send1);
    master.add_send(send2);
    master.set_muted(TrackUid(2), true);
    let mut all = master.handle_needs_audio(1);
    all.extend(master.handle_incoming_track_frames(TrackUid(1), vec![s(400, -400)]));
    all.extend(master.handle_incoming_track_frames(TrackUid(2), vec![s(1000, 1000)]));
    assert_eq!(published_frames(&all), vec![(TrackUid(0), vec![s(200, -200)])]);
}

#[test]
fn track_midi_is_passed_on_to_subscribers() {
    let (mut master, _senders, _inbox) = new_track(0, true);
    let message = MidiMessage::NoteOff { key: 1, vel: 2 };
    let effects = master.handle_track_action(TrackAction::Midi(MidiChannel(4), message));
    assert_eq!(effects.len(), 1);
    assert!(matches!(
        &effects[0],
        TrackEffect::Publish(TrackAction::Midi(MidiChannel(4), m)) if *m == message
    ));
    assert!(master.is_idle());
}

#[test]
fn link_needs_both_entities() {
    let (mut track, _senders, _inbox) = new_track(3, false);
    let (a1, _r1, _c1) = new_actor(10);
    track.add_actor(a1);
    assert_eq!(
        track.link(Uid(10), Uid(11), ControlIndex(0)).err(),
        Some(LinkError { source_uid: Uid(10), target_uid: Uid(11) })
    );
    assert_eq!(
        track.link(Uid(11), Uid(10), ControlIndex(0)).err(),
        Some(LinkError { source_uid: Uid(11), target_uid: Uid(10) })
    );
    assert_eq!(
        track.link(Uid(8), Uid(9), ControlIndex(0)).err(),
        Some(LinkError { source_uid: Uid(8), target_uid: Uid(9) })
    );
    assert!(track.control_links().is_empty());
}

#[test]
fn link_wires_source_to_target() {
    let (mut track, _senders, _inbox) = new_track(3, false);
    let (a1, _r1, _c1) = new_actor(10);
    let (a2, _r2, c2) = new_actor(11);
    track.add_actor(a1);
    track.add_actor(a2);
    let effects = track.link(Uid(10), Uid(11), ControlIndex(4)).unwrap();
    assert_eq!(effects.len(), 2);
    match &effects[0] {
        TrackEffect::ToEntity(actor, EntityRequest::ControlSubscribe(sender)) => {
            assert_eq!(actor.uid, Uid(10));
            sender
                .try_send(ControlAction {
                    source_uid: Uid(10),
                    value: actor_system::types::ControlValue(1),
                })
                .unwrap();
            assert!(c2.try_recv().is_ok());
        }
        other => panic!("unexpected effect {:?}", other),
    }
    assert!(matches!(
        &effects[1],
        TrackEffect::ToEntity(actor, EntityRequest::ControlLinkAdd(Uid(10), ControlIndex(4)))
            if actor.uid == Uid(11)
    ));
    assert_eq!(
        track.control_links(),
        &vec![ControlLink { source_uid: Uid(10), target_uid: Uid(11), param: ControlIndex(4) }]
    );
}

#[test]
fn unlink_takes_away_exactly_one_pairing() {
    let (mut track, _senders, _inbox) = new_track(3, false);
    let (a1, _r1, _c1) = new_actor(10);
    let (a2, _r2, _c2) = new_actor(11);
    let (a3, _r3, _c3) = new_actor(12);
    track.add_actor(a1);
    track.add_actor(a2);
    track.add_actor(a3);
    track.link(Uid(10), Uid(11), ControlIndex(0)).unwrap();
    track.link(Uid(10), Uid(11), ControlIndex(1)).unwrap();
    track.link(Uid(10), Uid(12), ControlIndex(0)).unwrap();
    track.link(Uid(12), Uid(11), ControlIndex(0)).unwrap();
    // Another link from 10 to 11 stays, so 10 keeps sending to 11.
    let effects = track.unlink(Uid(10), Uid(11), ControlIndex(0));
    assert_eq!(effects.len(), 1);
    assert!(matches!(
        &effects[0],
        TrackEffect::ToEntity(actor, EntityRequest::ControlLinkRemove(Uid(10), ControlIndex(0)))
            if actor.uid == Uid(11)
    ));
    assert_eq!(
        track.control_links(),
        &vec![
            ControlLink { source_uid: Uid(10), target_uid: Uid(11), param: ControlIndex(1) },
            ControlLink { source_uid: Uid(10), target_uid: Uid(12), param: ControlIndex(0) },
            ControlLink { source_uid: Uid(12), target_uid: Uid(11), param: ControlIndex(0) },
        ]
    );
    // The last link from 10 to 11 goes, so 10 stops sending to 11.
    let effects = track.unlink(Uid(10), Uid(11), ControlIndex(1));
    assert_eq!(effects.len(), 2);
    assert!(matches!(
        &effects[0],
        TrackEffect::ToEntity(actor, EntityRequest::ControlUnsubscribe(_)) if actor.uid == Uid(10)
    ));
    assert!(matches!(
        &effects[1],
        TrackEffect::ToEntity(actor, EntityRequest::ControlLinkRemove(Uid(10), ControlIndex(1)))
            if actor.uid == Uid(11)
    ));
    assert_eq!(track.control_links().len(), 2);
}

#[test]
fn unlink_of_unknown_entities_changes_nothing() {
    let (mut track, _senders, _inbox) = new_track(3, false);
    let (a1, _r1, _c1) = new_actor(10);
    let (a2, _r2, _c2) = new_actor(11);
    track.add_actor(a1);
    track.add_actor(a2);
    track.link(Uid(10), Uid(11), ControlIndex(0)).unwrap();
    assert!(track.unlink(Uid(10), Uid(99), ControlIndex(0)).is_empty());
    assert!(track.unlink(Uid(99), Uid(11), ControlIndex(0)).is_empty());
    assert_eq!(track.control_links().len(), 1);
}

#[test]
fn retire_actor_unlinks_quits_and_removes() {
    let (mut track, _senders, _inbox) = new_track(3, false);
    let (a1, _r1, _c1) = new_actor(10);
    let (a2, _r2, _c2) = new_actor(11);
    let (a3, _r3, _c3) = new_actor(12);
    track.add_actor(a1);
    track.add_actor(a2);
    track.add_actor(a3);
    track.link(Uid(10), Uid(11), ControlIndex(0)).unwrap();
    track.link(Uid(12), Uid(10), ControlIndex(1)).unwrap();
    track.link(Uid(12), Uid(11), ControlIndex(2)).unwrap();
    let effects = track.retire_actor(Uid(10));
    assert_eq!(
        track.control_links(),
        &vec![ControlLink { source_uid: Uid(12), target_uid: Uid(11), param: ControlIndex(2) }]
    );
    assert_eq!(track.actor_count(), 2);
    // unlink 10 -> 11: unsubscribe + remove; unlink 12 -> 10: unsubscribe + remove;
    // then quit and the three requests that detach the entity.
    assert_eq!(effects.len(), 8);
    assert!(matches!(
        &effects[0],
        TrackEffect::ToEntity(actor, EntityRequest::ControlUnsubscribe(_)) if actor.uid == Uid(10)
    ));
    assert!(matches!(
        &effects[1],
        TrackEffect::ToEntity(actor, EntityRequest::ControlLinkRemove(Uid(10), ControlIndex(0)))
            if actor.uid == Uid(11)
    ));
    assert!(matches!(
        &effects[2],
        TrackEffect::ToEntity(actor, EntityRequest::ControlUnsubscribe(_)) if actor.uid == Uid(12)
    ));
    assert!(matches!(
        &effects[3],
        TrackEffect::ToEntity(actor, EntityRequest::ControlLinkRemove(Uid(12), ControlIndex(1)))
            if actor.uid == Uid(10)
    ));
    assert!(matches!(
        &effects[4],
        TrackEffect::ToEntity(actor, EntityRequest::Quit) if actor.uid == Uid(10)
    ));
    assert!(matches!(
        &effects[5],
        TrackEffect::ToEntity(actor, EntityRequest::ActionUnsubscribe(_)) if actor.uid == Uid(10)
    ));
    assert!(matches!(
        &effects[6],
        TrackEffect::ToEntity(actor, EntityRequest::MidiUnsubscribe(_)) if actor.uid == Uid(10)
    ));
    assert!(matches!(
        &effects[7],
        TrackEffect::ToEntity(actor, EntityRequest::ControlUnsubscribe(_)) if actor.uid == Uid(10)
    ));
}

#[test]
fn retiring_an_unknown_entity_changes_nothing() {
    let (mut track, _senders, _inbox) = new_track(3, false);
    let (a1, _r1, _c1) = new_actor(10);
    track.add_actor(a1);
    assert!(track.retire_actor(Uid(77)).is_empty());
    assert_eq!(track.actor_count(), 1);
}

#[test]
fn can_accept_action_tells_when_an_action_is_welcome() {
    let (mut master, _senders, _inbox) = new_track(0, true);
    let midi = TrackAction::Midi(MidiChannel(0), MidiMessage::ProgramChange { program: 1 });
    let frames = TrackAction::Frames(TrackUid(1), vec![s(0, 0); 7]);
    assert!(master.can_accept_action(&midi));
    assert!(!master.can_accept_action(&frames));
    let (send, _r) = new_send(1);
    master.add_send(send);
    master.handle_needs_audio(4);
    // The bus takes a batch of any length within the bound.
    assert!(master.can_accept_action(&frames));
    assert!(!master.can_accept_action(&TrackAction::Frames(TrackUid(1), vec![s(0, 0); 65])));
    let (mut track, _senders, _inbox) = new_track(3, false);
    let (send, _r) = new_send(1);
    track.add_send(send);
    track.handle_needs_audio(4);
    assert!(!track.can_accept_action(&frames));
    assert!(track.can_accept_action(&TrackAction::Frames(TrackUid(1), vec![s(0, 0); 4])));
}

#[test]
fn track_has_room_for_more() {
    let (mut track, _senders, _inbox) = new_track(3, false);
    assert!(track.has_room());
    let (a1, _r1, _c1) = new_actor(10);
    track.add_actor(a1);
    assert!(track.has_room());
}

#[test]
fn master_track_shows_its_mixing_bus() {
    let (mut master, _senders, _inbox) = new_track(0, true);
    let (track, _s, _i) = new_track(3, false);
    assert!(track.mixer().is_none());
    let (send1, _r1) = new_send(1);
    let (send2, _r2) = new_send(2);
    master.add_send(send1);
    master.add_send(send2);
    master.set_level(TrackUid(2), Normal(9));
    master.set_muted(TrackUid(1), true);
    let mixer = master.mixer().unwrap();
    assert_eq!(mixer.track_uids(), &vec![TrackUid(1), TrackUid(2)]);
    assert_eq!(mixer.level(TrackUid(1)), Some(Normal::maximum()));
    assert_eq!(mixer.level(TrackUid(2)), Some(Normal(9)));
    assert_eq!(mixer.is_muted(TrackUid(1)), Some(true));
    assert_eq!(mixer.is_muted(TrackUid(2)), Some(false));
}
