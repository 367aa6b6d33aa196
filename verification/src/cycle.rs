//! What holds of a whole generation cycle of a track: from the request for
//! audio, through the batches of its sources and the answers of its effects, to
//! the one batch that it announces.

use crate::entity::{EntityActor, EntityRequestView};
use crate::mixer::mixed;
use crate::sample::{merged, silence, StereoSample};
use crate::track_model::{
    actor_uids, after_effect_step, after_frames, after_needs_audio, after_track_action,
    ask_actors, ask_sends, lemma_actor_at, track_wf, TrackActionView, TrackEffectView,
    TrackStateView, TrackView,
};
use crate::types::TrackUid;
use vstd::prelude::*;

verus! {

/// A batch of frames on its way to a track.
pub enum Arrival {
    /// From one of the track's entities.
    FromEntity(Seq<StereoSample>),
    /// From the track named, which sends to this one.
    FromTrack(TrackUid, Seq<StereoSample>),
}

/// The track after `arrival` has reached it, and what it asks for.
pub open spec fn after_arrival(track: TrackView, arrival: Arrival) -> (
    TrackView,
    Seq<TrackEffectView>,
) {
    match arrival {
        Arrival::FromEntity(frames) => after_frames(track, frames),
        Arrival::FromTrack(uid, frames) => after_track_action(
            track,
            TrackActionView::Frames(uid, frames),
        ),
    }
}

/// The track after the batches of `arrivals` have reached it one after the
/// other, and all that it asked for on the way, in order.
pub open spec fn after_arrivals(track: TrackView, arrivals: Seq<Arrival>) -> (
    TrackView,
    Seq<TrackEffectView>,
)
    decreases arrivals.len(),
{
    if arrivals.len() == 0 {
        (track, Seq::empty())
    } else {
        let (before, asked) = after_arrivals(track, arrivals.drop_last());
        let (after, more) = after_arrival(before, arrivals.last());
        (after, asked + more)
    }
}

/// What a gathered batch becomes when a source's batch is taken in: mixed in
/// through the bus if it comes from a track and there is a bus, added
/// otherwise.
pub open spec fn taken_in(track: TrackView, buffer: Seq<StereoSample>, arrival: Arrival) -> Seq<
    StereoSample,
> {
    match arrival {
        Arrival::FromEntity(frames) => merged(buffer, frames),
        Arrival::FromTrack(uid, frames) => match track.mixer {
            Some(tracks) => mixed(tracks, uid, frames, buffer),
            None => merged(buffer, frames),
        },
    }
}

/// What `count` silent frames become when the batches of `sources` are taken
/// in one after the other.
pub open spec fn gathered(track: TrackView, count: nat, sources: Seq<Arrival>) -> Seq<StereoSample>
    decreases sources.len(),
{
    if sources.len() == 0 {
        silence(count)
    } else {
        taken_in(track, gathered(track, count, sources.drop_last()), sources.last())
    }
}

/// Each answer as a batch that arrives from an entity.
pub open spec fn as_arrivals(answers: Seq<Seq<StereoSample>>) -> Seq<Arrival> {
    answers.map_values(|frames: Seq<StereoSample>| Arrival::FromEntity(frames))
}

/// The requests for transformation that go out when the effects `actors` give
/// `answers`: the first effect gets the gathered batch `mix`, each later one
/// the answer of the effect before it.
pub open spec fn chain_requests(
    actors: Seq<EntityActor>,
    mix: Seq<StereoSample>,
    answers: Seq<Seq<StereoSample>>,
) -> Seq<TrackEffectView> {
    Seq::new(
        actors.len(),
        |i: int|
            TrackEffectView::ToEntity(
                actors[i],
                EntityRequestView::NeedsTransformation(
                    if i == 0 {
                        mix
                    } else {
                        answers[i - 1]
                    },
                ),
            ),
    )
}

/// What a cycle ends with: the last answer, or the gathered batch where there
/// is no effect.
pub open spec fn outcome(mix: Seq<StereoSample>, answers: Seq<Seq<StereoSample>>) -> Seq<
    StereoSample,
> {
    if answers.len() == 0 {
        mix
    } else {
        answers.last()
    }
}

/// What a track asks of its sources at the start of a cycle.
pub open spec fn opening(track: TrackView, count: usize) -> Seq<TrackEffectView> {
    if track.send_tracks.len() + track.actors.len() == 0 {
        Seq::empty()
    } else {
        ask_sends(track.send_tracks, count) + ask_actors(
            track.actors,
            EntityRequestView::NeedsAudio(count),
        )
    }
}

/// `input` after the effects of `effects` have been applied to it one after
/// the other, the first of them first.
pub open spec fn chain(
    effects: Seq<spec_fn(Seq<StereoSample>) -> Seq<StereoSample>>,
    input: Seq<StereoSample>,
) -> Seq<StereoSample>
    decreases effects.len(),
{
    if effects.len() == 0 {
        input
    } else {
        (effects.last())(chain(effects.drop_last(), input))
    }
}

/// The answer that each of `effects` gives when they are applied to `input`
/// one after the other.
pub open spec fn replies(
    effects: Seq<spec_fn(Seq<StereoSample>) -> Seq<StereoSample>>,
    input: Seq<StereoSample>,
) -> Seq<Seq<StereoSample>> {
    Seq::new(effects.len(), |i: int| chain(effects.take(i + 1), input))
}

/// Arrivals can be taken in two stretches.
pub proof fn lemma_arrivals_in_two_stretches(
    track: TrackView,
    first: Seq<Arrival>,
    second: Seq<Arrival>,
)
    ensures
        after_arrivals(track, first + second) == ({
            let (middle, asked) = after_arrivals(track, first);
            let (end, more) = after_arrivals(middle, second);
            (end, asked + more)
        }),
    decreases second.len(),
{
    if second.len() > 0 {
        lemma_arrivals_in_two_stretches(track, first, second.drop_last());
        assert((first + second).drop_last() =~= first + second.drop_last());
    }
}

/// A gathered batch has as many frames as the cycle asked for.
pub proof fn lemma_gathered_keeps_length(track: TrackView, count: nat, sources: Seq<Arrival>)
    ensures
        gathered(track, count, sources).len() == count,
    decreases sources.len(),
{
    if sources.len() > 0 {
        lemma_gathered_keeps_length(track, count, sources.drop_last());
    }
}

/// While more sources are awaited than batches arrive, the track only gathers:
/// it asks for nothing and counts down.
pub proof fn lemma_gathering(track: TrackView, count: nat, awaited: nat, sources: Seq<Arrival>)
    requires
        track.state == TrackStateView::AwaitingSources(awaited),
        track.buffer == silence(count),
        sources.len() < awaited,
    ensures
        after_arrivals(track, sources) == (
            TrackView {
                state: TrackStateView::AwaitingSources((awaited - sources.len()) as nat),
                buffer: gathered(track, count, sources),
                ..track
            },
            Seq::<TrackEffectView>::empty(),
        ),
    decreases sources.len(),
{
    if sources.len() > 0 {
        lemma_gathering(track, count, awaited, sources.drop_last());
    }
}

/// The track at the point where the effect at place `asked` has been asked and
/// its answer is awaited, or where the cycle has ended if there is no such
/// effect.
pub open spec fn midway(
    track: TrackView,
    mix: Seq<StereoSample>,
    answers: Seq<Seq<StereoSample>>,
    asked: int,
) -> TrackView {
    if asked < track.actors.len() {
        TrackView {
            state: TrackStateView::AwaitingEffect(actor_uids(track.actors).skip(asked + 1)),
            buffer: if asked == 0 {
                mix
            } else {
                answers[asked - 1]
            },
            ..track
        }
    } else {
        TrackView { state: TrackStateView::Idle, buffer: outcome(mix, answers), ..track }
    }
}

/// All that has been asked for up to the point that `midway` describes.
pub open spec fn midway_asked(
    track: TrackView,
    mix: Seq<StereoSample>,
    answers: Seq<Seq<StereoSample>>,
    asked: int,
) -> Seq<TrackEffectView> {
    if asked < track.actors.len() {
        chain_requests(track.actors, mix, answers).take(asked + 1)
    } else {
        chain_requests(track.actors, mix, answers) + seq![
            TrackEffectView::Publish(
                TrackActionView::Frames(track.uid, outcome(mix, answers)),
            ),
        ]
    }
}

/// One step down the effect chain, from the point where `asked` effects have
/// answered: the next effect in the order of the track is asked with the batch
/// as it then stands, or the cycle ends with that batch.
proof fn lemma_chain_step(
    track: TrackView,
    mix: Seq<StereoSample>,
    answers: Seq<Seq<StereoSample>>,
    asked: int,
)
    requires
        actor_uids(track.actors).no_duplicates(),
        answers.len() == track.actors.len(),
        0 <= asked <= track.actors.len(),
    ensures
        after_effect_step(
            TrackView {
                state: TrackStateView::AwaitingEffect(actor_uids(track.actors).skip(asked)),
                buffer: if asked == 0 {
                    mix
                } else {
                    answers[asked - 1]
                },
                ..track
            },
        ) == (
            midway(track, mix, answers, asked),
            if asked < track.actors.len() {
                seq![chain_requests(track.actors, mix, answers)[asked]]
            } else {
                seq![
                    TrackEffectView::Publish(
                        TrackActionView::Frames(track.uid, outcome(mix, answers)),
                    ),
                ]
            },
        ),
{
    let uids = actor_uids(track.actors);
    let queue = uids.skip(asked);
    if asked < track.actors.len() {
        lemma_actor_at(track.actors, asked);
        assert(queue.drop_first() =~= uids.skip(asked + 1));
    }
}

/// The effect chain, answer by answer: after the first `done` answers the
/// track stands where `midway` says, having asked what `midway_asked` says.
proof fn lemma_chain_phase(
    track: TrackView,
    mix: Seq<StereoSample>,
    answers: Seq<Seq<StereoSample>>,
    done: int,
)
    requires
        actor_uids(track.actors).no_duplicates(),
        answers.len() == track.actors.len(),
        0 <= done <= answers.len(),
    ensures
        ({
            let (first, asked) = after_effect_step(
                TrackView {
                    state: TrackStateView::AwaitingEffect(actor_uids(track.actors)),
                    buffer: mix,
                    ..track
                },
            );
            let (then, more) = after_arrivals(first, as_arrivals(answers.take(done)));
            (then, asked + more)
        }) == (midway(track, mix, answers, done), midway_asked(track, mix, answers, done)),
    decreases done,
{
    let requests = chain_requests(track.actors, mix, answers);
    if done == 0 {
        lemma_chain_step(track, mix, answers, 0);
    } else {
        lemma_chain_phase(track, mix, answers, done - 1);
        let arrivals = as_arrivals(answers.take(done));
        assert(arrivals.drop_last() =~= as_arrivals(answers.take(done - 1)));
        lemma_chain_step(track, mix, answers, done);
        if done < track.actors.len() {
            assert(requests.take(done) + seq![requests[done]] =~= requests.take(done + 1));
        } else {
            assert(requests.take(done) =~= requests);
        }
    }
}

/// A whole cycle. An idle track is asked for `count` frames; each of its
/// sources delivers one batch, in whatever order; each of its effects answers
/// the request made of it. Then the track is idle again, and in all that time
/// it has asked for this and nothing else, in this order: audio from every
/// source; a transformation from each effect in the order in which the
/// effects were added, the first with the gathered batch, each later one with
/// the answer of the one before; and, once, the announcement of the batch that
/// the last effect answered with, or of the gathered batch where there is no
/// effect.
pub proof fn lemma_cycle_announces_one_batch(
    track: TrackView,
    count: usize,
    sources: Seq<Arrival>,
    answers: Seq<Seq<StereoSample>>,
)
    requires
        track_wf(track),
        track.state is Idle,
        sources.len() == track.send_tracks.len() + track.actors.len(),
        answers.len() == track.actors.len(),
    ensures
        ({
            let (started, asked) = after_needs_audio(track, count);
            let (ended, more) = after_arrivals(started, sources + as_arrivals(answers));
            (ended, asked + more)
        }) == ({
            let mix = gathered(track, count as nat, sources);
            (
                TrackView { buffer: outcome(mix, answers), ..track },
                opening(track, count) + chain_requests(track.actors, mix, answers) + seq![
                    TrackEffectView::Publish(
                        TrackActionView::Frames(track.uid, outcome(mix, answers)),
                    ),
                ],
            )
        }),
{
    let (started, asked) = after_needs_audio(track, count);
    let mix = gathered(track, count as nat, sources);
    if sources.len() > 0 {
        let awaited = sources.len();
        lemma_arrivals_in_two_stretches(started, sources, as_arrivals(answers));
        // All sources but the last.
        let early = sources.drop_last();
        lemma_gathering(started, count as nat, awaited, early);
        assert(gathered(started, count as nat, early) == gathered(track, count as nat, early)) by {
            lemma_gathered_ignores_state(track, started, count as nat, early);
        }
        // The last source starts the effect chain.
        lemma_chain_phase(track, mix, answers, answers.len() as int);
        assert(answers.take(answers.len() as int) =~= answers);
    }
}

/// What is gathered does not depend on where the track stands in its cycle.
proof fn lemma_gathered_ignores_state(
    track: TrackView,
    other: TrackView,
    count: nat,
    sources: Seq<Arrival>,
)
    requires
        track.mixer == other.mixer,
    ensures
        gathered(track, count, sources) == gathered(other, count, sources),
    decreases sources.len(),
{
    if sources.len() > 0 {
        lemma_gathered_ignores_state(track, other, count, sources.drop_last());
    }
}

/// In a whole cycle the track announces frames exactly once, at the very end,
/// and the batch it announces has as many frames as were asked for, as long as
/// every effect answers with as many frames as it was given.
pub proof fn lemma_cycle_announcement_is_single(
    track: TrackView,
    count: usize,
    sources: Seq<Arrival>,
    answers: Seq<Seq<StereoSample>>,
)
    requires
        track_wf(track),
        track.state is Idle,
        sources.len() == track.send_tracks.len() + track.actors.len(),
        answers.len() == track.actors.len(),
        forall|i: int| 0 <= i < answers.len() ==> (#[trigger] answers[i]).len() == count,
    ensures
        ({
            let (started, asked) = after_needs_audio(track, count);
            let (ended, more) = after_arrivals(started, sources + as_arrivals(answers));
            let all = asked + more;
            &&& ended.state is Idle
            &&& all.len() >= 1
            &&& all.last() matches TrackEffectView::Publish(TrackActionView::Frames(uid, frames))
                && uid == track.uid && frames.len() == count
            &&& forall|i: int| 0 <= i < all.len() - 1 ==> !((#[trigger] all[i]) is Publish)
        }),
{
    lemma_cycle_announces_one_batch(track, count, sources, answers);
    lemma_gathered_keeps_length(track, count as nat, sources);
    let (started, asked) = after_needs_audio(track, count);
    let (ended, more) = after_arrivals(started, sources + as_arrivals(answers));
    let all = asked + more;
    assert forall|i: int| 0 <= i < all.len() - 1 implies !((#[trigger] all[i]) is Publish) by {
    }
}

/// The effects of a track are applied in the order in which they were added.
/// When each effect answers a request with its own transformation of the batch
/// it was given, the track asks the effect at each place with the gathered
/// batch as the effects before it have left it, and what it announces is the
/// gathered batch with all effects applied, the first of them first.
pub proof fn lemma_effects_apply_in_order(
    track: TrackView,
    count: usize,
    sources: Seq<Arrival>,
    effects: Seq<spec_fn(Seq<StereoSample>) -> Seq<StereoSample>>,
)
    requires
        track_wf(track),
        track.state is Idle,
        sources.len() == track.send_tracks.len() + track.actors.len(),
        effects.len() == track.actors.len(),
    ensures
        ({
            let mix = gathered(track, count as nat, sources);
            let answers = replies(effects, mix);
            let (started, asked) = after_needs_audio(track, count);
            let (ended, more) = after_arrivals(started, sources + as_arrivals(answers));
            let all = asked + more;
            &&& all.last() == TrackEffectView::Publish(
                TrackActionView::Frames(track.uid, chain(effects, mix)),
            )
            &&& forall|i: int|
                0 <= i < effects.len() ==> #[trigger] all[opening(track, count).len() + i]
                    == TrackEffectView::ToEntity(
                    track.actors[i],
                    EntityRequestView::NeedsTransformation(chain(effects.take(i), mix)),
                )
        }),
{
    let mix = gathered(track, count as nat, sources);
    let answers = replies(effects, mix);
    lemma_cycle_announces_one_batch(track, count, sources, answers);
    let (started, asked) = after_needs_audio(track, count);
    let (ended, more) = after_arrivals(started, sources + as_arrivals(answers));
    let all = asked + more;
    assert(effects.take(effects.len() as int) =~= effects);
    assert forall|i: int| 0 <= i < effects.len() implies #[trigger] all[opening(track, count).len()
        + i] == TrackEffectView::ToEntity(
        track.actors[i],
        EntityRequestView::NeedsTransformation(chain(effects.take(i), mix)),
    ) by {
    }
}

} // verus!
