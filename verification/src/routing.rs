//! How the control links that a track keeps account of come to stand at the
//! workers of its entities, so that a control signal drives the parameters
//! that are linked from its source and no others.

use crate::entity::{is_other_link, wiring_after, EntityWorkerView, InboundLink};
use crate::seqs::lemma_filter_push;
use crate::track::ControlLink;
use crate::track_model::{
    actor_uids, differs_from, link_effects, other_links, unlink_effects, TrackEffectView,
    TrackView,
};
use crate::types::Uid;
use vstd::prelude::*;

verus! {

/// The test that a link leads to `target_uid`.
pub open spec fn leads_to(target_uid: Uid) -> spec_fn(ControlLink) -> bool {
    |link: ControlLink| link.target_uid == target_uid
}

/// The links of `registry` that lead to `target_uid`, as the worker of that
/// entity keeps them, in the order in which they were made.
pub open spec fn inbound(registry: Seq<ControlLink>, target_uid: Uid) -> Seq<InboundLink> {
    registry.filter(leads_to(target_uid)).map_values(
        |link: ControlLink| InboundLink { source_uid: link.source_uid, param: link.param },
    )
}

/// The worker of the entity `uid` after it has taken, in order, those of the
/// requests of `effects` that are meant for it.
pub open spec fn delivered(worker: EntityWorkerView, uid: Uid, effects: Seq<TrackEffectView>) -> EntityWorkerView
    decreases effects.len(),
{
    if effects.len() == 0 {
        worker
    } else {
        let before = delivered(worker, uid, effects.drop_last());
        match effects.last() {
            TrackEffectView::ToEntity(actor, request) => if actor.uid == uid {
                wiring_after(before, request)
            } else {
                before
            },
            _ => before,
        }
    }
}

/// The links that lead to an entity, of a list that is one link longer.
pub proof fn lemma_inbound_push(registry: Seq<ControlLink>, link: ControlLink, target_uid: Uid)
    ensures
        inbound(registry.push(link), target_uid) == if link.target_uid == target_uid {
            inbound(registry, target_uid).push(
                InboundLink { source_uid: link.source_uid, param: link.param },
            )
        } else {
            inbound(registry, target_uid)
        },
{
    lemma_filter_push(registry, link, leads_to(target_uid));
}

/// The links that lead to an entity, of a list from which a link has been
/// taken away.
pub proof fn lemma_inbound_without(registry: Seq<ControlLink>, link: ControlLink, target_uid: Uid)
    ensures
        inbound(other_links(registry, link), target_uid) == if link.target_uid == target_uid {
            inbound(registry, target_uid).filter(
                is_other_link(InboundLink { source_uid: link.source_uid, param: link.param }),
            )
        } else {
            inbound(registry, target_uid)
        },
    decreases registry.len(),
{
    let gone = InboundLink { source_uid: link.source_uid, param: link.param };
    if registry.len() > 0 {
        let before = registry.drop_last();
        let last = registry.last();
        assert(registry =~= before.push(last));
        lemma_inbound_without(before, link, target_uid);
        lemma_filter_push(before, last, differs_from(link));
        lemma_inbound_push(before, last, target_uid);
        if last != link {
            lemma_inbound_push(other_links(before, link), last, target_uid);
        }
        if last.target_uid == target_uid && link.target_uid == target_uid {
            lemma_filter_push(
                inbound(before, target_uid),
                InboundLink { source_uid: last.source_uid, param: last.param },
                is_other_link(gone),
            );
        }
    }
}

/// A track and the workers of its entities stay in step when a link is made.
/// If every worker holds the links that the track's account shows for it, then
/// after the link has been entered in the account and the requests that this
/// asks for have reached the workers, every worker again holds the links that
/// the account shows for it.
pub proof fn lemma_link_keeps_workers_in_step(
    track: TrackView,
    link: ControlLink,
    worker: EntityWorkerView,
    uid: Uid,
)
    requires
        actor_uids(track.actors).no_duplicates(),
        actor_uids(track.actors).contains(link.source_uid),
        actor_uids(track.actors).contains(link.target_uid),
        actor_uids(track.actors).contains(uid),
        worker.uid == uid,
        worker.links == inbound(track.control_links, uid),
    ensures
        delivered(worker, uid, link_effects(track, link)).links == inbound(
            track.control_links.push(link),
            uid,
        ),
{
    let effects = link_effects(track, link);
    lemma_inbound_push(track.control_links, link, uid);
    let first = effects.drop_last();
    assert(delivered(worker, uid, first.drop_last()) == worker);
    assert(delivered(worker, uid, first).links == worker.links);
}

/// A track and the workers of its entities stay in step when a link is taken
/// away: if every worker holds the links that the track's account shows for
/// it, it does so again afterwards. So the pairing that was taken away is gone
/// from the worker it led to, and every other pairing stands where it stood.
pub proof fn lemma_unlink_keeps_workers_in_step(
    track: TrackView,
    link: ControlLink,
    worker: EntityWorkerView,
    uid: Uid,
)
    requires
        actor_uids(track.actors).no_duplicates(),
        actor_uids(track.actors).contains(link.source_uid),
        actor_uids(track.actors).contains(link.target_uid),
        actor_uids(track.actors).contains(uid),
        worker.uid == uid,
        worker.links == inbound(track.control_links, uid),
    ensures
        delivered(worker, uid, unlink_effects(track, link)).links == inbound(
            other_links(track.control_links, link),
            uid,
        ),
{
    let effects = unlink_effects(track, link);
    lemma_inbound_without(track.control_links, link, uid);
    if effects.len() == 1 {
        assert(delivered(worker, uid, effects.drop_last()) == worker);
    } else {
        let first = effects.drop_last();
        assert(delivered(worker, uid, first.drop_last()) == worker);
        assert(delivered(worker, uid, first).links == worker.links);
    }
}

} // verus!
