//! The mixing bus of an aggregating track: a level and a mute switch for each
//! track that feeds it, and the share of the bus that each level amounts to.

use crate::sample::{merged, StereoSample};
use crate::types::{Normal, TrackUid};
use vstd::prelude::*;

verus! {

/// What the mixer knows of one registered track.
pub struct MixerTrack {
    pub uid: TrackUid,
    pub level: Normal,
    pub muted: bool,
}

/// The settings a track starts with: full level, not muted.
pub open spec fn fresh_track(uid: TrackUid) -> MixerTrack {
    MixerTrack { uid, level: Normal::spec_maximum(), muted: false }
}

/// Whether `uid` is registered.
pub open spec fn registered(tracks: Seq<MixerTrack>, uid: TrackUid) -> bool {
    exists|i: int| 0 <= i < tracks.len() && (#[trigger] tracks[i]).uid == uid
}

/// No track is registered twice.
pub open spec fn distinct(tracks: Seq<MixerTrack>) -> bool {
    forall|i: int, j: int|
        0 <= i < tracks.len() && 0 <= j < tracks.len() && i != j ==> (#[trigger] tracks[i]).uid != (
        #[trigger] tracks[j]).uid
}

/// The settings of `uid`, which is registered.
pub open spec fn settings(tracks: Seq<MixerTrack>, uid: TrackUid) -> MixerTrack
    recommends
        registered(tracks, uid),
{
    tracks[choose|i: int| 0 <= i < tracks.len() && (#[trigger] tracks[i]).uid == uid]
}

/// The sum of all registered levels, muted tracks included.
pub open spec fn total_level(tracks: Seq<MixerTrack>) -> nat
    decreases tracks.len(),
{
    if tracks.len() == 0 {
        0
    } else {
        total_level(tracks.drop_last()) + tracks.last().level.0 as nat
    }
}

/// The tracks after `uid` has been registered: a track that was there is back
/// at its fresh settings in its old place, a new one stands at the end.
pub open spec fn with_track(tracks: Seq<MixerTrack>, uid: TrackUid) -> Seq<MixerTrack> {
    if registered(tracks, uid) {
        tracks.map_values(
            |t: MixerTrack|
                if t.uid == uid {
                    fresh_track(uid)
                } else {
                    t
                },
        )
    } else {
        tracks.push(fresh_track(uid))
    }
}

/// The tracks after the level of `uid` has been set.
pub open spec fn with_level(tracks: Seq<MixerTrack>, uid: TrackUid, level: Normal) -> Seq<
    MixerTrack,
> {
    tracks.map_values(
        |t: MixerTrack|
            if t.uid == uid {
                MixerTrack { level, ..t }
            } else {
                t
            },
    )
}

/// The tracks after `uid` has been muted or unmuted.
pub open spec fn with_mute(tracks: Seq<MixerTrack>, uid: TrackUid, muted: bool) -> Seq<
    MixerTrack,
> {
    tracks.map_values(
        |t: MixerTrack|
            if t.uid == uid {
                MixerTrack { muted, ..t }
            } else {
                t
            },
    )
}

/// Whether audio from `uid` reaches the bus at all: it is registered, not
/// muted, and its level is above the minimum.
pub open spec fn contributes(tracks: Seq<MixerTrack>, uid: TrackUid) -> bool {
    registered(tracks, uid) && !settings(tracks, uid).muted && settings(tracks, uid).level
        != Normal::spec_minimum()
}

/// `source` with every frame scaled by `num / den`.
pub open spec fn scaled_batch(source: Seq<StereoSample>, num: nat, den: nat) -> Seq<
    StereoSample,
> {
    source.map_values(|s: StereoSample| s.spec_scaled(num, den))
}

/// The bus after a batch from `uid` has been mixed into it: the batch is
/// weighted by the track's level over the total of all levels and added frame
/// by frame, unless the track does not contribute.
pub open spec fn mixed(
    tracks: Seq<MixerTrack>,
    uid: TrackUid,
    source: Seq<StereoSample>,
    dest: Seq<StereoSample>,
) -> Seq<StereoSample> {
    if contributes(tracks, uid) {
        merged(
            dest,
            scaled_batch(source, settings(tracks, uid).level.0 as nat, total_level(tracks)),
        )
    } else {
        dest
    }
}

/// The total is at most the number of tracks times the largest level.
pub proof fn lemma_total_level_is_bounded(tracks: Seq<MixerTrack>)
    ensures
        total_level(tracks) <= tracks.len() * 65535,
    decreases tracks.len(),
{
    if tracks.len() > 0 {
        lemma_total_level_is_bounded(tracks.drop_last());
    }
}

/// No single level exceeds the total.
pub proof fn lemma_level_is_within_total(tracks: Seq<MixerTrack>, i: int)
    requires
        0 <= i < tracks.len(),
    ensures
        tracks[i].level.0 <= total_level(tracks),
    decreases tracks.len(),
{
    if i < tracks.len() - 1 {
        lemma_level_is_within_total(tracks.drop_last(), i);
    }
}

/// With a total of zero every level is at the minimum.
pub proof fn lemma_zero_total_means_all_minimum(tracks: Seq<MixerTrack>)
    requires
        total_level(tracks) == 0,
    ensures
        forall|i: int| 0 <= i < tracks.len() ==> (#[trigger] tracks[i]).level == Normal::spec_minimum(),
{
    assert forall|i: int| 0 <= i < tracks.len() implies (#[trigger] tracks[i]).level
        == Normal::spec_minimum() by {
        lemma_level_is_within_total(tracks, i);
    }
}

/// With every level at zero, mixing changes nothing, whichever track the batch
/// comes from.
pub proof fn lemma_mix_without_level_is_silent(
    tracks: Seq<MixerTrack>,
    uid: TrackUid,
    source: Seq<StereoSample>,
    dest: Seq<StereoSample>,
)
    requires
        total_level(tracks) == 0,
    ensures
        mixed(tracks, uid, source, dest) == dest,
{
    lemma_zero_total_means_all_minimum(tracks);
}

/// A muted or unregistered track adds nothing to the bus.
pub proof fn lemma_mix_of_muted_is_silent(
    tracks: Seq<MixerTrack>,
    uid: TrackUid,
    source: Seq<StereoSample>,
    dest: Seq<StereoSample>,
)
    requires
        !registered(tracks, uid) || settings(tracks, uid).muted,
    ensures
        mixed(tracks, uid, source, dest) == dest,
{
}

/// With a total above zero, a track that is not muted adds to each frame of
/// the bus the matching frame of its batch times its level over the total.
pub proof fn lemma_mix_adds_share(
    tracks: Seq<MixerTrack>,
    i: int,
    source: Seq<StereoSample>,
    dest: Seq<StereoSample>,
    k: int,
)
    requires
        distinct(tracks),
        0 <= i < tracks.len(),
        !tracks[i].muted,
        total_level(tracks) > 0,
        0 <= k < dest.len(),
        k < source.len(),
    ensures
        mixed(tracks, tracks[i].uid, source, dest).len() == dest.len(),
        mixed(tracks, tracks[i].uid, source, dest)[k] == dest[k].spec_plus(
            source[k].spec_scaled(tracks[i].level.0 as nat, total_level(tracks)),
        ),
{
}

/// The settings that the mixer keeps for one track. Beside the level and the
/// mute switch it holds the track's share of the bus as a ratio, as it was when
/// the shares were last worked out.
#[derive(Clone, Copy, Debug)]
pub struct MixerParamSet {
    level: Normal,
    muted: bool,
    share: u16,
    share_of: u128,
}

impl MixerParamSet {
    fn fresh() -> (params: MixerParamSet)
        ensures
            params.level == Normal::spec_maximum(),
            !params.muted,
    {
        MixerParamSet { level: Normal::maximum(), muted: false, share: 0, share_of: 1 }
    }
}

/// Levels and mute switches of the tracks that feed one aggregating track.
#[derive(Debug)]
pub struct Mixer {
    track_uids: Vec<TrackUid>,
    track_param_sets: Vec<MixerParamSet>,
}

impl View for Mixer {
    type V = Seq<MixerTrack>;

    closed spec fn view(&self) -> Seq<MixerTrack> {
        Seq::new(
            self.track_uids@.len(),
            |i: int|
                MixerTrack {
                    uid: self.track_uids@[i],
                    level: self.track_param_sets@[i].level,
                    muted: self.track_param_sets@[i].muted,
                },
        )
    }
}

impl Default for Mixer {
    fn default() -> (mixer: Mixer)
        ensures
            mixer.wf(),
            mixer@ == Seq::<MixerTrack>::empty(),
    {
        Mixer::new()
    }
}

impl Mixer {
    /// No track is registered twice, and what the mixer keeps beside its view
    /// is in order.
    pub open spec fn wf(&self) -> bool {
        distinct(self@) && self.shares_wf()
    }

    /// Every track has one set of settings, and while the total is above zero
    /// each kept share is the track's level over the total.
    pub closed spec fn shares_wf(&self) -> bool {
        &&& self.track_uids@.len() == self.track_param_sets@.len()
        &&& total_level(self@) > 0 ==> forall|i: int|
            0 <= i < self.track_param_sets@.len() ==> {
                &&& (#[trigger] self.track_param_sets@[i]).share
                    == self.track_param_sets@[i].level.0
                &&& self.track_param_sets@[i].share_of == total_level(self@)
            }
    }

    /// A mixer with no track.
    pub fn new() -> (mixer: Mixer)
        ensures
            mixer.wf(),
            mixer@ == Seq::<MixerTrack>::empty(),
    {
        Mixer { track_uids: Vec::new(), track_param_sets: Vec::new() }
    }

    /// The registered tracks, in the order in which they were registered.
    pub fn track_uids(&self) -> (uids: &Vec<TrackUid>)
        ensures
            uids@.len() == self@.len(),
            forall|i: int| 0 <= i < uids@.len() ==> uids@[i] == (#[trigger] self@[i]).uid,
    {
        &self.track_uids
    }

    /// The number of registered tracks.
    pub fn len(&self) -> (len: usize)
        ensures
            len == self@.len(),
    {
        self.track_uids.len()
    }

    fn position(&self, track_uid: TrackUid) -> (found: Option<usize>)
        requires
            self.wf(),
        ensures
            found matches Some(i) ==> i < self@.len() && self@[i as int].uid == track_uid
                && registered(self@, track_uid) && settings(self@, track_uid) == self@[i as int],
            found.is_none() ==> !registered(self@, track_uid),
    {
        let mut i: usize = 0;
        while i < self.track_uids.len()
            invariant
                self.wf(),
                i <= self.track_uids.len(),
                forall|j: int| 0 <= j < i ==> (#[trigger] self@[j]).uid != track_uid,
            decreases self.track_uids.len() - i,
        {
            if self.track_uids[i] == track_uid {
                return Some(i);
            }
            i += 1;
        }
        None
    }

    /// The level of `track_uid`, if it is registered.
    pub fn level(&self, track_uid: TrackUid) -> (level: Option<Normal>)
        requires
            self.wf(),
        ensures
            level == if registered(self@, track_uid) {
                Some(settings(self@, track_uid).level)
            } else {
                None
            },
    {
        match self.position(track_uid) {
            Some(i) => Some(self.track_param_sets[i].level),
            None => None,
        }
    }

    /// Whether `track_uid` is muted, if it is registered.
    pub fn is_muted(&self, track_uid: TrackUid) -> (muted: Option<bool>)
        requires
            self.wf(),
        ensures
            muted == if registered(self@, track_uid) {
                Some(settings(self@, track_uid).muted)
            } else {
                None
            },
    {
        match self.position(track_uid) {
            Some(i) => Some(self.track_param_sets[i].muted),
            None => None,
        }
    }

    /// Works out every track's share again from the levels as they are now.
    /// With a total of zero the kept shares stay as they were: no track
    /// contributes then, so nothing reads them.
    fn recalc_relative_levels(&mut self)
        requires
            old(self).track_uids@.len() == old(self).track_param_sets@.len(),
            distinct(old(self)@),
        ensures
            final(self).wf(),
            final(self)@ == old(self)@,
    {
        let count = self.track_param_sets.len();
        let mut total: u128 = 0;
        let mut i: usize = 0;
        while i < count
            invariant
                *self == *old(self),
                count == self.track_param_sets@.len(),
                count == self.track_uids@.len(),
                i <= count,
                total == total_level(self@.take(i as int)),
            decreases count - i,
        {
            proof {
                lemma_total_level_is_bounded(self@.take(i as int));
                assert(self@.take(i as int + 1).drop_last() == self@.take(i as int));
                assert(i * 65535 <= usize::MAX * 65535) by (nonlinear_arith)
                    requires
                        i <= usize::MAX,
                ;
            }
            total = total + self.track_param_sets[i].level.0 as u128;
            i += 1;
        }
        assert(self@.take(count as int) == self@);
        if total > 0 {
            let mut j: usize = 0;
            while j < count
                invariant
                    count == self.track_param_sets@.len(),
                    count == self.track_uids@.len(),
                    j <= count,
                    self@ == old(self)@,
                    total == total_level(self@),
                    forall|k: int|
                        0 <= k < j ==> {
                            &&& (#[trigger] self.track_param_sets@[k]).share
                                == self.track_param_sets@[k].level.0
                            &&& self.track_param_sets@[k].share_of == total
                        },
                decreases count - j,
            {
                let ghost before = self@;
                let params = self.track_param_sets[j];
                self.track_param_sets.set(
                    j,
                    MixerParamSet {
                        level: params.level,
                        muted: params.muted,
                        share: params.level.0,
                        share_of: total,
                    },
                );
                assert(self@ == before);
                j += 1;
            }
        }
    }

    /// Registers `track_uid` at full level and not muted. A track that was
    /// registered already goes back to these settings and keeps its place.
    pub fn add_track(&mut self, track_uid: TrackUid)
        requires
            old(self).wf(),
        ensures
            final(self).wf(),
            final(self)@ == with_track(old(self)@, track_uid),
    {
        match self.position(track_uid) {
            Some(i) => {
                self.track_param_sets.set(i, MixerParamSet::fresh());
                assert(self@ == with_track(old(self)@, track_uid));
            },
            None => {
                self.track_uids.push(track_uid);
                self.track_param_sets.push(MixerParamSet::fresh());
                assert(self@ == with_track(old(self)@, track_uid));
            },
        }
        self.recalc_relative_levels();
    }

    /// Sets the level of `track_uid` and works out all shares again. Nothing
    /// changes if the track is not registered.
    pub fn set_level(&mut self, track_uid: TrackUid, level: Normal)
        requires
            old(self).wf(),
        ensures
            final(self).wf(),
            final(self)@ == with_level(old(self)@, track_uid, level),
    {
        match self.position(track_uid) {
            Some(i) => {
                let params = self.track_param_sets[i];
                self.track_param_sets.set(
                    i,
                    MixerParamSet {
                        level,
                        muted: params.muted,
                        share: params.share,
                        share_of: params.share_of,
                    },
                );
                assert(self@ == with_level(old(self)@, track_uid, level));
                self.recalc_relative_levels();
            },
            None => {
            },
        }
    }

    /// Mutes or unmutes `track_uid`. Its level still counts toward the total.
    /// Nothing changes if the track is not registered.
    pub fn set_muted(&mut self, track_uid: TrackUid, muted: bool)
        requires
            old(self).wf(),
        ensures
            final(self).wf(),
            final(self)@ == with_mute(old(self)@, track_uid, muted),
    {
        match self.position(track_uid) {
            Some(i) => {
                let params = self.track_param_sets[i];
                self.track_param_sets.set(
                    i,
                    MixerParamSet {
                        level: params.level,
                        muted,
                        share: params.share,
                        share_of: params.share_of,
                    },
                );
                assert(self@ == with_mute(old(self)@, track_uid, muted));
                self.recalc_relative_levels();
            },
            None => {
            },
        }
    }

    /// Mixes a batch that came from `track_uid` into `dest`: each frame of
    /// `source`, weighted by the track's share of the bus, is added to the
    /// frame of `dest` at the same place, as far as both reach. A track that
    /// is unknown, muted or at the minimum level leaves `dest` as it is.
    pub fn mix(&self, track_uid: TrackUid, source: &Vec<StereoSample>, dest: &mut Vec<StereoSample>)
        requires
            self.wf(),
        ensures
            final(dest)@ == mixed(self@, track_uid, source@, old(dest)@),
    {
        if let Some(p) = self.position(track_uid) {
            let params = self.track_param_sets[p];
            if !params.muted && params.level.0 != 0 {
                proof {
                    lemma_level_is_within_total(self@, p as int);
                }
                let ghost share = scaled_batch(
                    source@,
                    params.level.0 as nat,
                    total_level(self@),
                );
                let mut i: usize = 0;
                while i < dest.len() && i < source.len()
                    invariant
                        dest.len() == old(dest).len(),
                        i <= dest.len(),
                        i <= source.len(),
                        0 < params.share_of,
                        params.share <= params.share_of,
                        params.share == params.level.0,
                        params.share_of == total_level(self@),
                        share == scaled_batch(
                            source@,
                            params.level.0 as nat,
                            total_level(self@),
                        ),
                        forall|j: int| 0 <= j < i ==> dest@[j] == old(dest)@[j].spec_plus(share[j]),
                        forall|j: int| i <= j < dest.len() ==> dest@[j] == old(dest)@[j],
                    decreases dest.len() - i,
                {
                    let weighted = source[i].scaled(params.share, params.share_of);
                    let sum = dest[i].plus(weighted);
                    dest.set(i, sum);
                    i += 1;
                }
            }
        }
    }
}

} // verus!
