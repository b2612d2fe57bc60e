//! Candidate streams fetched from the video-listing service, the lead-time
//! gate that keeps only streams about to start, and the match of candidates
//! against the roster.
use vstd::prelude::*;
use crate::text::str_eq;
use crate::vtuber::Vtuber;

verus! {

/// How close to its availability a stream must be for a notification to be
/// timely, in seconds (22 minutes).
pub const LEAD_TIME_SECS: i64 = 1320;

/// A candidate stream as the listing service reports it. Timestamps are
/// seconds since the Unix epoch, UTC; `start_scheduled` is absent when the
/// service reports no scheduled start.
pub struct Video {
    pub video_id: String,
    pub title: String,
    pub channel_id: String,
    pub start_scheduled: Option<i64>,
    pub available_at: i64,
}

impl Clone for Video {
    fn clone(&self) -> (res: Self)
        ensures
            res == *self,
    {
        Video {
            video_id: self.video_id.clone(),
            title: self.title.clone(),
            channel_id: self.channel_id.clone(),
            start_scheduled: match &self.start_scheduled {
                Some(t) => Some(*t),
                None => None,
            },
            available_at: self.available_at,
        }
    }
}

/// A candidate stream paired with the roster creator it belongs to.
pub struct VtuberVideo {
    pub vtuber: Vtuber,
    pub video: Video,
}

impl Clone for VtuberVideo {
    fn clone(&self) -> (res: Self)
        ensures
            res == *self,
    {
        VtuberVideo { vtuber: self.vtuber.clone(), video: self.video.clone() }
    }
}

/// The lead-time gate: a candidate passes when it has a scheduled start
/// that has not yet passed and becomes available within the lead-time
/// window from `now`.
pub open spec fn video_in_gate(v: Video, now: int) -> bool {
    &&& v.start_scheduled is Some
    &&& v.start_scheduled.unwrap() >= now
    &&& v.available_at - now < LEAD_TIME_SECS as int
}

/// The lead-time check as a predicate on one candidate, for a fixed `now`.
pub open spec fn gate_pred(now: int) -> spec_fn(Video) -> bool {
    |v: Video| video_in_gate(v, now)
}

/// Tests one candidate against the lead-time gate.
pub fn video_passes_gate(v: &Video, now: i64) -> (r: bool)
    ensures
        r == video_in_gate(*v, now as int),
{
    match &v.start_scheduled {
        Some(start) => {
            let lead: i128 = LEAD_TIME_SECS as i128;
            *start >= now && (v.available_at as i128) - (now as i128) < lead
        },
        None => false,
    }
}

/// Keeps exactly the candidates that pass the lead-time gate, in order.
/// This is the availability filter of the fetch step: streams whose start
/// already passed are clock-skew noise, and streams further out than the
/// lead-time window are not yet timely.
pub fn filter_upcoming_videos(videos: &Vec<Video>, now: i64) -> (r: Vec<Video>)
    ensures
        r@ == videos@.filter(gate_pred(now as int)),
{
    let mut r: Vec<Video> = Vec::new();
    let n = videos.len();
    let mut i: usize = 0;
    proof {
        assert(videos@.take(0).filter(gate_pred(now as int)) =~= Seq::<Video>::empty());
    }
    while i < n
        invariant
            i <= n,
            n == videos@.len(),
            r@ == videos@.take(i as int).filter(gate_pred(now as int)),
        decreases n - i,
    {
        proof {
            crate::seq_util::lemma_filter_push(
                videos@.take(i as int),
                gate_pred(now as int),
                videos@[i as int],
            );
            assert(videos@.take(i + 1) =~= videos@.take(i as int).push(videos@[i as int]));
        }
        if video_passes_gate(&videos[i], now) {
            r.push(videos[i].clone());
            proof {
                assert(r@ =~= videos@.take(i + 1).filter(gate_pred(now as int)));
            }
        } else {
            proof {
                assert(r@ =~= videos@.take(i + 1).filter(gate_pred(now as int)));
            }
        }
        i = i + 1;
    }
    proof {
        assert(videos@.take(n as int) =~= videos@);
    }
    r
}

/// The first roster creator whose external channel id equals `channel_id`,
/// scanning in roster order.
pub open spec fn matching_vtuber(vs: Seq<Vtuber>, channel_id: Seq<char>) -> Option<Vtuber>
    decreases vs.len(),
{
    if vs.len() == 0 {
        None
    } else if vs[0].youtube_channel_id@ == channel_id {
        Some(vs[0])
    } else {
        matching_vtuber(vs.drop_first(), channel_id)
    }
}

proof fn lemma_matching_vtuber_found(vs: Seq<Vtuber>, channel_id: Seq<char>, i: int)
    requires
        0 <= i < vs.len(),
        vs[i].youtube_channel_id@ == channel_id,
        forall|k: int| 0 <= k < i ==> (#[trigger] vs[k]).youtube_channel_id@ != channel_id,
    ensures
        matching_vtuber(vs, channel_id) == Some(vs[i]),
    decreases i,
{
    if i == 0 {
    } else {
        assert(vs.drop_first()[i - 1] == vs[i]);
        assert(forall|k: int|
            0 <= k < i - 1 ==> (#[trigger] vs.drop_first()[k]).youtube_channel_id@ != channel_id);
        lemma_matching_vtuber_found(vs.drop_first(), channel_id, i - 1);
    }
}

proof fn lemma_matching_vtuber_none(vs: Seq<Vtuber>, channel_id: Seq<char>)
    requires
        forall|k: int| 0 <= k < vs.len() ==> (#[trigger] vs[k]).youtube_channel_id@ != channel_id,
    ensures
        matching_vtuber(vs, channel_id) is None,
    decreases vs.len(),
{
    if vs.len() > 0 {
        assert(forall|k: int|
            0 <= k < vs.drop_first().len() ==> (
            #[trigger] vs.drop_first()[k]).youtube_channel_id@ != channel_id);
        lemma_matching_vtuber_none(vs.drop_first(), channel_id);
    }
}

/// Finds the first roster creator with the given external channel id.
pub fn find_vtuber_by_channel(vtubers: &Vec<Vtuber>, channel_id: &str) -> (r: Option<Vtuber>)
    ensures
        r == matching_vtuber(vtubers@, channel_id@),
{
    let n = vtubers.len();
    let mut i: usize = 0;
    while i < n
        invariant
            i <= n,
            n == vtubers@.len(),
            forall|k: int| 0 <= k < i ==> (#[trigger] vtubers@[k]).youtube_channel_id@ != channel_id@,
        decreases n - i,
    {
        if str_eq(vtubers[i].youtube_channel_id.as_str(), channel_id) {
            proof {
                lemma_matching_vtuber_found(vtubers@, channel_id@, i as int);
            }
            return Some(vtubers[i].clone());
        }
        i = i + 1;
    }
    proof {
        lemma_matching_vtuber_none(vtubers@, channel_id@);
    }
    None
}

/// A creator returned by the channel match is a row of the roster.
pub proof fn lemma_matching_vtuber_in(vs: Seq<Vtuber>, channel_id: Seq<char>)
    requires
        matching_vtuber(vs, channel_id) is Some,
    ensures
        exists|i: int|
            0 <= i < vs.len() && #[trigger] vs[i] == matching_vtuber(vs, channel_id).unwrap(),
    decreases vs.len(),
{
    if vs.len() > 0 {
        if vs[0].youtube_channel_id@ == channel_id {
            assert(vs[0] == matching_vtuber(vs, channel_id).unwrap());
        } else {
            lemma_matching_vtuber_in(vs.drop_first(), channel_id);
            let i = choose|i: int|
                0 <= i < vs.drop_first().len() && #[trigger] vs.drop_first()[i] == matching_vtuber(
                    vs.drop_first(),
                    channel_id,
                ).unwrap();
            assert(vs[i + 1] == vs.drop_first()[i]);
        }
    }
}

/// What one candidate contributes to the match: the pair when some creator
/// owns its channel, nothing otherwise.
pub open spec fn assoc_pred(vs: Seq<Vtuber>) -> spec_fn(Video) -> Option<VtuberVideo> {
    |v: Video|
        match matching_vtuber(vs, v.channel_id@) {
            Some(vt) => Some(VtuberVideo { vtuber: vt, video: v }),
            None => None,
        }
}

/// The candidates that belong to some roster creator, each paired with the
/// first creator whose channel id matches, in candidate order.
pub open spec fn associate_spec(vs: Seq<Vtuber>, videos: Seq<Video>) -> Seq<VtuberVideo> {
    videos.filter_map(assoc_pred(vs))
}

/// The match never yields more pairs than there were candidates.
pub proof fn lemma_associate_len(vs: Seq<Vtuber>, videos: Seq<Video>)
    ensures
        associate_spec(vs, videos).len() <= videos.len(),
    decreases videos.len(),
{
    reveal(Seq::filter_map);
    if videos.len() > 0 {
        lemma_associate_len(vs, videos.drop_last());
    }
}

/// Pairs each candidate with the roster creator owning its channel and
/// drops candidates that belong to no tracked creator.
pub fn associate_video_vtuber(vtubers: &Vec<Vtuber>, videos: &Vec<Video>) -> (r: Vec<VtuberVideo>)
    ensures
        r@ == associate_spec(vtubers@, videos@),
{
    let mut r: Vec<VtuberVideo> = Vec::new();
    let n = videos.len();
    let mut i: usize = 0;
    proof {
        assert(videos@.take(0).filter_map(assoc_pred(vtubers@)) =~= Seq::<VtuberVideo>::empty());
    }
    while i < n
        invariant
            i <= n,
            n == videos@.len(),
            r@ == videos@.take(i as int).filter_map(assoc_pred(vtubers@)),
        decreases n - i,
    {
        proof {
            videos@.lemma_filter_map_take_succ(assoc_pred(vtubers@), i as int);
        }
        match find_vtuber_by_channel(vtubers, videos[i].channel_id.as_str()) {
            Some(vt) => {
                r.push(VtuberVideo { vtuber: vt, video: videos[i].clone() });
                proof {
                    assert(r@ =~= videos@.take(i + 1).filter_map(assoc_pred(vtubers@)));
                }
            },
            None => {
                proof {
                    assert(r@ =~= videos@.take(i + 1).filter_map(assoc_pred(vtubers@)));
                }
            },
        }
        i = i + 1;
    }
    proof {
        assert(videos@.take(n as int) =~= videos@);
    }
    r
}

} // verus!
