//! The poll-match-notify cycle: what one tick of the timer decides, who is
//! messaged, what the message says, what the ledger records, and which
//! stale ledger entries are pruned.
use vstd::prelude::*;
use crate::reported_stream::ReportedStream;
use crate::store::{has_sub, reported, Store, Subscription};
use crate::text::{int_str, two_digits, u64_to_two_digits};
use crate::user::User;
use crate::video::{associate_spec, gate_pred, Video, VtuberVideo};

verus! {

/// The display offset added to UTC timestamps before rendering the start
/// time, in seconds (UTC+3).
pub const DISPLAY_OFFSET_SECS: i64 = 10800;

/// Minutes from `now` until `at`, truncated toward zero as a calendar
/// difference is.
pub open spec fn minutes_until_spec(at: int, now: int) -> int {
    if at >= now {
        (at - now) / 60
    } else {
        -((now - at) / 60)
    }
}

/// Minutes from `now` until `at`.
pub fn minutes_until(at: i64, now: i64) -> (r: i64)
    ensures
        r == minutes_until_spec(at as int, now as int),
{
    let a = at as i128;
    let n = now as i128;
    if a >= n {
        let d = (a - n) / 60;
        proof {
            assert(d <= (a - n));
        }
        d as i64
    } else {
        let d = (n - a) / 60;
        proof {
            assert(d <= (n - a));
        }
        -(d as i64)
    }
}

/// The hour of day, in the display offset, of a UTC timestamp.
pub open spec fn display_hour_spec(at: int) -> int {
    ((at + DISPLAY_OFFSET_SECS) / 3600) % 24
}

/// The minute of hour, in the display offset, of a UTC timestamp.
pub open spec fn display_minute_spec(at: int) -> int {
    ((at + DISPLAY_OFFSET_SECS) / 60) % 60
}

/// Hour and minute of day of a UTC timestamp, shifted to the display
/// offset.
pub fn display_hour_minute(at: i64) -> (r: (u64, u64))
    requires
        0 <= at,
        at + DISPLAY_OFFSET_SECS <= i64::MAX,
    ensures
        r.0 == display_hour_spec(at as int),
        r.1 == display_minute_spec(at as int),
        r.0 < 24,
        r.1 < 60,
{
    let local = at + DISPLAY_OFFSET_SECS;
    let hour = ((local / 3600) % 24) as u64;
    let minute = ((local / 60) % 60) as u64;
    (hour, minute)
}

/// The declension suffix of the Russian word for "minutes" after the
/// number `n`, as the notification text uses it.
pub open spec fn pick_ending_spec(n: int) -> Seq<char> {
    if n < 0 {
        ""@
    } else {
        let m = n % 100;
        if 11 <= m && m <= 19 {
            ""@
        } else if m % 10 == 1 {
            "у"@
        } else if m % 10 == 2 || m % 10 == 3 || m % 10 == 4 {
            "ы"@
        } else {
            ""@
        }
    }
}

/// Picks the declension suffix for a minute count.
pub fn pick_ending(n: i64) -> (r: &'static str)
    ensures
        r@ == pick_ending_spec(n as int),
{
    if n < 0 {
        ""
    } else {
        let m = n % 100;
        if 11 <= m && m <= 19 {
            ""
        } else if m % 10 == 1 {
            "у"
        } else if m % 10 == 2 || m % 10 == 3 || m % 10 == 4 {
            "ы"
        } else {
            ""
        }
    }
}

/// The characters the transport's MarkdownV2 escaper treats as special.
pub open spec fn is_md_special(c: char) -> bool {
    c == '_' || c == '*' || c == '[' || c == ']' || c == '(' || c == ')' || c == '~' || c == '`'
        || c == '>' || c == '#' || c == '+' || c == '-' || c == '=' || c == '|' || c == '{' || c
        == '}' || c == '.' || c == '!'
}

/// A text with every MarkdownV2 special character prefixed by a backslash
/// and every other character kept.
pub open spec fn md_escape_spec(s: Seq<char>) -> Seq<char>
    decreases s.len(),
{
    if s.len() == 0 {
        Seq::empty()
    } else {
        md_escape_spec(s.drop_last()) + (if is_md_special(s.last()) {
            seq!['\\', s.last()]
        } else {
            seq![s.last()]
        })
    }
}

/// Relies on mobot::api::escape_md: prefixes each MarkdownV2 special
/// character with a backslash and keeps every other character, depending
/// on the characters of `text` alone.
#[verifier::external_body]
fn escape_md(text: &str) -> (r: String)
    ensures
        r@ == md_escape_spec(text@),
{
    mobot::api::escape_md(text)
}

/// The thumbnail URL the notification attaches, from the external stream
/// id.
pub open spec fn photo_url_spec(video_id: Seq<char>) -> Seq<char> {
    "https://img.youtube.com/vi/"@ + video_id + "/0.jpg"@
}

/// Builds the thumbnail URL for a stream.
pub fn photo_url(video_id: &str) -> (r: String)
    ensures
        r@ == photo_url_spec(video_id@),
{
    let mut r = "https://img.youtube.com/vi/".to_owned();
    r.append(video_id);
    r.append("/0.jpg");
    proof {
        assert(r@ =~= photo_url_spec(video_id@));
    }
    r
}

/// The full caption of one notification: creator name, minutes to start
/// with the right declension, escaped stream title, deep link, and the
/// start time shifted to the display offset.
pub open spec fn caption_spec(p: VtuberVideo, now: int) -> Seq<char> {
    let minutes = minutes_until_spec(p.video.available_at as int, now);
    "Стрим "@ + p.vtuber.first_name@ + " "@ + p.vtuber.last_name@ + " начнется через \\~"@
        + int_str(minutes) + " минут"@ + pick_ending_spec(minutes) + "\n\nНазвание: "@
        + md_escape_spec(p.video.title@) + "\n\n[▶️ Ссылка на стрим](https://www.youtube.com/watch?v="@
        + p.video.video_id@ + ")\nНачало: "@ + two_digits(display_hour_spec(
        p.video.available_at as int,
    )) + ":"@ + two_digits(display_minute_spec(p.video.available_at as int))
        + " \\(GMT\\+3 Europe/Moscow\\)"@
}

/// A candidate stream whose timestamps the notification text can render.
pub open spec fn video_ts_ok(v: crate::video::Video) -> bool {
    0 <= v.available_at && v.available_at + DISPLAY_OFFSET_SECS <= i64::MAX
}

/// Composes the notification caption for one matched stream.
pub fn notification_caption(p: &VtuberVideo, now: i64) -> (r: String)
    requires
        video_ts_ok(p.video),
    ensures
        r@ == caption_spec(*p, now as int),
{
    let minutes = minutes_until(p.video.available_at, now);
    let (hour, minute) = display_hour_minute(p.video.available_at);
    let mut r = "Стрим ".to_owned();
    r.append(p.vtuber.first_name.as_str());
    r.append(" ");
    r.append(p.vtuber.last_name.as_str());
    r.append(" начнется через \\~");
    let minutes_text = crate::text::i64_to_string(minutes);
    r.append(minutes_text.as_str());
    r.append(" минут");
    r.append(pick_ending(minutes));
    r.append("\n\nНазвание: ");
    let title = escape_md(p.video.title.as_str());
    r.append(title.as_str());
    r.append("\n\n[▶️ Ссылка на стрим](https://www.youtube.com/watch?v=");
    r.append(p.video.video_id.as_str());
    r.append(")\nНачало: ");
    let hh = u64_to_two_digits(hour);
    r.append(hh.as_str());
    r.append(":");
    let mm = u64_to_two_digits(minute);
    r.append(mm.as_str());
    r.append(" \\(GMT\\+3 Europe/Moscow\\)");
    proof {
        assert(r@ =~= caption_spec(*p, now as int));
    }
    r
}

/// One message the cycle decides to send: the chat target, the thumbnail,
/// and the caption.
pub struct Notification {
    pub chat_id: i64,
    pub photo_url: String,
    pub caption: String,
}

impl Clone for Notification {
    fn clone(&self) -> (res: Self)
        ensures
            res == *self,
    {
        Notification {
            chat_id: self.chat_id,
            photo_url: self.photo_url.clone(),
            caption: self.caption.clone(),
        }
    }
}

/// Holding a subscription to the creator `vtuber_id`, as a predicate on
/// users.
pub open spec fn subscriber_pred(subs: Seq<Subscription>, vtuber_id: int) -> spec_fn(User) -> bool {
    |u: User| has_sub(subs, u.tg_user_id as int, vtuber_id)
}

/// The users subscribed to a creator, in store order.
pub open spec fn subscribers_spec(users: Seq<User>, subs: Seq<Subscription>, vtuber_id: int) -> Seq<
    User,
> {
    users.filter(subscriber_pred(subs, vtuber_id))
}

/// Resolves every user subscribed to the creator `vtuber_id`.
pub fn subscribers(users: &Vec<User>, subs: &Vec<Subscription>, vtuber_id: i64) -> (r: Vec<User>)
    ensures
        r@ == subscribers_spec(users@, subs@, vtuber_id as int),
{
    let mut r: Vec<User> = Vec::new();
    let n = users.len();
    let mut i: usize = 0;
    proof {
        assert(users@.take(0).filter(subscriber_pred(subs@, vtuber_id as int)) =~= Seq::<
            User,
        >::empty());
    }
    while i < n
        invariant
            i <= n,
            n == users@.len(),
            r@ == users@.take(i as int).filter(subscriber_pred(subs@, vtuber_id as int)),
        decreases n - i,
    {
        proof {
            crate::seq_util::lemma_filter_push(
                users@.take(i as int),
                subscriber_pred(subs@, vtuber_id as int),
                users@[i as int],
            );
            assert(users@.take(i + 1) =~= users@.take(i as int).push(users@[i as int]));
        }
        let subscribed = match crate::queries::find_subscription(
            subs,
            users[i].tg_user_id,
            vtuber_id,
        ) {
            Some(_) => true,
            None => false,
        };
        if subscribed {
            r.push(users[i].clone());
        }
        proof {
            assert(r@ =~= users@.take(i + 1).filter(subscriber_pred(subs@, vtuber_id as int)));
        }
        i = i + 1;
    }
    proof {
        assert(users@.take(n as int) =~= users@);
    }
    r
}

/// One cycle's walk over the matched pairs, threading the ledger through:
/// an already-recorded stream contributes nothing; otherwise every
/// subscriber of the pair's creator is a target, and when there is at
/// least one target the ledger gains the pair's entry. Yields the ledger
/// and id counter after the walk and the (subscriber, pair) fan-out list
/// in order.
pub open spec fn cycle_fold(
    users: Seq<User>,
    subs: Seq<Subscription>,
    ledger: Seq<ReportedStream>,
    next_id: int,
    pairs: Seq<VtuberVideo>,
) -> (Seq<ReportedStream>, int, Seq<(User, VtuberVideo)>)
    decreases pairs.len(),
{
    if pairs.len() == 0 {
        (ledger, next_id, Seq::empty())
    } else {
        let p = pairs[0];
        if reported(ledger, p.video.video_id@) {
            cycle_fold(users, subs, ledger, next_id, pairs.drop_first())
        } else {
            let targets = subscribers_spec(users, subs, p.vtuber.id as int);
            let fanout = targets.map_values(|u: User| (u, p));
            if targets.len() == 0 {
                let rest = cycle_fold(users, subs, ledger, next_id, pairs.drop_first());
                (rest.0, rest.1, fanout + rest.2)
            } else {
                let entry = ReportedStream {
                    id: next_id as i64,
                    video_id: p.video.video_id,
                    vtuber_id: p.vtuber.id,
                    scheduled_start: p.video.available_at,
                };
                let rest = cycle_fold(users, subs, ledger.push(entry), next_id + 1, pairs.drop_first());
                (rest.0, rest.1, fanout + rest.2)
            }
        }
    }
}

/// Surviving the cleanup pass: the entry's scheduled start has not passed.
pub open spec fn keep_pred(now: int) -> spec_fn(ReportedStream) -> bool {
    |e: ReportedStream| e.scheduled_start >= now
}

/// Prunes the ledger: removes an entry exactly when its scheduled start is
/// strictly before `now`, and keeps every entry with a future or present
/// scheduled start, in order.
pub fn clean_reported_streams(store: &mut Store, now: i64)
    requires
        old(store).wf(),
    ensures
        final(store).wf(),
        final(store).reported_streams@ == old(store).reported_streams@.filter(keep_pred(now as int)),
        final(store).vtubers@ == old(store).vtubers@,
        final(store).users@ == old(store).users@,
        final(store).subscriptions@ == old(store).subscriptions@,
        final(store).next_vtuber_id == old(store).next_vtuber_id,
        final(store).next_stream_id == old(store).next_stream_id,
{
    let ghost entries = store.reported_streams@;
    let mut kept: Vec<ReportedStream> = Vec::new();
    let n = store.reported_streams.len();
    let mut i: usize = 0;
    proof {
        assert(entries.take(0).filter(keep_pred(now as int)) =~= Seq::<ReportedStream>::empty());
    }
    while i < n
        invariant
            i <= n,
            n == entries.len(),
            entries == store.reported_streams@,
            kept@ == entries.take(i as int).filter(keep_pred(now as int)),
            forall|a: int, b: int|
                0 <= a < b < entries.len() ==> (#[trigger] entries[a]).video_id@ != (
                #[trigger] entries[b]).video_id@,
            forall|k: int|
                0 <= k < kept@.len() ==> exists|m: int|
                    0 <= m < i && #[trigger] kept@[k] == entries[m],
            forall|a: int, b: int|
                0 <= a < b < kept@.len() ==> (#[trigger] kept@[a]).video_id@ != (
                #[trigger] kept@[b]).video_id@,
        decreases n - i,
    {
        proof {
            crate::seq_util::lemma_filter_push(
                entries.take(i as int),
                keep_pred(now as int),
                entries[i as int],
            );
            assert(entries.take(i + 1) =~= entries.take(i as int).push(entries[i as int]));
        }
        if store.reported_streams[i].scheduled_start >= now {
            let ghost kept_b = kept@;
            kept.push(store.reported_streams[i].clone());
            proof {
                assert(kept@ =~= entries.take(i + 1).filter(keep_pred(now as int)));
                assert(kept@[kept@.len() - 1] == entries[i as int]);
                assert forall|a: int, b: int|
                    0 <= a < b < kept@.len() implies (#[trigger] kept@[a]).video_id@ != (
                #[trigger] kept@[b]).video_id@ by {
                    if b < kept_b.len() {
                        assert(kept@[a] == kept_b[a]);
                        assert(kept@[b] == kept_b[b]);
                    } else {
                        assert(kept@[b] == entries[i as int]);
                        assert(kept@[a] == kept_b[a]);
                        let m = choose|m: int| 0 <= m < i && #[trigger] kept_b[a] == entries[m];
                        assert(entries[m].video_id@ != entries[i as int].video_id@);
                    }
                }
            }
        } else {
            proof {
                assert(kept@ =~= entries.take(i + 1).filter(keep_pred(now as int)));
            }
        }
        i = i + 1;
    }
    proof {
        assert(entries.take(n as int) =~= entries);
    }
    store.reported_streams = kept;
}


/// The matched pairs one cycle works through: candidates that pass the
/// lead-time gate, each paired with its roster creator.
pub open spec fn cycle_pairs(vtubers: Seq<crate::vtuber::Vtuber>, videos: Seq<Video>, now: int) -> Seq<
    VtuberVideo,
> {
    associate_spec(vtubers, videos.filter(gate_pred(now)))
}

/// The walk of one cycle over a store's data, before the cleanup pass.
pub open spec fn cycle_fold_of(s: Store, videos: Seq<Video>, now: int) -> (
    Seq<ReportedStream>,
    int,
    Seq<(User, VtuberVideo)>,
) {
    cycle_fold(
        s.users@,
        s.subscriptions@,
        s.reported_streams@,
        s.next_stream_id as int,
        cycle_pairs(s.vtubers@, videos, now),
    )
}

/// One full poll cycle over fetched candidates at time `now`: gate, match,
/// ledger dedup, fan-out and ledger write per pair, then the cleanup pass.
/// Returns the notifications to send, one per (subscriber, stream) in
/// walk order; the ledger afterwards holds exactly the surviving entries
/// of the walk.
pub fn run_cycle(store: &mut Store, videos: &Vec<Video>, now: i64) -> (r: Vec<Notification>)
    requires
        old(store).wf(),
        forall|k: int| 0 <= k < videos@.len() ==> video_ts_ok(#[trigger] videos@[k]),
        old(store).next_stream_id + videos@.len() <= i64::MAX,
    ensures
        final(store).wf(),
        final(store).reported_streams@ == cycle_fold_of(*old(store), videos@, now as int).0.filter(
            keep_pred(now as int),
        ),
        final(store).next_stream_id == cycle_fold_of(*old(store), videos@, now as int).1,
        r@.len() == cycle_fold_of(*old(store), videos@, now as int).2.len(),
        forall|k: int|
            0 <= k < r@.len() ==> (#[trigger] r@[k]).chat_id == cycle_fold_of(
                *old(store),
                videos@,
                now as int,
            ).2[k].0.tg_chat_id && r@[k].photo_url@ == photo_url_spec(
                cycle_fold_of(*old(store), videos@, now as int).2[k].1.video.video_id@,
            ) && r@[k].caption@ == caption_spec(
                cycle_fold_of(*old(store), videos@, now as int).2[k].1,
                now as int,
            ),
        final(store).vtubers@ == old(store).vtubers@,
        final(store).users@ == old(store).users@,
        final(store).subscriptions@ == old(store).subscriptions@,
        final(store).next_vtuber_id == old(store).next_vtuber_id,
{
    let ghost users0 = store.users@;
    let ghost subs0 = store.subscriptions@;
    let ghost vt0 = store.vtubers@;
    let ghost ledger0 = store.reported_streams@;
    let ghost id0 = store.next_stream_id as int;
    let ghost nv0 = store.next_vtuber_id;
    let gated = crate::video::filter_upcoming_videos(videos, now);
    let pairs = crate::video::associate_video_vtuber(&store.vtubers, &gated);
    proof {
        videos@.lemma_filter_len(gate_pred(now as int));
        crate::video::lemma_associate_len(vt0, gated@);
        assert(pairs@.len() <= videos@.len());
    }
    let mut notifs: Vec<Notification> = Vec::new();
    let ghost mut fanout: Seq<(User, VtuberVideo)> = Seq::empty();
    let n = pairs.len();
    let mut i: usize = 0;
    proof {
        assert(pairs@.skip(0) =~= pairs@);
        assert(cycle_fold(users0, subs0, ledger0, id0, pairs@).2 =~= fanout + cycle_fold(
            users0,
            subs0,
            ledger0,
            id0,
            pairs@.skip(0),
        ).2);
    }
    while i < n
        invariant
            i <= n,
            n == pairs@.len(),
            store.wf(),
            store.users@ == users0,
            store.subscriptions@ == subs0,
            store.vtubers@ == vt0,
            store.next_vtuber_id == nv0,
            forall|k: int| 0 <= k < videos@.len() ==> video_ts_ok(#[trigger] videos@[k]),
            pairs@ == associate_spec(vt0, videos@.filter(gate_pred(now as int))),
            pairs@.len() <= videos@.len(),
            id0 + videos@.len() <= i64::MAX,
            id0 <= store.next_stream_id as int <= id0 + i,
            cycle_fold(users0, subs0, ledger0, id0, pairs@).0 == cycle_fold(
                users0,
                subs0,
                store.reported_streams@,
                store.next_stream_id as int,
                pairs@.skip(i as int),
            ).0,
            cycle_fold(users0, subs0, ledger0, id0, pairs@).1 == cycle_fold(
                users0,
                subs0,
                store.reported_streams@,
                store.next_stream_id as int,
                pairs@.skip(i as int),
            ).1,
            cycle_fold(users0, subs0, ledger0, id0, pairs@).2 == fanout + cycle_fold(
                users0,
                subs0,
                store.reported_streams@,
                store.next_stream_id as int,
                pairs@.skip(i as int),
            ).2,
            notifs@.len() == fanout.len(),
            forall|k: int|
                0 <= k < notifs@.len() ==> (#[trigger] notifs@[k]).chat_id
                    == fanout[k].0.tg_chat_id && notifs@[k].photo_url@ == photo_url_spec(
                    fanout[k].1.video.video_id@,
                ) && notifs@[k].caption@ == caption_spec(fanout[k].1, now as int),
        decreases n - i,
    {
        let ghost pr = pairs@[i as int];
        let ghost tail = pairs@.skip(i as int);
        proof {
            assert(tail[0] == pr);
            assert(tail.drop_first() =~= pairs@.skip(i + 1));
            assert(pairs@.contains(pr));
            let gated_view = videos@.filter(gate_pred(now as int));
            gated_view.lemma_filter_map_contains(crate::video::assoc_pred(vt0), pr);
            let a = choose|t: Video|
                #[trigger] gated_view.contains(t) && crate::video::assoc_pred(vt0)(t) == Some(pr);
            assert(pr.video == a);
            videos@.lemma_filter_contains_rev(gate_pred(now as int), a);
            let j = choose|j: int| 0 <= j < videos@.len() && videos@[j] == a;
            assert(video_ts_ok(pr.video));
            assert(crate::video::matching_vtuber(vt0, a.channel_id@) == Some(pr.vtuber));
            crate::video::lemma_matching_vtuber_in(vt0, a.channel_id@);
            let w = choose|w: int| 0 <= w < vt0.len() && #[trigger] vt0[w] == pr.vtuber;
            assert(crate::store::has_vtuber_id(vt0, pr.vtuber.id as int));
        }
        let ghost ledger_b = store.reported_streams@;
        let ghost id_b = store.next_stream_id as int;
        match crate::queries::check_reported_stream(store, &pairs[i].video) {
            Some(_) => {
                proof {
                    assert(cycle_fold(users0, subs0, ledger_b, id_b, tail) == cycle_fold(
                        users0,
                        subs0,
                        ledger_b,
                        id_b,
                        tail.drop_first(),
                    ));
                }
            },
            None => {
                let targets = subscribers(&store.users, &store.subscriptions, pairs[i].vtuber.id);
                let ghost fanout_b = fanout;
                let m = targets.len();
                let mut j: usize = 0;
                while j < m
                    invariant
                        j <= m,
                        m == targets@.len(),
                        video_ts_ok(pairs@[i as int].video),
                        i < pairs@.len(),
                        notifs@.len() == fanout_b.len() + j,
                        forall|k: int|
                            0 <= k < fanout_b.len() ==> (#[trigger] notifs@[k]).chat_id
                                == fanout_b[k].0.tg_chat_id && notifs@[k].photo_url@
                                == photo_url_spec(fanout_b[k].1.video.video_id@)
                                && notifs@[k].caption@ == caption_spec(fanout_b[k].1, now as int),
                        forall|k: int|
                            0 <= k < j ==> (#[trigger] notifs@[fanout_b.len() + k]).chat_id
                                == targets@[k].tg_chat_id && notifs@[fanout_b.len()
                                + k].photo_url@ == photo_url_spec(
                                pairs@[i as int].video.video_id@,
                            ) && notifs@[fanout_b.len() + k].caption@ == caption_spec(
                                pairs@[i as int],
                                now as int,
                            ),
                    decreases m - j,
                {
                    let caption = notification_caption(&pairs[i], now);
                    let url = photo_url(pairs[i].video.video_id.as_str());
                    notifs.push(
                        Notification { chat_id: targets[j].tg_chat_id, photo_url: url, caption },
                    );
                    j = j + 1;
                }
                proof {
                    fanout = fanout + targets@.map_values(|u: User| (u, pr));
                    assert(notifs@.len() == fanout.len());
                    assert forall|k: int|
                        0 <= k < notifs@.len() implies (#[trigger] notifs@[k]).chat_id
                        == fanout[k].0.tg_chat_id && notifs@[k].photo_url@ == photo_url_spec(
                        fanout[k].1.video.video_id@,
                    ) && notifs@[k].caption@ == caption_spec(fanout[k].1, now as int) by {
                        if k < fanout_b.len() {
                            assert(fanout[k] == fanout_b[k]);
                        } else {
                            let k2 = k - fanout_b.len();
                            assert(fanout[k] == (targets@[k2], pr));
                            assert((#[trigger] notifs@[fanout_b.len() + k2]).chat_id
                                == targets@[k2].tg_chat_id && notifs@[fanout_b.len()
                                + k2].photo_url@ == photo_url_spec(
                                pairs@[i as int].video.video_id@,
                            ) && notifs@[fanout_b.len() + k2].caption@ == caption_spec(
                                pairs@[i as int],
                                now as int,
                            ));
                            assert(fanout_b.len() + k2 == k);
                        }
                    }
                    assert(targets@ == subscribers_spec(users0, subs0, pr.vtuber.id as int));
                }
                if targets.len() > 0 {
                    crate::queries::insert_reported_stream(store, &pairs[i].video, &pairs[i].vtuber);
                    proof {
                        let entry = ReportedStream {
                            id: id_b as i64,
                            video_id: pr.video.video_id,
                            vtuber_id: pr.vtuber.id,
                            scheduled_start: pr.video.available_at,
                        };
                        assert(store.reported_streams@ == ledger_b.push(entry));
                        assert(store.next_stream_id as int == id_b + 1);
                        assert(cycle_fold(users0, subs0, ledger_b, id_b, tail) == (
                            cycle_fold(users0, subs0, ledger_b.push(entry), id_b + 1, tail.drop_first()).0,
                            cycle_fold(users0, subs0, ledger_b.push(entry), id_b + 1, tail.drop_first()).1,
                            targets@.map_values(|u: User| (u, pr)) + cycle_fold(
                                users0,
                                subs0,
                                ledger_b.push(entry),
                                id_b + 1,
                                tail.drop_first(),
                            ).2,
                        ));
                    }
                } else {
                    proof {
                        assert(targets@.map_values(|u: User| (u, pr)) =~= Seq::<(
                            User,
                            VtuberVideo,
                        )>::empty());
                        assert(cycle_fold(users0, subs0, ledger_b, id_b, tail) == (
                            cycle_fold(users0, subs0, ledger_b, id_b, tail.drop_first()).0,
                            cycle_fold(users0, subs0, ledger_b, id_b, tail.drop_first()).1,
                            targets@.map_values(|u: User| (u, pr)) + cycle_fold(
                                users0,
                                subs0,
                                ledger_b,
                                id_b,
                                tail.drop_first(),
                            ).2,
                        ));
                    }
                }
            },
        }
        proof {
            assert(fanout + cycle_fold(
                users0,
                subs0,
                store.reported_streams@,
                store.next_stream_id as int,
                pairs@.skip(i + 1),
            ).2 =~= cycle_fold(users0, subs0, ledger0, id0, pairs@).2);
        }
        i = i + 1;
    }
    proof {
        assert(pairs@.skip(n as int) =~= Seq::<VtuberVideo>::empty());
        assert(cycle_fold(
            users0,
            subs0,
            store.reported_streams@,
            store.next_stream_id as int,
            pairs@.skip(n as int),
        ).2 =~= Seq::<(User, VtuberVideo)>::empty());
        assert(fanout =~= cycle_fold(users0, subs0, ledger0, id0, pairs@).2);
    }
    clean_reported_streams(store, now);
    notifs
}


/// Relies on chrono::Utc::now: reads the wall clock as Unix seconds.
/// Nothing can be promised of the value.
#[verifier::external_body]
fn now_unix() -> i64 {
    chrono::Utc::now().timestamp()
}

/// One tick of the notify loop: reads the clock once and runs the cycle
/// at that instant. Returns the time read together with the decided
/// notifications, so the caller knows which instant the ledger effects
/// belong to; whatever the clock returned, the cycle's contract holds of
/// it.
pub fn poll_cycle(store: &mut Store, videos: &Vec<Video>) -> (r: (i64, Vec<Notification>))
    requires
        old(store).wf(),
        forall|k: int| 0 <= k < videos@.len() ==> video_ts_ok(#[trigger] videos@[k]),
        old(store).next_stream_id + videos@.len() <= i64::MAX,
    ensures
        final(store).wf(),
        final(store).reported_streams@ == cycle_fold_of(*old(store), videos@, r.0 as int).0.filter(
            keep_pred(r.0 as int),
        ),
        final(store).next_stream_id == cycle_fold_of(*old(store), videos@, r.0 as int).1,
        r.1@.len() == cycle_fold_of(*old(store), videos@, r.0 as int).2.len(),
        forall|k: int|
            0 <= k < r.1@.len() ==> (#[trigger] r.1@[k]).chat_id == cycle_fold_of(
                *old(store),
                videos@,
                r.0 as int,
            ).2[k].0.tg_chat_id && r.1@[k].photo_url@ == photo_url_spec(
                cycle_fold_of(*old(store), videos@, r.0 as int).2[k].1.video.video_id@,
            ) && r.1@[k].caption@ == caption_spec(
                cycle_fold_of(*old(store), videos@, r.0 as int).2[k].1,
                r.0 as int,
            ),
        final(store).vtubers@ == old(store).vtubers@,
        final(store).users@ == old(store).users@,
        final(store).subscriptions@ == old(store).subscriptions@,
        final(store).next_vtuber_id == old(store).next_vtuber_id,
{
    let now = now_unix();
    let notifs = run_cycle(store, videos, now);
    (now, notifs)
}

/// An entry survives the cleanup pass exactly when it was in the ledger
/// and its scheduled start is not strictly before `now`: cleanup removes
/// an entry if and only if its scheduled start has passed.
pub proof fn lemma_cleanup_removes_iff(l: Seq<ReportedStream>, now: int, e: ReportedStream)
    ensures
        l.filter(keep_pred(now)).contains(e) <==> (l.contains(e) && e.scheduled_start >= now),
{
    let kept = l.filter(keep_pred(now));
    if kept.contains(e) {
        l.lemma_filter_contains_rev(keep_pred(now), e);
        let i = choose|i: int| 0 <= i < kept.len() && kept[i] == e;
        l.lemma_filter_pred(keep_pred(now), i);
    }
    if l.contains(e) && e.scheduled_start >= now {
        let i = choose|i: int| 0 <= i < l.len() && l[i] == e;
        l.lemma_filter_contains(keep_pred(now), i);
    }
}

/// A stream absent from the ledger is still absent after the cleanup
/// pass: cleanup only removes entries.
pub proof fn lemma_cleanup_preserves_absent(l: Seq<ReportedStream>, now: int, s: Seq<char>)
    requires
        !reported(l, s),
    ensures
        !reported(l.filter(keep_pred(now)), s),
{
    let kept = l.filter(keep_pred(now));
    if reported(kept, s) {
        let i = choose|i: int| 0 <= i < kept.len() && (#[trigger] kept[i]).video_id@ == s;
        assert(kept.contains(kept[i]));
        l.lemma_filter_contains_rev(keep_pred(now), kept[i]);
        let j = choose|j: int| 0 <= j < l.len() && l[j] == kept[i];
        assert(reported(l, s));
    }
}

/// While a recorded stream's scheduled start has not passed, the cleanup
/// pass keeps it recorded.
pub proof fn lemma_cleanup_keeps_reported(l: Seq<ReportedStream>, now: int, s: Seq<char>)
    requires
        exists|i: int|
            0 <= i < l.len() && (#[trigger] l[i]).video_id@ == s && l[i].scheduled_start >= now,
    ensures
        reported(l.filter(keep_pred(now)), s),
{
    let i = choose|i: int|
        0 <= i < l.len() && (#[trigger] l[i]).video_id@ == s && l[i].scheduled_start >= now;
    l.lemma_filter_contains(keep_pred(now), i);
    let kept = l.filter(keep_pred(now));
    assert(kept.contains(l[i]));
    let j = choose|j: int| 0 <= j < kept.len() && kept[j] == l[i];
    assert(reported(kept, s));
}

/// For a creator nobody subscribes to, the cycle's walk creates no ledger
/// entry for a stream matched to that creator: when every matched pair
/// carrying the stream belongs to a creator with no subscribers, an
/// unrecorded stream stays unrecorded. Cleanup only removes entries, so
/// applying this cycle after cycle keeps the ledger free of the stream
/// for as long as it keeps re-entering the lead-time window.
pub proof fn lemma_zero_subscribers_no_entry(
    users: Seq<User>,
    subs: Seq<Subscription>,
    ledger: Seq<ReportedStream>,
    next_id: int,
    pairs: Seq<VtuberVideo>,
    s: Seq<char>,
)
    requires
        !reported(ledger, s),
        forall|k: int|
            0 <= k < pairs.len() && (#[trigger] pairs[k]).video.video_id@ == s
                ==> subscribers_spec(users, subs, pairs[k].vtuber.id as int).len() == 0,
    ensures
        !reported(cycle_fold(users, subs, ledger, next_id, pairs).0, s),
    decreases pairs.len(),
{
    if pairs.len() > 0 {
        let p = pairs[0];
        let tail = pairs.drop_first();
        assert forall|k: int|
            0 <= k < tail.len() && (#[trigger] tail[k]).video.video_id@ == s implies
            subscribers_spec(users, subs, tail[k].vtuber.id as int).len() == 0 by {
            assert(tail[k] == pairs[k + 1]);
        }
        if reported(ledger, p.video.video_id@) {
            lemma_zero_subscribers_no_entry(users, subs, ledger, next_id, tail, s);
        } else {
            let targets = subscribers_spec(users, subs, p.vtuber.id as int);
            if targets.len() == 0 {
                lemma_zero_subscribers_no_entry(users, subs, ledger, next_id, tail, s);
            } else {
                assert(p.video.video_id@ != s);
                let entry = ReportedStream {
                    id: next_id as i64,
                    video_id: p.video.video_id,
                    vtuber_id: p.vtuber.id,
                    scheduled_start: p.video.available_at,
                };
                let pushed = ledger.push(entry);
                assert(!reported(pushed, s)) by {
                    if reported(pushed, s) {
                        let i = choose|i: int|
                            0 <= i < pushed.len() && (#[trigger] pushed[i]).video_id@ == s;
                        if i < ledger.len() {
                            assert(pushed[i] == ledger[i]);
                            assert(reported(ledger, s));
                        } else {
                            assert(pushed[i] == entry);
                        }
                    }
                }
                lemma_zero_subscribers_no_entry(users, subs, pushed, next_id + 1, tail, s);
            }
        }
    }
}

/// A stream already in the ledger is idempotent under further cycles: the
/// walk sends no message for it, and the ledger's entries for it are
/// exactly the ones it already had.
pub proof fn lemma_reported_stream_suppressed(
    users: Seq<User>,
    subs: Seq<Subscription>,
    ledger: Seq<ReportedStream>,
    next_id: int,
    pairs: Seq<VtuberVideo>,
    s: Seq<char>,
)
    requires
        reported(ledger, s),
    ensures
        reported(cycle_fold(users, subs, ledger, next_id, pairs).0, s),
        forall|e: ReportedStream|
            (#[trigger] cycle_fold(users, subs, ledger, next_id, pairs).0.contains(e)
                && e.video_id@ == s) <==> (ledger.contains(e) && e.video_id@ == s),
        forall|k: int|
            0 <= k < cycle_fold(users, subs, ledger, next_id, pairs).2.len() ==> (
            #[trigger] cycle_fold(users, subs, ledger, next_id, pairs).2[k]).1.video.video_id@
                != s,
    decreases pairs.len(),
{
    let fold = cycle_fold(users, subs, ledger, next_id, pairs);
    if pairs.len() == 0 {
    } else {
        let p = pairs[0];
        let tail = pairs.drop_first();
        if reported(ledger, p.video.video_id@) {
            lemma_reported_stream_suppressed(users, subs, ledger, next_id, tail, s);
        } else {
            assert(p.video.video_id@ != s);
            let targets = subscribers_spec(users, subs, p.vtuber.id as int);
            let fanout = targets.map_values(|u: User| (u, p));
            assert(forall|k: int|
                0 <= k < fanout.len() ==> (#[trigger] fanout[k]).1.video.video_id@ != s);
            if targets.len() == 0 {
                lemma_reported_stream_suppressed(users, subs, ledger, next_id, tail, s);
                let rest = cycle_fold(users, subs, ledger, next_id, tail);
                assert(fold.2 == fanout + rest.2);
                assert(forall|k: int|
                    0 <= k < fold.2.len() ==> (#[trigger] fold.2[k]).1.video.video_id@ != s);
            } else {
                let entry = ReportedStream {
                    id: next_id as i64,
                    video_id: p.video.video_id,
                    vtuber_id: p.vtuber.id,
                    scheduled_start: p.video.available_at,
                };
                let pushed = ledger.push(entry);
                assert(reported(pushed, s)) by {
                    let i = choose|i: int|
                        0 <= i < ledger.len() && (#[trigger] ledger[i]).video_id@ == s;
                    assert(pushed[i] == ledger[i]);
                }
                lemma_reported_stream_suppressed(users, subs, pushed, next_id + 1, tail, s);
                let rest = cycle_fold(users, subs, pushed, next_id + 1, tail);
                assert(fold.2 == fanout + rest.2);
                assert(forall|k: int|
                    0 <= k < fold.2.len() ==> (#[trigger] fold.2[k]).1.video.video_id@ != s);
                assert forall|e: ReportedStream|
                    (#[trigger] fold.0.contains(e) && e.video_id@ == s) <==> (ledger.contains(e)
                        && e.video_id@ == s) by {
                    assert((pushed.contains(e) && e.video_id@ == s) <==> (ledger.contains(e)
                        && e.video_id@ == s)) by {
                        if pushed.contains(e) && e.video_id@ == s {
                            let i = choose|i: int| 0 <= i < pushed.len() && pushed[i] == e;
                            if i < ledger.len() {
                                assert(ledger[i] == e);
                                assert(ledger.contains(e));
                            } else {
                                assert(e == entry);
                            }
                        }
                        if ledger.contains(e) && e.video_id@ == s {
                            let i = choose|i: int| 0 <= i < ledger.len() && ledger[i] == e;
                            assert(pushed[i] == e);
                            assert(pushed.contains(e));
                        }
                    }
                }
            }
        }
    }
}

/// The first cycle that finds at least one subscriber for an unrecorded
/// matched stream records it: afterwards the ledger holds an entry for the
/// stream. The store invariant caps the ledger at one entry per stream,
/// and by the suppression lemma later cycles neither message for it nor
/// touch its entry — together: exactly one entry across the stream's
/// stay in the lead-time window.
pub proof fn lemma_unreported_stream_recorded(
    users: Seq<User>,
    subs: Seq<Subscription>,
    ledger: Seq<ReportedStream>,
    next_id: int,
    pairs: Seq<VtuberVideo>,
    s: Seq<char>,
)
    requires
        !reported(ledger, s),
        exists|k: int|
            0 <= k < pairs.len() && (#[trigger] pairs[k]).video.video_id@ == s
                && subscribers_spec(users, subs, pairs[k].vtuber.id as int).len() > 0,
    ensures
        reported(cycle_fold(users, subs, ledger, next_id, pairs).0, s),
    decreases pairs.len(),
{
    let k = choose|k: int|
        0 <= k < pairs.len() && (#[trigger] pairs[k]).video.video_id@ == s && subscribers_spec(
            users,
            subs,
            pairs[k].vtuber.id as int,
        ).len() > 0;
    let p = pairs[0];
    let tail = pairs.drop_first();
    if reported(ledger, p.video.video_id@) {
        assert(p.video.video_id@ != s);
        assert(k > 0);
        assert(tail[k - 1] == pairs[k]);
        lemma_unreported_stream_recorded(users, subs, ledger, next_id, tail, s);
    } else {
        let targets = subscribers_spec(users, subs, p.vtuber.id as int);
        if targets.len() > 0 {
            let entry = ReportedStream {
                id: next_id as i64,
                video_id: p.video.video_id,
                vtuber_id: p.vtuber.id,
                scheduled_start: p.video.available_at,
            };
            let pushed = ledger.push(entry);
            if p.video.video_id@ == s {
                assert(reported(pushed, s)) by {
                    assert(pushed[ledger.len() as int] == entry);
                }
                lemma_reported_stream_suppressed(users, subs, pushed, next_id + 1, tail, s);
            } else {
                assert(k > 0);
                assert(tail[k - 1] == pairs[k]);
                assert(!reported(pushed, s)) by {
                    if reported(pushed, s) {
                        let i = choose|i: int|
                            0 <= i < pushed.len() && (#[trigger] pushed[i]).video_id@ == s;
                        if i < ledger.len() {
                            assert(pushed[i] == ledger[i]);
                            assert(reported(ledger, s));
                        } else {
                            assert(pushed[i] == entry);
                        }
                    }
                }
                lemma_unreported_stream_recorded(users, subs, pushed, next_id + 1, tail, s);
            }
        } else {
            if p.video.video_id@ == s && k == 0 {
                assert(false);
            }
            assert(k > 0 || p.video.video_id@ != s);
            if k == 0 {
                assert(false);
            }
            assert(tail[k - 1] == pairs[k]);
            lemma_unreported_stream_recorded(users, subs, ledger, next_id, tail, s);
        }
    }
}


/// In a well-formed store the ledger holds at most one entry per stream:
/// a recorded stream has exactly one entry.
pub proof fn lemma_reported_entry_unique(s: Store, stream: Seq<char>)
    requires
        s.wf(),
        reported(s.reported_streams@, stream),
    ensures
        exists|i: int|
            0 <= i < s.reported_streams@.len() && (#[trigger] s.reported_streams@[i]).video_id@
                == stream && (forall|j: int|
                0 <= j < s.reported_streams@.len() && (#[trigger] s.reported_streams@[j]).video_id@
                    == stream ==> j == i),
{
    let l = s.reported_streams@;
    let i = choose|i: int| 0 <= i < l.len() && (#[trigger] l[i]).video_id@ == stream;
    assert forall|j: int|
        0 <= j < l.len() && (#[trigger] l[j]).video_id@ == stream implies j == i by {
        if j != i {
            if j < i {
                assert(l[j].video_id@ != l[i].video_id@);
            } else {
                assert(l[i].video_id@ != l[j].video_id@);
            }
        }
    }
}

/// Every entry the walk's ledger holds either was there before or records
/// one of the walked pairs, carrying that pair's scheduled start.
pub proof fn lemma_fold_entries_from_pairs(
    users: Seq<User>,
    subs: Seq<Subscription>,
    ledger: Seq<ReportedStream>,
    next_id: int,
    pairs: Seq<VtuberVideo>,
)
    ensures
        forall|e: ReportedStream| #[trigger]
            cycle_fold(users, subs, ledger, next_id, pairs).0.contains(e) ==> ledger.contains(e)
                || (exists|k: int|
                0 <= k < pairs.len() && (#[trigger] pairs[k]).video.video_id@ == e.video_id@
                    && e.scheduled_start == pairs[k].video.available_at),
    decreases pairs.len(),
{
    if pairs.len() > 0 {
        let p = pairs[0];
        let tail = pairs.drop_first();
        if reported(ledger, p.video.video_id@) {
            lemma_fold_entries_from_pairs(users, subs, ledger, next_id, tail);
            assert forall|e: ReportedStream| #[trigger]
                cycle_fold(users, subs, ledger, next_id, pairs).0.contains(e) implies
                ledger.contains(e) || (exists|k: int|
                0 <= k < pairs.len() && (#[trigger] pairs[k]).video.video_id@ == e.video_id@
                    && e.scheduled_start == pairs[k].video.available_at) by {
                if !ledger.contains(e) {
                    assert(cycle_fold(users, subs, ledger, next_id, tail).0.contains(e));
                    let k = choose|k: int|
                        0 <= k < tail.len() && (#[trigger] tail[k]).video.video_id@ == e.video_id@
                            && e.scheduled_start == tail[k].video.available_at;
                    assert(pairs[k + 1] == tail[k]);
                }
            }
        } else {
            let targets = subscribers_spec(users, subs, p.vtuber.id as int);
            if targets.len() == 0 {
                lemma_fold_entries_from_pairs(users, subs, ledger, next_id, tail);
                assert forall|e: ReportedStream| #[trigger]
                    cycle_fold(users, subs, ledger, next_id, pairs).0.contains(e) implies
                    ledger.contains(e) || (exists|k: int|
                    0 <= k < pairs.len() && (#[trigger] pairs[k]).video.video_id@ == e.video_id@
                        && e.scheduled_start == pairs[k].video.available_at) by {
                    if !ledger.contains(e) {
                        assert(cycle_fold(users, subs, ledger, next_id, tail).0.contains(e));
                        let k = choose|k: int|
                            0 <= k < tail.len() && (#[trigger] tail[k]).video.video_id@
                                == e.video_id@ && e.scheduled_start == tail[k].video.available_at;
                        assert(pairs[k + 1] == tail[k]);
                    }
                }
            } else {
                let entry = ReportedStream {
                    id: next_id as i64,
                    video_id: p.video.video_id,
                    vtuber_id: p.vtuber.id,
                    scheduled_start: p.video.available_at,
                };
                let pushed = ledger.push(entry);
                lemma_fold_entries_from_pairs(users, subs, pushed, next_id + 1, tail);
                assert forall|e: ReportedStream| #[trigger]
                    cycle_fold(users, subs, ledger, next_id, pairs).0.contains(e) implies
                    ledger.contains(e) || (exists|k: int|
                    0 <= k < pairs.len() && (#[trigger] pairs[k]).video.video_id@ == e.video_id@
                        && e.scheduled_start == pairs[k].video.available_at) by {
                    if !ledger.contains(e) {
                        if pushed.contains(e) {
                            let i = choose|i: int| 0 <= i < pushed.len() && pushed[i] == e;
                            if i < ledger.len() {
                                assert(ledger[i] == e);
                                assert(false);
                            } else {
                                assert(e == entry);
                                assert(pairs[0].video.video_id@ == e.video_id@);
                            }
                        } else {
                            assert(cycle_fold(users, subs, pushed, next_id + 1, tail).0.contains(
                                e,
                            ));
                            let k = choose|k: int|
                                0 <= k < tail.len() && (#[trigger] tail[k]).video.video_id@
                                    == e.video_id@ && e.scheduled_start
                                    == tail[k].video.available_at;
                            assert(pairs[k + 1] == tail[k]);
                        }
                    }
                }
            }
        }
    }
}

/// A creator with no subscribers never enters the ledger: when every
/// matched pair carrying a stream belongs to a creator without
/// subscribers, a full cycle — walk and cleanup pass — leaves the stream
/// unrecorded, however many cycles observe it in the lead-time window.
pub proof fn lemma_zero_subscribers_cycle(s: Store, videos: Seq<Video>, now: int, stream: Seq<char>)
    requires
        !reported(s.reported_streams@, stream),
        forall|k: int|
            0 <= k < cycle_pairs(s.vtubers@, videos, now).len() && (#[trigger] cycle_pairs(
                s.vtubers@,
                videos,
                now,
            )[k]).video.video_id@ == stream ==> subscribers_spec(
                s.users@,
                s.subscriptions@,
                cycle_pairs(s.vtubers@, videos, now)[k].vtuber.id as int,
            ).len() == 0,
    ensures
        !reported(cycle_fold_of(s, videos, now).0.filter(keep_pred(now)), stream),
{
    lemma_zero_subscribers_no_entry(
        s.users@,
        s.subscriptions@,
        s.reported_streams@,
        s.next_stream_id as int,
        cycle_pairs(s.vtubers@, videos, now),
        stream,
    );
    lemma_cleanup_preserves_absent(cycle_fold_of(s, videos, now).0, now, stream);
}

/// The first full cycle that matches an unrecorded stream to a creator
/// with at least one subscriber leaves the stream recorded, provided no
/// pair carrying it has an already-passed availability (such an entry
/// would be pruned again in the same cycle's cleanup pass). Together with
/// the suppression lemma and the one-entry-per-stream invariant this is
/// the at-most-once guarantee: exactly one entry across the stream's
/// stay in the lead-time window.
pub proof fn lemma_new_stream_recorded_cycle(
    s: Store,
    videos: Seq<Video>,
    now: int,
    stream: Seq<char>,
)
    requires
        !reported(s.reported_streams@, stream),
        exists|k: int|
            0 <= k < cycle_pairs(s.vtubers@, videos, now).len() && (#[trigger] cycle_pairs(
                s.vtubers@,
                videos,
                now,
            )[k]).video.video_id@ == stream && subscribers_spec(
                s.users@,
                s.subscriptions@,
                cycle_pairs(s.vtubers@, videos, now)[k].vtuber.id as int,
            ).len() > 0,
        forall|k: int|
            0 <= k < cycle_pairs(s.vtubers@, videos, now).len() && (#[trigger] cycle_pairs(
                s.vtubers@,
                videos,
                now,
            )[k]).video.video_id@ == stream ==> cycle_pairs(
                s.vtubers@,
                videos,
                now,
            )[k].video.available_at >= now,
    ensures
        reported(cycle_fold_of(s, videos, now).0.filter(keep_pred(now)), stream),
{
    let pairs = cycle_pairs(s.vtubers@, videos, now);
    let fold = cycle_fold_of(s, videos, now);
    lemma_unreported_stream_recorded(
        s.users@,
        s.subscriptions@,
        s.reported_streams@,
        s.next_stream_id as int,
        pairs,
        stream,
    );
    lemma_fold_entries_from_pairs(
        s.users@,
        s.subscriptions@,
        s.reported_streams@,
        s.next_stream_id as int,
        pairs,
    );
    let i = choose|i: int| 0 <= i < fold.0.len() && (#[trigger] fold.0[i]).video_id@ == stream;
    let e = fold.0[i];
    assert(fold.0.contains(e));
    if s.reported_streams@.contains(e) {
        let j = choose|j: int|
            0 <= j < s.reported_streams@.len() && s.reported_streams@[j] == e;
        assert(reported(s.reported_streams@, stream));
        assert(false);
    }
    let k = choose|k: int|
        0 <= k < pairs.len() && (#[trigger] pairs[k]).video.video_id@ == e.video_id@
            && e.scheduled_start == pairs[k].video.available_at;
    assert(e.scheduled_start >= now);
    lemma_cleanup_keeps_reported(fold.0, now, stream);
}

} // verus!
