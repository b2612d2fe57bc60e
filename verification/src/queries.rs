//! The store operations the handlers and the notify cycle run: user
//! registration, roster seeding and lookup, and the subscription toggle.
use vstd::prelude::*;
use vstd::multiset::Multiset;
use crate::store::{
    has_sub, has_user, has_vtuber_id, has_vtuber_name, sub_pairs, toggle_spec, Store,
    StoreError, Subscription,
};
use crate::reported_stream::ReportedStream;
use crate::store::reported;
use crate::text::str_eq;
use crate::user::User;
use crate::video::Video;
use crate::vtuber::{wave_order, wave_order_spec, Vtuber, VtuberWave};

verus! {

fn user_exists(users: &Vec<User>, id: i64) -> (r: bool)
    ensures
        r == has_user(users@, id as int),
{
    let n = users.len();
    let mut i: usize = 0;
    while i < n
        invariant
            i <= n,
            n == users@.len(),
            forall|k: int| 0 <= k < i ==> (#[trigger] users@[k]).tg_user_id != id,
        decreases n - i,
    {
        if users[i].tg_user_id == id {
            return true;
        }
        i = i + 1;
    }
    false
}

fn vtuber_id_exists(vtubers: &Vec<Vtuber>, id: i64) -> (r: bool)
    ensures
        r == has_vtuber_id(vtubers@, id as int),
{
    let n = vtubers.len();
    let mut i: usize = 0;
    while i < n
        invariant
            i <= n,
            n == vtubers@.len(),
            forall|k: int| 0 <= k < i ==> (#[trigger] vtubers@[k]).id != id,
        decreases n - i,
    {
        if vtubers[i].id == id {
            return true;
        }
        i = i + 1;
    }
    false
}

pub(crate) fn find_subscription(subs: &Vec<Subscription>, user_id: i64, vtuber_id: i64) -> (r: Option<usize>)
    ensures
        match r {
            Some(i) => i < subs@.len() && subs@[i as int].user_id == user_id
                && subs@[i as int].vtuber_id == vtuber_id,
            None => !has_sub(subs@, user_id as int, vtuber_id as int),
        },
{
    let n = subs.len();
    let mut i: usize = 0;
    while i < n
        invariant
            i <= n,
            n == subs@.len(),
            forall|k: int|
                0 <= k < i ==> !((#[trigger] subs@[k]).user_id == user_id && subs@[k].vtuber_id
                    == vtuber_id),
        decreases n - i,
    {
        if subs[i].user_id == user_id && subs[i].vtuber_id == vtuber_id {
            return Some(i);
        }
        i = i + 1;
    }
    None
}

/// Records the first interaction of a chat identity. The row is refused
/// exactly when a user with the same platform user id is already present.
pub fn insert_user(store: &mut Store, user: User) -> (r: Result<(), StoreError>)
    requires
        old(store).wf(),
    ensures
        final(store).wf(),
        r is Ok <==> !has_user(old(store).users@, user.tg_user_id as int),
        r is Ok ==> final(store).users@ == old(store).users@.push(user),
        r is Err ==> *final(store) == *old(store) && r == Err::<(), StoreError>(
            StoreError::Duplicate,
        ),
        final(store).vtubers@ == old(store).vtubers@,
        final(store).subscriptions@ == old(store).subscriptions@,
        final(store).reported_streams@ == old(store).reported_streams@,
        final(store).next_vtuber_id == old(store).next_vtuber_id,
        final(store).next_stream_id == old(store).next_stream_id,
{
    if user_exists(&store.users, user.tg_user_id) {
        return Err(StoreError::Duplicate);
    }
    proof {
        let pushed = old(store).users@.push(user);
        assert forall|i: int|
            0 <= i < old(store).subscriptions@.len() implies has_user(
            pushed,
            (#[trigger] old(store).subscriptions@[i]).user_id as int,
        ) by {
            let w = choose|w: int|
                0 <= w < old(store).users@.len() && (#[trigger] old(store).users@[w]).tg_user_id
                    == old(store).subscriptions@[i].user_id;
            assert(pushed[w] == old(store).users@[w]);
        }
    }
    store.users.push(user);
    Ok(())
}

/// Records the first contact from a chat identity, idempotently: the row
/// is added when the platform user id is unseen and everything is left
/// as it is when the user is already known.
pub fn record_first_contact(store: &mut Store, user: User)
    requires
        old(store).wf(),
    ensures
        final(store).wf(),
        !has_user(old(store).users@, user.tg_user_id as int) ==> final(store).users@ == old(
            store,
        ).users@.push(user),
        has_user(old(store).users@, user.tg_user_id as int) ==> final(store).users@ == old(
            store,
        ).users@,
        has_user(final(store).users@, user.tg_user_id as int),
        final(store).vtubers@ == old(store).vtubers@,
        final(store).subscriptions@ == old(store).subscriptions@,
        final(store).reported_streams@ == old(store).reported_streams@,
        final(store).next_vtuber_id == old(store).next_vtuber_id,
        final(store).next_stream_id == old(store).next_stream_id,
{
    let ghost uid = user.tg_user_id as int;
    match insert_user(store, user) {
        Ok(()) => {
            proof {
                assert(store.users@[store.users@.len() - 1].tg_user_id as int == uid);
            }
        },
        Err(_) => {
            proof {
                assert(has_user(store.users@, uid));
            }
        },
    }
}

/// Whether a creator with this first and last name is already seeded.
pub fn check_vtuber_exist(store: &Store, member: &Vtuber) -> (r: bool)
    ensures
        r == has_vtuber_name(store.vtubers@, member.first_name@, member.last_name@),
{
    let n = store.vtubers.len();
    let mut i: usize = 0;
    while i < n
        invariant
            i <= n,
            n == store.vtubers@.len(),
            forall|k: int|
                0 <= k < i ==> !((#[trigger] store.vtubers@[k]).first_name@ == member.first_name@
                    && store.vtubers@[k].last_name@ == member.last_name@),
        decreases n - i,
    {
        if str_eq(store.vtubers[i].first_name.as_str(), member.first_name.as_str()) && str_eq(
            store.vtubers[i].last_name.as_str(),
            member.last_name.as_str(),
        ) {
            return true;
        }
        i = i + 1;
    }
    false
}

/// Seeds one creator. The store assigns the internal id; every other field
/// is taken from `member` as given.
pub fn insert_vtuber(store: &mut Store, member: &Vtuber)
    requires
        old(store).wf(),
        !has_vtuber_name(old(store).vtubers@, member.first_name@, member.last_name@),
        old(store).next_vtuber_id < i64::MAX,
    ensures
        final(store).wf(),
        final(store).vtubers@ == old(store).vtubers@.push(
            (Vtuber {
                id: old(store).next_vtuber_id,
                first_name: member.first_name,
                last_name: member.last_name,
                wave_name: member.wave_name,
                emoji: member.emoji,
                youtube_channel_id: member.youtube_channel_id,
                youtube_handle: member.youtube_handle,
            }),
        ),
        final(store).next_vtuber_id == old(store).next_vtuber_id + 1,
        final(store).users@ == old(store).users@,
        final(store).subscriptions@ == old(store).subscriptions@,
        final(store).reported_streams@ == old(store).reported_streams@,
        final(store).next_stream_id == old(store).next_stream_id,
{
    let row = Vtuber {
        id: store.next_vtuber_id,
        first_name: member.first_name.clone(),
        last_name: member.last_name.clone(),
        wave_name: member.wave_name.clone(),
        emoji: member.emoji.clone(),
        youtube_channel_id: member.youtube_channel_id.clone(),
        youtube_handle: member.youtube_handle.clone(),
    };
    proof {
        let pushed = old(store).vtubers@.push(row);
        assert forall|i: int|
            0 <= i < old(store).subscriptions@.len() implies has_vtuber_id(
            pushed,
            (#[trigger] old(store).subscriptions@[i]).vtuber_id as int,
        ) by {
            let w = choose|w: int|
                0 <= w < old(store).vtubers@.len() && (#[trigger] old(store).vtubers@[w]).id == old(
                    store,
                ).subscriptions@[i].vtuber_id;
            assert(pushed[w] == old(store).vtubers@[w]);
        }
        assert forall|i: int|
            0 <= i < old(store).reported_streams@.len() implies has_vtuber_id(
            pushed,
            (#[trigger] old(store).reported_streams@[i]).vtuber_id as int,
        ) by {
            let w = choose|w: int|
                0 <= w < old(store).vtubers@.len() && (#[trigger] old(store).vtubers@[w]).id == old(
                    store,
                ).reported_streams@[i].vtuber_id;
            assert(pushed[w] == old(store).vtubers@[w]);
        }
    }
    store.vtubers.push(row);
    store.next_vtuber_id = store.next_vtuber_id + 1;
}

/// Looks a creator up by the exact first and last name a callback payload
/// carries. Name pairs are unique across the roster, so at most one row
/// can answer.
pub fn get_vtuber_by_name(store: &Store, first: &str, last: &str) -> (r: Option<Vtuber>)
    ensures
        r is Some <==> has_vtuber_name(store.vtubers@, first@, last@),
        match r {
            Some(v) => store.vtubers@.contains(v) && v.first_name@ == first@ && v.last_name@
                == last@,
            None => true,
        },
{
    let n = store.vtubers.len();
    let mut i: usize = 0;
    while i < n
        invariant
            i <= n,
            n == store.vtubers@.len(),
            forall|k: int|
                0 <= k < i ==> !((#[trigger] store.vtubers@[k]).first_name@ == first@
                    && store.vtubers@[k].last_name@ == last@),
        decreases n - i,
    {
        if str_eq(store.vtubers[i].first_name.as_str(), first) && str_eq(
            store.vtubers[i].last_name.as_str(),
            last,
        ) {
            let v = store.vtubers[i].clone();
            return Some(v);
        }
        i = i + 1;
    }
    None
}

/// The strict subscribe/unsubscribe toggle: deletes the (user, creator)
/// link when it exists, inserts it when it does not. Rejected exactly when
/// the user or the creator is not in the store.
pub fn update_user_vtuber(store: &mut Store, tg_user_id: i64, vtuber_id: i64) -> (r: Result<
    (),
    StoreError,
>)
    requires
        old(store).wf(),
    ensures
        final(store).wf(),
        r is Ok <==> (has_user(old(store).users@, tg_user_id as int) && has_vtuber_id(
            old(store).vtubers@,
            vtuber_id as int,
        )),
        r is Ok ==> sub_pairs(final(store).subscriptions@) == toggle_spec(
            sub_pairs(old(store).subscriptions@),
            (tg_user_id as int, vtuber_id as int),
        ),
        r is Ok ==> has_sub(final(store).subscriptions@, tg_user_id as int, vtuber_id as int)
            == !has_sub(old(store).subscriptions@, tg_user_id as int, vtuber_id as int),
        r is Err ==> *final(store) == *old(store) && r == Err::<(), StoreError>(
            StoreError::MissingReference,
        ),
        final(store).vtubers@ == old(store).vtubers@,
        final(store).users@ == old(store).users@,
        final(store).reported_streams@ == old(store).reported_streams@,
        final(store).next_vtuber_id == old(store).next_vtuber_id,
        final(store).next_stream_id == old(store).next_stream_id,
{
    if !user_exists(&store.users, tg_user_id) || !vtuber_id_exists(&store.vtubers, vtuber_id) {
        return Err(StoreError::MissingReference);
    }
    let ghost p = (tg_user_id as int, vtuber_id as int);
    let ghost old_subs = store.subscriptions@;
    match find_subscription(&store.subscriptions, tg_user_id, vtuber_id) {
        Some(idx) => {
            proof {
                crate::store::lemma_sub_pairs_remove(old_subs, idx as int);
                assert(has_sub(old_subs, p.0, p.1));
                assert(sub_pairs(old_subs).contains(p));
            }
            store.subscriptions.remove(idx);
            proof {
                let after = store.subscriptions@;
                assert forall|i: int, j: int|
                    0 <= i < j < after.len() implies !((#[trigger] after[i]).user_id == (
                #[trigger] after[j]).user_id && after[i].vtuber_id == after[j].vtuber_id) by {
                    let i0 = if i < idx {
                        i
                    } else {
                        i + 1
                    };
                    let j0 = if j < idx {
                        j
                    } else {
                        j + 1
                    };
                    assert(after[i] == old_subs[i0]);
                    assert(after[j] == old_subs[j0]);
                }
                assert forall|i: int|
                    0 <= i < after.len() implies has_user(
                    store.users@,
                    (#[trigger] after[i]).user_id as int,
                ) && has_vtuber_id(store.vtubers@, after[i].vtuber_id as int) by {
                    let i0 = if i < idx {
                        i
                    } else {
                        i + 1
                    };
                    assert(after[i] == old_subs[i0]);
                }
                assert(!has_sub(after, p.0, p.1)) by {
                    assert(!sub_pairs(after).contains(p));
                }
            }
            Ok(())
        },
        None => {
            let row = Subscription { user_id: tg_user_id, vtuber_id };
            proof {
                crate::store::lemma_sub_pairs_push(old_subs, row);
                let pushed = old_subs.push(row);
                assert forall|i: int, j: int|
                    0 <= i < j < pushed.len() implies !((#[trigger] pushed[i]).user_id == (
                #[trigger] pushed[j]).user_id && pushed[i].vtuber_id == pushed[j].vtuber_id) by {
                    if j < old_subs.len() {
                        assert(pushed[i] == old_subs[i]);
                        assert(pushed[j] == old_subs[j]);
                    } else {
                        assert(pushed[j] == row);
                        assert(pushed[i] == old_subs[i]);
                        if pushed[i].user_id == row.user_id && pushed[i].vtuber_id
                            == row.vtuber_id {
                            assert(has_sub(old_subs, p.0, p.1));
                            assert(false);
                        }
                    }
                }
                assert(has_sub(pushed, p.0, p.1)) by {
                    assert(pushed[old_subs.len() as int] == row);
                }
            }
            store.subscriptions.push(row);
            Ok(())
        },
    }
}

/// Looks the ledger up by external stream id: the entry that recorded an
/// earlier notification burst for this stream, if any.
pub fn check_reported_stream(store: &Store, video: &Video) -> (r: Option<ReportedStream>)
    ensures
        r is Some <==> reported(store.reported_streams@, video.video_id@),
        match r {
            Some(e) => store.reported_streams@.contains(e) && e.video_id@ == video.video_id@,
            None => true,
        },
{
    let n = store.reported_streams.len();
    let mut i: usize = 0;
    while i < n
        invariant
            i <= n,
            n == store.reported_streams@.len(),
            forall|k: int|
                0 <= k < i ==> (#[trigger] store.reported_streams@[k]).video_id@
                    != video.video_id@,
        decreases n - i,
    {
        if str_eq(store.reported_streams[i].video_id.as_str(), video.video_id.as_str()) {
            let e = store.reported_streams[i].clone();
            proof {
                assert(store.reported_streams@[i as int] == e);
            }
            return Some(e);
        }
        i = i + 1;
    }
    None
}

/// Records that every subscriber of `vtuber` has been notified about
/// `video`: one ledger entry for the pair, keyed by the external stream
/// id, carrying the stream's scheduled start. The ledger holds at most one
/// entry per stream, and an entry only ever references a creator present
/// in the roster, so both are demanded here.
pub fn insert_reported_stream(store: &mut Store, video: &Video, vtuber: &Vtuber)
    requires
        old(store).wf(),
        crate::store::has_vtuber_id(old(store).vtubers@, vtuber.id as int),
        !reported(old(store).reported_streams@, video.video_id@),
        old(store).next_stream_id < i64::MAX,
    ensures
        final(store).wf(),
        final(store).reported_streams@ == old(store).reported_streams@.push(
            (ReportedStream {
                id: old(store).next_stream_id,
                video_id: video.video_id,
                vtuber_id: vtuber.id,
                scheduled_start: video.available_at,
            }),
        ),
        final(store).next_stream_id == old(store).next_stream_id + 1,
        final(store).vtubers@ == old(store).vtubers@,
        final(store).users@ == old(store).users@,
        final(store).subscriptions@ == old(store).subscriptions@,
        final(store).next_vtuber_id == old(store).next_vtuber_id,
{
    let row = ReportedStream {
        id: store.next_stream_id,
        video_id: video.video_id.clone(),
        vtuber_id: vtuber.id,
        scheduled_start: video.available_at,
    };
    proof {
        let pushed = old(store).reported_streams@.push(row);
        assert forall|i: int, j: int|
            0 <= i < j < pushed.len() implies (#[trigger] pushed[i]).video_id@ != (
        #[trigger] pushed[j]).video_id@ by {
            if j < old(store).reported_streams@.len() {
                assert(pushed[i] == old(store).reported_streams@[i]);
                assert(pushed[j] == old(store).reported_streams@[j]);
            } else {
                assert(pushed[j] == row);
                assert(pushed[i] == old(store).reported_streams@[i]);
                if pushed[i].video_id@ == row.video_id@ {
                    assert(reported(old(store).reported_streams@, video.video_id@));
                    assert(false);
                }
            }
        }
    }
    store.reported_streams.push(row);
    store.next_stream_id = store.next_stream_id + 1;
}

/// The character sequences of a list of strings.
pub open spec fn names_of(ss: Seq<String>) -> Seq<Seq<char>> {
    ss.map_values(|s: String| s@)
}

/// The distinct wave names of the roster, in order of first appearance.
pub open spec fn distinct_waves(vs: Seq<Vtuber>) -> Seq<Seq<char>>
    decreases vs.len(),
{
    if vs.len() == 0 {
        Seq::empty()
    } else {
        let p = distinct_waves(vs.drop_last());
        if p.contains(vs.last().wave_name@) {
            p
        } else {
            p.push(vs.last().wave_name@)
        }
    }
}

fn contains_string(names: &Vec<String>, w: &str) -> (r: bool)
    ensures
        r == names_of(names@).contains(w@),
{
    let n = names.len();
    let mut i: usize = 0;
    while i < n
        invariant
            i <= n,
            n == names@.len(),
            forall|k: int| 0 <= k < i ==> (#[trigger] names@[k])@ != w@,
        decreases n - i,
    {
        if str_eq(names[i].as_str(), w) {
            proof {
                assert(names_of(names@)[i as int] == names@[i as int]@);
            }
            return true;
        }
        i = i + 1;
    }
    proof {
        if names_of(names@).contains(w@) {
            let k = choose|k: int| 0 <= k < names_of(names@).len() && names_of(names@)[k] == w@;
            assert(names@[k]@ == w@);
        }
    }
    false
}

/// The distinct wave names of the roster, each once, in order of first
/// appearance in the store.
pub fn get_waves_names(store: &Store) -> (r: Vec<String>)
    ensures
        names_of(r@) == distinct_waves(store.vtubers@),
{
    let mut names: Vec<String> = Vec::new();
    let n = store.vtubers.len();
    let mut i: usize = 0;
    proof {
        assert(store.vtubers@.take(0) =~= Seq::<Vtuber>::empty());
    }
    while i < n
        invariant
            i <= n,
            n == store.vtubers@.len(),
            names_of(names@) == distinct_waves(store.vtubers@.take(i as int)),
        decreases n - i,
    {
        let w = &store.vtubers[i].wave_name;
        proof {
            assert(store.vtubers@.take(i + 1).drop_last() =~= store.vtubers@.take(i as int));
            assert(store.vtubers@.take(i + 1).last() == store.vtubers@[i as int]);
        }
        if !contains_string(&names, w.as_str()) {
            names.push(w.clone());
            proof {
                assert(names_of(names@) =~= distinct_waves(store.vtubers@.take(i + 1)));
            }
        } else {
            proof {
                assert(names_of(names@) =~= distinct_waves(store.vtubers@.take(i + 1)));
            }
        }
        i = i + 1;
    }
    proof {
        assert(store.vtubers@.take(n as int) =~= store.vtubers@);
    }
    names
}

/// Membership of one creator in a wave, as a predicate for a fixed name.
pub open spec fn wave_pred(w: Seq<char>) -> spec_fn(Vtuber) -> bool {
    |v: Vtuber| v.wave_name@ == w
}

/// The members of a wave, in roster order.
pub open spec fn wave_members_spec(vs: Seq<Vtuber>, w: Seq<char>) -> Seq<Vtuber> {
    vs.filter(wave_pred(w))
}

/// Holding a subscription of user `u`, as a predicate on creators.
pub open spec fn sub_pred(subs: Seq<Subscription>, u: int) -> spec_fn(Vtuber) -> bool {
    |v: Vtuber| has_sub(subs, u, v.id as int)
}

/// How many members a wave has.
pub open spec fn count_in_wave(vs: Seq<Vtuber>, w: Seq<char>) -> int {
    wave_members_spec(vs, w).len() as int
}

/// How many members of a wave the user `u` is subscribed to.
pub open spec fn count_subscribed(vs: Seq<Vtuber>, subs: Seq<Subscription>, u: int, w: Seq<char>) -> int {
    wave_members_spec(vs, w).filter(sub_pred(subs, u)).len() as int
}

/// One creator of a wave with the requesting user's subscription badge.
pub struct UserVtubers {
    pub vtuber: Vtuber,
    pub is_selected: bool,
}

/// The creator carried by one member entry.
pub open spec fn uv_vtuber(uv: UserVtubers) -> Vtuber {
    uv.vtuber
}

/// The members of one wave in roster order, each flagged with whether the
/// requesting user is subscribed to it.
pub fn get_wave_members(store: &Store, tg_user_id: i64, wave_name: String) -> (r: Vec<UserVtubers>)
    ensures
        r@.map_values(|uv: UserVtubers| uv_vtuber(uv)) == wave_members_spec(
            store.vtubers@,
            wave_name@,
        ),
        forall|i: int|
            0 <= i < r@.len() ==> (#[trigger] r@[i]).is_selected == has_sub(
                store.subscriptions@,
                tg_user_id as int,
                r@[i].vtuber.id as int,
            ),
{
    let mut r: Vec<UserVtubers> = Vec::new();
    let n = store.vtubers.len();
    let mut i: usize = 0;
    proof {
        assert(r@.map_values(|uv: UserVtubers| uv_vtuber(uv)) =~= wave_members_spec(
            store.vtubers@.take(0),
            wave_name@,
        ));
    }
    while i < n
        invariant
            i <= n,
            n == store.vtubers@.len(),
            r@.map_values(|uv: UserVtubers| uv_vtuber(uv)) == wave_members_spec(
                store.vtubers@.take(i as int),
                wave_name@,
            ),
            forall|k: int|
                0 <= k < r@.len() ==> (#[trigger] r@[k]).is_selected == has_sub(
                    store.subscriptions@,
                    tg_user_id as int,
                    r@[k].vtuber.id as int,
                ),
        decreases n - i,
    {
        proof {
            crate::seq_util::lemma_filter_push(
                store.vtubers@.take(i as int),
                wave_pred(wave_name@),
                store.vtubers@[i as int],
            );
            assert(store.vtubers@.take(i + 1) =~= store.vtubers@.take(i as int).push(
                store.vtubers@[i as int],
            ));
        }
        if str_eq(store.vtubers[i].wave_name.as_str(), wave_name.as_str()) {
            let is_selected = match find_subscription(
                &store.subscriptions,
                tg_user_id,
                store.vtubers[i].id,
            ) {
                Some(_) => true,
                None => false,
            };
            r.push(UserVtubers { vtuber: store.vtubers[i].clone(), is_selected });
            proof {
                assert(r@.map_values(|uv: UserVtubers| uv_vtuber(uv)) =~= wave_members_spec(
                    store.vtubers@.take(i + 1),
                    wave_name@,
                ));
            }
        } else {
            proof {
                assert(r@.map_values(|uv: UserVtubers| uv_vtuber(uv)) =~= wave_members_spec(
                    store.vtubers@.take(i + 1),
                    wave_name@,
                ));
            }
        }
        i = i + 1;
    }
    proof {
        assert(store.vtubers@.take(n as int) =~= store.vtubers@);
    }
    r
}

/// One row of the wave menu: a wave with the user's subscribed count and
/// the wave's total member count.
pub struct WaveAmount {
    pub wave_name: String,
    pub amount: i64,
    pub max_amount: i64,
}

impl Clone for WaveAmount {
    fn clone(&self) -> (res: Self)
        ensures
            res == *self,
    {
        WaveAmount {
            wave_name: self.wave_name.clone(),
            amount: self.amount,
            max_amount: self.max_amount,
        }
    }
}

/// The wave names carried by a sequence of menu rows.
pub open spec fn names_of_wa(s: Seq<WaveAmount>) -> Seq<Seq<char>> {
    s.map_values(|wa: WaveAmount| wa.wave_name@)
}

/// Rows sorted by the fixed debut order of their wave names.
pub open spec fn sorted_by_debut(s: Seq<WaveAmount>) -> bool {
    forall|i: int, j: int|
        0 <= i < j < s.len() ==> wave_order_spec((#[trigger] s[i]).wave_name@).unwrap()
            <= wave_order_spec((#[trigger] s[j]).wave_name@).unwrap()
}

/// One menu row is correct when its counts are those of its own wave name.
pub open spec fn wave_amount_correct(
    wa: WaveAmount,
    vs: Seq<Vtuber>,
    subs: Seq<Subscription>,
    u: int,
) -> bool {
    &&& wa.amount == count_subscribed(vs, subs, u, wa.wave_name@)
    &&& wa.max_amount == count_in_wave(vs, wa.wave_name@)
}

fn count_wave_members(store: &Store, wave_name: &str) -> (r: i64)
    requires
        store.vtubers@.len() <= i64::MAX,
    ensures
        r == count_in_wave(store.vtubers@, wave_name@),
{
    let mut count: i64 = 0;
    let n = store.vtubers.len();
    let mut i: usize = 0;
    proof {
        assert(store.vtubers@.take(0).filter(wave_pred(wave_name@)) =~= Seq::<Vtuber>::empty());
    }
    while i < n
        invariant
            i <= n,
            n == store.vtubers@.len(),
            store.vtubers@.len() <= i64::MAX,
            0 <= count <= i,
            count == count_in_wave(store.vtubers@.take(i as int), wave_name@),
        decreases n - i,
    {
        proof {
            crate::seq_util::lemma_filter_push(
                store.vtubers@.take(i as int),
                wave_pred(wave_name@),
                store.vtubers@[i as int],
            );
            assert(store.vtubers@.take(i + 1) =~= store.vtubers@.take(i as int).push(
                store.vtubers@[i as int],
            ));
        }
        if str_eq(store.vtubers[i].wave_name.as_str(), wave_name) {
            count = count + 1;
        }
        i = i + 1;
    }
    proof {
        assert(store.vtubers@.take(n as int) =~= store.vtubers@);
    }
    count
}

fn count_wave_subscribed(store: &Store, tg_user_id: i64, wave_name: &str) -> (r: i64)
    requires
        store.vtubers@.len() <= i64::MAX,
    ensures
        r == count_subscribed(store.vtubers@, store.subscriptions@, tg_user_id as int, wave_name@),
{
    let mut count: i64 = 0;
    let n = store.vtubers.len();
    let mut i: usize = 0;
    proof {
        assert(store.vtubers@.take(0).filter(wave_pred(wave_name@)) =~= Seq::<Vtuber>::empty());
        assert(Seq::<Vtuber>::empty().filter(sub_pred(store.subscriptions@, tg_user_id as int))
            =~= Seq::<Vtuber>::empty());
    }
    while i < n
        invariant
            i <= n,
            n == store.vtubers@.len(),
            store.vtubers@.len() <= i64::MAX,
            0 <= count <= i,
            count == count_subscribed(
                store.vtubers@.take(i as int),
                store.subscriptions@,
                tg_user_id as int,
                wave_name@,
            ),
        decreases n - i,
    {
        proof {
            let prefix = store.vtubers@.take(i as int);
            let x = store.vtubers@[i as int];
            crate::seq_util::lemma_filter_push(prefix, wave_pred(wave_name@), x);
            assert(store.vtubers@.take(i + 1) =~= prefix.push(x));
            if wave_pred(wave_name@)(x) {
                assert(wave_members_spec(prefix.push(x), wave_name@) =~= wave_members_spec(
                    prefix,
                    wave_name@,
                ).push(x));
                crate::seq_util::lemma_filter_push(
                    wave_members_spec(prefix, wave_name@),
                    sub_pred(store.subscriptions@, tg_user_id as int),
                    x,
                );
            }
        }
        if str_eq(store.vtubers[i].wave_name.as_str(), wave_name) {
            match find_subscription(&store.subscriptions, tg_user_id, store.vtubers[i].id) {
                Some(_) => {
                    count = count + 1;
                },
                None => {},
            }
        }
        i = i + 1;
    }
    proof {
        assert(store.vtubers@.take(n as int) =~= store.vtubers@);
    }
    count
}

fn debut_key(wa: &WaveAmount) -> (r: i64)
    requires
        wave_order_spec(wa.wave_name@) is Some,
    ensures
        r == wave_order_spec(wa.wave_name@).unwrap(),
{
    match wave_order(wa.wave_name.as_str()) {
        Some(o) => o,
        None => {
            proof {
                assert(false);
            }
            0
        },
    }
}

fn find_insert_pos(r: &Vec<WaveAmount>, key: i64) -> (pos: usize)
    requires
        sorted_by_debut(r@),
        forall|i: int|
            0 <= i < r@.len() ==> wave_order_spec((#[trigger] r@[i]).wave_name@) is Some,
    ensures
        pos <= r@.len(),
        forall|k: int|
            0 <= k < pos ==> wave_order_spec((#[trigger] r@[k]).wave_name@).unwrap() <= key,
        forall|k: int|
            pos <= k < r@.len() ==> wave_order_spec((#[trigger] r@[k]).wave_name@).unwrap() > key,
{
    let n = r.len();
    let mut pos: usize = 0;
    while pos < n
        invariant
            pos <= n,
            n == r@.len(),
            sorted_by_debut(r@),
            forall|k: int|
                0 <= k < r@.len() ==> wave_order_spec((#[trigger] r@[k]).wave_name@) is Some,
            forall|k: int|
                0 <= k < pos ==> wave_order_spec((#[trigger] r@[k]).wave_name@).unwrap() <= key,
        decreases n - pos,
    {
        if debut_key(&r[pos]) > key {
            proof {
                assert forall|k: int|
                    pos <= k < r@.len() implies wave_order_spec(
                    (#[trigger] r@[k]).wave_name@,
                ).unwrap() > key by {
                    assert(wave_order_spec(r@[pos as int].wave_name@).unwrap() <= wave_order_spec(
                        r@[k].wave_name@,
                    ).unwrap());
                }
            }
            return pos;
        }
        pos = pos + 1;
    }
    pos
}

/// Sorts menu rows into the fixed debut order of their wave names. The
/// result is a permutation of the input rows.
fn sort_waves_by_debut(input: Vec<WaveAmount>) -> (r: Vec<WaveAmount>)
    requires
        forall|i: int|
            0 <= i < input@.len() ==> wave_order_spec((#[trigger] input@[i]).wave_name@) is Some,
    ensures
        names_of_wa(r@).to_multiset() == names_of_wa(input@).to_multiset(),
        forall|i: int| 0 <= i < r@.len() ==> input@.contains(#[trigger] r@[i]),
        sorted_by_debut(r@),
{
    let ghost input0 = input@;
    let mut work = input;
    let mut r: Vec<WaveAmount> = Vec::new();
    proof {
        names_of_wa(r@).to_multiset_ensures();
        vstd::multiset::lemma_multiset_empty_len::<Seq<char>>(names_of_wa(r@).to_multiset());
        assert(names_of_wa(r@).to_multiset() =~= Multiset::<Seq<char>>::empty());
        assert(names_of_wa(input0).to_multiset() =~= names_of_wa(work@).to_multiset().add(
            names_of_wa(r@).to_multiset(),
        ));
    }
    while work.len() > 0
        invariant
            forall|i: int| 0 <= i < work@.len() ==> input0.contains(#[trigger] work@[i]),
            forall|i: int| 0 <= i < r@.len() ==> input0.contains(#[trigger] r@[i]),
            forall|i: int|
                0 <= i < input0.len() ==> wave_order_spec(
                    (#[trigger] input0[i]).wave_name@,
                ) is Some,
            names_of_wa(input0).to_multiset() == names_of_wa(work@).to_multiset().add(
                names_of_wa(r@).to_multiset(),
            ),
            sorted_by_debut(r@),
        decreases work.len(),
    {
        proof {
            assert(forall|i: int|
                0 <= i < work@.len() ==> wave_order_spec(
                    (#[trigger] work@[i]).wave_name@,
                ) is Some) by {
                assert forall|i: int|
                    0 <= i < work@.len() implies wave_order_spec(
                    (#[trigger] work@[i]).wave_name@,
                ) is Some by {
                    let w = choose|w: int| 0 <= w < input0.len() && input0[w] == work@[i];
                }
            }
            assert(forall|i: int|
                0 <= i < r@.len() ==> wave_order_spec((#[trigger] r@[i]).wave_name@) is Some) by {
                assert forall|i: int|
                    0 <= i < r@.len() implies wave_order_spec(
                    (#[trigger] r@[i]).wave_name@,
                ) is Some by {
                    let w = choose|w: int| 0 <= w < input0.len() && input0[w] == r@[i];
                }
            }
        }
        let ghost work_before = work@;
        let ghost r_before = r@;
        let x = match work.pop() {
            Some(x) => x,
            None => {
                proof {
                    assert(false);
                }
                return r;
            },
        };
        let key = debut_key(&x);
        let pos = find_insert_pos(&r, key);
        r.insert(pos, x);
        proof {
            // The popped element came from the input.
            assert(work_before.last() == x);
            assert(input0.contains(x));
            assert(work@ =~= work_before.drop_last());
            // Name multisets: popping moves one name from work to r.
            assert(names_of_wa(work_before) =~= names_of_wa(work@).push(x.wave_name@));
            names_of_wa(work@).to_multiset_ensures();
            assert(names_of_wa(work_before).to_multiset() =~= names_of_wa(
                work@,
            ).to_multiset().insert(x.wave_name@));
            assert(names_of_wa(r@) =~= names_of_wa(r_before).insert(pos as int, x.wave_name@));
            crate::seq_util::lemma_to_multiset_insert(names_of_wa(r_before), pos as int, x.wave_name@);
            assert(names_of_wa(input0).to_multiset() =~= names_of_wa(work@).to_multiset().add(
                names_of_wa(r@).to_multiset(),
            ));
            // Sortedness around the insertion point.
            let after = r@;
            assert forall|i: int, j: int|
                0 <= i < j < after.len() implies wave_order_spec(
                (#[trigger] after[i]).wave_name@,
            ).unwrap() <= wave_order_spec((#[trigger] after[j]).wave_name@).unwrap() by {
                let pi = pos as int;
                if i < pi {
                    assert(after[i] == r_before[i]);
                } else if i == pi {
                    assert(after[i] == x);
                } else {
                    assert(after[i] == r_before[i - 1]);
                }
                if j < pi {
                    assert(after[j] == r_before[j]);
                } else if j == pi {
                    assert(after[j] == x);
                } else {
                    assert(after[j] == r_before[j - 1]);
                }
            }
            // Every element of the result still comes from the input.
            assert forall|i: int| 0 <= i < r@.len() implies input0.contains(#[trigger] r@[i]) by {
                let pi = pos as int;
                if i < pi {
                    assert(r@[i] == r_before[i]);
                } else if i == pi {
                    assert(r@[i] == x);
                } else {
                    assert(r@[i] == r_before[i - 1]);
                }
            }
        }
    }
    proof {
        names_of_wa(work@).to_multiset_ensures();
        vstd::multiset::lemma_multiset_empty_len::<Seq<char>>(names_of_wa(work@).to_multiset());
        assert(names_of_wa(work@).to_multiset() =~= Multiset::<Seq<char>>::empty());
        assert(names_of_wa(input0).to_multiset() =~= names_of_wa(r@).to_multiset());
    }
    r
}

/// The wave menu rows for one user: every wave of the roster exactly as
/// often as it appears in the distinct wave list, each with the user's
/// subscribed count and the wave's member count, sorted into the fixed
/// debut order. Unknown wave names are a seeding error and are excluded by
/// contract, as the fixed lookup has no position for them.
pub fn get_amount_in_waves(store: &Store, tg_user_id: i64) -> (r: Vec<WaveAmount>)
    requires
        store.vtubers@.len() <= i64::MAX,
        forall|i: int|
            0 <= i < store.vtubers@.len() ==> wave_order_spec(
                (#[trigger] store.vtubers@[i]).wave_name@,
            ) is Some,
    ensures
        names_of_wa(r@).to_multiset() == distinct_waves(store.vtubers@).to_multiset(),
        forall|i: int|
            0 <= i < r@.len() ==> wave_amount_correct(
                #[trigger] r@[i],
                store.vtubers@,
                store.subscriptions@,
                tg_user_id as int,
            ),
        sorted_by_debut(r@),
{
    let names = get_waves_names(store);
    let mut rows: Vec<WaveAmount> = Vec::new();
    let n = names.len();
    let mut i: usize = 0;
    proof {
        assert(names_of_wa(rows@) =~= names_of(names@).take(0));
    }
    while i < n
        invariant
            i <= n,
            n == names@.len(),
            names_of(names@) == distinct_waves(store.vtubers@),
            names_of_wa(rows@) == names_of(names@).take(i as int),
            forall|k: int|
                0 <= k < rows@.len() ==> wave_amount_correct(
                    #[trigger] rows@[k],
                    store.vtubers@,
                    store.subscriptions@,
                    tg_user_id as int,
                ),
            store.vtubers@.len() <= i64::MAX,
        decreases n - i,
    {
        let amount = count_wave_subscribed(store, tg_user_id, names[i].as_str());
        let max_amount = count_wave_members(store, names[i].as_str());
        let row = WaveAmount { wave_name: names[i].clone(), amount, max_amount };
        let ghost rows_b = rows@;
        let ghost row0 = row;
        rows.push(row);
        proof {
            assert(rows@ == rows_b.push(row0));
            assert(row0.wave_name@ == names@[i as int]@);
            assert(names_of_wa(rows_b.push(row0)) =~= names_of_wa(rows_b).push(row0.wave_name@));
            assert(names_of(names@).take(i + 1) =~= names_of(names@).take(i as int).push(
                names_of(names@)[i as int],
            ));
            assert(names_of_wa(rows@) =~= names_of(names@).take(i + 1));
        }
        i = i + 1;
    }
    proof {
        assert(names_of(names@).take(n as int) =~= names_of(names@));
        assert forall|k: int|
            0 <= k < rows@.len() implies wave_order_spec(
            (#[trigger] rows@[k]).wave_name@,
        ) is Some by {
            assert(names_of_wa(rows@)[k] == rows@[k].wave_name@);
            assert(distinct_waves(store.vtubers@).contains(rows@[k].wave_name@));
            lemma_distinct_waves_known(store.vtubers@, rows@[k].wave_name@);
        }
    }
    let ghost rows0 = rows@;
    let r = sort_waves_by_debut(rows);
    proof {
        assert forall|k: int|
            0 <= k < r@.len() implies wave_amount_correct(
            #[trigger] r@[k],
            store.vtubers@,
            store.subscriptions@,
            tg_user_id as int,
        ) by {
            let w = choose|w: int| 0 <= w < rows0.len() && rows0[w] == r@[k];
        }
    }
    r
}

proof fn lemma_distinct_waves_member(vs: Seq<Vtuber>, w: Seq<char>)
    requires
        distinct_waves(vs).contains(w),
    ensures
        exists|i: int| 0 <= i < vs.len() && (#[trigger] vs[i]).wave_name@ == w,
    decreases vs.len(),
{
    if vs.len() > 0 {
        let p = distinct_waves(vs.drop_last());
        if p.contains(w) {
            lemma_distinct_waves_member(vs.drop_last(), w);
            let i = choose|i: int|
                0 <= i < vs.drop_last().len() && (#[trigger] vs.drop_last()[i]).wave_name@ == w;
            assert(vs[i].wave_name@ == w);
        } else {
            assert(vs[vs.len() - 1].wave_name@ == w);
        }
    }
}

proof fn lemma_distinct_waves_known(vs: Seq<Vtuber>, w: Seq<char>)
    requires
        distinct_waves(vs).contains(w),
        forall|i: int|
            0 <= i < vs.len() ==> wave_order_spec((#[trigger] vs[i]).wave_name@) is Some,
    ensures
        wave_order_spec(w) is Some,
{
    lemma_distinct_waves_member(vs, w);
}

/// The fixed debut order distinguishes every known wave name: two names
/// with the same position are the same name.
pub proof fn lemma_wave_order_injective(x: Seq<char>, y: Seq<char>)
    requires
        wave_order_spec(x) is Some,
        wave_order_spec(x) == wave_order_spec(y),
    ensures
        x == y,
{
}

/// The wave menu order is canonical: any two row lists that carry the same
/// wave names (as a multiset) and are both sorted by the fixed debut order
/// list those names in the same sequence, whatever order the store
/// produced them in.
pub proof fn lemma_debut_order_canonical(a: Seq<WaveAmount>, b: Seq<WaveAmount>)
    requires
        sorted_by_debut(a),
        sorted_by_debut(b),
        names_of_wa(a).to_multiset() == names_of_wa(b).to_multiset(),
        forall|i: int|
            0 <= i < a.len() ==> wave_order_spec((#[trigger] a[i]).wave_name@) is Some,
        forall|i: int|
            0 <= i < b.len() ==> wave_order_spec((#[trigger] b[i]).wave_name@) is Some,
    ensures
        names_of_wa(a) == names_of_wa(b),
    decreases a.len(),
{
    names_of_wa(a).to_multiset_ensures();
    names_of_wa(b).to_multiset_ensures();
    if a.len() == 0 {
        assert(names_of_wa(a).to_multiset().len() == 0);
        assert(names_of_wa(b).len() == 0);
        assert(names_of_wa(a) =~= names_of_wa(b));
    } else {
        assert(names_of_wa(b).to_multiset().len() == names_of_wa(a).to_multiset().len());
        assert(b.len() == a.len());
        let na = names_of_wa(a)[0];
        let nb = names_of_wa(b)[0];
        // The head name of each list occurs in the other list.
        assert(names_of_wa(a).contains(na));
        assert(names_of_wa(b).to_multiset().count(na) > 0);
        assert(names_of_wa(b).contains(na));
        let j = choose|j: int| 0 <= j < names_of_wa(b).len() && names_of_wa(b)[j] == na;
        assert(names_of_wa(b).contains(nb));
        assert(names_of_wa(a).to_multiset().count(nb) > 0);
        assert(names_of_wa(a).contains(nb));
        let k = choose|k: int| 0 <= k < names_of_wa(a).len() && names_of_wa(a)[k] == nb;
        // Both heads carry the least debut position, so they are equal.
        assert(wave_order_spec(b[0].wave_name@).unwrap() <= wave_order_spec(
            b[j].wave_name@,
        ).unwrap());
        assert(wave_order_spec(a[0].wave_name@).unwrap() <= wave_order_spec(
            a[k].wave_name@,
        ).unwrap());
        assert(wave_order_spec(na) == wave_order_spec(nb));
        lemma_wave_order_injective(na, nb);
        // Drop the heads and recurse.
        let ta = a.drop_first();
        let tb = b.drop_first();
        assert(names_of_wa(a) =~= names_of_wa(ta).insert(0, na));
        assert(names_of_wa(b) =~= names_of_wa(tb).insert(0, na));
        crate::seq_util::lemma_to_multiset_insert(names_of_wa(ta), 0, na);
        crate::seq_util::lemma_to_multiset_insert(names_of_wa(tb), 0, na);
        assert(names_of_wa(ta).to_multiset().insert(na) == names_of_wa(tb).to_multiset().insert(
            na,
        ));
        assert(names_of_wa(ta).to_multiset() =~= names_of_wa(ta).to_multiset().insert(na).remove(
            na,
        ));
        assert(names_of_wa(tb).to_multiset() =~= names_of_wa(tb).to_multiset().insert(na).remove(
            na,
        ));
        lemma_debut_order_canonical(ta, tb);
        assert(names_of_wa(a) =~= names_of_wa(b));
    }
}


/// How many member records the seed data holds in all.
pub open spec fn total_members(waves: Seq<VtuberWave>) -> int
    decreases waves.len(),
{
    if waves.len() == 0 {
        0
    } else {
        total_members(waves.drop_last()) + waves.last().members@.len()
    }
}

proof fn lemma_total_members_prefix(waves: Seq<VtuberWave>, k: int)
    requires
        0 <= k <= waves.len(),
    ensures
        total_members(waves.take(k)) <= total_members(waves),
        total_members(waves.take(k)) >= 0,
    decreases waves.len() - k,
{
    lemma_total_members_nonneg(waves.take(k));
    if k == waves.len() {
        assert(waves.take(k) =~= waves);
        lemma_total_members_nonneg(waves);
    } else {
        lemma_total_members_prefix(waves, k + 1);
        assert(waves.take(k + 1).drop_last() =~= waves.take(k));
        assert(total_members(waves.take(k + 1)) == total_members(waves.take(k)) + waves[k].members@.len());
    }
}

proof fn lemma_total_members_nonneg(waves: Seq<VtuberWave>)
    ensures
        total_members(waves) >= 0,
    decreases waves.len(),
{
    if waves.len() > 0 {
        lemma_total_members_nonneg(waves.drop_last());
    }
}

/// Every seed member before position (i, j) — wave by wave, member by
/// member — is present in the roster under its name.
pub open spec fn members_seeded(vs: Seq<Vtuber>, waves: Seq<VtuberWave>, i: int, j: int) -> bool {
    forall|a: int, b: int|
        0 <= a < waves.len() && 0 <= b < waves[a].members@.len() && (a < i || (a == i && b < j))
            ==> has_vtuber_name(
            vs,
            (#[trigger] waves[a].members@[b]).first_name@,
            waves[a].members@[b].last_name@,
        )
}

/// The row carries the names and channel of some seed member, stamped
/// with that member's wave name.
pub open spec fn row_from_seed(row: Vtuber, waves: Seq<VtuberWave>) -> bool {
    exists|a: int, b: int|
        0 <= a < waves.len() && 0 <= b < waves[a].members@.len() && row.first_name@ == (
        #[trigger] waves[a].members@[b]).first_name@ && row.last_name@
            == waves[a].members@[b].last_name@ && row.emoji@ == waves[a].members@[b].emoji@
            && row.youtube_channel_id@ == waves[a].members@[b].youtube_channel_id@
            && row.youtube_handle@ == waves[a].members@[b].youtube_handle@ && row.wave_name@
            == waves[a].name@
}

proof fn lemma_has_name_preserved(vs: Seq<Vtuber>, x: Vtuber, f: Seq<char>, l: Seq<char>)
    requires
        has_vtuber_name(vs, f, l),
    ensures
        has_vtuber_name(vs.push(x), f, l),
{
    let w = choose|w: int|
        0 <= w < vs.len() && (#[trigger] vs[w]).first_name@ == f && vs[w].last_name@ == l;
    assert(vs.push(x)[w] == vs[w]);
}

/// Seeds the roster from the startup data: walks every wave's members in
/// order, stamps each with its wave's name, and inserts those whose name
/// pair is not yet present. Afterwards every seed member is in the
/// roster, the rows that were there stay untouched in place, and every
/// new row comes from the seed data.
pub fn init_startup_data(store: &mut Store, waves: &Vec<VtuberWave>)
    requires
        old(store).wf(),
        old(store).next_vtuber_id + total_members(waves@) <= i64::MAX,
    ensures
        final(store).wf(),
        final(store).users@ == old(store).users@,
        final(store).subscriptions@ == old(store).subscriptions@,
        final(store).reported_streams@ == old(store).reported_streams@,
        final(store).next_stream_id == old(store).next_stream_id,
        old(store).vtubers@.is_prefix_of(final(store).vtubers@),
        members_seeded(final(store).vtubers@, waves@, waves@.len() as int, 0),
        forall|k: int|
            old(store).vtubers@.len() <= k < final(store).vtubers@.len() ==> row_from_seed(
                #[trigger] final(store).vtubers@[k],
                waves@,
            ),
{
    let ghost old_v = old(store).vtubers@;
    let ghost id0 = old(store).next_vtuber_id as int;
    let n = waves.len();
    let mut i: usize = 0;
    proof {
        lemma_total_members_prefix(waves@, 0);
        assert(waves@.take(0) =~= Seq::<VtuberWave>::empty());
    }
    while i < n
        invariant
            i <= n,
            n == waves@.len(),
            store.wf(),
            store.users@ == old(store).users@,
            store.subscriptions@ == old(store).subscriptions@,
            store.reported_streams@ == old(store).reported_streams@,
            store.next_stream_id == old(store).next_stream_id,
            old_v.is_prefix_of(store.vtubers@),
            members_seeded(store.vtubers@, waves@, i as int, 0),
            forall|k: int|
                old_v.len() <= k < store.vtubers@.len() ==> row_from_seed(
                    #[trigger] store.vtubers@[k],
                    waves@,
                ),
            id0 + total_members(waves@) <= i64::MAX,
            store.next_vtuber_id as int <= id0 + total_members(waves@.take(i as int)),
        decreases n - i,
    {
        let m = waves[i].members.len();
        let mut j: usize = 0;
        proof {
            assert(members_seeded(store.vtubers@, waves@, i as int, 0));
        }
        while j < m
            invariant
                j <= m,
                i < n,
                n == waves@.len(),
                m == waves@[i as int].members@.len(),
                store.wf(),
                store.users@ == old(store).users@,
                store.subscriptions@ == old(store).subscriptions@,
                store.reported_streams@ == old(store).reported_streams@,
                store.next_stream_id == old(store).next_stream_id,
                old_v.is_prefix_of(store.vtubers@),
                members_seeded(store.vtubers@, waves@, i as int, j as int),
                forall|k: int|
                    old_v.len() <= k < store.vtubers@.len() ==> row_from_seed(
                        #[trigger] store.vtubers@[k],
                        waves@,
                    ),
                id0 + total_members(waves@) <= i64::MAX,
                store.next_vtuber_id as int <= id0 + total_members(waves@.take(i as int)) + j,
            decreases m - j,
        {
            let mut member = waves[i].members[j].clone();
            member.wave_name = waves[i].name.clone();
            let ghost vs_b = store.vtubers@;
            proof {
                lemma_total_members_prefix(waves@, i as int);
                lemma_total_members_prefix(waves@, i + 1);
                assert(waves@.take(i + 1).drop_last() =~= waves@.take(i as int));
                assert(total_members(waves@.take(i + 1)) == total_members(waves@.take(i as int))
                    + waves@[i as int].members@.len());
            }
            if !check_vtuber_exist(store, &member) {
                insert_vtuber(store, &member);
                proof {
                    let pushed = store.vtubers@;
                    let row = pushed[pushed.len() - 1];
                    assert(row.first_name@ == waves@[i as int].members@[j as int].first_name@);
                    assert(row.wave_name@ == waves@[i as int].name@);
                    assert(row_from_seed(row, waves@));
                    assert forall|a: int, b: int|
                        0 <= a < waves@.len() && 0 <= b < waves@[a].members@.len() && (a < i || (a
                            == i && b < j + 1)) implies has_vtuber_name(
                        pushed,
                        (#[trigger] waves@[a].members@[b]).first_name@,
                        waves@[a].members@[b].last_name@,
                    ) by {
                        if a < i || (a == i && b < j) {
                            lemma_has_name_preserved(
                                vs_b,
                                row,
                                waves@[a].members@[b].first_name@,
                                waves@[a].members@[b].last_name@,
                            );
                        } else {
                            assert(pushed[pushed.len() - 1] == row);
                        }
                    }
                    assert(old_v.is_prefix_of(pushed)) by {
                        assert(old_v =~= pushed.subrange(0, old_v.len() as int));
                    }
                }
            } else {
                proof {
                    assert(members_seeded(store.vtubers@, waves@, i as int, j + 1));
                }
            }
            j = j + 1;
        }
        proof {
            lemma_total_members_prefix(waves@, i + 1);
            assert(waves@.take(i + 1).drop_last() =~= waves@.take(i as int));
            assert(total_members(waves@.take(i + 1)) == total_members(waves@.take(i as int))
                + waves@[i as int].members@.len());
            assert(members_seeded(store.vtubers@, waves@, i + 1, 0)) by {
                assert forall|a: int, b: int|
                    0 <= a < waves@.len() && 0 <= b < waves@[a].members@.len() && (a < i + 1 || (a
                        == i + 1 && b < 0)) implies has_vtuber_name(
                    store.vtubers@,
                    (#[trigger] waves@[a].members@[b]).first_name@,
                    waves@[a].members@[b].last_name@,
                ) by {
                    assert(a < i || (a == i && b < m));
                }
            }
        }
        i = i + 1;
    }
    proof {
        assert(waves@.take(n as int) =~= waves@);
        assert(members_seeded(store.vtubers@, waves@, n as int, 0));
    }
}

} // verus!
