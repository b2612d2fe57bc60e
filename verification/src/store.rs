//! In-memory model of the bot's relational store, with the invariants the
//! schema enforces: unique creator ids and names, unique user ids, unique
//! subscription pairs with referential integrity, and a ledger with at most
//! one entry per stream.
use vstd::prelude::*;
use crate::reported_stream::ReportedStream;
use crate::user::User;
use crate::vtuber::Vtuber;

verus! {

/// One subscription link: existence of the pair is the whole signal.
pub struct Subscription {
    pub user_id: i64,
    pub vtuber_id: i64,
}

impl Clone for Subscription {
    fn clone(&self) -> (res: Self)
        ensures
            res == *self,
    {
        Subscription { user_id: self.user_id, vtuber_id: self.vtuber_id }
    }
}

/// Why a store operation was rejected.
#[derive(Clone, Copy, Debug, PartialEq, Eq, Structural)]
pub enum StoreError {
    /// A row with the same identity already exists.
    Duplicate,
    /// The operation references a user or creator that is not in the store.
    MissingReference,
}

/// The user `user_id` holds a subscription to the creator `vtuber_id`.
pub open spec fn has_sub(subs: Seq<Subscription>, user_id: int, vtuber_id: int) -> bool {
    exists|i: int|
        0 <= i < subs.len() && (#[trigger] subs[i]).user_id == user_id && subs[i].vtuber_id
            == vtuber_id
}

/// The subscription rows as a set of (user id, creator id) pairs.
pub open spec fn sub_pairs(subs: Seq<Subscription>) -> Set<(int, int)> {
    Set::new(|p: (int, int)| has_sub(subs, p.0, p.1))
}

/// No two subscription rows hold the same pair.
pub open spec fn subs_unique(subs: Seq<Subscription>) -> bool {
    forall|i: int, j: int|
        0 <= i < j < subs.len() ==> !((#[trigger] subs[i]).user_id == (#[trigger] subs[j]).user_id
            && subs[i].vtuber_id == subs[j].vtuber_id)
}

/// Some creator row carries the internal id `id`.
pub open spec fn has_vtuber_id(vs: Seq<Vtuber>, id: int) -> bool {
    exists|i: int| 0 <= i < vs.len() && (#[trigger] vs[i]).id == id
}

/// Some creator row carries this first and last name.
pub open spec fn has_vtuber_name(vs: Seq<Vtuber>, first: Seq<char>, last: Seq<char>) -> bool {
    exists|i: int|
        0 <= i < vs.len() && (#[trigger] vs[i]).first_name@ == first && vs[i].last_name@ == last
}

/// Some user row carries the platform user id `id`.
pub open spec fn has_user(us: Seq<User>, id: int) -> bool {
    exists|i: int| 0 <= i < us.len() && (#[trigger] us[i]).tg_user_id == id
}

/// The ledger holds an entry for the stream `video_id`.
pub open spec fn reported(ls: Seq<ReportedStream>, video_id: Seq<char>) -> bool {
    exists|i: int| 0 <= i < ls.len() && (#[trigger] ls[i]).video_id@ == video_id
}

/// The whole store: roster, users, subscription links and the notification
/// ledger, together with the id counters the schema would assign.
pub struct Store {
    pub vtubers: Vec<Vtuber>,
    pub users: Vec<User>,
    pub subscriptions: Vec<Subscription>,
    pub reported_streams: Vec<ReportedStream>,
    pub next_vtuber_id: i64,
    pub next_stream_id: i64,
}

impl Store {
    /// The invariants every store operation preserves.
    pub open spec fn wf(self) -> bool {
        &&& forall|i: int, j: int|
            0 <= i < j < self.vtubers@.len() ==> (#[trigger] self.vtubers@[i]).id
                != (#[trigger] self.vtubers@[j]).id
        &&& forall|i: int, j: int|
            0 <= i < j < self.vtubers@.len() ==> !((#[trigger] self.vtubers@[i]).first_name@
                == (#[trigger] self.vtubers@[j]).first_name@ && self.vtubers@[i].last_name@
                == self.vtubers@[j].last_name@)
        &&& forall|i: int|
            0 <= i < self.vtubers@.len() ==> 1 <= (#[trigger] self.vtubers@[i]).id
                < self.next_vtuber_id
        &&& forall|i: int, j: int|
            0 <= i < j < self.users@.len() ==> (#[trigger] self.users@[i]).tg_user_id
                != (#[trigger] self.users@[j]).tg_user_id
        &&& subs_unique(self.subscriptions@)
        &&& forall|i: int|
            0 <= i < self.subscriptions@.len() ==> has_user(
                self.users@,
                (#[trigger] self.subscriptions@[i]).user_id as int,
            ) && has_vtuber_id(self.vtubers@, self.subscriptions@[i].vtuber_id as int)
        &&& forall|i: int, j: int|
            0 <= i < j < self.reported_streams@.len() ==> (
            #[trigger] self.reported_streams@[i]).video_id@
                != (#[trigger] self.reported_streams@[j]).video_id@
        &&& forall|i: int|
            0 <= i < self.reported_streams@.len() ==> 1 <= (
            #[trigger] self.reported_streams@[i]).id < self.next_stream_id && has_vtuber_id(
                self.vtubers@,
                self.reported_streams@[i].vtuber_id as int,
            )
        &&& 1 <= self.next_vtuber_id
        &&& 1 <= self.next_stream_id
    }

    /// An empty store, as the schema migration leaves it.
    pub fn new() -> (s: Store)
        ensures
            s.wf(),
            s.vtubers@ == Seq::<Vtuber>::empty(),
            s.users@ == Seq::<User>::empty(),
            s.subscriptions@ == Seq::<Subscription>::empty(),
            s.reported_streams@ == Seq::<ReportedStream>::empty(),
    {
        Store {
            vtubers: Vec::new(),
            users: Vec::new(),
            subscriptions: Vec::new(),
            reported_streams: Vec::new(),
            next_vtuber_id: 1,
            next_stream_id: 1,
        }
    }
}

/// One toggle step on the set of subscription pairs: drop the pair when it
/// is present, add it when it is not.
pub open spec fn toggle_spec(s: Set<(int, int)>, p: (int, int)) -> Set<(int, int)> {
    if s.contains(p) {
        s.remove(p)
    } else {
        s.insert(p)
    }
}

/// Toggling the same pair twice returns the subscription state to its
/// original value: a toggle is its own inverse.
pub proof fn lemma_toggle_twice(s: Set<(int, int)>, p: (int, int))
    ensures
        toggle_spec(toggle_spec(s, p), p) == s,
{
    if s.contains(p) {
        assert(toggle_spec(s, p) == s.remove(p));
        assert(!s.remove(p).contains(p));
        assert(s.remove(p).insert(p) =~= s);
    } else {
        assert(toggle_spec(s, p) == s.insert(p));
        assert(s.insert(p).remove(p) =~= s);
    }
}

/// Appending a fresh pair adds exactly that pair to the subscription set.
pub proof fn lemma_sub_pairs_push(subs: Seq<Subscription>, x: Subscription)
    ensures
        sub_pairs(subs.push(x)) == sub_pairs(subs).insert((x.user_id as int, x.vtuber_id as int)),
{
    let p = (x.user_id as int, x.vtuber_id as int);
    let pushed = subs.push(x);
    assert forall|q: (int, int)| #[trigger]
        sub_pairs(pushed).contains(q) implies sub_pairs(subs).insert(p).contains(q) by {
        let i = choose|i: int|
            0 <= i < pushed.len() && (#[trigger] pushed[i]).user_id == q.0 && pushed[i].vtuber_id
                == q.1;
        if i < subs.len() {
            assert(subs[i] == pushed[i]);
            assert(has_sub(subs, q.0, q.1));
        } else {
            assert(pushed[i] == x);
        }
    };
    assert forall|q: (int, int)| #[trigger]
        sub_pairs(subs).insert(p).contains(q) implies sub_pairs(pushed).contains(q) by {
        if q == p {
            assert(pushed[subs.len() as int] == x);
            assert(has_sub(pushed, q.0, q.1));
        } else {
            let i = choose|i: int|
                0 <= i < subs.len() && (#[trigger] subs[i]).user_id == q.0 && subs[i].vtuber_id
                    == q.1;
            assert(pushed[i] == subs[i]);
            assert(has_sub(pushed, q.0, q.1));
        }
    };
    assert(sub_pairs(pushed) =~= sub_pairs(subs).insert(p));
}

/// Removing the one row that holds a pair removes exactly that pair from
/// the subscription set.
pub proof fn lemma_sub_pairs_remove(subs: Seq<Subscription>, idx: int)
    requires
        subs_unique(subs),
        0 <= idx < subs.len(),
    ensures
        sub_pairs(subs.remove(idx)) == sub_pairs(subs).remove(
            (subs[idx].user_id as int, subs[idx].vtuber_id as int),
        ),
{
    let p = (subs[idx].user_id as int, subs[idx].vtuber_id as int);
    let after = subs.remove(idx);
    assert forall|q: (int, int)| #[trigger]
        sub_pairs(after).contains(q) implies sub_pairs(subs).remove(p).contains(q) by {
        let i = choose|i: int|
            0 <= i < after.len() && (#[trigger] after[i]).user_id == q.0 && after[i].vtuber_id
                == q.1;
        let i0 = if i < idx {
            i
        } else {
            i + 1
        };
        assert(subs[i0] == after[i]);
        assert(has_sub(subs, q.0, q.1));
        if q == p {
            assert(subs[i0].user_id == subs[idx].user_id && subs[i0].vtuber_id
                == subs[idx].vtuber_id);
            assert(i0 != idx);
            assert(false);
        }
    };
    assert forall|q: (int, int)| #[trigger]
        sub_pairs(subs).remove(p).contains(q) implies sub_pairs(after).contains(q) by {
        let i = choose|i: int|
            0 <= i < subs.len() && (#[trigger] subs[i]).user_id == q.0 && subs[i].vtuber_id == q.1;
        assert(i != idx);
        if i < idx {
            assert(after[i] == subs[i]);
            assert(has_sub(after, q.0, q.1));
        } else {
            assert(after[i - 1] == subs[i]);
            assert(has_sub(after, q.0, q.1));
        }
    };
    assert(sub_pairs(after) =~= sub_pairs(subs).remove(p));
}

} // verus!
