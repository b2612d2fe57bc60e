//! The menu screens: rows of labeled buttons, each carrying the callback
//! payload the selection state machine parses back.
use vstd::prelude::*;
use crate::queries::{
    get_amount_in_waves, get_wave_members, names_of_wa, sorted_by_debut, wave_amount_correct,
    wave_members_spec, distinct_waves, UserVtubers, WaveAmount,
};
use crate::store::{has_sub, Store};
use crate::text::{int_str, i64_to_string};
use crate::vtuber::{wave_order_spec, Vtuber};

verus! {

/// One selectable entry of a menu screen: a label and the opaque payload
/// the transport hands back when it is pressed.
pub struct Button {
    pub text: String,
    pub callback_data: String,
}

impl Clone for Button {
    fn clone(&self) -> (res: Self)
        ensures
            res == *self,
    {
        Button { text: self.text.clone(), callback_data: self.callback_data.clone() }
    }
}

/// The subscribed badge in front of a member entry.
pub open spec fn badge_spec(is_selected: bool) -> Seq<char> {
    if is_selected {
        "✅"@
    } else {
        ""@
    }
}

/// The badge shown before a member the user is subscribed to.
pub fn get_member_status_badge(is_selected: bool) -> (r: &'static str)
    ensures
        r@ == badge_spec(is_selected),
{
    if is_selected {
        "✅"
    } else {
        ""
    }
}

/// The label of one wave entry: the name with the user's subscribed count
/// over the wave's member count.
pub open spec fn wave_label_spec(wa: WaveAmount) -> Seq<char> {
    wa.wave_name@ + " ("@ + int_str(wa.amount as int) + "/"@ + int_str(wa.max_amount as int)
        + ")"@
}

/// The payload of one wave entry.
pub open spec fn wave_callback_spec(name: Seq<char>) -> Seq<char> {
    "wave_"@ + name
}

/// The label of one member entry: badge, names, emoji.
pub open spec fn member_label_spec(v: Vtuber, is_selected: bool) -> Seq<char> {
    badge_spec(is_selected) + v.first_name@ + " "@ + v.last_name@ + " "@ + v.emoji@
}

/// The payload of one member entry: the member's names and the wave to
/// re-render after the toggle.
pub open spec fn member_callback_spec(v: Vtuber) -> Seq<char> {
    "member_"@ + v.first_name@ + " "@ + v.last_name@ + " wave_"@ + v.wave_name@
}

/// A wave-menu grid rendering these rows: one single-button row per wave,
/// labeled with name and counts, carrying the wave's payload.
pub open spec fn waves_markup_matches(m: Seq<Vec<Button>>, rows: Seq<WaveAmount>) -> bool {
    &&& m.len() == rows.len()
    &&& forall|i: int|
        0 <= i < m.len() ==> (#[trigger] m[i])@.len() == 1 && m[i]@[0].text@ == wave_label_spec(
            rows[i],
        ) && m[i]@[0].callback_data@ == wave_callback_spec(rows[i].wave_name@)
}

fn wave_button(wa: &WaveAmount) -> (r: Button)
    ensures
        r.text@ == wave_label_spec(*wa),
        r.callback_data@ == wave_callback_spec(wa.wave_name@),
{
    let mut text = wa.wave_name.clone();
    text.append(" (");
    let amount = i64_to_string(wa.amount);
    text.append(amount.as_str());
    text.append("/");
    let max_amount = i64_to_string(wa.max_amount);
    text.append(max_amount.as_str());
    text.append(")");
    let mut callback_data = "wave_".to_owned();
    callback_data.append(wa.wave_name.as_str());
    proof {
        assert(text@ =~= wave_label_spec(*wa));
        assert(callback_data@ =~= wave_callback_spec(wa.wave_name@));
    }
    Button { text, callback_data }
}

/// A wave screen is sound for a user when it renders some row list that
/// carries exactly the roster's waves, sorted into the fixed debut order,
/// with that user's correct counts.
pub open spec fn waves_markup_ok(m: Seq<Vec<Button>>, store: Store, tg_user_id: int) -> bool {
    exists|rows: Seq<WaveAmount>|
        {
            &&& #[trigger] waves_markup_matches(m, rows)
            &&& names_of_wa(rows).to_multiset() == distinct_waves(store.vtubers@).to_multiset()
            &&& sorted_by_debut(rows)
            &&& forall|i: int|
                0 <= i < rows.len() ==> wave_amount_correct(
                    #[trigger] rows[i],
                    store.vtubers@,
                    store.subscriptions@,
                    tg_user_id,
                )
        }
}

/// The roster accepted by the wave screen: every wave name has a debut
/// position, and the row count fits the counts' type.
pub open spec fn roster_renderable(store: Store) -> bool {
    &&& store.vtubers@.len() <= i64::MAX
    &&& forall|i: int|
        0 <= i < store.vtubers@.len() ==> wave_order_spec(
            (#[trigger] store.vtubers@[i]).wave_name@,
        ) is Some
}

/// Tests whether the roster can be rendered as a wave screen, so a
/// caller can refuse a broken roster instead of asking for a screen it
/// is not entitled to.
pub fn roster_renderable_check(store: &Store) -> (r: bool)
    ensures
        r == roster_renderable(*store),
{
    let n = store.vtubers.len();
    if n as u64 > i64::MAX as u64 {
        return false;
    }
    let mut i: usize = 0;
    while i < n
        invariant
            i <= n,
            n == store.vtubers@.len(),
            forall|k: int|
                0 <= k < i ==> wave_order_spec((#[trigger] store.vtubers@[k]).wave_name@) is Some,
        decreases n - i,
    {
        if crate::vtuber::wave_order(store.vtubers[i].wave_name.as_str()).is_none() {
            return false;
        }
        i = i + 1;
    }
    true
}

/// The wave selection screen for one user: one row per wave of the
/// roster, in the fixed debut order, each labeled
/// `name (subscribed/total)` and carrying the `wave_` payload.
pub fn waves_markup(store: &Store, tg_user_id: i64) -> (r: Vec<Vec<Button>>)
    requires
        roster_renderable(*store),
    ensures
        waves_markup_ok(r@, *store, tg_user_id as int),
{
    let waves = get_amount_in_waves(store, tg_user_id);
    let mut r: Vec<Vec<Button>> = Vec::new();
    let n = waves.len();
    let mut i: usize = 0;
    while i < n
        invariant
            i <= n,
            n == waves@.len(),
            r@.len() == i,
            forall|k: int|
                0 <= k < i ==> (#[trigger] r@[k])@.len() == 1 && r@[k]@[0].text@
                    == wave_label_spec(waves@[k]) && r@[k]@[0].callback_data@
                    == wave_callback_spec(waves@[k].wave_name@),
        decreases n - i,
    {
        let b = wave_button(&waves[i]);
        let mut row: Vec<Button> = Vec::new();
        row.push(b);
        r.push(row);
        i = i + 1;
    }
    proof {
        assert(waves_markup_matches(r@, waves@));
    }
    r
}

/// A member-menu grid rendering one wave's members plus the back entry.
pub open spec fn members_markup_matches(
    m: Seq<Vec<Button>>,
    store: Store,
    tg_user_id: int,
    wave_name: Seq<char>,
) -> bool {
    let members = wave_members_spec(store.vtubers@, wave_name);
    &&& m.len() == members.len() + 1
    &&& forall|i: int|
        0 <= i < members.len() ==> (#[trigger] m[i])@.len() == 1 && m[i]@[0].text@
            == member_label_spec(
            members[i],
            has_sub(store.subscriptions@, tg_user_id, members[i].id as int),
        ) && m[i]@[0].callback_data@ == member_callback_spec(members[i])
    &&& m[members.len() as int]@.len() == 1
    &&& m[members.len() as int]@[0].text@ == "Назад"@
    &&& m[members.len() as int]@[0].callback_data@ == "member_back wave_none"@
}

fn member_button(uv: &UserVtubers) -> (r: Button)
    ensures
        r.text@ == member_label_spec(uv.vtuber, uv.is_selected),
        r.callback_data@ == member_callback_spec(uv.vtuber),
{
    let mut text = get_member_status_badge(uv.is_selected).to_owned();
    text.append(uv.vtuber.first_name.as_str());
    text.append(" ");
    text.append(uv.vtuber.last_name.as_str());
    text.append(" ");
    text.append(uv.vtuber.emoji.as_str());
    let mut callback_data = "member_".to_owned();
    callback_data.append(uv.vtuber.first_name.as_str());
    callback_data.append(" ");
    callback_data.append(uv.vtuber.last_name.as_str());
    callback_data.append(" wave_");
    callback_data.append(uv.vtuber.wave_name.as_str());
    proof {
        assert(text@ =~= member_label_spec(uv.vtuber, uv.is_selected));
        assert(callback_data@ =~= member_callback_spec(uv.vtuber));
    }
    Button { text, callback_data }
}

/// The member selection screen of one wave for one user: one row per
/// member in roster order, badged when the user is subscribed, followed
/// by the back entry.
pub fn members_markup(store: &Store, tg_user_id: i64, wave_name: String) -> (r: Vec<Vec<Button>>)
    ensures
        members_markup_matches(r@, *store, tg_user_id as int, wave_name@),
{
    let members = get_wave_members(store, tg_user_id, wave_name);
    let mut r: Vec<Vec<Button>> = Vec::new();
    let n = members.len();
    let mut i: usize = 0;
    proof {
        assert(members@.map_values(|uv: UserVtubers| crate::queries::uv_vtuber(uv)).len()
            == members@.len());
    }
    while i < n
        invariant
            i <= n,
            n == members@.len(),
            r@.len() == i,
            forall|k: int|
                0 <= k < i ==> (#[trigger] r@[k])@.len() == 1 && r@[k]@[0].text@
                    == member_label_spec(members@[k].vtuber, members@[k].is_selected)
                    && r@[k]@[0].callback_data@ == member_callback_spec(members@[k].vtuber),
        decreases n - i,
    {
        let b = member_button(&members[i]);
        let mut row: Vec<Button> = Vec::new();
        row.push(b);
        r.push(row);
        i = i + 1;
    }
    let back = Button {
        text: "Назад".to_owned(),
        callback_data: "member_back wave_none".to_owned(),
    };
    let mut row: Vec<Button> = Vec::new();
    row.push(back);
    r.push(row);
    proof {
        let ghost members_v = wave_members_spec(store.vtubers@, wave_name@);
        assert forall|i: int|
            0 <= i < members_v.len() implies (#[trigger] r@[i])@.len() == 1 && r@[i]@[0].text@
            == member_label_spec(
            members_v[i],
            has_sub(store.subscriptions@, tg_user_id as int, members_v[i].id as int),
        ) && r@[i]@[0].callback_data@ == member_callback_spec(members_v[i]) by {
            assert(members@.map_values(|uv: UserVtubers| crate::queries::uv_vtuber(uv))[i]
                == members@[i].vtuber);
            assert(members@[i].vtuber == members_v[i]);
        }
    }
    r
}

} // verus!
