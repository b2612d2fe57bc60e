//! The selection state machine the chat handlers drive: a wave payload
//! renders that wave's member screen, a member payload either returns to
//! the wave screen or toggles one subscription and re-renders the member
//! screen with fresh badges.
use vstd::prelude::*;
use crate::markup::{
    members_markup, members_markup_matches, roster_renderable, waves_markup, waves_markup_ok,
    Button,
};
use crate::payload::{
    member_split_spec, parse_member_callback, parse_wave_callback, split_once_spec,
    strip_prefix_spec, MemberAction,
};
use crate::queries::{get_vtuber_by_name, update_user_vtuber};
use crate::store::{has_user, has_vtuber_name, sub_pairs, toggle_spec, Store};

verus! {

/// Why one interaction was abandoned. None of these touches the store.
#[derive(Clone, Copy, Debug, PartialEq, Eq, Structural)]
pub enum HandlerError {
    /// The payload does not have the shape the menus emit.
    MalformedPayload,
    /// The payload names a creator that is not in the roster.
    UnknownCreator,
    /// The interacting user has never been registered.
    UnknownUser,
}

/// The screen an interaction renders next.
pub enum Screen {
    /// The wave list with per-user counts.
    Waves(Vec<Vec<Button>>),
    /// One wave's member list with subscription badges.
    Members(Vec<Vec<Button>>),
}

/// Handles a wave selection: reads the wave name out of the payload and
/// renders that wave's member screen for the user. Rejected exactly when
/// the payload lacks the `wave_` prefix.
pub fn wave_action(store: &Store, tg_user_id: i64, data: &str) -> (r: Result<
    Vec<Vec<Button>>,
    HandlerError,
>)
    ensures
        r is Ok <==> strip_prefix_spec(data@, "wave_"@) is Some,
        r is Err ==> r == Err::<Vec<Vec<Button>>, HandlerError>(HandlerError::MalformedPayload),
        forall|name: Seq<char>|
            strip_prefix_spec(data@, "wave_"@) == Some(name) ==> members_markup_matches(
                r.unwrap()@,
                *store,
                tg_user_id as int,
                name,
            ),
{
    match parse_wave_callback(data) {
        Some(name) => Ok(members_markup(store, tg_user_id, name)),
        None => Err(HandlerError::MalformedPayload),
    }
}

/// Handles a member selection, the toggle transition of the state
/// machine. A `back` payload re-renders the wave screen and leaves the
/// store as it is. A toggle payload flips the (user, creator) pair named
/// by the payload and re-renders that wave's member screen with the
/// badges as they are after the flip. The interaction is abandoned, with
/// the store untouched, exactly when the payload is malformed, the named
/// creator is not in the roster, or the user was never registered.
pub fn member_action(store: &mut Store, tg_user_id: i64, data: &str) -> (r: Result<
    Screen,
    HandlerError,
>)
    requires
        old(store).wf(),
        roster_renderable(*old(store)),
    ensures
        final(store).wf(),
        final(store).vtubers@ == old(store).vtubers@,
        final(store).users@ == old(store).users@,
        final(store).reported_streams@ == old(store).reported_streams@,
        final(store).next_vtuber_id == old(store).next_vtuber_id,
        final(store).next_stream_id == old(store).next_stream_id,
        r is Err ==> *final(store) == *old(store),
        member_split_spec(data@) is None ==> r == Err::<Screen, HandlerError>(
            HandlerError::MalformedPayload,
        ),
        forall|m: Seq<char>, w: Seq<char>|
            member_split_spec(data@) == Some((m, w)) && m == "back"@ ==> *final(store) == *old(
                store,
            ) && (match r {
                Ok(s) => s matches Screen::Waves(mk) && waves_markup_ok(
                    mk@,
                    *old(store),
                    tg_user_id as int,
                ),
                Err(_) => false,
            }),
        forall|m: Seq<char>, w: Seq<char>|
            member_split_spec(data@) == Some((m, w)) && m != "back"@ && split_once_spec(m, " "@)
                is None ==> r == Err::<Screen, HandlerError>(HandlerError::MalformedPayload),
        forall|m: Seq<char>, w: Seq<char>, f: Seq<char>, l: Seq<char>|
            member_split_spec(data@) == Some((m, w)) && m != "back"@ && split_once_spec(m, " "@)
                == Some((f, l)) && !has_vtuber_name(old(store).vtubers@, f, l) ==> r == Err::<
                Screen,
                HandlerError,
            >(HandlerError::UnknownCreator),
        forall|m: Seq<char>, w: Seq<char>, f: Seq<char>, l: Seq<char>|
            member_split_spec(data@) == Some((m, w)) && m != "back"@ && split_once_spec(m, " "@)
                == Some((f, l)) && has_vtuber_name(old(store).vtubers@, f, l) && !has_user(
                old(store).users@,
                tg_user_id as int,
            ) ==> r == Err::<Screen, HandlerError>(HandlerError::UnknownUser),
        forall|m: Seq<char>, w: Seq<char>, f: Seq<char>, l: Seq<char>|
            member_split_spec(data@) == Some((m, w)) && m != "back"@ && split_once_spec(m, " "@)
                == Some((f, l)) && has_vtuber_name(old(store).vtubers@, f, l) && has_user(
                old(store).users@,
                tg_user_id as int,
            ) ==> (exists|v: crate::vtuber::Vtuber|
                {
                    &&& #[trigger] old(store).vtubers@.contains(v)
                    &&& v.first_name@ == f
                    &&& v.last_name@ == l
                    &&& sub_pairs(final(store).subscriptions@) == toggle_spec(
                        sub_pairs(old(store).subscriptions@),
                        (tg_user_id as int, v.id as int),
                    )
                }) && (match r {
                Ok(s) => s matches Screen::Members(mk) && members_markup_matches(
                    mk@,
                    *final(store),
                    tg_user_id as int,
                    w,
                ),
                Err(_) => false,
            }),
{
    let action = match parse_member_callback(data) {
        Some(a) => a,
        None => {
            return Err(HandlerError::MalformedPayload);
        },
    };
    match action {
        MemberAction::Back => Ok(Screen::Waves(waves_markup(store, tg_user_id))),
        MemberAction::Toggle { first_name, last_name, wave_name } => {
            let vtuber = match get_vtuber_by_name(store, first_name.as_str(), last_name.as_str()) {
                Some(v) => v,
                None => {
                    return Err(HandlerError::UnknownCreator);
                },
            };
            match update_user_vtuber(store, tg_user_id, vtuber.id) {
                Ok(_) => Ok(Screen::Members(members_markup(store, tg_user_id, wave_name))),
                Err(_) => Err(HandlerError::UnknownUser),
            }
        },
    }
}

} // verus!
