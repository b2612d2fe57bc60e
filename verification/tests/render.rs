use melatonin_bot::handlers::{member_action, wave_action, HandlerError, Screen};
use melatonin_bot::markup::{get_member_status_badge, members_markup, waves_markup};
use melatonin_bot::notify::{display_hour_minute, notification_caption, photo_url, run_cycle};
use melatonin_bot::payload::{parse_member_callback, parse_wave_callback, MemberAction};
use melatonin_bot::queries::{insert_user, insert_vtuber, update_user_vtuber};
use melatonin_bot::store::Store;
use melatonin_bot::text::{i64_to_string, u64_to_string};
use melatonin_bot::user::User;
use melatonin_bot::video::{Video, VtuberVideo};
use melatonin_bot::vtuber::Vtuber;

fn vtuber(first: &str, last: &str, wave: &str, channel: &str) -> Vtuber {
    Vtuber {
        id: 0,
        first_name: first.to_string(),
        last_name: last.to_string(),
        wave_name: wave.to_string(),
        emoji: "🌙".to_string(),
        youtube_channel_id: channel.to_string(),
        youtube_handle: format!("@{}", first),
    }
}

fn user(id: i64, chat: i64) -> User {
    User {
        first_name: format!("user{}", id),
        last_name: None,
        username: None,
        tg_user_id: id,
        tg_chat_id: chat,
    }
}

const NOW: i64 = 1_700_000_000;

#[test]
fn decimal_rendering() {
    assert_eq!(u64_to_string(0), "0");
    assert_eq!(u64_to_string(7), "7");
    assert_eq!(u64_to_string(42), "42");
    assert_eq!(u64_to_string(1000), "1000");
    assert_eq!(i64_to_string(-5), "-5");
    assert_eq!(i64_to_string(15), "15");
}

#[test]
fn root_menu_renders_counts_per_wave() {
    // One of three members of a wave subscribed renders `name (1/3)`.
    let mut store = Store::new();
    insert_vtuber(&mut store, &vtuber("Ava", "Lune", "LazuLight", "UC1"));
    insert_vtuber(&mut store, &vtuber("Mira", "Vox", "LazuLight", "UC2"));
    insert_vtuber(&mut store, &vtuber("Rin", "Sol", "LazuLight", "UC3"));
    insert_user(&mut store, user(10, 100)).unwrap();
    let second_id = store.vtubers[1].id;
    update_user_vtuber(&mut store, 10, second_id).unwrap();

    let markup = waves_markup(&store, 10);
    assert_eq!(markup.len(), 1);
    assert_eq!(markup[0].len(), 1);
    assert_eq!(markup[0][0].text, "LazuLight (1/3)");
    assert_eq!(markup[0][0].callback_data, "wave_LazuLight");

    // A user without subscriptions sees a zero count.
    let other = waves_markup(&store, 11);
    assert_eq!(other[0][0].text, "LazuLight (0/3)");
}

#[test]
fn member_menu_renders_badges_and_back_entry() {
    let mut store = Store::new();
    insert_vtuber(&mut store, &vtuber("Ava", "Lune", "LazuLight", "UC1"));
    insert_vtuber(&mut store, &vtuber("Mira", "Vox", "LazuLight", "UC2"));
    insert_user(&mut store, user(10, 100)).unwrap();
    let first_id = store.vtubers[0].id;
    update_user_vtuber(&mut store, 10, first_id).unwrap();

    let markup = members_markup(&store, 10, "LazuLight".to_string());
    assert_eq!(markup.len(), 3);
    assert_eq!(markup[0][0].text, "✅Ava Lune 🌙");
    assert_eq!(markup[0][0].callback_data, "member_Ava Lune wave_LazuLight");
    assert_eq!(markup[1][0].text, "Mira Vox 🌙");
    assert_eq!(markup[2][0].text, "Назад");
    assert_eq!(markup[2][0].callback_data, "member_back wave_none");
    assert_eq!(get_member_status_badge(true), "✅");
    assert_eq!(get_member_status_badge(false), "");
}

#[test]
fn payload_round_trip() {
    assert_eq!(
        parse_wave_callback("wave_LazuLight").as_deref(),
        Some("LazuLight")
    );
    assert!(parse_wave_callback("member_x").is_none());

    match parse_member_callback("member_Ava Lune wave_LazuLight") {
        Some(MemberAction::Toggle {
            first_name,
            last_name,
            wave_name,
        }) => {
            assert_eq!(first_name, "Ava");
            assert_eq!(last_name, "Lune");
            assert_eq!(wave_name, "LazuLight");
        }
        other => panic!("unexpected parse: {:?}", other.is_some()),
    }
    assert!(matches!(
        parse_member_callback("member_back wave_none"),
        Some(MemberAction::Back)
    ));
    // The back word wins over the wave part, as the handler reads it.
    assert!(matches!(
        parse_member_callback("member_back wave_LazuLight"),
        Some(MemberAction::Back)
    ));
    // Malformed payloads are rejected rather than cut somewhere.
    assert!(parse_member_callback("wave_LazuLight").is_none());
    assert!(parse_member_callback("member_AvaLune wave_X").is_none());
    assert!(parse_member_callback("member_Ava Lune").is_none());
}

#[test]
fn notification_caption_is_rendered_exactly() {
    let pair = VtuberVideo {
        vtuber: {
            let mut v = vtuber("Ava", "Lune", "LazuLight", "UC123");
            v.id = 1;
            v
        },
        video: Video {
            video_id: "v1".to_string(),
            title: "3D debut [EN] now!".to_string(),
            channel_id: "UC123".to_string(),
            start_scheduled: Some(NOW + 900),
            available_at: NOW + 900,
        },
    };
    let caption = notification_caption(&pair, NOW);
    // 1_700_000_900 is 22:28:20 UTC, which is 01:28 in the display offset.
    let expected = "Стрим Ava Lune начнется через \\~15 минут\n\n\
                    Название: 3D debut \\[EN\\] now\\!\n\n\
                    [▶️ Ссылка на стрим](https://www.youtube.com/watch?v=v1)\n\
                    Начало: 01:28 \\(GMT\\+3 Europe/Moscow\\)";
    assert_eq!(caption, expected);
    assert_eq!(photo_url("v1"), "https://img.youtube.com/vi/v1/0.jpg");
    assert_eq!(display_hour_minute(NOW + 900), (1, 28));
}

#[test]
fn cycle_notifications_carry_the_caption_and_thumbnail() {
    let mut store = Store::new();
    insert_vtuber(&mut store, &vtuber("Ava", "Lune", "LazuLight", "UC123"));
    insert_user(&mut store, user(10, 100)).unwrap();
    let first_id = store.vtubers[0].id;
    update_user_vtuber(&mut store, 10, first_id).unwrap();
    let candidates = vec![Video {
        video_id: "v1".to_string(),
        title: "a.b".to_string(),
        channel_id: "UC123".to_string(),
        start_scheduled: Some(NOW + 600),
        available_at: NOW + 600,
    }];
    let notifs = run_cycle(&mut store, &candidates, NOW);
    assert_eq!(notifs.len(), 1);
    assert_eq!(notifs[0].photo_url, "https://img.youtube.com/vi/v1/0.jpg");
    // The title's dots reach the caption escaped: the escaper really ran.
    assert!(notifs[0].caption.contains("Название: a\\.b"));
}

#[test]
fn wave_action_renders_the_selected_wave() {
    let mut store = Store::new();
    insert_vtuber(&mut store, &vtuber("Ava", "Lune", "LazuLight", "UC1"));
    let markup = wave_action(&store, 10, "wave_LazuLight").expect("well-formed");
    assert_eq!(markup.len(), 2);
    assert_eq!(markup[0][0].text, "Ava Lune 🌙");
    assert!(matches!(
        wave_action(&store, 10, "LazuLight"),
        Err(HandlerError::MalformedPayload)
    ));
}

#[test]
fn member_action_toggles_and_rerenders() {
    let mut store = Store::new();
    insert_vtuber(&mut store, &vtuber("Ava", "Lune", "LazuLight", "UC1"));
    insert_user(&mut store, user(10, 100)).unwrap();

    match member_action(&mut store, 10, "member_Ava Lune wave_LazuLight") {
        Ok(Screen::Members(markup)) => {
            assert_eq!(markup[0][0].text, "✅Ava Lune 🌙");
        }
        _ => panic!("expected the member screen"),
    }
    assert_eq!(store.subscriptions.len(), 1);

    match member_action(&mut store, 10, "member_back wave_none") {
        Ok(Screen::Waves(markup)) => {
            assert_eq!(markup[0][0].text, "LazuLight (1/1)");
        }
        _ => panic!("expected the wave screen"),
    }

    assert!(matches!(
        member_action(&mut store, 10, "nonsense"),
        Err(HandlerError::MalformedPayload)
    ));
    assert!(matches!(
        member_action(&mut store, 10, "member_No Body wave_LazuLight"),
        Err(HandlerError::UnknownCreator)
    ));
    assert!(matches!(
        member_action(&mut store, 99, "member_Ava Lune wave_LazuLight"),
        Err(HandlerError::UnknownUser)
    ));
    // None of the failed interactions touched the store.
    assert_eq!(store.subscriptions.len(), 1);
}
