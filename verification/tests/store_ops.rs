use melatonin_bot::queries::{
    check_reported_stream, check_vtuber_exist, get_amount_in_waves, get_vtuber_by_name,
    get_wave_members, get_waves_names, init_startup_data, insert_reported_stream, insert_user,
    insert_vtuber, update_user_vtuber,
};
use melatonin_bot::store::{Store, StoreError};
use melatonin_bot::user::User;
use melatonin_bot::video::Video;
use melatonin_bot::vtuber::{wave_order, Vtuber, VtuberWave};

fn vtuber(first: &str, last: &str, wave: &str, channel: &str) -> Vtuber {
    Vtuber {
        id: 0,
        first_name: first.to_string(),
        last_name: last.to_string(),
        wave_name: wave.to_string(),
        emoji: "🌙".to_string(),
        youtube_channel_id: channel.to_string(),
        youtube_handle: format!("@{}", first),
    }
}

fn user(id: i64, chat: i64) -> User {
    User {
        first_name: format!("user{}", id),
        last_name: None,
        username: None,
        tg_user_id: id,
        tg_chat_id: chat,
    }
}

fn video(id: &str, channel: &str, start: i64) -> Video {
    Video {
        video_id: id.to_string(),
        title: format!("stream {}", id),
        channel_id: channel.to_string(),
        start_scheduled: Some(start),
        available_at: start,
    }
}

fn subscribed(store: &Store, user_id: i64, wave: &str, first: &str) -> bool {
    let members = get_wave_members(store, user_id, wave.to_string());
    members
        .iter()
        .find(|uv| uv.vtuber.first_name == first)
        .map(|uv| uv.is_selected)
        .unwrap_or(false)
}

#[test]
fn insert_user_rejects_duplicates() {
    let mut store = Store::new();
    assert!(insert_user(&mut store, user(10, 100)).is_ok());
    assert_eq!(
        insert_user(&mut store, user(10, 101)),
        Err(StoreError::Duplicate)
    );
    assert!(insert_user(&mut store, user(11, 100)).is_ok());
    assert_eq!(store.users.len(), 2);
}

#[test]
fn insert_vtuber_assigns_ids_in_order() {
    let mut store = Store::new();
    insert_vtuber(&mut store, &vtuber("Ava", "Lune", "LazuLight", "UC123"));
    insert_vtuber(&mut store, &vtuber("Mira", "Vox", "LazuLight", "UC124"));
    assert_eq!(store.vtubers[0].id, 1);
    assert_eq!(store.vtubers[1].id, 2);
    assert!(check_vtuber_exist(
        &store,
        &vtuber("Ava", "Lune", "LazuLight", "UC123")
    ));
    assert!(!check_vtuber_exist(
        &store,
        &vtuber("Ava", "Moon", "LazuLight", "UC125")
    ));
    let found = get_vtuber_by_name(&store, "Mira", "Vox").expect("seeded");
    assert_eq!(found.id, 2);
    assert!(get_vtuber_by_name(&store, "Nobody", "Here").is_none());
}

#[test]
fn toggle_twice_restores_subscription_state() {
    let mut store = Store::new();
    insert_vtuber(&mut store, &vtuber("Ava", "Lune", "LazuLight", "UC123"));
    insert_user(&mut store, user(10, 100)).unwrap();
    let creator_id = store.vtubers[0].id;

    assert!(!subscribed(&store, 10, "LazuLight", "Ava"));
    update_user_vtuber(&mut store, 10, creator_id).unwrap();
    assert!(subscribed(&store, 10, "LazuLight", "Ava"));
    update_user_vtuber(&mut store, 10, creator_id).unwrap();
    assert!(!subscribed(&store, 10, "LazuLight", "Ava"));
    assert_eq!(store.subscriptions.len(), 0);
}

#[test]
fn toggle_requires_existing_user_and_creator() {
    let mut store = Store::new();
    insert_vtuber(&mut store, &vtuber("Ava", "Lune", "LazuLight", "UC123"));
    let creator_id = store.vtubers[0].id;
    assert_eq!(
        update_user_vtuber(&mut store, 10, creator_id),
        Err(StoreError::MissingReference)
    );
    insert_user(&mut store, user(10, 100)).unwrap();
    assert_eq!(
        update_user_vtuber(&mut store, 10, 999),
        Err(StoreError::MissingReference)
    );
    assert!(update_user_vtuber(&mut store, 10, creator_id).is_ok());
}

#[test]
fn toggles_of_different_users_are_independent() {
    let mut store = Store::new();
    insert_vtuber(&mut store, &vtuber("Ava", "Lune", "LazuLight", "UC123"));
    insert_user(&mut store, user(10, 100)).unwrap();
    insert_user(&mut store, user(11, 101)).unwrap();
    let creator_id = store.vtubers[0].id;
    update_user_vtuber(&mut store, 10, creator_id).unwrap();
    assert!(subscribed(&store, 10, "LazuLight", "Ava"));
    assert!(!subscribed(&store, 11, "LazuLight", "Ava"));
    update_user_vtuber(&mut store, 11, creator_id).unwrap();
    update_user_vtuber(&mut store, 10, creator_id).unwrap();
    assert!(!subscribed(&store, 10, "LazuLight", "Ava"));
    assert!(subscribed(&store, 11, "LazuLight", "Ava"));
}

#[test]
fn waves_names_are_distinct_in_first_appearance_order() {
    let mut store = Store::new();
    insert_vtuber(&mut store, &vtuber("A", "One", "Noctyx", "UC1"));
    insert_vtuber(&mut store, &vtuber("B", "Two", "LazuLight", "UC2"));
    insert_vtuber(&mut store, &vtuber("C", "Three", "Noctyx", "UC3"));
    let names = get_waves_names(&store);
    assert_eq!(names, vec!["Noctyx".to_string(), "LazuLight".to_string()]);
}

#[test]
fn amounts_follow_debut_order_whatever_the_insertion_order() {
    let mut a = Store::new();
    insert_vtuber(&mut a, &vtuber("A", "One", "Noctyx", "UC1"));
    insert_vtuber(&mut a, &vtuber("B", "Two", "LazuLight", "UC2"));
    insert_vtuber(&mut a, &vtuber("C", "Three", "ILUNA", "UC3"));

    let mut b = Store::new();
    insert_vtuber(&mut b, &vtuber("C", "Three", "ILUNA", "UC3"));
    insert_vtuber(&mut b, &vtuber("A", "One", "Noctyx", "UC1"));
    insert_vtuber(&mut b, &vtuber("B", "Two", "LazuLight", "UC2"));

    let rows_a: Vec<String> = get_amount_in_waves(&a, 10)
        .into_iter()
        .map(|w| w.wave_name)
        .collect();
    let rows_b: Vec<String> = get_amount_in_waves(&b, 10)
        .into_iter()
        .map(|w| w.wave_name)
        .collect();
    assert_eq!(
        rows_a,
        vec![
            "LazuLight".to_string(),
            "Noctyx".to_string(),
            "ILUNA".to_string()
        ]
    );
    assert_eq!(rows_a, rows_b);
}

#[test]
fn wave_order_covers_the_eight_waves() {
    assert_eq!(wave_order("LazuLight"), Some(1));
    assert_eq!(wave_order("OBSYDIA"), Some(2));
    assert_eq!(wave_order("Ethyria"), Some(3));
    assert_eq!(wave_order("Luxiem"), Some(4));
    assert_eq!(wave_order("Noctyx"), Some(5));
    assert_eq!(wave_order("ILUNA"), Some(6));
    assert_eq!(wave_order("XSOLEIL"), Some(7));
    assert_eq!(wave_order("Krisis"), Some(8));
    assert_eq!(wave_order("Alpha"), None);
}

#[test]
fn ledger_lookup_and_insert() {
    let mut store = Store::new();
    insert_vtuber(&mut store, &vtuber("Ava", "Lune", "LazuLight", "UC123"));
    let v = video("v1", "UC123", 1_000_000);
    assert!(check_reported_stream(&store, &v).is_none());
    let creator = store.vtubers[0].clone();
    insert_reported_stream(&mut store, &v, &creator);
    let entry = check_reported_stream(&store, &v).expect("recorded");
    assert_eq!(entry.video_id, "v1");
    assert_eq!(entry.vtuber_id, creator.id);
    assert_eq!(entry.scheduled_start, 1_000_000);
}

#[test]
fn startup_data_seeds_every_member_once() {
    let mut store = Store::new();
    let waves = vec![
        VtuberWave {
            name: "LazuLight".to_string(),
            members: vec![
                vtuber("Ava", "Lune", "", "UC1"),
                vtuber("Mira", "Vox", "", "UC2"),
            ],
        },
        VtuberWave {
            name: "Noctyx".to_string(),
            members: vec![vtuber("Kei", "Nox", "", "UC3")],
        },
    ];
    init_startup_data(&mut store, &waves);
    assert_eq!(store.vtubers.len(), 3);
    assert_eq!(store.vtubers[0].wave_name, "LazuLight");
    assert_eq!(store.vtubers[2].wave_name, "Noctyx");
    // Seeding again inserts nothing new.
    init_startup_data(&mut store, &waves);
    assert_eq!(store.vtubers.len(), 3);
}
