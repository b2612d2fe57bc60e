use melatonin_bot::notify::{
    clean_reported_streams, minutes_until, pick_ending, poll_cycle, run_cycle, subscribers,
};
use melatonin_bot::queries::{
    insert_user, insert_vtuber, record_first_contact, update_user_vtuber,
};
use melatonin_bot::store::Store;
use melatonin_bot::user::User;
use melatonin_bot::video::{filter_upcoming_videos, associate_video_vtuber, Video};
use melatonin_bot::vtuber::Vtuber;

fn vtuber(first: &str, last: &str, wave: &str, channel: &str) -> Vtuber {
    Vtuber {
        id: 0,
        first_name: first.to_string(),
        last_name: last.to_string(),
        wave_name: wave.to_string(),
        emoji: "🌙".to_string(),
        youtube_channel_id: channel.to_string(),
        youtube_handle: format!("@{}", first),
    }
}

fn user(id: i64, chat: i64) -> User {
    User {
        first_name: format!("user{}", id),
        last_name: None,
        username: None,
        tg_user_id: id,
        tg_chat_id: chat,
    }
}

fn video(id: &str, channel: &str, start: i64) -> Video {
    Video {
        video_id: id.to_string(),
        title: format!("stream {}", id),
        channel_id: channel.to_string(),
        start_scheduled: Some(start),
        available_at: start,
    }
}

const NOW: i64 = 1_700_000_000;

#[test]
fn gate_keeps_only_timely_streams() {
    let candidates = vec![
        video("past", "UC1", NOW - 1),
        video("at_now", "UC1", NOW),
        video("timely", "UC1", NOW + 900),
        video("last_in", "UC1", NOW + 1319),
        video("too_far", "UC1", NOW + 1320),
        Video {
            start_scheduled: None,
            ..video("no_start", "UC1", NOW + 900)
        },
    ];
    let kept = filter_upcoming_videos(&candidates, NOW);
    let ids: Vec<&str> = kept.iter().map(|v| v.video_id.as_str()).collect();
    assert_eq!(ids, vec!["at_now", "timely", "last_in"]);
}

#[test]
fn association_pairs_candidates_with_the_roster() {
    let mut store = Store::new();
    insert_vtuber(&mut store, &vtuber("Ava", "Lune", "LazuLight", "UC123"));
    insert_vtuber(&mut store, &vtuber("Mira", "Vox", "Noctyx", "UC124"));
    let candidates = vec![
        video("v1", "UC123", NOW + 900),
        video("v2", "UC999", NOW + 900),
        video("v3", "UC124", NOW + 900),
    ];
    let pairs = associate_video_vtuber(&store.vtubers, &candidates);
    assert_eq!(pairs.len(), 2);
    assert_eq!(pairs[0].vtuber.first_name, "Ava");
    assert_eq!(pairs[0].video.video_id, "v1");
    assert_eq!(pairs[1].vtuber.first_name, "Mira");
    assert_eq!(pairs[1].video.video_id, "v3");
}

#[test]
fn subscribers_resolve_in_store_order() {
    let mut store = Store::new();
    insert_vtuber(&mut store, &vtuber("Ava", "Lune", "LazuLight", "UC123"));
    let id = store.vtubers[0].id;
    for (u, c) in [(10, 100), (11, 101), (12, 102)] {
        insert_user(&mut store, user(u, c)).unwrap();
    }
    update_user_vtuber(&mut store, 12, id).unwrap();
    update_user_vtuber(&mut store, 10, id).unwrap();
    let subs = subscribers(&store.users, &store.subscriptions, id);
    let chats: Vec<i64> = subs.iter().map(|u| u.tg_chat_id).collect();
    assert_eq!(chats, vec![100, 102]);
}

#[test]
fn cycle_notifies_each_subscriber_once_and_records_once() {
    // Creator with two subscribers; one candidate stream 15 minutes out.
    let mut store = Store::new();
    insert_vtuber(&mut store, &vtuber("Ava", "Lune", "LazuLight", "UC123"));
    let creator_id = store.vtubers[0].id;
    insert_user(&mut store, user(10, 100)).unwrap();
    insert_user(&mut store, user(11, 101)).unwrap();
    update_user_vtuber(&mut store, 10, creator_id).unwrap();
    update_user_vtuber(&mut store, 11, creator_id).unwrap();

    let candidates = vec![video("v1", "UC123", NOW + 900)];
    let notifs = run_cycle(&mut store, &candidates, NOW);

    assert_eq!(notifs.len(), 2);
    let chats: Vec<i64> = notifs.iter().map(|n| n.chat_id).collect();
    assert_eq!(chats, vec![100, 101]);
    assert_eq!(store.reported_streams.len(), 1);
    assert_eq!(store.reported_streams[0].video_id, "v1");
    assert_eq!(store.reported_streams[0].vtuber_id, creator_id);
    assert_eq!(store.reported_streams[0].scheduled_start, NOW + 900);

    // The same candidate fetched a minute later produces nothing new.
    let again = run_cycle(&mut store, &candidates, NOW + 60);
    assert_eq!(again.len(), 0);
    assert_eq!(store.reported_streams.len(), 1);
}

#[test]
fn cycle_never_records_streams_of_unsubscribed_creators() {
    let mut store = Store::new();
    insert_vtuber(&mut store, &vtuber("Ava", "Lune", "LazuLight", "UC123"));
    insert_user(&mut store, user(10, 100)).unwrap();
    let candidates = vec![video("v1", "UC123", NOW + 900)];
    // Several cycles observe the stream inside the window; none records it.
    for tick in 0i64..5 {
        let notifs = run_cycle(&mut store, &candidates, NOW + tick * 60);
        assert_eq!(notifs.len(), 0);
        assert_eq!(store.reported_streams.len(), 0);
    }
    // A subscription added between cycles makes the next cycle fire.
    let creator_id = store.vtubers[0].id;
    update_user_vtuber(&mut store, 10, creator_id).unwrap();
    let notifs = run_cycle(&mut store, &candidates, NOW + 300);
    assert_eq!(notifs.len(), 1);
    assert_eq!(store.reported_streams.len(), 1);
}

#[test]
fn cleanup_removes_exactly_the_passed_entries() {
    let mut store = Store::new();
    insert_vtuber(&mut store, &vtuber("Ava", "Lune", "LazuLight", "UC123"));
    insert_user(&mut store, user(10, 100)).unwrap();
    let creator_id = store.vtubers[0].id;
    update_user_vtuber(&mut store, 10, creator_id).unwrap();

    // Record three streams at different scheduled starts.
    for (id, start) in [("old", NOW - 100), ("at_now", NOW), ("future", NOW + 100)] {
        let c = vec![video(id, "UC123", start)];
        // Record early enough that no entry is pruned while recording.
        run_cycle(&mut store, &c, NOW - 200);
    }
    assert_eq!(store.reported_streams.len(), 3);

    clean_reported_streams(&mut store, NOW);
    let ids: Vec<&str> = store
        .reported_streams
        .iter()
        .map(|e| e.video_id.as_str())
        .collect();
    // Strictly-before-now is removed; at-now and future entries survive.
    assert_eq!(ids, vec!["at_now", "future"]);
}

#[test]
fn minutes_until_truncates_toward_zero() {
    assert_eq!(minutes_until(NOW + 900, NOW), 15);
    assert_eq!(minutes_until(NOW + 59, NOW), 0);
    assert_eq!(minutes_until(NOW + 61, NOW), 1);
    assert_eq!(minutes_until(NOW, NOW), 0);
    assert_eq!(minutes_until(NOW - 61, NOW), -1);
}

#[test]
fn pick_ending_declension() {
    assert_eq!(pick_ending(1), "у");
    assert_eq!(pick_ending(2), "ы");
    assert_eq!(pick_ending(3), "ы");
    assert_eq!(pick_ending(4), "ы");
    assert_eq!(pick_ending(5), "");
    assert_eq!(pick_ending(11), "");
    assert_eq!(pick_ending(14), "");
    assert_eq!(pick_ending(19), "");
    assert_eq!(pick_ending(21), "у");
    assert_eq!(pick_ending(22), "ы");
    assert_eq!(pick_ending(100), "");
    assert_eq!(pick_ending(101), "у");
    assert_eq!(pick_ending(111), "");
    assert_eq!(pick_ending(-3), "");
}

#[test]
fn poll_cycle_reads_the_clock_and_runs_the_cycle() {
    let mut store = Store::new();
    insert_vtuber(&mut store, &vtuber("Ava", "Lune", "LazuLight", "UC123"));
    // A candidate far in the past is never timely, whatever the clock says.
    let candidates = vec![video("v1", "UC123", 1000)];
    let (now, notifs) = poll_cycle(&mut store, &candidates);
    assert!(now > 1_600_000_000);
    assert_eq!(notifs.len(), 0);
    assert_eq!(store.reported_streams.len(), 0);
}

#[test]
fn first_contact_is_recorded_once() {
    let mut store = Store::new();
    record_first_contact(&mut store, user(10, 100));
    record_first_contact(&mut store, user(10, 100));
    assert_eq!(store.users.len(), 1);
}
