use lyre::cache::SongCacheStore;
use lyre::connections::VoiceConnectionStore;
use lyre::queue::QueueStore;
use lyre::session::{on_track_end, TrackEndAction};

#[test]
fn connection_records_are_keyed_by_guild() {
    let mut store = VoiceConnectionStore { records: Vec::new() };
    assert!(!store.is_connected("1"));
    store.create("1", Some("10"), 100);
    store.create("2", None, 100);
    assert!(store.is_connected("1"));
    let rec = store.find_by_guild_id("1").unwrap();
    assert_eq!(rec.channel_id.as_deref(), Some("10"));
    assert_eq!(rec.connected_at, 100);
    assert_eq!(rec.last_activity, 100);
    assert!(!rec.is_playing);

    store.update_last_activity("1", 250);
    assert_eq!(store.find_by_guild_id("1").unwrap().last_activity, 250);
    assert_eq!(store.find_by_guild_id("1").unwrap().connected_at, 100);

    store.update_playing_status("1", true, Some("A Song"), 300);
    let rec = store.find_by_guild_id("1").unwrap();
    assert!(rec.is_playing);
    assert_eq!(rec.current_track_title.as_deref(), Some("A Song"));

    assert_eq!(store.delete("1"), 1);
    assert!(store.find_by_guild_id("1").is_none());
    assert!(store.find_by_guild_id("2").is_some());
}

#[test]
fn create_or_update_keeps_connected_at() {
    let mut store = VoiceConnectionStore { records: Vec::new() };
    store.create_or_update("7", Some("70"), 100);
    store.create_or_update("7", Some("71"), 900);
    let rec = store.find_by_guild_id("7").unwrap();
    assert_eq!(rec.connected_at, 100);
    assert_eq!(rec.last_activity, 900);
    assert_eq!(rec.channel_id.as_deref(), Some("71"));
    assert_eq!(store.records.len(), 1);
}

#[test]
fn pending_joins_are_the_records_with_a_channel() {
    let mut store = VoiceConnectionStore { records: Vec::new() };
    store.create("1", Some("10"), 0);
    store.create("2", None, 0);
    store.create("3", Some("30"), 0);
    let pending = store.get_pending_joins();
    let ids: Vec<&str> = pending.iter().map(|r| r.guild_id.as_str()).collect();
    assert_eq!(ids, vec!["1", "3"]);

    assert_eq!(store.clear_all_connections(), 3);
    assert!(store.get_pending_joins().is_empty());
}

#[test]
fn song_cache_upserts_by_url() {
    let mut cache = SongCacheStore { entries: Vec::new() };
    assert!(cache.find_by_url("u1").is_none());
    cache.create_or_update("u1", "Title One", Some(100), None, Some("/x/a.mp3"), Some(2048), 10);
    cache.create_or_update("u2", "Title Two", None, None, None, Some(1000), 11);
    let e = cache.find_by_url("u1").unwrap();
    assert_eq!(e.title, "Title One");
    assert_eq!(e.file_size, Some(2048));
    assert_eq!(e.created_at, 10);

    // The upsert replaces the fields but keeps the creation time.
    cache.create_or_update("u1", "Renamed", Some(120), None, None, Some(4096), 50);
    let e = cache.find_by_url("u1").unwrap();
    assert_eq!(e.title, "Renamed");
    assert_eq!(e.created_at, 10);
    assert_eq!(e.last_accessed, 50);
    assert_eq!(cache.entries.len(), 2);
}

#[test]
fn song_cache_touch_and_cleanup() {
    let mut cache = SongCacheStore { entries: Vec::new() };
    cache.create_or_update("old", "Old", None, None, None, None, 10);
    cache.create_or_update("fresh", "Fresh", None, None, None, None, 10);
    assert_eq!(cache.update_last_accessed("fresh", 500), 1);
    assert_eq!(cache.update_last_accessed("missing", 500), 0);

    let removed = cache.cleanup_older_than(100);
    assert_eq!(removed, 1);
    assert!(cache.find_by_url("old").is_none());
    assert!(cache.find_by_url("fresh").is_some());
}

#[test]
fn song_cache_size_sums_file_sizes() {
    let mut cache = SongCacheStore { entries: Vec::new() };
    assert_eq!(cache.get_cache_size(), 0);
    cache.create_or_update("a", "A", None, None, None, Some(1000), 1);
    cache.create_or_update("b", "B", None, None, None, None, 1);
    cache.create_or_update("c", "C", None, None, None, Some(234), 1);
    assert_eq!(cache.get_cache_size(), 1234);
}

#[test]
fn track_end_disconnects_when_queue_empties() {
    let mut queues = QueueStore { guilds: Vec::new() };
    let mut conns = VoiceConnectionStore { records: Vec::new() };
    queues.add_to_queue("g", "last-track", Some("Last"), None, "u", 0);
    conns.create("g", Some("10"), 0);
    conns.update_playing_status("g", true, Some("Last"), 0);

    let action = on_track_end(&mut queues, &mut conns, "g", 99);
    assert!(matches!(action, TrackEndAction::Disconnect));
    assert_eq!(queues.get_queue("g").len(), 0);
    let rec = conns.find_by_guild_id("g").unwrap();
    assert!(!rec.is_playing);
    assert!(rec.current_track_title.is_none());
}

#[test]
fn track_end_continues_with_next_title() {
    let mut queues = QueueStore { guilds: Vec::new() };
    let mut conns = VoiceConnectionStore { records: Vec::new() };
    queues.add_to_queue("g", "one", Some("One"), None, "u", 0);
    queues.add_to_queue("g", "two", Some("Two"), None, "u", 0);
    conns.create("g", Some("10"), 0);

    let action = on_track_end(&mut queues, &mut conns, "g", 99);
    match action {
        TrackEndAction::PlayNext { title } => assert_eq!(title.as_deref(), Some("Two")),
        TrackEndAction::Disconnect => panic!("queue still has a track"),
    }
    let rec = conns.find_by_guild_id("g").unwrap();
    assert!(rec.is_playing);
    assert_eq!(rec.current_track_title.as_deref(), Some("Two"));
}

#[test]
fn clocked_upsert_uses_one_timestamp_for_fresh_records() {
    let mut store = VoiceConnectionStore { records: Vec::new() };
    let rec = store.create_or_update_now("55", Some("66"));
    assert_eq!(rec.guild_id, "55");
    assert_eq!(rec.channel_id.as_deref(), Some("66"));
    assert_eq!(rec.connected_at, rec.last_activity);
    assert!(!rec.is_playing);
}
