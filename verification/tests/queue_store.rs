use lyre::queue::QueueStore;

#[test]
fn round_trip_single_entry() {
    let mut store = QueueStore { guilds: Vec::new() };
    let added = store.add_to_queue("G", "https://example.com/v", Some("Title"), Some(180), "user1", 42);
    assert_eq!(added.position, 0);
    let q = store.get_queue("G");
    assert_eq!(q.len(), 1);
    assert_eq!(q[0].guild_id, "G");
    assert_eq!(q[0].position, 0);
    assert_eq!(q[0].url, "https://example.com/v");
    assert_eq!(q[0].title.as_deref(), Some("Title"));
    assert_eq!(q[0].duration_seconds, Some(180));
    assert_eq!(q[0].added_by, "user1");
    assert_eq!(q[0].added_at, 42);
}

#[test]
fn positions_stay_contiguous_over_adds_and_advances() {
    let mut store = QueueStore { guilds: Vec::new() };
    for i in 0..5 {
        let e = store.add_to_queue("g1", "u", None, None, "who", i);
        assert_eq!(e.position, i as usize);
    }
    store.advance_queue("g1");
    store.advance_queue("g1");
    let e = store.add_to_queue("g1", "u2", None, None, "who", 9);
    assert_eq!(e.position, 3);
    let q = store.get_queue("g1");
    let positions: Vec<usize> = q.iter().map(|e| e.position).collect();
    assert_eq!(positions, vec![0, 1, 2, 3]);
}

#[test]
fn advance_on_empty_guild_is_a_no_op() {
    let mut store = QueueStore { guilds: Vec::new() };
    store.advance_queue("nobody");
    assert_eq!(store.get_queue("nobody").len(), 0);
    // A guild whose queue was drained stays a no-op too.
    store.add_to_queue("g", "u", None, None, "a", 0);
    store.advance_queue("g");
    assert_eq!(store.get_queue("g").len(), 0);
    store.advance_queue("g");
    store.advance_queue("g");
    assert_eq!(store.get_queue("g").len(), 0);
}

#[test]
fn advance_shifts_remaining_tracks_down() {
    let mut store = QueueStore { guilds: Vec::new() };
    store.add_to_queue("g", "first", Some("a"), None, "u", 1);
    store.add_to_queue("g", "second", Some("b"), None, "u", 2);
    store.add_to_queue("g", "third", Some("c"), None, "u", 3);
    store.advance_queue("g");
    let q = store.get_queue("g");
    assert_eq!(q.len(), 2);
    assert_eq!(q[0].url, "second");
    assert_eq!(q[0].position, 0);
    assert_eq!(q[1].url, "third");
    assert_eq!(q[1].position, 1);
}

#[test]
fn guilds_do_not_interfere() {
    let mut store = QueueStore { guilds: Vec::new() };
    store.add_to_queue("g1", "a", None, None, "u", 0);
    store.add_to_queue("g2", "b", None, None, "u", 0);
    store.add_to_queue("g2", "c", None, None, "u", 0);
    store.advance_queue("g1");
    assert_eq!(store.get_queue("g1").len(), 0);
    assert_eq!(store.get_queue("g2").len(), 2);
}

#[test]
fn current_track_is_position_zero() {
    let mut store = QueueStore { guilds: Vec::new() };
    assert!(store.get_current_track("g").is_none());
    store.add_to_queue("g", "a", Some("now"), None, "u", 0);
    store.add_to_queue("g", "b", Some("next"), None, "u", 0);
    let cur = store.get_current_track("g").unwrap();
    assert_eq!(cur.url, "a");
    assert_eq!(cur.position, 0);
}

#[test]
fn clear_guild_queue_reports_count() {
    let mut store = QueueStore { guilds: Vec::new() };
    store.add_to_queue("g", "a", None, None, "u", 0);
    store.add_to_queue("g", "b", None, None, "u", 0);
    assert_eq!(store.clear_guild_queue("g"), 2);
    assert_eq!(store.get_queue("g").len(), 0);
    assert_eq!(store.clear_guild_queue("g"), 0);
}
