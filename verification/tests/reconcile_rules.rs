use lyre::connections::{VoiceConnectionRecord, VoiceConnectionStore};
use lyre::errors::JoinError;
use lyre::reconcile::{
    backoff_delay_ms, handle_join_outcome, join_with_retry, reconcile_record, run_join_attempts,
    ReconcileDecision,
};

fn record(guild: &str, channel: Option<&str>, connected_at: i64) -> VoiceConnectionRecord {
    VoiceConnectionRecord {
        guild_id: guild.to_string(),
        channel_id: channel.map(|c| c.to_string()),
        connected_at,
        last_activity: connected_at,
        is_playing: false,
        current_track_title: None,
    }
}

#[test]
fn join_against_always_failing_channel_makes_exactly_five_attempts() {
    let outcomes = vec![false, false, false, false, false];
    let run = run_join_attempts(&outcomes);
    assert!(!run.success);
    assert_eq!(run.attempts, 5);
    assert_eq!(run.delays, vec![1000u64, 2000, 4000, 5000]);
}

#[test]
fn join_stops_at_first_success() {
    let run = run_join_attempts(&vec![false, false, true, false, false]);
    assert!(run.success);
    assert_eq!(run.attempts, 3);
    assert_eq!(run.delays, vec![1000u64, 2000]);

    let run = run_join_attempts(&vec![true]);
    assert!(run.success);
    assert_eq!(run.attempts, 1);
    assert!(run.delays.is_empty());
}

#[test]
fn join_with_retry_returns_terminal_error_after_exhaustion() {
    let all_fail = vec![false, false, false, false, false];
    match join_with_retry(false, &all_fail) {
        Err(e) => assert_eq!(e, JoinError::RetriesExhausted),
        Ok(_) => panic!("no attempt succeeded"),
    }
    let run = join_with_retry(false, &vec![false, true]).unwrap();
    assert_eq!(run.attempts, 2);
    assert_eq!(run.delays, vec![1000u64]);
}

#[test]
fn join_with_retry_never_moves_an_existing_session() {
    // A live session in any channel satisfies the request with no attempt.
    let run = join_with_retry(true, &vec![false, false, false, false, false]).unwrap();
    assert!(run.success);
    assert_eq!(run.attempts, 0);
    assert!(run.delays.is_empty());
}

#[test]
fn backoff_doubles_and_caps_at_five_seconds() {
    assert_eq!(backoff_delay_ms(1), 1000);
    assert_eq!(backoff_delay_ms(2), 2000);
    assert_eq!(backoff_delay_ms(3), 4000);
    assert_eq!(backoff_delay_ms(4), 5000);
    assert_eq!(backoff_delay_ms(7), 5000);
}

#[test]
fn stale_record_is_skipped_even_with_channel_still_set() {
    let now: i64 = 10_000;
    let stale = record("123", Some("456"), now - 301);
    assert_eq!(reconcile_record(&stale, None, now), ReconcileDecision::SkipStale);
    // Also when a live session sits in a different channel.
    assert_eq!(reconcile_record(&stale, Some(999), now), ReconcileDecision::SkipStale);
}

#[test]
fn fresh_record_is_joined() {
    let now: i64 = 10_000;
    let fresh = record("123", Some("456"), now - 10);
    assert_eq!(
        reconcile_record(&fresh, None, now),
        ReconcileDecision::Join { guild: 123, channel: 456 }
    );
    // Exactly at the threshold the record still counts as live.
    let edge = record("123", Some("456"), now - 300);
    assert_eq!(
        reconcile_record(&edge, None, now),
        ReconcileDecision::Join { guild: 123, channel: 456 }
    );
}

#[test]
fn satisfied_desire_is_skipped() {
    let now: i64 = 10_000;
    let rec = record("123", Some("456"), now);
    assert_eq!(reconcile_record(&rec, Some(456), now), ReconcileDecision::SkipSatisfied);
}

#[test]
fn unparsable_ids_are_skipped() {
    let now: i64 = 10_000;
    let bad_guild = record("not-a-number", Some("456"), now);
    assert_eq!(reconcile_record(&bad_guild, None, now), ReconcileDecision::SkipUnparsableGuild);
    let bad_channel = record("123", Some("4x6"), now);
    assert_eq!(reconcile_record(&bad_channel, None, now), ReconcileDecision::SkipUnparsableChannel);
    let no_channel = record("123", None, now);
    assert_eq!(reconcile_record(&no_channel, None, now), ReconcileDecision::SkipNoChannel);
}

#[test]
fn exhausted_join_deletes_the_pending_record() {
    let mut store = VoiceConnectionStore { records: Vec::new() };
    store.create_or_update("123", Some("456"), 100);
    let err = handle_join_outcome(&mut store, "123", "456", false, 200);
    assert_eq!(err, Some(JoinError::RetriesExhausted));
    assert!(store.find_by_guild_id("123").is_none());
}

#[test]
fn successful_join_upserts_the_record() {
    let mut store = VoiceConnectionStore { records: Vec::new() };
    let err = handle_join_outcome(&mut store, "123", "456", true, 200);
    assert!(err.is_none());
    let rec = store.find_by_guild_id("123").unwrap();
    assert_eq!(rec.channel_id.as_deref(), Some("456"));
    assert_eq!(rec.last_activity, 200);
}
