//! The voice-session reconciler's decisions: which persisted join desires to
//! act on, and the bounded retry with exponential backoff used when joining.
//!
//! The reconciler ticks on a fixed interval. Each tick it fetches the
//! records with a channel id set and decides per record: skip it (bad ids,
//! desire already satisfied, or record stale) or join. Joining is attempted
//! at most five times with sleeps of `min(5000 ms, 1000 ms * 2^(attempt-1))`
//! between failures; when every attempt fails, the caller must delete the
//! record so later ticks do not retry forever.

use vstd::arithmetic::power2::{lemma2_to64, lemma_pow2_strictly_increases, pow2};
use vstd::prelude::*;

use crate::connections::{VoiceConnectionRecord, VoiceConnectionStore};
use crate::errors::JoinError;
use crate::text::{parse_u64, spec_parse_u64};

verus! {

/// How many times a join is attempted before giving up.
pub const MAX_JOIN_ATTEMPTS: u32 = 5;

/// A record whose age exceeds this many seconds is an obsolete artifact, not
/// a live join request.
pub const STALENESS_SECONDS: i64 = 300;

/// The sleep before retry `attempt + 1`, after failed attempt `attempt`:
/// exponential backoff from one second, capped at five.
pub open spec fn spec_backoff_delay_ms(attempt: int) -> int
    recommends
        attempt >= 1,
{
    let raw = 1000 * pow2((attempt - 1) as nat) as int;
    if raw > 5000 {
        5000
    } else {
        raw
    }
}

/// The backoff delay in milliseconds after failed attempt `attempt`.
pub fn backoff_delay_ms(attempt: u32) -> (r: u64)
    requires
        1 <= attempt,
    ensures
        r == spec_backoff_delay_ms(attempt as int),
{
    proof {
        lemma2_to64();
    }
    if attempt == 1 {
        1000
    } else if attempt == 2 {
        2000
    } else if attempt == 3 {
        4000
    } else {
        proof {
            if attempt > 4 {
                lemma_pow2_strictly_increases(3, (attempt - 1) as nat);
            }
        }
        5000
    }
}

/// Whether a join against this outcome transcript succeeds within the
/// allowed attempts. `outcomes[i]` is the result of attempt `i + 1`; a
/// missing entry counts as a failure.
pub open spec fn spec_join_succeeds(outcomes: Seq<bool>) -> bool {
    exists|i: int| 0 <= i < 5 && i < outcomes.len() && outcomes[i]
}

pub open spec fn attempts_from(outcomes: Seq<bool>, attempt: int) -> int
    decreases 5 - attempt,
{
    if attempt >= 5 {
        5
    } else if attempt - 1 < outcomes.len() && outcomes[attempt - 1] {
        attempt
    } else {
        attempts_from(outcomes, attempt + 1)
    }
}

/// How many attempts the retry loop makes against this transcript: up to and
/// including the first success, or all five.
pub open spec fn spec_attempts_used(outcomes: Seq<bool>) -> int {
    attempts_from(outcomes, 1)
}

/// What one run of the join retry loop did.
pub struct JoinRun {
    pub attempts: u32,
    pub delays: Vec<u64>,
    pub success: bool,
}

/// Replays the retry loop against a transcript of attempt outcomes: attempts
/// are made until one succeeds or five have failed, with a backoff sleep
/// recorded after every failure except the last.
pub fn run_join_attempts(outcomes: &Vec<bool>) -> (r: JoinRun)
    ensures
        r.success == spec_join_succeeds(outcomes@),
        r.attempts == spec_attempts_used(outcomes@),
        r.success ==> r.attempts - 1 < outcomes@.len() && outcomes@[r.attempts - 1],
        r.delays@.len() == if r.success {
            r.attempts - 1
        } else {
            4int
        },
        forall|i: int|
            0 <= i < r.delays@.len() ==> #[trigger] r.delays@[i] == spec_backoff_delay_ms(i + 1),
{
    let mut delays: Vec<u64> = Vec::new();
    let mut attempt: u32 = 1;
    loop
        invariant
            1 <= attempt <= 5,
            delays@.len() == attempt - 1,
            forall|i: int|
                0 <= i < delays@.len() ==> #[trigger] delays@[i] == spec_backoff_delay_ms(i + 1),
            forall|i: int| 0 <= i < attempt - 1 ==> !(i < outcomes@.len() && outcomes@[i]),
            spec_attempts_used(outcomes@) == attempts_from(outcomes@, attempt as int),
            spec_join_succeeds(outcomes@) == exists|i: int|
                attempt - 1 <= i < 5 && i < outcomes@.len() && outcomes@[i],
        ensures
            1 <= attempt <= 5,
            delays@.len() == attempt - 1,
            forall|i: int|
                0 <= i < delays@.len() ==> #[trigger] delays@[i] == spec_backoff_delay_ms(i + 1),
            spec_attempts_used(outcomes@) == attempts_from(outcomes@, attempt as int),
            spec_join_succeeds(outcomes@) == exists|i: int|
                attempt - 1 <= i < 5 && i < outcomes@.len() && outcomes@[i],
            (attempt - 1 < outcomes@.len() && outcomes@[attempt - 1]) || (attempt == 5 && !(attempt
                - 1 < outcomes@.len() && outcomes@[attempt - 1])),
        decreases 5 - attempt,
    {
        let pos = (attempt - 1) as usize;
        let succeeded = if pos < outcomes.len() {
            outcomes[pos]
        } else {
            false
        };
        if succeeded {
            break;
        }
        if attempt == 5 {
            break;
        }
        delays.push(backoff_delay_ms(attempt));
        attempt = attempt + 1;
    }
    let pos = (attempt - 1) as usize;
    let succeeded = if pos < outcomes.len() {
        outcomes[pos]
    } else {
        false
    };
    JoinRun { attempts: attempt, delays, success: succeeded }
}

/// The whole join-with-retry rule, replayed against a transcript of attempt
/// outcomes. A live session already bound anywhere in the guild satisfies
/// the request at once — no attempt is made and no session is ever moved.
/// Otherwise the bounded retry runs; when every attempt fails the result is
/// the terminal error, and the caller must delete the pending record (see
/// `handle_join_outcome`).
pub fn join_with_retry(live_session_exists: bool, outcomes: &Vec<bool>) -> (r: Result<
    JoinRun,
    JoinError,
>)
    ensures
        live_session_exists ==> (r matches Ok(run) && run.attempts == 0 && run.success
            && run.delays@.len() == 0),
        !live_session_exists && spec_join_succeeds(outcomes@) ==> (r matches Ok(run)
            && run.success && run.attempts == spec_attempts_used(outcomes@) && run.delays@.len()
            == run.attempts - 1 && (forall|i: int|
            0 <= i < run.delays@.len() ==> #[trigger] run.delays@[i] == spec_backoff_delay_ms(
                i + 1,
            ))),
        !live_session_exists && !spec_join_succeeds(outcomes@) ==> r == Err::<JoinRun, JoinError>(
            JoinError::RetriesExhausted,
        ),
{
    if live_session_exists {
        return Ok(JoinRun { attempts: 0, delays: Vec::new(), success: true });
    }
    let run = run_join_attempts(outcomes);
    if run.success {
        Ok(run)
    } else {
        Err(JoinError::RetriesExhausted)
    }
}

/// What the reconciler decides to do with one pending record.
#[derive(Clone, Copy, Debug, PartialEq, Eq, Structural)]
pub enum ReconcileDecision {
    /// The record carries no channel id: nothing is desired.
    SkipNoChannel,
    /// The guild id does not parse as a numeric id; the record is left for
    /// manual cleanup.
    SkipUnparsableGuild,
    /// The channel id does not parse as a numeric id.
    SkipUnparsableChannel,
    /// The live session is already bound to the desired channel.
    SkipSatisfied,
    /// The record is older than the staleness threshold: an obsolete
    /// artifact, not a join request.
    SkipStale,
    /// Join this channel in this guild.
    Join { guild: u64, channel: u64 },
}

/// The reconciler's rule for one record, given the channel the live session
/// is currently bound to in that guild (if any) and the current time.
pub open spec fn spec_reconcile_decision(
    record: VoiceConnectionRecord,
    live_channel: Option<u64>,
    now: i64,
) -> ReconcileDecision {
    match record.channel_id {
        None => ReconcileDecision::SkipNoChannel,
        Some(ch) => match spec_parse_u64(record.guild_id@) {
            None => ReconcileDecision::SkipUnparsableGuild,
            Some(g) => match spec_parse_u64(ch@) {
                None => ReconcileDecision::SkipUnparsableChannel,
                Some(c) => if live_channel == Some(c) {
                    ReconcileDecision::SkipSatisfied
                } else if now - record.connected_at > STALENESS_SECONDS {
                    ReconcileDecision::SkipStale
                } else {
                    ReconcileDecision::Join { guild: g, channel: c }
                },
            },
        },
    }
}

/// Decides what to do with one pending record on this tick.
pub fn reconcile_record(record: &VoiceConnectionRecord, live_channel: Option<u64>, now: i64) -> (r:
    ReconcileDecision)
    ensures
        r == spec_reconcile_decision(*record, live_channel, now),
        now - record.connected_at > STALENESS_SECONDS ==> !(r is Join),
{
    let ch = match &record.channel_id {
        None => {
            return ReconcileDecision::SkipNoChannel;
        },
        Some(ch) => ch,
    };
    let guild = match parse_u64(record.guild_id.as_str()) {
        None => {
            return ReconcileDecision::SkipUnparsableGuild;
        },
        Some(g) => g,
    };
    let channel = match parse_u64(ch.as_str()) {
        None => {
            return ReconcileDecision::SkipUnparsableChannel;
        },
        Some(c) => c,
    };
    let satisfied = match live_channel {
        Some(c) => c == channel,
        None => false,
    };
    if satisfied {
        return ReconcileDecision::SkipSatisfied;
    }
    let age: i128 = now as i128 - record.connected_at as i128;
    if age > STALENESS_SECONDS as i128 {
        return ReconcileDecision::SkipStale;
    }
    ReconcileDecision::Join { guild, channel }
}

/// A record past the staleness threshold is never turned into a join,
/// whatever channel it names and whatever the live session looks like.
pub proof fn lemma_stale_records_never_join(
    record: VoiceConnectionRecord,
    live_channel: Option<u64>,
    now: i64,
)
    requires
        now - record.connected_at > STALENESS_SECONDS,
    ensures
        !(spec_reconcile_decision(record, live_channel, now) is Join),
{
}

/// Against a transcript with no successful attempt, the retry loop makes
/// exactly five attempts, sleeps 1000, 2000, 4000 and 5000 ms between them,
/// and does not succeed.
pub proof fn lemma_join_retry_exhausts(outcomes: Seq<bool>)
    requires
        forall|i: int| 0 <= i < outcomes.len() ==> !(#[trigger] outcomes[i]),
    ensures
        !spec_join_succeeds(outcomes),
        spec_attempts_used(outcomes) == 5,
        Seq::new(4, |i: int| spec_backoff_delay_ms(i + 1)) =~= seq![
            1000int,
            2000int,
            4000int,
            5000int,
        ],
{
    lemma2_to64();
    assert(attempts_from(outcomes, 5) == 5);
    assert(attempts_from(outcomes, 4) == 5);
    assert(attempts_from(outcomes, 3) == 5);
    assert(attempts_from(outcomes, 2) == 5);
    assert(attempts_from(outcomes, 1) == 5);
    assert(spec_backoff_delay_ms(1) == 1000);
    assert(spec_backoff_delay_ms(2) == 2000);
    assert(spec_backoff_delay_ms(3) == 4000);
    assert(spec_backoff_delay_ms(4) == 5000);
}

/// Settles a finished join flow in the record store: a successful join
/// upserts the record with the channel it is now bound to; an exhausted one
/// deletes the pending record so the retry storm cannot continue, and
/// surfaces the terminal error.
pub fn handle_join_outcome(
    store: &mut VoiceConnectionStore,
    guild_id: &str,
    channel_id: &str,
    success: bool,
    now: i64,
) -> (r: Option<JoinError>)
    requires
        old(store).wf(),
    ensures
        final(store).wf(),
        success ==> {
            &&& r is None
            &&& final(store).record_of(guild_id@) matches Some(rec)
            &&& rec.guild_id@ == guild_id@
            &&& rec.channel_id matches Some(c) && c@ == channel_id@
            &&& rec.last_activity == now
        },
        !success ==> r == Some(JoinError::RetriesExhausted) && final(store).record_of(guild_id@)
            is None,
        forall|h: Seq<char>|
            h != guild_id@ ==> #[trigger] final(store).record_of(h) == old(store).record_of(h),
{
    if success {
        store.create_or_update(guild_id, Some(channel_id), now);
        None
    } else {
        store.delete(guild_id);
        Some(JoinError::RetriesExhausted)
    }
}

} // verus!
