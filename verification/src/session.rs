//! Track-completion handling: when the playback engine signals that a track
//! ended, the guild's queue advances; an emptied queue tears the session
//! down, a non-empty one carries on with the new head.

use vstd::prelude::*;

use crate::connections::VoiceConnectionStore;
use crate::queue::{QueueEntry, QueueStore};

verus! {

/// What the caller must do with the live session after a track ended.
pub enum TrackEndAction {
    /// The queue is now empty: leave the voice channel.
    Disconnect,
    /// Tracks remain: keep playing; the new head carries this title.
    PlayNext { title: Option<String> },
}

/// Advances the guild's queue and settles the connection record: an emptied
/// queue marks the record not-playing with no title and asks for a
/// disconnect; otherwise the record carries the new head's title and playback
/// continues. A guild without a record keeps playing state nowhere, but the
/// queue still advances.
pub fn on_track_end(
    queues: &mut QueueStore,
    connections: &mut VoiceConnectionStore,
    guild_id: &str,
    now: i64,
) -> (r: TrackEndAction)
    requires
        old(queues).wf(),
        old(connections).wf(),
    ensures
        final(queues).wf(),
        final(connections).wf(),
        old(queues).queue_of(guild_id@).len() == 0 ==> *final(queues) == *old(queues),
        old(queues).queue_of(guild_id@).len() > 0 ==> {
            &&& final(queues).queue_of(guild_id@).len() == old(queues).queue_of(
                guild_id@,
            ).len() - 1
            &&& forall|k: int|
                0 <= k < final(queues).queue_of(guild_id@).len()
                    ==> #[trigger] final(queues).queue_of(guild_id@)[k] == (QueueEntry {
                    position: k as usize,
                    ..old(queues).queue_of(guild_id@)[k + 1]
                })
        },
        forall|h: Seq<char>|
            h != guild_id@ ==> #[trigger] final(queues).queue_of(h) == old(queues).queue_of(h),
        r is Disconnect <==> final(queues).queue_of(guild_id@).len() == 0,
        r is Disconnect ==> (old(connections).record_of(guild_id@) matches Some(prev)
            ==> final(connections).record_of(guild_id@) matches Some(rec) && rec.is_playing
            == false && rec.current_track_title is None && rec.channel_id == prev.channel_id),
        r matches TrackEndAction::PlayNext { title } ==> {
            &&& title == final(queues).queue_of(guild_id@)[0].title
            &&& old(connections).record_of(guild_id@) matches Some(prev)
                ==> final(connections).record_of(guild_id@) matches Some(rec) && rec.is_playing
                == true && rec.channel_id == prev.channel_id && (title matches Some(t0)
                ==> (rec.current_track_title matches Some(t) && t@ == t0@)) && (title is None
                ==> rec.current_track_title is None)
        },
        old(connections).record_of(guild_id@) is None ==> *final(connections)
            == *old(connections),
        forall|h: Seq<char>|
            h != guild_id@ ==> #[trigger] final(connections).record_of(h)
                == old(connections).record_of(h),
{
    queues.advance_queue(guild_id);
    match queues.get_current_track(guild_id) {
        None => {
            connections.update_playing_status(guild_id, false, None, now);
            TrackEndAction::Disconnect
        },
        Some(next) => {
            let title_for_record = match &next.title {
                Some(t) => Some(t.clone()),
                None => None,
            };
            match &title_for_record {
                Some(t) => {
                    connections.update_playing_status(guild_id, true, Some(t.as_str()), now);
                },
                None => {
                    connections.update_playing_status(guild_id, true, None, now);
                },
            }
            TrackEndAction::PlayNext { title: title_for_record }
        },
    }
}

} // verus!
