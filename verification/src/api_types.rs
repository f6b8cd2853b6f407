//! The data shapes of the caller-facing API boundary, and the assembly of a
//! queue snapshot out of store rows.

use vstd::prelude::*;

use crate::auth::UserGuild;
use crate::connections::VoiceConnectionStore;
use crate::queue::QueueEntry;

verus! {

/// A liveness/readiness probe body.
pub struct ProbeResp<'a> {
    pub status: &'a str,
}

/// The uniform envelope of every API response.
pub struct ApiResponse<T> {
    pub success: bool,
    pub data: Option<T>,
    pub error: Option<String>,
}

impl<T> ApiResponse<T> {
    /// A successful envelope carrying `data` and no error.
    pub fn success(data: T) -> (r: Self)
        ensures
            r.success == true,
            r.data == Some(data),
            r.error is None,
    {
        Self { success: true, data: Some(data), error: None }
    }

    /// A failed envelope carrying only the reason.
    pub fn error(message: &str) -> (r: Self)
        ensures
            r.success == false,
            r.data is None,
            r.error matches Some(m) && m@ == message@,
    {
        Self { success: false, data: None, error: Some(message.to_owned()) }
    }
}

/// One track as shown to API callers.
pub struct TrackInfo {
    pub title: String,
    pub url: String,
    pub duration: Option<u64>,
    pub position: usize,
}

/// A guild's queue as shown to API callers.
pub struct QueueInfo {
    pub guild_id: String,
    pub current_track: Option<TrackInfo>,
    pub queue: Vec<TrackInfo>,
    pub position: usize,
    pub is_playing: bool,
}

/// One guild as shown to API callers.
pub struct GuildInfo {
    pub id: String,
    pub name: String,
    pub connected: bool,
    pub voice_channel: Option<String>,
    pub queue_length: usize,
}

/// A request to queue a URL, optionally naming the voice channel.
pub struct PlayRequest {
    pub url: String,
    pub channel_id: Option<String>,
}

/// A token-validation request body.
pub struct AuthRequest {
    pub access_token: String,
}

/// A request to join a voice channel.
pub struct JoinRequest {
    pub channel_id: String,
}

/// The query parameters of the OAuth redirect callback.
pub struct OAuthCallback {
    pub code: Option<String>,
    pub error: Option<String>,
    pub state: Option<String>,
}

/// Counters shown by the maintenance endpoint.
pub struct MaintenanceStats {
    pub connected_guilds: usize,
    pub cleanup_summary: CleanupSummary,
}

/// What a cleanup pass removed.
pub struct CleanupSummary {
    pub old_queue_entries_removed: usize,
    pub old_cache_entries_removed: usize,
}

/// The query parameters of a cleanup request.
pub struct CleanupQuery {
    pub days_to_keep: Option<i32>,
}

/// The query parameters of a user-history request.
pub struct UserHistoryQuery {
    pub user_id: String,
    pub limit: Option<i64>,
}

/// Whether `g` presents the user guild `u` given the connection store:
/// identity copied, the connected flag read from the store, and the
/// placeholder channel label set exactly when connected.
pub open spec fn guild_presents(g: GuildInfo, u: UserGuild, connected: bool) -> bool {
    &&& g.id == u.id
    &&& g.name == u.name
    &&& g.connected == connected
    &&& (connected ==> (g.voice_channel matches Some(v) && v@ == "Connected"@))
    &&& (!connected ==> g.voice_channel is None)
    &&& g.queue_length == 0
}

/// Builds the guild list an authenticated caller sees: each of the user's
/// guilds, marked with whether the bot holds a connection record for it.
pub fn guild_infos(user_guilds: &Vec<UserGuild>, connections: &VoiceConnectionStore) -> (r: Vec<
    GuildInfo,
>)
    ensures
        r@.len() == user_guilds@.len(),
        forall|k: int|
            0 <= k < r@.len() ==> guild_presents(
                #[trigger] r@[k],
                user_guilds@[k],
                connections.record_of(user_guilds@[k].id@) is Some,
            ),
{
    let n = user_guilds.len();
    let mut out: Vec<GuildInfo> = Vec::new();
    let mut k: usize = 0;
    while k < n
        invariant
            0 <= k <= n,
            n == user_guilds@.len(),
            out@.len() == k,
            forall|m: int|
                0 <= m < k ==> guild_presents(
                    #[trigger] out@[m],
                    user_guilds@[m],
                    connections.record_of(user_guilds@[m].id@) is Some,
                ),
        decreases n - k,
    {
        let g = &user_guilds[k];
        let connected = connections.is_connected(g.id.as_str());
        out.push(GuildInfo {
            id: g.id.clone(),
            name: g.name.clone(),
            connected,
            voice_channel: if connected {
                Some("Connected".to_owned())
            } else {
                None
            },
            queue_length: 0,
        });
        k = k + 1;
    }
    out
}

/// Whether `t` presents queue row `e` at display position `pos`: same url,
/// the row's title or the placeholder, the duration widened, and `pos`.
pub open spec fn track_presents(t: TrackInfo, e: QueueEntry, pos: int) -> bool {
    &&& t.url == e.url
    &&& t.position == pos
    &&& t.duration == match e.duration_seconds {
        Some(d) => Some(d as u64),
        None => None::<u64>,
    }
    &&& match e.title {
        Some(x) => t.title == x,
        None => t.title@ == "Unknown"@,
    }
}

fn track_info_for(e: &QueueEntry, pos: usize) -> (r: TrackInfo)
    ensures
        track_presents(r, *e, pos as int),
{
    TrackInfo {
        title: match &e.title {
            Some(t) => t.clone(),
            None => "Unknown".to_owned(),
        },
        url: e.url.clone(),
        duration: match e.duration_seconds {
            Some(d) => Some(d as u64),
            None => None,
        },
        position: pos,
    }
}

/// Assembles the API view of a guild's queue: the head as the current
/// track, the rest renumbered from display position 1.
pub fn queue_snapshot(guild_id: &str, entries: &Vec<QueueEntry>, is_playing: bool) -> (r: QueueInfo)
    ensures
        r.guild_id@ == guild_id@,
        r.position == 0,
        r.is_playing == is_playing,
        entries@.len() == 0 ==> r.current_track is None,
        entries@.len() > 0 ==> (r.current_track matches Some(t) && track_presents(
            t,
            entries@[0],
            entries@[0].position as int,
        )),
        r.queue@.len() == if entries@.len() == 0 {
            0int
        } else {
            entries@.len() - 1
        },
        forall|k: int|
            0 <= k < r.queue@.len() ==> track_presents(#[trigger] r.queue@[k], entries@[k + 1], k
                + 1),
{
    let n = entries.len();
    let current = if n > 0 {
        Some(track_info_for(&entries[0], entries[0].position))
    } else {
        None
    };
    let mut rest: Vec<TrackInfo> = Vec::new();
    let mut k: usize = 1;
    while k < n
        invariant
            1 <= k <= n || (n == 0 && k == 1),
            n == entries@.len(),
            rest@.len() == if k <= n {
                k - 1
            } else {
                0int
            },
            forall|m: int|
                0 <= m < rest@.len() ==> track_presents(#[trigger] rest@[m], entries@[m + 1], m
                    + 1),
        decreases n - k,
    {
        let t = track_info_for(&entries[k], k);
        rest.push(t);
        k = k + 1;
    }
    QueueInfo {
        guild_id: guild_id.to_owned(),
        current_track: current,
        queue: rest,
        position: 0,
        is_playing,
    }
}

} // verus!
