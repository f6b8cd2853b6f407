use lyre::api_types::{guild_infos, queue_snapshot, ApiResponse};
use lyre::connections::VoiceConnectionStore;
use lyre::auth::{
    bearer_token, first_set_token, has_permission, is_demo_token, should_skip_auth,
    user_can_control_guild, UserGuild, PERM_ADMINISTRATOR, PERM_MANAGE_GUILD,
    PERM_USE_VOICE_ACTIVITY,
};
use lyre::bridge::{command_key, guild_key_id, response_key, BotCommand, BotResponse};
use lyre::metrics::{tally_download_sizes, Metrics};
use lyre::queue::QueueStore;
use lyre::text::{parse_u64, str_eq, trim_spaces, u64_to_dec};

fn guild(id: &str, owner: bool, permissions: &str) -> UserGuild {
    UserGuild {
        id: id.to_string(),
        name: "Server".to_string(),
        icon: None,
        owner,
        permissions: permissions.to_string(),
    }
}

#[test]
fn permission_bits_are_read_from_the_decimal_string() {
    assert!(has_permission("8", PERM_ADMINISTRATOR));
    assert!(has_permission("32", PERM_MANAGE_GUILD));
    assert!(has_permission("1048576", PERM_USE_VOICE_ACTIVITY));
    assert!(!has_permission("4", PERM_ADMINISTRATOR));
    assert!(!has_permission("not a number", PERM_ADMINISTRATOR));
    assert!(!has_permission("", PERM_ADMINISTRATOR));
}

#[test]
fn guild_control_needs_membership_and_rights() {
    let guilds = vec![guild("1", false, "0"), guild("2", false, "8"), guild("3", true, "0")];
    assert!(!user_can_control_guild(&guilds, "1"));
    assert!(user_can_control_guild(&guilds, "2"));
    assert!(user_can_control_guild(&guilds, "3"));
    assert!(!user_can_control_guild(&guilds, "4"));
    // Use Voice Activity alone suffices.
    let voice = vec![guild("9", false, "1048576")];
    assert!(user_can_control_guild(&voice, "9"));
}

#[test]
fn auth_free_paths() {
    assert!(should_skip_auth("/static/dashboard.html"));
    assert!(should_skip_auth("/auth/callback"));
    assert!(should_skip_auth("/api/health"));
    assert!(should_skip_auth("/api/livez"));
    assert!(should_skip_auth("/api/readyz"));
    assert!(should_skip_auth("/api/dev/test-token"));
    assert!(should_skip_auth("/api/auth/validate"));
    assert!(should_skip_auth("/"));
    assert!(should_skip_auth("/favicon.ico"));
    assert!(!should_skip_auth("/api/queue/1"));
}

#[test]
fn bearer_tokens_are_stripped_from_the_header() {
    assert_eq!(bearer_token("Bearer abc123"), Some("abc123".to_string()));
    assert_eq!(bearer_token("Basic abc123"), None);
    assert_eq!(bearer_token(""), None);
    assert!(is_demo_token("demo_user"));
    assert!(!is_demo_token("real_token"));
}

#[test]
fn token_search_takes_the_first_set_non_empty_candidate() {
    let found = first_set_token(vec![
        None,
        Some("".to_string()),
        Some("tok-b".to_string()),
        Some("tok-c".to_string()),
    ]);
    assert_eq!(found, Some("tok-b".to_string()));
    assert_eq!(first_set_token(vec![None, Some("".to_string())]), None);
}

#[test]
fn api_envelopes() {
    let ok: ApiResponse<u32> = ApiResponse::success(7);
    assert!(ok.success);
    assert_eq!(ok.data, Some(7));
    assert!(ok.error.is_none());
    let err: ApiResponse<u32> = ApiResponse::error("No permission for this guild");
    assert!(!err.success);
    assert!(err.data.is_none());
    assert_eq!(err.error.as_deref(), Some("No permission for this guild"));
}

#[test]
fn queue_snapshot_renumbers_the_tail() {
    let mut store = QueueStore { guilds: Vec::new() };
    store.add_to_queue("g", "u0", Some("Now"), Some(100), "a", 0);
    store.add_to_queue("g", "u1", None, None, "b", 0);
    store.add_to_queue("g", "u2", Some("Later"), None, "c", 0);
    let entries = store.get_queue("g");
    let info = queue_snapshot("g", &entries, true);
    assert_eq!(info.guild_id, "g");
    assert!(info.is_playing);
    assert_eq!(info.position, 0);
    let cur = info.current_track.unwrap();
    assert_eq!(cur.title, "Now");
    assert_eq!(cur.url, "u0");
    assert_eq!(cur.duration, Some(100));
    assert_eq!(cur.position, 0);
    assert_eq!(info.queue.len(), 2);
    assert_eq!(info.queue[0].title, "Unknown");
    assert_eq!(info.queue[0].position, 1);
    assert_eq!(info.queue[1].title, "Later");
    assert_eq!(info.queue[1].position, 2);

    let empty = queue_snapshot("h", &Vec::new(), false);
    assert!(empty.current_track.is_none());
    assert!(empty.queue.is_empty());
}

#[test]
fn guild_list_reports_connection_state() {
    let guilds = vec![guild("1", true, "0"), guild("2", false, "8")];
    let mut store = VoiceConnectionStore { records: Vec::new() };
    store.create("2", Some("20"), 5);
    let infos = guild_infos(&guilds, &store);
    assert_eq!(infos.len(), 2);
    assert_eq!(infos[0].id, "1");
    assert!(!infos[0].connected);
    assert!(infos[0].voice_channel.is_none());
    assert_eq!(infos[1].id, "2");
    assert!(infos[1].connected);
    assert_eq!(infos[1].voice_channel.as_deref(), Some("Connected"));
    assert_eq!(infos[1].queue_length, 0);
}

#[test]
fn metrics_gauges_saturate_downwards() {
    let mut m = Metrics::new();
    assert!(!m.is_ready());
    m.set_ready(true);
    assert!(m.is_ready());

    m.inc_connections();
    m.inc_connections();
    m.dec_connections();
    m.dec_connections();
    m.dec_connections();
    let snap = m.snapshot(77);
    assert_eq!(snap.uptime_secs, 77);
    assert_eq!(snap.active_voice_calls, 0);
    assert_eq!(snap.connected_guilds, 0);

    m.inc_queue(3);
    m.dec_queue(1);
    assert_eq!(m.snapshot(0).total_queue_len, 2);
    m.dec_queue(10);
    assert_eq!(m.snapshot(0).total_queue_len, 0);

    m.set_downloads(4, 4096);
    let snap = m.snapshot(0);
    assert_eq!(snap.downloads_files, 4);
    assert_eq!(snap.downloads_bytes, 4096);
}

#[test]
fn download_folder_tally_saturates() {
    let (files, bytes) = tally_download_sizes(&vec![100, 200, 300]);
    assert_eq!(files, 3);
    assert_eq!(bytes, 600);
    let (files, bytes) = tally_download_sizes(&vec![u64::MAX, 5]);
    assert_eq!(files, 2);
    assert_eq!(bytes, u64::MAX);
}

#[test]
fn bridge_keys_route_responses_to_their_commands() {
    let cmd = BotCommand::JoinVoiceChannel {
        guild_id: "123".to_string(),
        channel_id: "456".to_string(),
        requester: "u".to_string(),
    };
    assert_eq!(command_key(&cmd), "join_123");
    let resp = BotResponse::JoinError { guild_id: "123".to_string(), error: "x".to_string() };
    assert_eq!(response_key(&resp), "join_123");
    let leave = BotCommand::LeaveVoiceChannel { guild_id: "9".to_string() };
    assert_eq!(command_key(&leave), "leave_9");
    assert_eq!(
        response_key(&BotResponse::LeaveSuccess { guild_id: "9".to_string() }),
        "leave_9"
    );
    assert_eq!(guild_key_id(907), "907");
}

#[test]
fn text_helpers() {
    assert_eq!(u64_to_dec(0), "0");
    assert_eq!(u64_to_dec(90210), "90210");
    assert_eq!(u64_to_dec(u64::MAX), "18446744073709551615");
    assert_eq!(parse_u64("0"), Some(0));
    assert_eq!(parse_u64("18446744073709551615"), Some(u64::MAX));
    assert_eq!(parse_u64("18446744073709551616"), None);
    assert_eq!(parse_u64(""), None);
    assert_eq!(parse_u64("12a"), None);
    assert_eq!(parse_u64("007"), Some(7));
    assert_eq!(trim_spaces("  a title \n"), "a title");
    assert_eq!(trim_spaces(" \t\r\n"), "");
    assert!(str_eq("abc", "abc"));
    assert!(!str_eq("abc", "abd"));
}
