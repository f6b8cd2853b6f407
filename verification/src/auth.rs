//! Authentication data shapes and the permission rules that decide whether
//! a caller may control a guild, plus the path rules of the API middleware.

use vstd::prelude::*;

use crate::text::{is_prefix, spec_parse_u64, parse_u64, str_eq, str_starts_with, strip_prefix_str};

verus! {

/// The platform user behind a validated token.
pub struct DiscordUser {
    pub id: String,
    pub username: String,
    pub discriminator: String,
    pub avatar: Option<String>,
    pub global_name: Option<String>,
}

/// One guild of a user, with its permission bits rendered in decimal.
pub struct UserGuild {
    pub id: String,
    pub name: String,
    pub icon: Option<String>,
    pub owner: bool,
    pub permissions: String,
}

/// A validated user together with the guilds the token grants.
pub struct AuthenticatedUser {
    pub user: DiscordUser,
    pub guilds: Vec<UserGuild>,
}

pub const PERM_ADMINISTRATOR: u64 = 0x8;

pub const PERM_MANAGE_GUILD: u64 = 0x20;

pub const PERM_USE_VOICE_ACTIVITY: u64 = 0x100000;

/// Whether a decimal permission string carries the given bit. A string that
/// does not parse as a 64-bit number grants nothing.
pub open spec fn spec_has_permission(s: Seq<char>, permission_bit: u64) -> bool {
    match spec_parse_u64(s) {
        Some(p) => (p & permission_bit) != 0,
        None => false,
    }
}

/// Tests one permission bit of a decimal permission string.
pub fn has_permission(permissions_str: &str, permission_bit: u64) -> (r: bool)
    ensures
        r == spec_has_permission(permissions_str@, permission_bit),
{
    match parse_u64(permissions_str) {
        Some(p) => (p & permission_bit) != 0,
        None => false,
    }
}

/// Whether this guild row lets its user control the bot there: the row is
/// for the guild, and the user owns it or holds Administrator, Manage Guild
/// or Use Voice Activity.
pub open spec fn spec_guild_grants_control(g: UserGuild, guild_id: Seq<char>) -> bool {
    &&& g.id@ == guild_id
    &&& (g.owner || spec_has_permission(g.permissions@, PERM_ADMINISTRATOR)
        || spec_has_permission(g.permissions@, PERM_MANAGE_GUILD) || spec_has_permission(
        g.permissions@,
        PERM_USE_VOICE_ACTIVITY,
    ))
}

/// Whether the user may control the bot in `guild_id`, judged from the
/// guild list the token granted.
pub fn user_can_control_guild(user_guilds: &Vec<UserGuild>, guild_id: &str) -> (r: bool)
    ensures
        r == exists|k: int|
            0 <= k < user_guilds@.len() && spec_guild_grants_control(
                #[trigger] user_guilds@[k],
                guild_id@,
            ),
{
    let n = user_guilds.len();
    let mut k: usize = 0;
    while k < n
        invariant
            0 <= k <= n,
            n == user_guilds@.len(),
            forall|j: int|
                0 <= j < k ==> !spec_guild_grants_control(#[trigger] user_guilds@[j], guild_id@),
        decreases n - k,
    {
        let g = &user_guilds[k];
        if str_eq(g.id.as_str(), guild_id) {
            if g.owner || has_permission(g.permissions.as_str(), PERM_ADMINISTRATOR)
                || has_permission(g.permissions.as_str(), PERM_MANAGE_GUILD) || has_permission(
                g.permissions.as_str(),
                PERM_USE_VOICE_ACTIVITY,
            ) {
                proof {
                    assert(spec_guild_grants_control(user_guilds@[k as int], guild_id@));
                }
                return true;
            }
        }
        k = k + 1;
    }
    false
}

/// The request paths served without authentication: static assets, the
/// auth endpoints themselves, health probes, the test-token helper, the
/// root page and the favicon.
pub open spec fn spec_skip_auth(path: Seq<char>) -> bool {
    ||| is_prefix("/static"@, path)
    ||| is_prefix("/auth"@, path)
    ||| is_prefix("/api/health"@, path)
    ||| is_prefix("/api/livez"@, path)
    ||| is_prefix("/api/readyz"@, path)
    ||| is_prefix("/api/dev/test-token"@, path)
    ||| is_prefix("/api/auth/validate"@, path)
    ||| path == "/"@
    ||| path == "/favicon.ico"@
}

/// Whether this request path is served without authentication.
pub fn should_skip_auth(path: &str) -> (r: bool)
    ensures
        r == spec_skip_auth(path@),
{
    str_starts_with(path, "/static") || str_starts_with(path, "/auth") || str_starts_with(
        path,
        "/api/health",
    ) || str_starts_with(path, "/api/livez") || str_starts_with(path, "/api/readyz")
        || str_starts_with(path, "/api/dev/test-token") || str_starts_with(
        path,
        "/api/auth/validate",
    ) || str_eq(path, "/") || str_eq(path, "/favicon.ico")
}

/// The token of a `Bearer` authorization header, when the header has that
/// shape.
pub fn bearer_token(header_value: &str) -> (r: Option<String>)
    ensures
        r is Some <==> is_prefix("Bearer "@, header_value@),
        r matches Some(t) ==> t@ == header_value@.subrange(
            "Bearer "@.len() as int,
            header_value@.len() as int,
        ),
{
    strip_prefix_str(header_value, "Bearer ")
}

/// Whether a token is one of the demo tokens that are accepted without
/// calling the platform.
pub fn is_demo_token(token: &str) -> (r: bool)
    ensures
        r == is_prefix("demo_"@, token@),
{
    str_starts_with(token, "demo_")
}

/// A candidate token that can actually be used: present and non-empty.
pub open spec fn usable_token(o: Option<String>) -> bool {
    o matches Some(s) && s@.len() > 0
}

/// The first candidate that is set and non-empty: the search order over the
/// process environment's token variables.
pub fn first_set_token(candidates: Vec<Option<String>>) -> (r: Option<String>)
    ensures
        r is None ==> forall|k: int|
            0 <= k < candidates@.len() ==> !usable_token(#[trigger] candidates@[k]),
        r matches Some(t) ==> exists|k: int|
            0 <= k < candidates@.len() && #[trigger] candidates@[k] == Some(t) && t@.len() > 0 && (
            forall|j: int| 0 <= j < k ==> !usable_token(#[trigger] candidates@[j])),
{
    let n = candidates.len();
    let mut k: usize = 0;
    while k < n
        invariant
            0 <= k <= n,
            n == candidates@.len(),
            forall|j: int| 0 <= j < k ==> !usable_token(#[trigger] candidates@[j]),
        decreases n - k,
    {
        match &candidates[k] {
            Some(s) => {
                if s.as_str().unicode_len() > 0 {
                    let t = s.clone();
                    proof {
                        assert(candidates@[k as int] == Some(t));
                    }
                    return Some(t);
                }
            },
            None => {},
        }
        k = k + 1;
    }
    None
}

} // verus!
