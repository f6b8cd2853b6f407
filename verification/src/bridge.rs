//! The command bridge between the API surface and the bot task: commands,
//! responses, and the keys that route a response back to the request that
//! is waiting for it.

use vstd::prelude::*;

use crate::text::u64_to_dec;

verus! {

/// A command sent to the bot task.
pub enum BotCommand {
    JoinVoiceChannel { guild_id: String, channel_id: String, requester: String },
    LeaveVoiceChannel { guild_id: String },
}

/// The bot task's answer to a command.
pub enum BotResponse {
    JoinSuccess { guild_id: String, channel_id: String },
    JoinError { guild_id: String, error: String },
    LeaveSuccess { guild_id: String },
}

/// The routing key a waiting command registers under.
pub open spec fn spec_command_key(c: BotCommand) -> Seq<char> {
    match c {
        BotCommand::JoinVoiceChannel { guild_id, .. } => "join_"@ + guild_id@,
        BotCommand::LeaveVoiceChannel { guild_id } => "leave_"@ + guild_id@,
    }
}

/// The routing key a response is delivered under.
pub open spec fn spec_response_key(r: BotResponse) -> Seq<char> {
    match r {
        BotResponse::JoinSuccess { guild_id, .. } => "join_"@ + guild_id@,
        BotResponse::JoinError { guild_id, .. } => "join_"@ + guild_id@,
        BotResponse::LeaveSuccess { guild_id } => "leave_"@ + guild_id@,
    }
}

/// Renders the key a command waits under.
pub fn command_key(c: &BotCommand) -> (r: String)
    ensures
        r@ == spec_command_key(*c),
{
    match c {
        BotCommand::JoinVoiceChannel { guild_id, .. } => {
            let mut s = "join_".to_owned();
            s.append(guild_id.as_str());
            s
        },
        BotCommand::LeaveVoiceChannel { guild_id } => {
            let mut s = "leave_".to_owned();
            s.append(guild_id.as_str());
            s
        },
    }
}

/// Renders the key a response is delivered under.
pub fn response_key(r: &BotResponse) -> (s: String)
    ensures
        s@ == spec_response_key(*r),
{
    match r {
        BotResponse::JoinSuccess { guild_id, .. } => {
            let mut s = "join_".to_owned();
            s.append(guild_id.as_str());
            s
        },
        BotResponse::JoinError { guild_id, .. } => {
            let mut s = "join_".to_owned();
            s.append(guild_id.as_str());
            s
        },
        BotResponse::LeaveSuccess { guild_id } => {
            let mut s = "leave_".to_owned();
            s.append(guild_id.as_str());
            s
        },
    }
}

/// A response about a guild reaches exactly the command that waits for that
/// guild: a join answer routes to the join command, a leave answer to the
/// leave command.
pub proof fn lemma_response_routes_to_command(c: BotCommand, r: BotResponse)
    requires
        match (c, r) {
            (
                BotCommand::JoinVoiceChannel { guild_id: g, .. },
                BotResponse::JoinSuccess { guild_id: h, .. },
            ) => g@ == h@,
            (
                BotCommand::JoinVoiceChannel { guild_id: g, .. },
                BotResponse::JoinError { guild_id: h, .. },
            ) => g@ == h@,
            (
                BotCommand::LeaveVoiceChannel { guild_id: g },
                BotResponse::LeaveSuccess { guild_id: h },
            ) => g@ == h@,
            _ => false,
        },
    ensures
        spec_response_key(r) == spec_command_key(c),
{
}

/// Renders a numeric guild id for use in a routing key.
pub fn guild_key_id(guild: u64) -> (r: String)
    ensures
        r@ == crate::text::dec_of(guild as nat),
{
    u64_to_dec(guild)
}

} // verus!
