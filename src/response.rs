use vstd::prelude::*;

verus! {

/// Interaction type of a ping.
pub const PING: u8 = 1;

/// Interaction type of an application command.
pub const APPLICATION_COMMAND: u8 = 2;

/// Response type that answers a ping.
pub const PONG: u8 = 1;

/// Response type of a message posted in the channel of the command.
pub const CHANNEL_MESSAGE_WITH_SOURCE: u8 = 4;

/// Response type of a message that will follow later.
pub const DEFERRED_CHANNEL_MESSAGE_WITH_SOURCE: u8 = 5;

/// What an incoming interaction asks for.
#[derive(Debug, Clone, Copy, PartialEq, Eq)]
pub enum InteractionKind {
    Ping,
    Command,
    Unknown,
}

/// Body of a message response.
#[derive(Debug, Clone)]
pub struct ResponseData {
    pub content: String,
    pub flags: Option<u32>,
}

/// A response to an interaction.
#[derive(Debug, Clone)]
pub struct DiscordResponse {
    pub response_type: u8,
    pub data: Option<ResponseData>,
}

/// The kind of an interaction from its type number.
pub fn classify_interaction(interaction_type: u8) -> (r: InteractionKind)
    ensures
        r == (if interaction_type == PING {
            InteractionKind::Ping
        } else if interaction_type == APPLICATION_COMMAND {
            InteractionKind::Command
        } else {
            InteractionKind::Unknown
        }),
{
    if interaction_type == PING {
        InteractionKind::Ping
    } else if interaction_type == APPLICATION_COMMAND {
        InteractionKind::Command
    } else {
        InteractionKind::Unknown
    }
}

impl DiscordResponse {
    /// The answer to a ping.
    pub fn pong() -> (r: DiscordResponse)
        ensures
            r.response_type == PONG,
            r.data is None,
    {
        DiscordResponse { response_type: PONG, data: None }
    }

    /// A message posted in the channel of the command.
    pub fn message(content: String) -> (r: DiscordResponse)
        ensures
            r.response_type == CHANNEL_MESSAGE_WITH_SOURCE,
            r.data == Some(ResponseData { content, flags: None }),
    {
        DiscordResponse {
            response_type: CHANNEL_MESSAGE_WITH_SOURCE,
            data: Some(ResponseData { content, flags: None }),
        }
    }
}

} // verus!
