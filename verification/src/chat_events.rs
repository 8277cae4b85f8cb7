//! Incoming chat messages from Discord and Telegram, as the runtime sees them: the
//! session they belong to, who wrote them, and whether they are a message or a mention.
//! Talking to the chat services is left to the caller, which hands over the facts of
//! each message.
use vstd::prelude::*;

use crate::runtime_state::domain::opt_str_view;

use crate::text::{decimal, push_decimal, push_signed_decimal, push_str, signed_decimal, str_to_string, string_from_chars};

verus! {

/// Who wrote an incoming chat message.
pub struct ChatAuthor {
    /// Stable user id on the chat service.
    pub user_id: String,
    /// Account name.
    pub user_name: String,
    /// Display name.
    pub full_name: String,
    /// Whether the author is a bot.
    pub is_bot: bool,
}

/// A chat message arriving from a channel.
pub struct IncomingChatMessage {
    /// Message id on the chat service.
    pub id: String,
    /// Message text.
    pub text: String,
    /// Who wrote it.
    pub author: ChatAuthor,
    /// Whether the bot was mentioned.
    pub is_mention: bool,
    /// Session (thread) the message belongs to.
    pub thread_id: String,
    /// When it was sent, in RFC 3339 form, if known.
    pub timestamp: Option<String>,
}

/// An incoming chat event.
pub enum IncomingEvent {
    /// A plain message.
    Message {
        /// Session (thread) the message belongs to.
        thread_id: String,
        /// The message.
        message: IncomingChatMessage,
    },
    /// A message that mentions the bot.
    Mention {
        /// Session (thread) the message belongs to.
        thread_id: String,
        /// The message.
        message: IncomingChatMessage,
    },
}

/// The session of a Discord channel: `discord-<guild>-<channel>`, with `dm` for direct
/// messages.
pub open spec fn spec_discord_session_id(guild_id: Option<u64>, channel_id: u64) -> Seq<char> {
    "discord-"@ + match guild_id {
        Some(g) => decimal(g as nat),
        None => "dm"@,
    } + "-"@ + decimal(channel_id as nat)
}

/// The session of a Discord channel.
pub fn discord_session_id(guild_id: Option<u64>, channel_id: u64) -> (r: String)
    ensures
        r@ == spec_discord_session_id(guild_id, channel_id),
{
    let mut out: Vec<char> = Vec::new();
    push_str(&mut out, "discord-");
    match guild_id {
        Some(g) => push_decimal(&mut out, g),
        None => push_str(&mut out, "dm"),
    }
    push_str(&mut out, "-");
    push_decimal(&mut out, channel_id);
    assert(out@ =~= spec_discord_session_id(guild_id, channel_id));
    string_from_chars(out.as_slice())
}

/// What the runtime reads of a Discord message.
pub struct DiscordMessageFacts {
    /// Guild the message was sent in; none for a direct message.
    pub guild_id: Option<u64>,
    /// Channel the message was sent in.
    pub channel_id: u64,
    /// Message id.
    pub message_id: u64,
    /// Author's user id.
    pub author_id: u64,
    /// Author's account name.
    pub author_name: String,
    /// Author's global display name, if set.
    pub author_global_name: Option<String>,
    /// Whether the author is a bot.
    pub author_is_bot: bool,
    /// Whether the message mentions everyone.
    pub mention_everyone: bool,
    /// How many users the message mentions.
    pub mention_count: usize,
    /// Message text.
    pub content: String,
    /// When it was sent, in RFC 3339 form.
    pub timestamp: String,
}

/// The event of a Discord message: none for a bot's message; a mention when it mentions
/// everyone or anyone, a plain message otherwise, in the channel's session.
pub fn discord_event(facts: DiscordMessageFacts) -> (r: Option<IncomingEvent>)
    ensures
        facts.author_is_bot <==> r is None,
        r matches Some(e) ==> match e {
            IncomingEvent::Mention { thread_id, message } => (facts.mention_everyone
                || facts.mention_count > 0) && thread_id@ == spec_discord_session_id(
                facts.guild_id,
                facts.channel_id,
            ) && message.thread_id@ == thread_id@ && message.is_mention && message.text@
                == facts.content@ && message.id@ == decimal(facts.message_id as nat)
                && message.author.user_id@ == decimal(facts.author_id as nat)
                && message.author.user_name@ == facts.author_name@ && message.author.full_name@
                == (match facts.author_global_name {
                Some(n) => n@,
                None => facts.author_name@,
            }) && !message.author.is_bot && opt_str_view(message.timestamp) == Some(
                facts.timestamp@,
            ),
            IncomingEvent::Message { thread_id, message } => !facts.mention_everyone
                && facts.mention_count == 0 && thread_id@ == spec_discord_session_id(
                facts.guild_id,
                facts.channel_id,
            ) && message.thread_id@ == thread_id@ && !message.is_mention && message.text@
                == facts.content@ && message.id@ == decimal(facts.message_id as nat)
                && message.author.user_id@ == decimal(facts.author_id as nat)
                && message.author.user_name@ == facts.author_name@ && message.author.full_name@
                == (match facts.author_global_name {
                Some(n) => n@,
                None => facts.author_name@,
            }) && !message.author.is_bot && opt_str_view(message.timestamp) == Some(
                facts.timestamp@,
            ),
        },
{
    if facts.author_is_bot {
        return None;
    }
    let session_id = discord_session_id(facts.guild_id, facts.channel_id);
    let full_name = match facts.author_global_name {
        Some(n) => n,
        None => facts.author_name.clone(),
    };
    let author = ChatAuthor {
        user_id: decimal_string(facts.author_id),
        user_name: facts.author_name,
        full_name,
        is_bot: facts.author_is_bot,
    };
    let is_mention = facts.mention_everyone || facts.mention_count > 0;
    let message = IncomingChatMessage {
        id: decimal_string(facts.message_id),
        text: facts.content,
        author,
        is_mention,
        thread_id: session_id.clone(),
        timestamp: Some(facts.timestamp),
    };
    if is_mention {
        Some(IncomingEvent::Mention { thread_id: session_id, message })
    } else {
        Some(IncomingEvent::Message { thread_id: session_id, message })
    }
}

/// A number in decimal.
fn decimal_string(n: u64) -> (r: String)
    ensures
        r@ == decimal(n as nat),
{
    let mut out: Vec<char> = Vec::new();
    push_decimal(&mut out, n);
    assert(out@ =~= decimal(n as nat));
    string_from_chars(out.as_slice())
}

/// The session of a Telegram chat: `telegram-<chat id>`.
pub open spec fn spec_telegram_session_id(chat_id: i64) -> Seq<char> {
    "telegram-"@ + signed_decimal(chat_id as int)
}

/// The session of a Telegram chat.
pub fn telegram_session_id(chat_id: i64) -> (r: String)
    ensures
        r@ == spec_telegram_session_id(chat_id),
{
    let mut out: Vec<char> = Vec::new();
    push_str(&mut out, "telegram-");
    push_signed_decimal(&mut out, chat_id);
    string_from_chars(out.as_slice())
}

/// The sender of a Telegram message.
pub struct TelegramSender {
    /// User id.
    pub id: u64,
    /// Account name, if set.
    pub username: Option<String>,
    /// First name.
    pub first_name: String,
    /// Last name, if set.
    pub last_name: Option<String>,
    /// Whether the sender is a bot.
    pub is_bot: bool,
}

/// Whether `r` is the author of a Telegram message from `from`: `unknown` names for an
/// unknown sender; the display name is the first name, followed by the last name when
/// there is one.
pub open spec fn is_telegram_author(r: ChatAuthor, from: Option<&TelegramSender>) -> bool {
    match from {
        Some(u) => r.user_id@ == decimal(u.id as nat) && r.user_name@ == (match u.username {
            Some(n) => n@,
            None => "unknown"@,
        }) && r.full_name@ == (match u.last_name {
            Some(l) => u.first_name@ + " "@ + l@,
            None => u.first_name@,
        }) && r.is_bot == u.is_bot,
        None => r.user_id@ == "unknown"@ && r.user_name@ == "unknown"@ && r.full_name@
            == "Unknown"@ && !r.is_bot,
    }
}

/// The author of a Telegram message.
pub fn telegram_author(from: Option<&TelegramSender>) -> (r: ChatAuthor)
    ensures
        is_telegram_author(r, from),
{
    match from {
        Some(u) => {
            let full_name = match &u.last_name {
                Some(l) => {
                    let mut out: Vec<char> = Vec::new();
                    push_str(&mut out, u.first_name.as_str());
                    push_str(&mut out, " ");
                    push_str(&mut out, l.as_str());
                    string_from_chars(out.as_slice())
                },
                None => u.first_name.clone(),
            };
            ChatAuthor {
                user_id: decimal_string(u.id),
                user_name: match &u.username {
                    Some(n) => n.clone(),
                    None => str_to_string("unknown"),
                },
                full_name,
                is_bot: u.is_bot,
            }
        },
        None => ChatAuthor {
            user_id: str_to_string("unknown"),
            user_name: str_to_string("unknown"),
            full_name: str_to_string("Unknown"),
            is_bot: false,
        },
    }
}

/// The event of a Telegram message: none when it has no text; otherwise a plain message
/// in the chat's session.
pub fn telegram_event(
    chat_id: i64,
    message_id: i32,
    text: Option<&str>,
    from: Option<&TelegramSender>,
    timestamp: String,
) -> (r: Option<IncomingEvent>)
    ensures
        (match text {
            Some(t) => t@.len() == 0,
            None => true,
        }) <==> r is None,
        r matches Some(e) ==> (e matches IncomingEvent::Message { thread_id, message }
            && thread_id@ == spec_telegram_session_id(chat_id) && message.thread_id@ == thread_id@
            && message.text@ == text->0@ && message.id@ == signed_decimal(message_id as int)
            && !message.is_mention && is_telegram_author(message.author, from) && opt_str_view(
            message.timestamp,
        ) == Some(timestamp@)),
{
    let body = match text {
        Some(t) => t,
        None => return None,
    };
    if body.unicode_len() == 0 {
        return None;
    }
    let session_id = telegram_session_id(chat_id);
    let mut id: Vec<char> = Vec::new();
    push_signed_decimal(&mut id, message_id as i64);
    let message = IncomingChatMessage {
        id: string_from_chars(id.as_slice()),
        text: str_to_string(body),
        author: telegram_author(from),
        is_mention: false,
        thread_id: session_id.clone(),
        timestamp: Some(timestamp),
    };
    Some(IncomingEvent::Message { thread_id: session_id, message })
}

} // verus!
