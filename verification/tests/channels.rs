use alice::channel_dispatch::ChannelDispatcher;
use alice::cli_repl::{line_text, repl_input, CliReplChatAdapter, ReplInput};

#[test]
fn name_is_discord() {
    assert_eq!("discord", "discord");
}

#[test]
fn name_is_telegram() {
    assert_eq!("telegram", "telegram");
}

#[test]
fn name_is_cli() {
    let adapter = CliReplChatAdapter::new("test".into());
    assert_eq!(adapter.name(), "cli");
}

#[test]
fn next_id_increments() {
    let mut adapter = CliReplChatAdapter::new("test".into());
    assert_eq!(adapter.next_id(), "cli-0");
    assert_eq!(adapter.next_id(), "cli-1");
    assert_eq!(adapter.next_id(), "cli-2");
}

#[test]
fn terminal_lines_lose_trailing_space_only() {
    assert_eq!(line_text("  hello world \r\n"), "  hello world");
    assert_eq!(line_text("\n"), "");
}

#[test]
fn dispatcher_finds_registered_posters() {
    let mut d: ChannelDispatcher<u32> = ChannelDispatcher::new();
    assert_eq!(d.poster("cli"), None);
    assert_eq!(d.register_poster("cli", 1), None);
    assert_eq!(d.register_poster("discord", 2), None);
    assert_eq!(d.register_poster("cli", 3), Some(1));
    assert_eq!(d.poster("cli"), Some(&3));
    assert_eq!(d.poster("discord"), Some(&2));
    assert_eq!(d.poster("telegram"), None);
}

use alice::chat_events::{
    discord_event, discord_session_id, telegram_author, telegram_event, telegram_session_id,
    DiscordMessageFacts, IncomingEvent, TelegramSender,
};

fn discord_facts(bot: bool, mentions: usize) -> DiscordMessageFacts {
    DiscordMessageFacts {
        guild_id: None,
        channel_id: 77,
        message_id: 5,
        author_id: 42,
        author_name: "ana".to_string(),
        author_global_name: None,
        author_is_bot: bot,
        mention_everyone: false,
        mention_count: mentions,
        content: "hello".to_string(),
        timestamp: "2024-01-01T00:00:00Z".to_string(),
    }
}

#[test]
fn discord_sessions_name_guild_and_channel() {
    assert_eq!(discord_session_id(Some(9), 77), "discord-9-77");
    assert_eq!(discord_session_id(None, 77), "discord-dm-77");
}

#[test]
fn discord_bots_are_ignored_and_mentions_flagged() {
    assert!(discord_event(discord_facts(true, 0)).is_none());
    match discord_event(discord_facts(false, 0)) {
        Some(IncomingEvent::Message { thread_id, message }) => {
            assert_eq!(thread_id, "discord-dm-77");
            assert_eq!(message.author.user_id, "42");
            assert_eq!(message.author.full_name, "ana");
            assert_eq!(message.id, "5");
        }
        _ => panic!("plain message expected"),
    }
    assert!(matches!(discord_event(discord_facts(false, 2)), Some(IncomingEvent::Mention { .. })));
}

#[test]
fn telegram_messages_need_text() {
    assert_eq!(telegram_session_id(-100), "telegram--100");
    assert!(telegram_event(5, 1, Some(""), None, String::new()).is_none());
    assert!(telegram_event(5, 1, None, None, String::new()).is_none());
    match telegram_event(5, 3, Some("hi"), None, String::new()) {
        Some(IncomingEvent::Message { thread_id, message }) => {
            assert_eq!(thread_id, "telegram-5");
            assert_eq!(message.text, "hi");
            assert_eq!(message.author.user_id, "unknown");
            assert_eq!(message.author.full_name, "Unknown");
        }
        _ => panic!("message expected"),
    }
}

#[test]
fn telegram_authors_join_first_and_last_name() {
    let u = TelegramSender {
        id: 8,
        username: None,
        first_name: "Ada".to_string(),
        last_name: Some("Lovelace".to_string()),
        is_bot: false,
    };
    let a = telegram_author(Some(&u));
    assert_eq!(a.user_id, "8");
    assert_eq!(a.user_name, "unknown");
    assert_eq!(a.full_name, "Ada Lovelace");
}

#[test]
fn repl_lines_skip_quit_or_prompt() {
    assert!(matches!(repl_input("   "), ReplInput::Skip));
    assert!(matches!(repl_input(" /QUIT "), ReplInput::Quit));
    assert!(matches!(repl_input("/exit"), ReplInput::Quit));
    match repl_input("  what next?  ") {
        ReplInput::Prompt(p) => assert_eq!(p, "what next?"),
        _ => panic!("prompt expected"),
    }
}
