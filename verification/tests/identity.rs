use alice::identity::{default_channel_session_id, parse_bind_command, IdentityResolver};
use alice::runtime_state::memory_store::InMemoryRuntimeStateStore;
use alice::runtime_state::service::RuntimeStateService;

fn service() -> RuntimeStateService<InMemoryRuntimeStateStore> {
    match RuntimeStateService::new(InMemoryRuntimeStateStore::new()) {
        Ok(s) => s,
        Err(_) => panic!("in-memory store should initialize"),
    }
}

#[test]
fn parse_bind_command_extracts_token() {
    assert_eq!(parse_bind_command("/bind abc123"), Some("abc123"));
    assert_eq!(parse_bind_command("/bind    abc123   "), Some("abc123"));
    assert_eq!(parse_bind_command("hello"), None);
}

#[test]
fn default_cli_session_id_uses_thread_directly() {
    assert_eq!(default_channel_session_id("cli", "alice-session"), "alice-session");
}

#[test]
fn default_channel_session_id_avoids_double_prefix() {
    assert_eq!(default_channel_session_id("telegram", "telegram-chat-1"), "telegram-chat-1");
    assert_eq!(default_channel_session_id("discord", "thread-1"), "discord-thread-1");
}

#[test]
fn explicit_cli_global_user_reuses_active_session() {
    let mut service = service();
    let lease = service.upsert_active_session("global-user", "shared-session", Some("cli"));
    assert!(lease.is_ok(), "active session lease should be stored");
    let resolver = IdentityResolver::new(service);

    let resolved = resolver.resolve_cli_turn("fallback-session", Some("global-user"));
    assert!(resolved.is_ok(), "cli identity should resolve");
    let Ok(resolved) = resolved else {
        return;
    };

    assert_eq!(resolved.session_id, "shared-session");
    assert_eq!(resolved.profile_id, "global-user");
    assert_eq!(resolved.global_user_id.as_deref(), Some("global-user"));
}

#[test]
fn bind_command_consumes_token_and_resolves_future_messages() {
    let mut service = service();
    let token = service.issue_bind_token("global-user", Some("telegram"), 60_000);
    assert!(token.is_ok(), "bind token should be issued");
    let Ok(token) = token else {
        return;
    };
    let mut resolver = IdentityResolver::new(service);

    let outcome =
        resolver.consume_bind_command("telegram", "tg-user-1", &format!("/bind {}", token.token));
    assert!(outcome.is_ok(), "bind command should succeed");
    let Ok(Some(outcome)) = outcome else {
        panic!("bind command should produce an outcome");
    };

    assert_eq!(outcome.global_user_id.as_deref(), Some("global-user"));

    let resolved = resolver.resolve_message_turn("telegram", "tg-user-1", "telegram-chat-1");
    assert!(resolved.is_ok(), "bound user should resolve");
    let Ok(resolved) = resolved else {
        return;
    };

    assert_eq!(resolved.global_user_id.as_deref(), Some("global-user"));
    assert_eq!(resolved.profile_id, "global-user");
}

#[test]
fn bound_identity_prefers_active_session_over_channel_thread() {
    let mut service = service();
    let binding = service.bind_identity("discord", "user-42", "global-user");
    assert!(binding.is_ok(), "binding should be stored");
    let lease = service.upsert_active_session("global-user", "shared-session", Some("cli"));
    assert!(lease.is_ok(), "active session lease should be stored");
    let resolver = IdentityResolver::new(service);

    let resolved = resolver.resolve_message_turn("discord", "user-42", "discord-thread-9");
    assert!(resolved.is_ok(), "bound user should resolve");
    let Ok(resolved) = resolved else {
        return;
    };

    assert_eq!(resolved.session_id, "shared-session");
    assert_eq!(resolved.profile_id, "global-user");
    assert_eq!(resolved.global_user_id.as_deref(), Some("global-user"));
}

#[test]
fn remember_active_session_persists_global_session_lease() {
    let mut resolver = IdentityResolver::new(service());

    let resolved = resolver.resolve_cli_turn("cli-session", Some("global-user"));
    assert!(resolved.is_ok(), "cli identity should resolve");
    let Ok(resolved) = resolved else {
        return;
    };

    let persisted = resolver.remember_active_session(&resolved, Some("cli"));
    assert!(persisted.is_ok(), "session lease should be persisted");

    let lease = resolver.service().get_active_session("global-user");
    assert!(lease.is_ok(), "stored lease should be readable");
    let Ok(Some(lease)) = lease else {
        panic!("stored lease should exist");
    };

    assert_eq!(lease.session_id, "cli-session");
    assert_eq!(lease.channel.as_deref(), Some("cli"));
    assert_eq!(lease.thread_id.as_deref(), Some("cli-session"));
}

#[test]
fn unbound_channel_user_gets_channel_profile() {
    let resolver = IdentityResolver::new(service());
    let resolved = resolver.resolve_message_turn("discord", "u7", "thread-3").expect("resolves");
    assert_eq!(resolved.session_id, "discord-thread-3");
    assert_eq!(resolved.profile_id, "discord-user-u7");
    assert_eq!(resolved.global_user_id, None);
}

#[test]
fn anonymous_cli_turn_uses_requested_session() {
    let resolver = IdentityResolver::new(service());
    let resolved = resolver.resolve_cli_turn("alice-once", None).expect("resolves");
    assert_eq!(resolved.session_id, "alice-once");
    assert_eq!(resolved.profile_id, "alice-once");
    assert_eq!(resolved.global_user_id, None);
}

#[test]
fn bind_command_without_token_answers_usage() {
    let mut resolver = IdentityResolver::new(service());
    let outcome = resolver.consume_bind_command("discord", "u", "  /bind   ").expect("ok").expect("answered");
    assert_eq!(outcome.global_user_id, None);
    assert_eq!(outcome.message, "Usage: /bind <token>");
    assert!(resolver.consume_bind_command("discord", "u", "hello").expect("ok").is_none());
}

#[test]
fn bind_command_with_unknown_token_is_refused() {
    let mut resolver = IdentityResolver::new(service());
    let outcome =
        resolver.consume_bind_command("discord", "u", "/bind nope").expect("ok").expect("answered");
    assert_eq!(outcome.global_user_id, None);
    assert!(resolver.resolve_message_turn("discord", "u", "t").expect("ok").global_user_id.is_none());
}

#[test]
fn bound_channel_user_and_cli_share_the_active_session() {
    let mut service = service();
    service.bind_identity("telegram", "tg-1", "global-user").expect("bound");
    service.upsert_active_session("global-user", "shared", Some("cli")).expect("stored");
    let resolver = IdentityResolver::new(service);
    let channel = resolver.resolve_message_turn("telegram", "tg-1", "chat-5").expect("ok");
    let cli = resolver.resolve_cli_turn("elsewhere", Some("global-user")).expect("ok");
    assert_eq!(channel.session_id, "shared");
    assert_eq!(cli.session_id, "shared");
    assert_eq!(channel.profile_id, cli.profile_id);
}

#[test]
fn remembering_without_global_user_stores_nothing() {
    let mut resolver = IdentityResolver::new(service());
    let resolved = resolver.resolve_cli_turn("solo", None).expect("resolved");
    let persisted = resolver.remember_active_session(&resolved, Some("cli")).expect("ok");
    assert!(persisted.is_none());
    let with_user = resolver.resolve_cli_turn("solo", Some("g-2")).expect("resolved");
    let lease = resolver.remember_active_session(&with_user, Some("cli")).expect("ok").expect("stored");
    assert_eq!(lease.global_user_id, "g-2");
    assert_eq!(lease.session_id, "solo");
    assert_eq!(lease.thread_id.as_deref(), Some("solo"));
}

#[test]
fn bind_command_at_a_given_time_follows_the_token_expiry() {
    let mut svc = service();
    let token = svc.issue_bind_token_at("global-9", Some("telegram"), 60_000, 1_000).expect("issued");
    let mut resolver = IdentityResolver::new(svc);
    let input = format!("/bind {}", token.token);
    let late = resolver
        .consume_bind_command_at("telegram", "tg-1", &input, 61_001)
        .expect("ok")
        .expect("answered");
    assert_eq!(late.global_user_id, None);
    assert_eq!(late.message, "Bind token is invalid, expired, or already used.");
    let wrong_provider = resolver
        .consume_bind_command_at("discord", "d-1", &input, 2_000)
        .expect("ok")
        .expect("answered");
    assert_eq!(wrong_provider.global_user_id, None);
    let bound = resolver
        .consume_bind_command_at("telegram", "tg-1", &input, 61_000)
        .expect("ok")
        .expect("answered");
    assert_eq!(bound.global_user_id.as_deref(), Some("global-9"));
    assert_eq!(bound.message, "Bound this telegram account to global user 'global-9'.");
    let again = resolver
        .consume_bind_command_at("telegram", "tg-2", &input, 61_000)
        .expect("ok")
        .expect("answered");
    assert_eq!(again.global_user_id, None);
}
