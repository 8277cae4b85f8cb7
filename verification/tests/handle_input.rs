use alice::handle_input::{
    begin_message, build_request_context, channel_reply, effective_profile_id, finish_message,
    output_to_text, plan_input, AgentOutput, InputPlan, MessageStep, SkillsBundle,
};
use alice::identity::IdentityResolver;
use alice::orchestration::{OrchestrationProfileRegistry, Orchestrator};
use alice::runtime_state::memory_store::InMemoryRuntimeStateStore;
use alice::runtime_state::service::RuntimeStateService;

fn resolver() -> IdentityResolver<InMemoryRuntimeStateStore> {
    match RuntimeStateService::new(InMemoryRuntimeStateStore::new()) {
        Ok(s) => IdentityResolver::new(s),
        Err(_) => panic!("in-memory store should initialize"),
    }
}

fn orchestrator(names: &[&str]) -> Orchestrator<u8> {
    let mut r = OrchestrationProfileRegistry::new();
    for n in names {
        r.register(n, 0u8);
    }
    Orchestrator::new("manager", r)
}

#[test]
fn blank_input_is_answered_with_empty_output() {
    assert!(matches!(plan_input::<u8>("   ", true, None), InputPlan::Blank));
}

#[test]
fn slash_commands_bypass_the_agent() {
    match plan_input::<u8>("  /help  ", true, None) {
        InputPlan::SlashCommand(c) => assert_eq!(c, "/help"),
        _ => panic!("slash command expected"),
    }
}

#[test]
fn natural_language_uses_orchestrator_when_enabled() {
    let o = orchestrator(&["manager", "planner", "writer"]);
    match plan_input("  plan the launch ", true, Some(&o)) {
        InputPlan::Orchestrate { prompt, tasks } => {
            assert_eq!(prompt, "plan the launch");
            let names: Vec<&str> = tasks.iter().map(|t| t.profile_name()).collect();
            assert_eq!(names, vec!["planner", "writer"]);
            assert!(tasks.iter().all(|t| t.prompt() == "plan the launch"));
        }
        _ => panic!("orchestration expected"),
    }
}

#[test]
fn natural_language_falls_back_to_the_agent_turn() {
    let o = orchestrator(&["manager", "planner"]);
    assert!(matches!(plan_input("hi", false, Some(&o)), InputPlan::AgentTurn(p) if p == "hi"));
    let lonely = orchestrator(&["manager"]);
    assert!(matches!(plan_input("hi", true, Some(&lonely)), InputPlan::AgentTurn(_)));
    assert!(matches!(plan_input::<u8>("hi", true, None), InputPlan::AgentTurn(_)));
}

#[test]
fn effective_profile_defaults_to_session() {
    assert_eq!(effective_profile_id("s", None), "s");
    assert_eq!(effective_profile_id("s", Some("p")), "p");
}

#[test]
fn request_context_joins_prompt_pieces() {
    let bundle = SkillsBundle {
        prompt: "skills".to_string(),
        selected_skill_names: vec!["rust".to_string()],
        selected_allowed_tools: vec!["fs".to_string()],
    };
    let ctx = build_request_context(Some("profile"), Some("memory"), Some(&bundle));
    assert_eq!(ctx.system_prompt.as_deref(), Some("profile\n\nmemory\n\nskills"));
    assert_eq!(ctx.selected_skills, vec!["rust".to_string()]);
    assert_eq!(ctx.allow_tools, Some(vec!["fs".to_string()]));

    let quiet = SkillsBundle { prompt: String::new(), selected_skill_names: vec![], selected_allowed_tools: vec![] };
    let ctx = build_request_context(None, None, Some(&quiet));
    assert_eq!(ctx.system_prompt, None);
    assert_eq!(ctx.allow_tools, None);
    let ctx = build_request_context(None, Some("memory"), None);
    assert_eq!(ctx.system_prompt.as_deref(), Some("memory"));
    assert!(ctx.selected_skills.is_empty());
}

#[test]
fn output_text_skips_quit() {
    assert_eq!(output_to_text(&AgentOutput::Finished("a".into())), Some("a"));
    assert_eq!(output_to_text(&AgentOutput::CommandOutput("b".into())), Some("b"));
    assert_eq!(output_to_text(&AgentOutput::Quit), None);
}

#[test]
fn channel_replies_report_errors() {
    assert_eq!(channel_reply(&Ok(AgentOutput::Finished("hi".into()))), Some(("hi".to_string(), false)));
    assert_eq!(channel_reply(&Ok(AgentOutput::Finished(String::new()))), None);
    assert_eq!(channel_reply(&Ok(AgentOutput::Quit)), None);
    assert_eq!(channel_reply(&Err("boom".into())), Some(("error: boom".to_string(), true)));
}

#[test]
fn bind_messages_are_answered_before_any_turn() {
    let mut r = resolver();
    match begin_message(&mut r, "discord", "u1", "t1", "/bind") {
        MessageStep::Reply(text) => assert_eq!(text, "Usage: /bind <token>"),
        MessageStep::RunTurn(_) => panic!("reply expected"),
    }
    match begin_message(&mut r, "discord", "u1", "t1", "hello") {
        MessageStep::RunTurn(id) => {
            assert_eq!(id.session_id, "discord-t1");
            assert_eq!(id.profile_id, "discord-user-u1");
        }
        MessageStep::Reply(_) => panic!("turn expected"),
    }
}

#[test]
fn finished_turns_are_replied_and_remembered() {
    let mut service = match RuntimeStateService::new(InMemoryRuntimeStateStore::new()) {
        Ok(s) => s,
        Err(_) => panic!("in-memory store should initialize"),
    };
    service.bind_identity("discord", "u1", "global-1").expect("bound");
    let mut r = IdentityResolver::new(service);
    let MessageStep::RunTurn(id) = begin_message(&mut r, "discord", "u1", "t1", "hello") else {
        panic!("turn expected");
    };
    let reply = finish_message(&mut r, &id, "discord", "t1", &Ok(AgentOutput::Finished("answer".into())));
    assert_eq!(reply.as_deref(), Some("answer"));
    let lease = r.service().get_active_session("global-1").expect("ok").expect("remembered");
    assert_eq!(lease.thread_id.as_deref(), Some("t1"));
    assert_eq!(lease.channel.as_deref(), Some("discord"));
    let failed = finish_message(&mut r, &id, "discord", "t1", &Err("down".into()));
    assert_eq!(failed.as_deref(), Some("Error: down"));
    assert_eq!(finish_message(&mut r, &id, "discord", "t1", &Ok(AgentOutput::Quit)), None);
}

#[test]
fn bind_message_answers_refusal_and_success() {
    let mut r = resolver();
    match begin_message(&mut r, "discord", "u1", "t1", "/bind nope") {
        MessageStep::Reply(text) => assert_eq!(text, "Bind token is invalid, expired, or already used."),
        MessageStep::RunTurn(_) => panic!("reply expected"),
    }
    let token = r.issue_bind_token("global-7", Some("discord"), 60_000).expect("issued");
    let input = format!("/bind {}", token.token);
    match begin_message(&mut r, "discord", "u1", "t1", &input) {
        MessageStep::Reply(text) => {
            assert_eq!(text, "Bound this discord account to global user 'global-7'.")
        }
        MessageStep::RunTurn(_) => panic!("reply expected"),
    }
    match begin_message(&mut r, "discord", "u1", "t9", "hello") {
        MessageStep::RunTurn(id) => {
            assert_eq!(id.global_user_id.as_deref(), Some("global-7"));
            assert_eq!(id.profile_id, "global-7");
            assert_eq!(id.session_id, "discord-t9");
        }
        MessageStep::Reply(_) => panic!("turn expected"),
    }
}
