use alice::agent_backend::AcpConfig;
use alice::bootstrap::{
    build_acp_backend_and_orchestrator, build_orchestrator_from_config, normalize_model_name,
    resolve_acp_profile_configs, BootstrapError,
};
use alice::config::{
    resolve_dispatch_mode, resolve_turn_limits, AcpProfileConfig, AgentBackendConfig,
    AgentBackendType, DispatchMode, RuntimeConfig,
};

fn profile(command: &str, arg: &str, dir: &str) -> AcpProfileConfig {
    AcpProfileConfig {
        command: command.to_string(),
        args: vec![arg.to_string()],
        working_dir: Some(dir.to_string()),
    }
}

#[test]
fn normalize_model_name_converts_colon_to_slash() {
    assert_eq!(normalize_model_name("openai:gpt-4o-mini"), "openai/gpt-4o-mini");
    assert_eq!(
        normalize_model_name("mistral:mistral-large-20240724"),
        "mistral/mistral-large-20240724"
    );
    assert_eq!(normalize_model_name("groq:llama3-70b"), "groq/llama3-70b");
}

#[test]
fn normalize_model_name_preserves_slash_format() {
    assert_eq!(normalize_model_name("openai/gpt-4o-mini"), "openai/gpt-4o-mini");
}

#[test]
fn normalize_model_name_preserves_bare_model() {
    assert_eq!(normalize_model_name("gpt-4o-mini"), "gpt-4o-mini");
}

#[test]
fn normalize_model_name_splits_at_first_colon_only() {
    assert_eq!(normalize_model_name("ollama:llama3:8b"), "ollama/llama3:8b");
}

#[test]
fn bootstrap_dispatch_mode_mapping() {
    assert_eq!(resolve_dispatch_mode(Some(DispatchMode::PromptGuided)), DispatchMode::PromptGuided);
    assert_eq!(
        resolve_dispatch_mode(Some(DispatchMode::NativePreferred)),
        DispatchMode::NativePreferred
    );
    assert_eq!(resolve_dispatch_mode(None), DispatchMode::NativePreferred);
}

#[test]
fn turn_limits_default_when_unset() {
    let runtime = RuntimeConfig {
        default_model: "openai:gpt-4o-mini".to_string(),
        max_steps: None,
        turn_timeout_ms: Some(10_000),
        dispatch_mode: None,
    };
    let limits = resolve_turn_limits(&runtime);
    assert_eq!(limits.max_steps, 12);
    assert_eq!(limits.turn_timeout_ms, 10_000);
    assert_eq!(limits.tool_timeout_ms, 15_000);
}

#[test]
fn build_orchestrator_from_multi_profile_acp_config() {
    let mut cfg = AgentBackendConfig::default();
    cfg.backend = AgentBackendType::Acp;
    cfg.primary_profile = Some("manager".to_string());
    cfg.acp_profiles.push(("manager".to_string(), profile("manager-agent", "--fast", "/tmp/manager")));
    cfg.acp_profiles.push(("writer".to_string(), profile("writer-agent", "--safe", "/tmp/writer")));

    let orchestrator = build_orchestrator_from_config(&cfg);
    assert!(orchestrator.is_ok(), "orchestrator should build from profile config");
    let orchestrator = orchestrator.ok().flatten();
    assert!(orchestrator.is_some(), "orchestrator should be present");
    let Some(orchestrator) = orchestrator else { return };
    assert_eq!(orchestrator.worker_profile_names(), vec!["writer".to_string()]);
}

#[test]
fn bob_backend_has_no_orchestrator() {
    let cfg = AgentBackendConfig::default();
    assert!(matches!(build_orchestrator_from_config(&cfg), Ok(None)));
}

#[test]
fn unnamed_profile_needs_a_command() {
    let mut cfg = AgentBackendConfig::default();
    cfg.backend = AgentBackendType::Acp;
    let err = resolve_acp_profile_configs(&cfg).err().expect("refused");
    assert!(matches!(err, BootstrapError::MissingAcpCommand));
    assert_eq!(err.message(), "agent.acp_command is required for acp backend");

    cfg.acp_command = Some("mock-agent".to_string());
    cfg.acp_args = vec!["--x".to_string()];
    let (primary, profiles) = resolve_acp_profile_configs(&cfg).expect("resolved");
    assert_eq!(primary, "primary");
    assert_eq!(profiles.len(), 1);
    assert_eq!(profiles[0].0, "primary");
    assert_eq!(profiles[0].1.command, "mock-agent");
    assert_eq!(profiles[0].1.args, vec!["--x".to_string()]);
    assert_eq!(profiles[0].1.working_dir, None);
}

#[test]
fn named_profiles_resolve_in_name_order_with_least_as_primary() {
    let mut cfg = AgentBackendConfig::default();
    cfg.backend = AgentBackendType::Acp;
    cfg.acp_profiles.push(("writer".to_string(), profile("w", "1", "/w")));
    cfg.acp_profiles.push(("critic".to_string(), profile("c", "2", "/c")));
    cfg.acp_profiles.push(("planner".to_string(), profile("p", "3", "/p")));
    let (primary, profiles) = resolve_acp_profile_configs(&cfg).expect("resolved");
    assert_eq!(primary, "critic");
    let names: Vec<&str> = profiles.iter().map(|(n, _)| n.as_str()).collect();
    assert_eq!(names, vec!["critic", "planner", "writer"]);
    let configs: Vec<&AcpConfig> = profiles.iter().map(|(_, c)| c).collect();
    assert_eq!(configs[2].command, "w");
    assert_eq!(configs[0].working_dir.as_deref(), Some("/c"));
}

#[test]
fn unknown_primary_profile_is_refused() {
    let mut cfg = AgentBackendConfig::default();
    cfg.backend = AgentBackendType::Acp;
    cfg.primary_profile = Some("boss".to_string());
    cfg.acp_profiles.push(("writer".to_string(), profile("w", "1", "/w")));
    let err = resolve_acp_profile_configs(&cfg).err().expect("refused");
    assert_eq!(err.message(), "agent.primary_profile 'boss' is not defined in agent.acp_profiles");
    assert!(build_acp_backend_and_orchestrator(&cfg).is_err());
}

#[test]
fn primary_backend_runs_the_primary_profile() {
    let mut cfg = AgentBackendConfig::default();
    cfg.backend = AgentBackendType::Acp;
    cfg.primary_profile = Some("writer".to_string());
    cfg.acp_profiles.push(("writer".to_string(), profile("w", "1", "/w")));
    cfg.acp_profiles.push(("critic".to_string(), profile("c", "2", "/c")));
    let (primary, orchestrator) = build_acp_backend_and_orchestrator(&cfg).expect("built");
    assert_eq!(primary.config().command, "w");
    assert_eq!(orchestrator.worker_profile_names(), vec!["critic".to_string()]);
}
