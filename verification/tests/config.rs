use alice::config::{
    skills_active, SkillSourceEntry,
    default_max_selected, default_token_budget, default_true, tool_port_layout, ChannelsConfig,
    McpConfig, McpServerConfig, SkillsConfig, ToolPortLayout,
};

fn server(id: &str, timeout: Option<u64>) -> McpServerConfig {
    McpServerConfig {
        id: id.to_string(),
        command: "npx".to_string(),
        args: vec![],
        env: None,
        tool_timeout_ms: timeout,
    }
}

#[test]
fn skills_defaults_match_documentation() {
    let s = SkillsConfig::default();
    assert!(s.enabled);
    assert_eq!(s.max_selected, 3);
    assert_eq!(s.token_budget, 1800);
    assert!(s.sources.is_empty());
    assert!(default_true());
    assert_eq!(default_max_selected(), 3);
    assert_eq!(default_token_budget(), 1800);
}

#[test]
fn channels_are_off_by_default() {
    let c = ChannelsConfig::default();
    assert!(!c.discord.enabled);
    assert!(!c.telegram.enabled);
    assert!(McpConfig::default().servers.is_empty());
}

#[test]
fn tool_servers_choose_the_tool_port() {
    assert_eq!(tool_port_layout(&McpConfig { servers: vec![] }), ToolPortLayout::NoTools);
    assert_eq!(tool_port_layout(&McpConfig { servers: vec![server("fs", None)] }), ToolPortLayout::Single);
    assert_eq!(
        tool_port_layout(&McpConfig { servers: vec![server("fs", None), server("gh", Some(30_000))] }),
        ToolPortLayout::Composite
    );
    assert_eq!(server("fs", None).tool_timeout(), 15_000);
    assert_eq!(server("gh", Some(30_000)).tool_timeout(), 30_000);
}

#[test]
fn skills_load_only_when_enabled_with_sources() {
    let mut cfg = SkillsConfig::default();
    assert!(!skills_active(&cfg));
    cfg.sources.push(SkillSourceEntry { path: ".alice/skills".to_string(), recursive: true });
    assert!(skills_active(&cfg));
    cfg.enabled = false;
    assert!(!skills_active(&cfg));
}

#[test]
fn disabled_skills_returns_none() {
    let cfg = SkillsConfig { enabled: false, ..SkillsConfig::default() };
    assert!(!skills_active(&cfg));
}

#[test]
fn empty_sources_returns_none() {
    let cfg = SkillsConfig { enabled: true, sources: Vec::new(), ..SkillsConfig::default() };
    assert!(!skills_active(&cfg));
}

#[test]
fn disabled_skills_with_valid_sources_returns_none() {
    let cfg = SkillsConfig {
        enabled: false,
        sources: vec![SkillSourceEntry { path: "tests/fixtures/skills".to_string(), recursive: true }],
        ..SkillsConfig::default()
    };
    assert!(!skills_active(&cfg));
}
