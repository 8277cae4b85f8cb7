use alice::agent_backend::{
    acp_session_id, choose_permission_option, prompt_blocks, AcpAgentBackend, AcpConfig,
    PermissionOption, PermissionOptionKind,
};

fn option(id: &str, kind: PermissionOptionKind) -> PermissionOption {
    PermissionOption { option_id: id.to_string(), kind }
}

#[test]
fn permission_requests_pick_the_first_allowing_option() {
    let opts = vec![
        option("reject", PermissionOptionKind::RejectOnce),
        option("once", PermissionOptionKind::AllowOnce),
        option("always", PermissionOptionKind::AllowAlways),
    ];
    assert_eq!(choose_permission_option(&opts), "once");
    let rejects = vec![option("r1", PermissionOptionKind::RejectAlways), option("r2", PermissionOptionKind::RejectOnce)];
    assert_eq!(choose_permission_option(&rejects), "r1");
    assert_eq!(choose_permission_option(&[]), "allow_always");
}

#[test]
fn prompts_lead_with_system_context() {
    assert_eq!(prompt_blocks(Some("ctx"), "hi"), vec!["[System Context]\nctx".to_string(), "hi".to_string()]);
    assert_eq!(prompt_blocks(None, "hi"), vec!["hi".to_string()]);
}

#[test]
fn generated_session_ids_count_up() {
    assert_eq!(acp_session_id(1), "acp-1");
    assert_eq!(acp_session_id(42), "acp-42");
}

#[test]
fn backend_keeps_its_configuration() {
    let b = AcpAgentBackend::new(AcpConfig {
        command: "agent".to_string(),
        args: vec!["--acp".to_string()],
        working_dir: None,
    });
    assert_eq!(b.config().command, "agent");
    assert_eq!(b.config().effective_working_dir(), ".");
    let copy = b.config().duplicate();
    assert_eq!(copy.args, vec!["--acp".to_string()]);
}
