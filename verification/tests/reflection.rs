use alice::reflection::{
    build_reflection_prompt, extract_skill_name, fallback_skill_name, normalize_skill_document,
    reflection_skill, sanitize_skill_name,
};

#[test]
fn sanitize_skill_name_produces_kebab_case() {
    assert_eq!(sanitize_skill_name("Alice session summaries!"), "alice-session-summaries");
}

#[test]
fn normalize_skill_document_adds_frontmatter_when_missing() {
    let normalized = normalize_skill_document("# Title\n\nBody", "Please summarize Alice sessions");
    assert!(normalized.starts_with("---\nname: please-summarize-alice-sessions"));
}

#[test]
fn extract_skill_name_reads_frontmatter_slug() {
    let doc = "---\nname: alice-session-summaries\ndescription: x\n---\n\n# Body\n";
    assert_eq!(extract_skill_name(doc), Some("alice-session-summaries".to_string()));
}

#[test]
fn normalized_document_keeps_existing_frontmatter() {
    let doc = "  ---\nname: x\n---\nbody  ";
    assert_eq!(normalize_skill_document(doc, "ignored"), "---\nname: x\n---\nbody\n");
}

#[test]
fn normalized_document_describes_itself_by_its_first_line() {
    let n = normalize_skill_document("\n  # Title  \nBody", "Summarize logs");
    assert_eq!(
        n,
        "---\nname: summarize-logs\ndescription: # Title\n---\n\n# Title  \nBody\n"
    );
}

#[test]
fn extract_skill_name_needs_frontmatter() {
    assert_eq!(extract_skill_name("# no front matter"), None);
    assert_eq!(extract_skill_name("---\ndescription: x\n---\nname: late\n"), None);
    assert_eq!(extract_skill_name("---\nName : My Skill\n---\n"), None);
    assert_eq!(extract_skill_name("---\n name :  My Skill \n---\n"), Some("my-skill".to_string()));
}

#[test]
fn fallback_name_is_slug_of_input_or_default() {
    assert_eq!(fallback_skill_name("Summarize Logs!!"), "summarize-logs");
    assert_eq!(fallback_skill_name("!!!"), "learned-workflow");
}

#[test]
fn reflection_skill_skips_no_skill_answers() {
    assert_eq!(reflection_skill("  no_skill ", "x"), None);
    assert_eq!(reflection_skill("   ", "x"), None);
    let (name, doc) = reflection_skill("# Steps\n1. do", "Deploy the app").expect("skill");
    assert_eq!(name, "deploy-the-app");
    assert!(doc.starts_with("---\nname: deploy-the-app\ndescription: # Steps\n---\n\n"));
}

#[test]
fn reflection_prompt_lists_the_turn() {
    let p = build_reflection_prompt("s", "p", "in", "out");
    assert!(p.starts_with("Session: s\nProfile: p\n\nUser input:\nin\n\nAssistant output:\nout\n\n"));
    assert!(p.ends_with("Otherwise return NO_SKILL."));
}

#[test]
fn reflection_turn_allows_no_tools() {
    let ctx = alice::reflection::reflection_request_context();
    assert!(ctx.system_prompt.as_deref().unwrap_or("").starts_with("You are Alice's AgentReflector.\n"));
    assert_eq!(ctx.allow_tools, Some(vec![]));
    assert!(ctx.selected_skills.is_empty());
}
