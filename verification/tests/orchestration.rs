use alice::handle_input::RequestContextPlan;
use alice::orchestration::{
    OrchestrationError, OrchestrationProfileDescriptor, OrchestrationProfileRegistry,
    OrchestrationTurn, Orchestrator, WorkerTask,
};

fn no_context() -> RequestContextPlan {
    RequestContextPlan { system_prompt: None, selected_skills: Vec::new(), allow_tools: None }
}

fn registry(names: &[&str]) -> OrchestrationProfileRegistry<String> {
    let mut r = OrchestrationProfileRegistry::new();
    for n in names {
        r.register(n, format!("backend-{n}"));
    }
    r
}

fn turn(profile: &str, response: &str) -> OrchestrationTurn {
    OrchestrationTurn {
        profile_name: profile.to_string(),
        session_id: String::new(),
        prompt: String::new(),
        response: response.to_string(),
    }
}

#[test]
fn registry_lists_profiles_in_name_order() {
    let r = registry(&["worker", "manager"]);
    assert_eq!(r.profile_names(), vec!["manager".to_string(), "worker".to_string()]);
    assert_eq!(r.backend("worker"), Some(&"backend-worker".to_string()));
    assert_eq!(r.backend("nobody"), None);
}

#[test]
fn registering_again_replaces_the_backend() {
    let mut r = registry(&["a"]);
    let old = r.register("a", "other".to_string()).expect("replaced");
    assert_eq!(old.backend(), "backend-a");
    assert_eq!(old.name(), "a");
    assert_eq!(r.backend("a"), Some(&"other".to_string()));
    let d = OrchestrationProfileDescriptor::new("b", "db".to_string());
    assert!(r.register_descriptor(d).is_none());
    assert_eq!(r.profile_names(), vec!["a".to_string(), "b".to_string()]);
}

#[test]
fn workers_exclude_the_manager() {
    let o = Orchestrator::new("manager", registry(&["writer", "manager", "planner"]));
    assert_eq!(o.worker_profile_names(), vec!["planner".to_string(), "writer".to_string()]);
}

#[test]
fn session_ids_separate_manager_and_workers() {
    assert_eq!(Orchestrator::<String>::manager_session_id("run-42"), "run-42::manager");
    assert_eq!(Orchestrator::<String>::worker_session_id("run-42", "worker"), "run-42::worker::worker");
    assert_ne!(
        Orchestrator::<String>::manager_session_id("run-42"),
        Orchestrator::<String>::worker_session_id("run-42", "worker")
    );
}

#[test]
fn turn_requests_name_backend_session_and_prompt() {
    let ctx = no_context();
    let o = Orchestrator::new("manager", registry(&["manager", "worker"]));
    let m = o.manager_turn_request("session-root", "manager prompt", &ctx).expect("manager");
    assert_eq!(m.session_id, "session-root::manager");
    assert_eq!(m.prompt, "manager prompt");
    assert_eq!(m.backend, "backend-manager");
    let w = o.worker_turn_request("session-root", &WorkerTask::new("worker", "worker prompt"), &ctx).expect("worker");
    assert_eq!(w.session_id, "session-root::worker::worker");
    assert_eq!(w.profile_name, "worker");
    assert_eq!(w.backend, "backend-worker");
    assert!(w.context.system_prompt.is_none());
}

#[test]
fn missing_profiles_surface_as_errors_when_planned() {
    let ctx = no_context();
    let o = Orchestrator::new("manager", registry(&["manager"]));
    let err = o.worker_turn_request("run-7", &WorkerTask::new("worker", "worker prompt"), &ctx).err().expect("missing");
    assert_eq!(err, OrchestrationError::MissingProfile { profile_name: "worker".to_string() });
    assert_eq!(err.message(), "missing orchestration profile 'worker'");
    let headless = Orchestrator::new("boss", registry(&["worker"]));
    assert!(headless.manager_turn_request("r", "p", &ctx).is_err());
}

#[test]
fn backend_failures_carry_the_message() {
    let ctx = no_context();
    let o = Orchestrator::new("manager", registry(&["manager"]));
    let req = o.manager_turn_request("r", "p", &ctx).expect("manager");
    let err = Orchestrator::turn_result(&req, Err("boom".to_string())).err().expect("failed");
    assert_eq!(err.message(), "orchestration profile 'manager' failed: boom");
    let ok = Orchestrator::turn_result(&req, Ok("fine".to_string())).expect("ok");
    assert_eq!(ok.response, "fine");
    assert_eq!(ok.session_id, "r::manager");
}

#[test]
fn summary_lists_manager_then_workers() {
    let run = Orchestrator::<String>::assemble_run(
        turn("manager", "mgr:manager:manager prompt"),
        vec![turn("planner", "plan:planner:planner prompt"), turn("writer", "write:writer:writer prompt")],
    );
    assert_eq!(
        run.summary,
        "manager: mgr:manager:manager prompt\nplanner: plan:planner:planner prompt\nwriter: write:writer:writer prompt"
    );
    assert_eq!(run.workers.len(), 2);
    assert_eq!(Orchestrator::<String>::render_summary(&turn("manager", "x"), &[]), "manager: x");
}

#[test]
fn whole_run_from_backend_replies() {
    let o = Orchestrator::new("manager", registry(&["manager", "planner", "writer"]));
    let tasks = vec![WorkerTask::new("planner", "plan it"), WorkerTask::new("writer", "write it")];
    let run = o
        .run_from_replies(
            "root",
            "lead",
            &tasks,
            &Ok("ok".to_string()),
            &[Ok("plan".to_string()), Ok("text".to_string())],
        )
        .expect("run");
    assert_eq!(run.manager.session_id, "root::manager");
    assert_eq!(run.manager.prompt, "lead");
    assert_eq!(run.workers[0].session_id, "root::worker::planner");
    assert_eq!(run.workers[1].prompt, "write it");
    assert_eq!(run.summary, "manager: ok\nplanner: plan\nwriter: text");
    let failed = o
        .run_from_replies("root", "lead", &tasks, &Ok("ok".to_string()), &[Ok("plan".to_string()), Err("down".to_string())])
        .err()
        .expect("failed");
    assert_eq!(failed.message(), "orchestration profile 'writer' failed: down");
    let missing = o
        .run_from_replies(
            "root",
            "lead",
            &[WorkerTask::new("ghost", "boo")],
            &Ok("ok".to_string()),
            &[Ok("x".to_string())],
        )
        .err()
        .expect("missing");
    assert_eq!(missing, OrchestrationError::MissingProfile { profile_name: "ghost".to_string() });
    let manager_down = o
        .run_from_replies("root", "lead", &tasks, &Err("no".to_string()), &[Ok("a".to_string()), Ok("b".to_string())])
        .err()
        .expect("manager failed");
    assert_eq!(manager_down.message(), "orchestration profile 'manager' failed: no");
}
