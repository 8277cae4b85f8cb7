//! Handling one user input: routing it, composing the request context around it, and
//! the replies that go back to the channel. Running the agent turn is left to the
//! caller, which hands the outcome back.
use vstd::prelude::*;

use crate::clock::current_time_millis;
use crate::identity::{
    bind_command_model, bind_command_reply, bind_refused_message, bind_success_message,
    bind_usage_message, spec_message_turn, IdentityResolver, ResolvedTurnIdentity,
};
use crate::orchestration::{names_except, Orchestrator, WorkerTask};
use crate::runtime_state::domain::ActiveSessionLeaseView;
use crate::runtime_state::error::{service_message, RuntimeStateServiceError};
use crate::runtime_state::ports::RuntimeStateStorePort;
use crate::text::{
    char_vec_views, has_prefix, join, join_chars, push_str, str_chars, str_to_string,
    string_from_chars, string_views, trim, trim_slice,
};

verus! {

/// `bob_runtime::router::route`: whether the input goes to the slash-command handler.
/// Per its source, an input is a slash command exactly when, trimmed, it begins with `/`.
#[verifier::external_body]
fn routes_to_slash_command(input: &str) -> (r: bool)
    ensures
        r == has_prefix(trim(input@), "/"@),
{
    match bob_runtime::router::route(input) {
        bob_runtime::router::RouteResult::SlashCommand(_) => true,
        bob_runtime::router::RouteResult::NaturalLanguage(_) => false,
    }
}

/// The profile a turn is remembered under: the given one, the session otherwise.
pub fn effective_profile_id<'a>(session_id: &'a str, profile_id: Option<&'a str>) -> (r: &'a str)
    ensures
        r@ == (match profile_id {
            Some(p) => p@,
            None => session_id@,
        }),
{
    match profile_id {
        Some(p) => p,
        None => session_id,
    }
}

/// How an input is handled.
pub enum InputPlan {
    /// Blank input: answered with empty command output.
    Blank,
    /// A slash command, handed (trimmed) to the command handler.
    SlashCommand(String),
    /// Natural language fanned out to the orchestrator's workers, one task each, all with
    /// the trimmed input as prompt.
    Orchestrate {
        /// The trimmed input.
        prompt: String,
        /// One task per worker profile, in worker order.
        tasks: Vec<WorkerTask>,
    },
    /// Natural language run as one agent turn on the trimmed input.
    AgentTurn(String),
}

/// Whether `tasks` hold one task per worker name, in order, each with `prompt`.
pub open spec fn tasks_for_workers(tasks: Seq<WorkerTask>, workers: Seq<Seq<char>>, prompt: Seq<char>) -> bool {
    &&& tasks.len() == workers.len()
    &&& forall|i: int|
        0 <= i < tasks.len() ==> #[trigger] tasks[i].spec_profile_name() == workers[i]
            && tasks[i].spec_prompt() == prompt
}

/// Decide how an input is handled: blank input gets empty output; a slash command goes
/// to the command handler; natural language fans out to the workers when
/// auto-orchestration is on and an orchestrator with at least one worker exists, and
/// runs as one agent turn otherwise.
pub fn plan_input<B>(input: &str, auto_orchestrate: bool, orchestrator: Option<&Orchestrator<B>>) -> (r:
    InputPlan)
    requires
        orchestrator matches Some(o) ==> o.inv(),
    ensures
        trim(input@).len() == 0 ==> r is Blank,
        trim(input@).len() > 0 && has_prefix(trim(input@), "/"@) ==> (r matches InputPlan::SlashCommand(c)
            && c@ == trim(input@)),
        trim(input@).len() > 0 && !has_prefix(trim(input@), "/"@) ==> match orchestrator {
            Some(o) => if auto_orchestrate && names_except(
                o.spec_registry().names(),
                o.manager_name(),
            ).len() > 0 {
                r matches InputPlan::Orchestrate { prompt, tasks } && prompt@ == trim(input@)
                    && tasks_for_workers(
                    tasks@,
                    names_except(o.spec_registry().names(), o.manager_name()),
                    trim(input@),
                )
            } else {
                r matches InputPlan::AgentTurn(p) && p@ == trim(input@)
            },
            None => r matches InputPlan::AgentTurn(p) && p@ == trim(input@),
        },
{
    let trimmed = trim_slice(input);
    if trimmed.unicode_len() == 0 {
        return InputPlan::Blank;
    }
    if routes_to_slash_command(trimmed) {
        proof {
            crate::text::lemma_trim_idempotent(input@);
        }
        return InputPlan::SlashCommand(str_to_string(trimmed));
    }
    proof {
        crate::text::lemma_trim_idempotent(input@);
    }
    if auto_orchestrate {
        if let Some(o) = orchestrator {
            let workers = o.worker_profile_names();
            if workers.len() > 0 {
                let mut tasks: Vec<WorkerTask> = Vec::new();
                let mut i: usize = 0;
                while i < workers.len()
                    invariant
                        i <= workers.len(),
                        tasks.len() == i,
                        forall|j: int|
                            0 <= j < i ==> #[trigger] tasks@[j].spec_profile_name() == workers@[j]@
                                && tasks@[j].spec_prompt() == trimmed@,
                    decreases workers.len() - i,
                {
                    tasks.push(WorkerTask::new(workers[i].as_str(), trimmed));
                    i = i + 1;
                }
                proof {
                    let ws = names_except(o.spec_registry().names(), o.manager_name());
                    assert forall|j: int| 0 <= j < tasks.len() implies #[trigger] tasks@[j].spec_profile_name()
                        == ws[j] by {
                        assert(string_views(workers@)[j] == workers@[j]@);
                    }
                }
                return InputPlan::Orchestrate { prompt: str_to_string(trimmed), tasks };
            }
        }
    }
    InputPlan::AgentTurn(str_to_string(trimmed))
}

/// Skills rendered for an input: the prompt to inject, the skills it selected, and the
/// tools those skills allow.
pub struct SkillsBundle {
    /// Prompt text to inject.
    pub prompt: String,
    /// Names of the selected skills.
    pub selected_skill_names: Vec<String>,
    /// Tools the selected skills allow.
    pub selected_allowed_tools: Vec<String>,
}

/// Per-request overrides handed to the agent turn.
pub struct RequestContextPlan {
    /// Extra instructions appended to the runtime system prompt.
    pub system_prompt: Option<String>,
    /// Skill names selected for this request.
    pub selected_skills: Vec<String>,
    /// Tools the request may call; `None` allows every tool that is not denied.
    pub allow_tools: Option<Vec<String>>,
}

/// The pieces of the system prompt, in order: the user profile, the recalled memory, and
/// the skills prompt when it is not empty.
pub open spec fn system_parts(
    profile_prompt: Option<Seq<char>>,
    memory_prompt: Option<Seq<char>>,
    skills_prompt: Option<Seq<char>>,
) -> Seq<Seq<char>> {
    (match profile_prompt {
        Some(p) => seq![p],
        None => Seq::empty(),
    }) + (match memory_prompt {
        Some(m) => seq![m],
        None => Seq::empty(),
    }) + (match skills_prompt {
        Some(s) => if s.len() > 0 {
            seq![s]
        } else {
            Seq::empty()
        },
        None => Seq::empty(),
    })
}

/// The system prompt: its pieces separated by blank lines, none when there is no piece.
pub open spec fn spec_system_prompt(
    profile_prompt: Option<Seq<char>>,
    memory_prompt: Option<Seq<char>>,
    skills_prompt: Option<Seq<char>>,
) -> Option<Seq<char>> {
    let parts = system_parts(profile_prompt, memory_prompt, skills_prompt);
    if parts.len() == 0 {
        None
    } else {
        Some(join(parts, "\n\n"@))
    }
}

/// Law: each piece of the system prompt is taken on its own: the user profile when there
/// is one, then the recalled memory when there is some, then the skills prompt when it is
/// not empty, whatever the others are. So the prompt is absent exactly when all three are,
/// and a single piece is the whole prompt.
pub proof fn lemma_system_prompt_pieces_independent(
    profile_prompt: Option<Seq<char>>,
    memory_prompt: Option<Seq<char>>,
    skills_prompt: Option<Seq<char>>,
)
    ensures
        ({
            let parts = system_parts(profile_prompt, memory_prompt, skills_prompt);
            let np: int = if profile_prompt is Some { 1 } else { 0 };
            let nm: int = if memory_prompt is Some { 1 } else { 0 };
            let has_skills = skills_prompt matches Some(sk) && sk.len() > 0;
            let ns: int = if has_skills { 1 } else { 0 };
            &&& parts.len() == np + nm + ns
            &&& profile_prompt matches Some(p) ==> parts[0] == p
            &&& memory_prompt matches Some(m) ==> parts[np] == m
            &&& has_skills ==> parts[np + nm] == skills_prompt->0
        }),
        (spec_system_prompt(profile_prompt, memory_prompt, skills_prompt) is None) <==> (
        profile_prompt is None && memory_prompt is None && !(skills_prompt matches Some(sk)
            && sk.len() > 0)),
        profile_prompt is None && memory_prompt is None ==> (skills_prompt matches Some(sk) ==> (
        sk.len() > 0 ==> spec_system_prompt(profile_prompt, memory_prompt, skills_prompt) == Some(
            sk,
        ))),
        profile_prompt is None && skills_prompt is None ==> (memory_prompt matches Some(m)
            ==> spec_system_prompt(profile_prompt, memory_prompt, skills_prompt) == Some(m)),
        memory_prompt is None && skills_prompt is None ==> (profile_prompt matches Some(p)
            ==> spec_system_prompt(profile_prompt, memory_prompt, skills_prompt) == Some(p)),
{
}

/// The view of an optional string slice.
pub open spec fn opt_slice_view(o: Option<&str>) -> Option<Seq<char>> {
    match o {
        Some(s) => Some(s@),
        None => None,
    }
}

/// The view of an optional string.
pub open spec fn opt_string_view(o: Option<String>) -> Option<Seq<char>> {
    match o {
        Some(s) => Some(s@),
        None => None,
    }
}

/// The request context of a turn, from the user-profile prompt, the recalled-memory
/// prompt and the rendered skills, when there are any.
pub fn build_request_context(
    profile_prompt: Option<&str>,
    memory_prompt: Option<&str>,
    skills: Option<&SkillsBundle>,
) -> (r: RequestContextPlan)
    ensures
        opt_string_view(r.system_prompt) == spec_system_prompt(
            opt_slice_view(profile_prompt),
            opt_slice_view(memory_prompt),
            match skills {
                Some(b) => Some(b.prompt@),
                None => None,
            },
        ),
        string_views(r.selected_skills@) == (match skills {
            Some(b) => string_views(b.selected_skill_names@),
            None => Seq::empty(),
        }),
        match r.allow_tools {
            Some(tools) => skills matches Some(b) && b.selected_allowed_tools@.len() > 0
                && string_views(tools@) == string_views(b.selected_allowed_tools@),
            None => skills is None || skills->0.selected_allowed_tools@.len() == 0,
        },
{
    let mut parts: Vec<Vec<char>> = Vec::new();
    if let Some(p) = profile_prompt {
        parts.push(str_chars(p));
    }
    if let Some(m) = memory_prompt {
        parts.push(str_chars(m));
    }
    if let Some(b) = skills {
        if b.prompt.unicode_len() > 0 {
            parts.push(str_chars(b.prompt.as_str()));
        }
    }
    let ghost sp = match skills {
        Some(b) => Some(b.prompt@),
        None => None::<Seq<char>>,
    };
    assert(char_vec_views(parts@) =~= system_parts(
        opt_slice_view(profile_prompt),
        opt_slice_view(memory_prompt),
        sp,
    ));
    let system_prompt = if parts.len() == 0 {
        None
    } else {
        let mut sep: Vec<char> = Vec::new();
        push_str(&mut sep, "\n\n");
        let joined = join_chars(&parts, &sep);
        Some(string_from_chars(joined.as_slice()))
    };
    let (selected_skills, allow_tools) = match skills {
        Some(b) => {
            let names = crate::agent_backend::copy_strings(&b.selected_skill_names);
            let tools = if b.selected_allowed_tools.len() == 0 {
                None
            } else {
                Some(crate::agent_backend::copy_strings(&b.selected_allowed_tools))
            };
            (names, tools)
        },
        None => (Vec::new(), None),
    };
    RequestContextPlan { system_prompt, selected_skills, allow_tools }
}

/// What an agent turn produced, as far as the reply is concerned.
pub enum AgentOutput {
    /// The agent finished with a response.
    Finished(String),
    /// A slash command produced output.
    CommandOutput(String),
    /// The user asked to quit.
    Quit,
}

/// The text to show for an agent output; none for a quit.
pub fn output_to_text(output: &AgentOutput) -> (r: Option<&str>)
    ensures
        match output {
            AgentOutput::Finished(s) => r matches Some(t) && t@ == s@,
            AgentOutput::CommandOutput(s) => r matches Some(t) && t@ == s@,
            AgentOutput::Quit => r is None,
        },
{
    match output {
        AgentOutput::Finished(s) => Some(s.as_str()),
        AgentOutput::CommandOutput(s) => Some(s.as_str()),
        AgentOutput::Quit => None,
    }
}

/// The reply posted for an error on a chat thread.
pub open spec fn error_reply(message: Seq<char>) -> Seq<char> {
    "Error: "@ + message
}

/// The reply posted for an error on a chat thread.
fn error_reply_text(message: &str) -> (r: String)
    ensures
        r@ == error_reply(message@),
{
    let mut out: Vec<char> = Vec::new();
    push_str(&mut out, "Error: ");
    push_str(&mut out, message);
    string_from_chars(out.as_slice())
}

/// Whether `t` is the reply to a failed runtime-state operation: `Error: ` and the
/// failure's message.
pub open spec fn is_error_reply(t: Seq<char>) -> bool {
    exists|e: RuntimeStateServiceError| t == error_reply(#[trigger] service_message(e))
}

/// Where handling a chat message stands after its identity work.
pub enum MessageStep {
    /// Post this reply to the thread; handling ends there.
    Reply(String),
    /// Run an agent turn for this identity on the message text.
    RunTurn(ResolvedTurnIdentity),
}

/// The first part of handling a chat message at the given time: a `/bind` command is
/// consumed and answered, and any other message resolves the identity its turn runs
/// under. Failures are answered with their message.
pub fn begin_message_at<S: RuntimeStateStorePort>(
    resolver: &mut IdentityResolver<S>,
    adapter_name: &str,
    author_user_id: &str,
    thread_id: &str,
    text: &str,
    now_ms: i64,
) -> (r: MessageStep)
    requires
        old(resolver).inv(),
    ensures
        final(resolver).inv(),
        r matches MessageStep::RunTurn(id) ==> crate::identity::spec_parse_bind_command(text@) is None
            && final(resolver).model() == old(resolver).model() && id@ == spec_message_turn(
            old(resolver).model(),
            adapter_name@,
            author_user_id@,
            thread_id@,
        ),
        final(resolver).store_infallible() == old(resolver).store_infallible(),
        crate::identity::spec_parse_bind_command(text@) is Some ==> r is Reply,
        crate::identity::spec_parse_bind_command(text@) is None ==> final(resolver).model() == old(
            resolver,
        ).model(),
        crate::identity::spec_parse_bind_command(text@) is None && old(resolver).store_infallible()
            ==> r is RunTurn,
        crate::identity::spec_parse_bind_command(text@) is None ==> (r matches MessageStep::Reply(t)
            ==> is_error_reply(t@)),
        crate::identity::spec_parse_bind_command(text@) == Some(Seq::<char>::empty()) ==> (
        r matches MessageStep::Reply(t) && t@ == bind_usage_message()),
        crate::identity::spec_parse_bind_command(text@) != Some(Seq::<char>::empty()) ==> (
        r matches MessageStep::Reply(t) ==> ({
            ||| t@ == bind_refused_message()
            ||| exists|g: Seq<char>|
                t@ == #[trigger] bind_success_message(adapter_name@, g) && (final(resolver).model()
                    .binding_for(adapter_name@, author_user_id@) matches Some(b)
                    && b.global_user_id == g)
            ||| !old(resolver).store_infallible() && is_error_reply(t@)
        })),
        crate::identity::spec_parse_bind_command(text@) matches Some(tok) ==> (tok.len() > 0 ==> (
        r matches MessageStep::Reply(t) ==> ((t@ == bind_command_reply(
            old(resolver).model(),
            tok,
            adapter_name@,
            now_ms,
        ).1 && final(resolver).model() == bind_command_model(
            old(resolver).model(),
            tok,
            adapter_name@,
            author_user_id@,
            now_ms,
        )) || (!old(resolver).store_infallible() && is_error_reply(t@))))),
{
    match resolver.consume_bind_command_at(adapter_name, author_user_id, text, now_ms) {
        Ok(Some(outcome)) => {
            proof {
                if let Some(g) = outcome.global_user_id {
                    assert(outcome.message@ == bind_success_message(adapter_name@, g@));
                }
            }
            return MessageStep::Reply(outcome.message);
        },
        Ok(None) => {
            proof {
                if let Some(tok) = crate::identity::spec_parse_bind_command(text@) {
                    if tok.len() == 0 {
                        assert(tok =~= Seq::<char>::empty());
                    }
                }
            }
        },
        Err(e) => {
            let m = e.message();
            let reply = error_reply_text(m.as_str());
            assert(reply@ == error_reply(service_message(e)));
            return MessageStep::Reply(reply);
        },
    }
    match resolver.resolve_message_turn(adapter_name, author_user_id, thread_id) {
        Ok(identity) => MessageStep::RunTurn(identity),
        Err(e) => {
            let m = e.message();
            let reply = error_reply_text(m.as_str());
            assert(reply@ == error_reply(service_message(e)));
            MessageStep::Reply(reply)
        },
    }
}

/// The first part of handling a chat message, at the current time: a `/bind` command is
/// consumed and answered, and any other message resolves the identity its turn runs
/// under. Failures are answered with their message.
pub fn begin_message<S: RuntimeStateStorePort>(
    resolver: &mut IdentityResolver<S>,
    adapter_name: &str,
    author_user_id: &str,
    thread_id: &str,
    text: &str,
) -> (r: MessageStep)
    requires
        old(resolver).inv(),
    ensures
        final(resolver).inv(),
        r matches MessageStep::RunTurn(id) ==> crate::identity::spec_parse_bind_command(text@) is None
            && final(resolver).model() == old(resolver).model() && id@ == spec_message_turn(
            old(resolver).model(),
            adapter_name@,
            author_user_id@,
            thread_id@,
        ),
        final(resolver).store_infallible() == old(resolver).store_infallible(),
        crate::identity::spec_parse_bind_command(text@) is Some ==> r is Reply,
        crate::identity::spec_parse_bind_command(text@) is None ==> final(resolver).model() == old(
            resolver,
        ).model(),
        crate::identity::spec_parse_bind_command(text@) is None && old(resolver).store_infallible()
            ==> r is RunTurn,
        crate::identity::spec_parse_bind_command(text@) is None ==> (r matches MessageStep::Reply(t)
            ==> is_error_reply(t@)),
        crate::identity::spec_parse_bind_command(text@) == Some(Seq::<char>::empty()) ==> (
        r matches MessageStep::Reply(t) && t@ == bind_usage_message()),
        crate::identity::spec_parse_bind_command(text@) != Some(Seq::<char>::empty()) ==> (
        r matches MessageStep::Reply(t) ==> ({
            ||| t@ == bind_refused_message()
            ||| exists|g: Seq<char>|
                t@ == #[trigger] bind_success_message(adapter_name@, g) && (final(resolver).model()
                    .binding_for(adapter_name@, author_user_id@) matches Some(b)
                    && b.global_user_id == g)
            ||| !old(resolver).store_infallible() && is_error_reply(t@)
        })),
        crate::identity::spec_parse_bind_command(text@) matches Some(tok) ==> (tok.len() > 0 ==> (
        r matches MessageStep::Reply(t) ==> ((exists|now_ms: i64|
            t@ == (#[trigger] bind_command_reply(old(resolver).model(), tok, adapter_name@, now_ms)).1
                && final(resolver).model() == bind_command_model(
                old(resolver).model(),
                tok,
                adapter_name@,
                author_user_id@,
                now_ms,
            )) || (!old(resolver).store_infallible() && is_error_reply(t@))))),
{
    let now_ms = current_time_millis();
    begin_message_at(resolver, adapter_name, author_user_id, thread_id, text, now_ms)
}

/// The reply to a chat message once its agent turn ran: none for a quit or for empty
/// output, the output otherwise, and the error's message for a failed turn. After a turn
/// that produced output the session is remembered as the user's active one on this
/// thread; failing to remember it does not change the reply.
pub fn finish_message<S: RuntimeStateStorePort>(
    resolver: &mut IdentityResolver<S>,
    identity: &ResolvedTurnIdentity,
    adapter_name: &str,
    thread_id: &str,
    outcome: &Result<AgentOutput, String>,
) -> (r: Option<String>)
    requires
        old(resolver).inv(),
    ensures
        final(resolver).inv(),
        match outcome {
            Ok(AgentOutput::Quit) => r is None && final(resolver).model() == old(resolver).model(),
            Ok(AgentOutput::Finished(s)) => if s@.len() == 0 {
                r is None
            } else {
                r matches Some(t) && t@ == s@
            },
            Ok(AgentOutput::CommandOutput(s)) => if s@.len() == 0 {
                r is None
            } else {
                r matches Some(t) && t@ == s@
            },
            Err(e) => (r matches Some(t) && t@ == error_reply(e@)) && final(resolver).model()
                == old(resolver).model(),
        },
        final(resolver).model() == old(resolver).model() || (identity@.global_user_id matches Some(g)
            && exists|l: ActiveSessionLeaseView|
            l.global_user_id == g && l.session_id == identity@.session_id && l.channel == Some(
                adapter_name@,
            ) && l.thread_id == Some(thread_id@) && #[trigger] old(resolver).model().with_session(l)
                == final(resolver).model()),
        final(resolver).store_infallible() == old(resolver).store_infallible(),
        old(resolver).store_infallible() && outcome is Ok && !(outcome matches Ok(AgentOutput::Quit))
            ==> (identity@.global_user_id matches Some(g) ==> exists|l: ActiveSessionLeaseView|
            l.global_user_id == g && l.session_id == identity@.session_id && l.channel == Some(
                adapter_name@,
            ) && l.thread_id == Some(thread_id@) && #[trigger] old(resolver).model().with_session(l)
                == final(resolver).model()),
        identity@.global_user_id is None ==> final(resolver).model() == old(resolver).model(),
{
    match outcome {
        Ok(AgentOutput::Quit) => None,
        Ok(output) => {
            let _ = resolver.remember_active_session_with_thread_id(
                identity,
                Some(adapter_name),
                Some(thread_id),
            );
            match output_to_text(output) {
                Some(text) => if text.unicode_len() > 0 {
                    Some(str_to_string(text))
                } else {
                    None
                },
                None => None,
            }
        },
        Err(e) => Some(error_reply_text(e.as_str())),
    }
}

/// The output a plain channel sends for a turn: none for blank input or a quit, the
/// output when it is not empty, and `error: <message>` flagged as an error for a failed
/// turn. The flag says whether the text reports an error.
pub open spec fn spec_channel_reply(outcome: Result<AgentOutput, String>) -> Option<(Seq<char>, bool)> {
    match outcome {
        Ok(AgentOutput::Quit) => None,
        Ok(AgentOutput::Finished(s)) => if s@.len() == 0 {
            None
        } else {
            Some((s@, false))
        },
        Ok(AgentOutput::CommandOutput(s)) => if s@.len() == 0 {
            None
        } else {
            Some((s@, false))
        },
        Err(e) => Some(("error: "@ + e@, true)),
    }
}

/// The output a plain channel sends for a turn, and whether it reports an error.
pub fn channel_reply(outcome: &Result<AgentOutput, String>) -> (r: Option<(String, bool)>)
    ensures
        match r {
            Some((t, is_error)) => spec_channel_reply(*outcome) == Some((t@, is_error)),
            None => spec_channel_reply(*outcome) is None,
        },
{
    match outcome {
        Ok(AgentOutput::Quit) => None,
        Ok(output) => match output_to_text(output) {
            Some(text) => if text.unicode_len() > 0 {
                Some((str_to_string(text), false))
            } else {
                None
            },
            None => None,
        },
        Err(e) => {
            let mut out: Vec<char> = Vec::new();
            push_str(&mut out, "error: ");
            push_str(&mut out, e.as_str());
            Some((string_from_chars(out.as_slice()), true))
        },
    }
}

} // verus!
