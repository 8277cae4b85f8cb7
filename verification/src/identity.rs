//! Identity resolution helpers for cross-channel continuity.
use vstd::prelude::*;

use crate::runtime_state::domain::{opt_str_view, ActiveSessionLease, ActiveSessionLeaseView, BindToken};
use crate::runtime_state::error::{RuntimeStateServiceError, RuntimeStateValidationError};
use crate::runtime_state::ports::{RuntimeStateModel, RuntimeStateStorePort};
use crate::clock::current_time_millis;
use crate::runtime_state::service::{
    consume_decision, consumed_binding, issued_token, opt_str_slice_view, RuntimeStateService,
};
use crate::text::{
    has_prefix, push_str, str_eq, str_starts_with, str_to_string, string_from_chars,
    strip_prefix_str, trim, trim_slice,
};

verus! {

/// Provider name of direct command-line turns.
pub open spec fn cli_provider() -> Seq<char> {
    "cli"@
}

/// External user id of the anonymous local command-line user.
pub open spec fn default_cli_user_id() -> Seq<char> {
    "local"@
}

/// Resolved turn identity used by runtime entrypoints.
#[derive(Debug, Clone, PartialEq, Eq)]
pub struct ResolvedTurnIdentity {
    /// Effective session id that should be used for the turn.
    pub session_id: String,
    /// Profile id used for long-term memory and user modeling.
    pub profile_id: String,
    /// Stable global user id when one is known.
    pub global_user_id: Option<String>,
}

/// Abstract value of a [`ResolvedTurnIdentity`].
pub struct ResolvedTurnIdentityView {
    pub session_id: Seq<char>,
    pub profile_id: Seq<char>,
    pub global_user_id: Option<Seq<char>>,
}

impl View for ResolvedTurnIdentity {
    type V = ResolvedTurnIdentityView;

    open spec fn view(&self) -> ResolvedTurnIdentityView {
        ResolvedTurnIdentityView {
            session_id: self.session_id@,
            profile_id: self.profile_id@,
            global_user_id: opt_str_view(self.global_user_id),
        }
    }
}

/// Result of attempting to consume a `/bind` command.
#[derive(Debug, Clone, PartialEq, Eq)]
pub struct BindCommandOutcome {
    /// Bound global user id when the command succeeded.
    pub global_user_id: Option<String>,
    /// User-facing response message that should be posted back to the channel.
    pub message: String,
}

/// The token of a `/bind <token>` command: the trimmed input must begin with `/bind`,
/// and the token is the rest, trimmed.
pub open spec fn spec_parse_bind_command(input: Seq<char>) -> Option<Seq<char>> {
    let t = trim(input);
    if has_prefix(t, "/bind"@) {
        Some(trim(t.skip(5)))
    } else {
        None
    }
}

/// The session id used for a channel thread: the thread id itself for the command line
/// or when it already starts with the provider name, `{provider}-{thread_id}` otherwise.
pub open spec fn spec_default_channel_session_id(provider: Seq<char>, thread_id: Seq<char>) -> Seq<
    char,
> {
    if provider == cli_provider() || has_prefix(thread_id, provider) {
        thread_id
    } else {
        provider + "-"@ + thread_id
    }
}

/// The session a global user continues: the active lease's session, or `fallback`.
pub open spec fn preferred_session(
    model: RuntimeStateModel,
    global_user_id: Seq<char>,
    fallback: Seq<char>,
) -> Seq<char> {
    match model.sessions.get(global_user_id) {
        Some(lease) => lease.session_id,
        None => fallback,
    }
}

/// The global user behind a provider identity: a named command-line user is its own
/// global user; other identities go through their stored binding.
pub open spec fn spec_resolve_global_user(
    model: RuntimeStateModel,
    provider: Seq<char>,
    external_user_id: Seq<char>,
) -> Option<Seq<char>> {
    if provider == cli_provider() && external_user_id != default_cli_user_id() {
        Some(external_user_id)
    } else {
        match model.binding_for(provider, external_user_id) {
            Some(b) => Some(b.global_user_id),
            None => None,
        }
    }
}

/// The identity of a direct command-line turn.
pub open spec fn spec_cli_turn(
    model: RuntimeStateModel,
    requested_session_id: Seq<char>,
    explicit_global_user_id: Option<Seq<char>>,
) -> ResolvedTurnIdentityView {
    match explicit_global_user_id {
        None => ResolvedTurnIdentityView {
            session_id: requested_session_id,
            profile_id: requested_session_id,
            global_user_id: None,
        },
        Some(g) => ResolvedTurnIdentityView {
            session_id: preferred_session(model, g, requested_session_id),
            profile_id: g,
            global_user_id: Some(g),
        },
    }
}

/// The identity of a provider message turn.
pub open spec fn spec_message_turn(
    model: RuntimeStateModel,
    provider: Seq<char>,
    external_user_id: Seq<char>,
    thread_id: Seq<char>,
) -> ResolvedTurnIdentityView {
    let channel_session_id = spec_default_channel_session_id(provider, thread_id);
    match spec_resolve_global_user(model, provider, external_user_id) {
        None => ResolvedTurnIdentityView {
            session_id: channel_session_id,
            profile_id: provider + "-user-"@ + external_user_id,
            global_user_id: None,
        },
        Some(g) => ResolvedTurnIdentityView {
            session_id: preferred_session(model, g, channel_session_id),
            profile_id: g,
            global_user_id: Some(g),
        },
    }
}

/// Law: across channels, a global user continues one conversation. When a channel
/// identity is bound to a global user who has an active session, a message from that
/// identity and a command-line turn for that user both run in the active session, under
/// the user's own profile.
pub proof fn lemma_cross_channel_continuity(
    model: RuntimeStateModel,
    provider: Seq<char>,
    external_user_id: Seq<char>,
    thread_id: Seq<char>,
    requested_session_id: Seq<char>,
)
    requires
        provider != cli_provider(),
        model.binding_for(provider, external_user_id) is Some,
        model.sessions.contains_key(model.binding_for(provider, external_user_id)->0.global_user_id),
    ensures
        ({
            let g = model.binding_for(provider, external_user_id)->0.global_user_id;
            let m = spec_message_turn(model, provider, external_user_id, thread_id);
            let c = spec_cli_turn(model, requested_session_id, Some(g));
            &&& m.session_id == model.sessions[g].session_id
            &&& c.session_id == m.session_id
            &&& m.profile_id == g && c.profile_id == g
            &&& m.global_user_id == Some(g) && c.global_user_id == Some(g)
        }),
{
}

/// Law: a command-line message from a named user (any user id but `local`) runs as that
/// user, with no stored binding needed: the user id is the turn's global user and its
/// profile, and the turn continues the user's active session, or runs in the requested
/// thread when the user has none.
pub proof fn lemma_named_cli_user_is_global(
    model: RuntimeStateModel,
    user: Seq<char>,
    thread_id: Seq<char>,
)
    requires
        user != "local"@,
    ensures
        ({
            let m = spec_message_turn(model, "cli"@, user, thread_id);
            &&& m.global_user_id == Some(user)
            &&& m.profile_id == user
            &&& m.session_id == match model.sessions.get(user) {
                Some(lease) => lease.session_id,
                None => thread_id,
            }
        }),
{
}

/// Law: once a session is remembered as a global user's active one, every bound channel
/// identity of that user continues it.
pub proof fn lemma_remembered_session_is_resumed(
    model: RuntimeStateModel,
    lease: ActiveSessionLeaseView,
    provider: Seq<char>,
    external_user_id: Seq<char>,
    thread_id: Seq<char>,
)
    requires
        provider != cli_provider(),
        model.binding_for(provider, external_user_id) matches Some(b) && b.global_user_id
            == lease.global_user_id,
    ensures
        spec_message_turn(model.with_session(lease), provider, external_user_id, thread_id).session_id
            == lease.session_id,
{
}

/// Law: a channel identity without a binding keeps to its own thread's session and its
/// own per-identity profile, whatever other users have stored.
pub proof fn lemma_unbound_identity_stays_in_channel(
    model: RuntimeStateModel,
    provider: Seq<char>,
    external_user_id: Seq<char>,
    thread_id: Seq<char>,
)
    requires
        provider != cli_provider(),
        model.binding_for(provider, external_user_id) is None,
    ensures
        spec_message_turn(model, provider, external_user_id, thread_id)
            == (ResolvedTurnIdentityView {
            session_id: spec_default_channel_session_id(provider, thread_id),
            profile_id: provider + "-user-"@ + external_user_id,
            global_user_id: None,
        }),
{
}

/// Reply to `/bind` without a token.
pub open spec fn bind_usage_message() -> Seq<char> {
    "Usage: /bind <token>"@
}

/// Reply to a `/bind` whose token cannot be used.
pub open spec fn bind_refused_message() -> Seq<char> {
    "Bind token is invalid, expired, or already used."@
}

/// Reply to a successful `/bind`.
pub open spec fn bind_success_message(provider: Seq<char>, global_user_id: Seq<char>) -> Seq<char> {
    "Bound this "@ + provider + " account to global user '"@ + global_user_id + "'."@
}

/// The global user a `/bind` of `tok` at `now_ms` binds to, and the reply it gets.
pub open spec fn bind_command_reply(
    model: RuntimeStateModel,
    tok: Seq<char>,
    provider: Seq<char>,
    now_ms: i64,
) -> (Option<Seq<char>>, Seq<char>) {
    match consume_decision(model, tok, provider, now_ms) {
        Some(g) => (Some(g), bind_success_message(provider, g)),
        None => (None, bind_refused_message()),
    }
}

/// The runtime state after a `/bind` of `tok` at `now_ms`: the identity bound and the
/// token consumed when the token can be used then, unchanged otherwise.
pub open spec fn bind_command_model(
    model: RuntimeStateModel,
    tok: Seq<char>,
    provider: Seq<char>,
    external_user_id: Seq<char>,
    now_ms: i64,
) -> RuntimeStateModel {
    match consume_decision(model, tok, provider, now_ms) {
        Some(g) => model.with_binding(consumed_binding(provider, external_user_id, g, now_ms)).with_token_consumed(
            tok,
            now_ms,
        ),
        None => model,
    }
}

/// The token of a `/bind <token>` command, or `None` when the input is no `/bind` command.
pub fn parse_bind_command(input: &str) -> (r: Option<&str>)
    ensures
        opt_str_slice(r) == spec_parse_bind_command(input@),
{
    let trimmed = trim_slice(input);
    match strip_prefix_str(trimmed, "/bind") {
        Some(remainder) => {
            proof {
                reveal_strlit("/bind");
            }
            Some(trim_slice(remainder))
        },
        None => None,
    }
}

/// The view of an optional string slice.
pub open spec fn opt_str_slice(o: Option<&str>) -> Option<Seq<char>> {
    match o {
        Some(s) => Some(s@),
        None => None,
    }
}

/// The session id used for a channel thread.
pub fn default_channel_session_id(provider: &str, thread_id: &str) -> (r: String)
    ensures
        r@ == spec_default_channel_session_id(provider@, thread_id@),
{
    if str_eq(provider, "cli") || str_starts_with(thread_id, provider) {
        str_to_string(thread_id)
    } else {
        let mut out: Vec<char> = Vec::new();
        push_str(&mut out, provider);
        push_str(&mut out, "-");
        push_str(&mut out, thread_id);
        string_from_chars(out.as_slice())
    }
}

/// Runtime helper for resolving global identity, bind commands, and session reuse.
pub struct IdentityResolver<S: RuntimeStateStorePort> {
    service: RuntimeStateService<S>,
}

impl<S: RuntimeStateStorePort> IdentityResolver<S> {
    /// The runtime-state contents the resolver works on.
    pub closed spec fn model(&self) -> RuntimeStateModel {
        self.service.model()
    }

    /// The counter that the next bind token issued through the resolver carries.
    pub closed spec fn service_counter(&self) -> u64 {
        self.service.counter()
    }

    /// The resolver's internal consistency.
    pub closed spec fn inv(&self) -> bool {
        self.service.inv()
    }

    /// Whether the underlying store never fails.
    pub closed spec fn store_infallible(&self) -> bool {
        self.service.store_infallible()
    }

    /// Create a new resolver over the given runtime-state service.
    pub fn new(service: RuntimeStateService<S>) -> (r: Self)
        requires
            service.inv(),
        ensures
            r.inv(),
            r.model() == service.model(),
            r.store_infallible() == service.store_infallible(),
    {
        IdentityResolver { service }
    }

    /// The runtime-state service.
    pub fn service(&self) -> (r: &RuntimeStateService<S>)
        ensures
            r.model() == self.model(),
            self.inv() ==> r.inv(),
            r.store_infallible() == self.store_infallible(),
    {
        &self.service
    }

    /// Give back the runtime-state service.
    pub fn into_service(self) -> (r: RuntimeStateService<S>)
        ensures
            r.model() == self.model(),
            self.inv() ==> r.inv(),
            r.store_infallible() == self.store_infallible(),
    {
        self.service
    }

    /// Issue a one-time bind token for a global user id.
    pub fn issue_bind_token(&mut self, global_user_id: &str, provider: Option<&str>, ttl_ms: i64) -> (r:
        Result<BindToken, RuntimeStateServiceError>)
        requires
            old(self).inv(),
        ensures
            final(self).inv(),
            final(self).store_infallible() == old(self).store_infallible(),
            ttl_ms <= 0 ==> r matches Err(
                RuntimeStateServiceError::Validation(RuntimeStateValidationError::InvalidBindTokenTtl),
            ),
            r matches Err(RuntimeStateServiceError::Validation(v)) ==> v
                == RuntimeStateValidationError::InvalidBindTokenTtl,
            r is Err ==> final(self).model() == old(self).model(),
            r matches Ok(t) ==> ttl_ms > 0 && t@ == issued_token(
                global_user_id@,
                opt_str_slice_view(provider),
                ttl_ms,
                t.created_at_epoch_ms,
                old(self).service_counter(),
            ) && !old(self).model().tokens.contains_key(t@.token) && final(self).model()
                == old(self).model().with_token(t@),
    {
        self.service.issue_bind_token(global_user_id, provider, ttl_ms)
    }

    fn preferred_session_for_global_user(&self, global_user_id: &str, fallback_session_id: &str) -> (r:
        Result<String, RuntimeStateServiceError>)
        requires
            self.inv(),
        ensures
            r matches Ok(s) ==> s@ == preferred_session(
                self.model(),
                global_user_id@,
                fallback_session_id@,
            ),
            self.store_infallible() ==> r is Ok,
    {
        match self.service.get_active_session(global_user_id) {
            Ok(Some(lease)) => Ok(lease.session_id),
            Ok(None) => Ok(str_to_string(fallback_session_id)),
            Err(e) => Err(e),
        }
    }

    /// Resolve identity for a direct CLI turn.
    pub fn resolve_cli_turn(&self, requested_session_id: &str, explicit_global_user_id: Option<&str>) -> (r:
        Result<ResolvedTurnIdentity, RuntimeStateServiceError>)
        requires
            self.inv(),
        ensures
            r matches Ok(id) ==> id@ == spec_cli_turn(
                self.model(),
                requested_session_id@,
                opt_str_slice(explicit_global_user_id),
            ),
            explicit_global_user_id is None || self.store_infallible() ==> r is Ok,
    {
        match explicit_global_user_id {
            None => Ok(
                ResolvedTurnIdentity {
                    session_id: str_to_string(requested_session_id),
                    profile_id: str_to_string(requested_session_id),
                    global_user_id: None,
                },
            ),
            Some(g) => {
                let session_id = match self.preferred_session_for_global_user(
                    g,
                    requested_session_id,
                ) {
                    Ok(s) => s,
                    Err(e) => return Err(e),
                };
                Ok(
                    ResolvedTurnIdentity {
                        session_id,
                        profile_id: str_to_string(g),
                        global_user_id: Some(str_to_string(g)),
                    },
                )
            },
        }
    }

    fn resolve_global_user_id(&self, provider: &str, external_user_id: &str) -> (r: Result<
        Option<String>,
        RuntimeStateServiceError,
    >)
        requires
            self.inv(),
        ensures
            r matches Ok(o) ==> opt_str_view(o) == spec_resolve_global_user(
                self.model(),
                provider@,
                external_user_id@,
            ),
            self.store_infallible() ==> r is Ok,
    {
        proof {
            reveal_strlit("cli");
            reveal_strlit("local");
        }
        if str_eq(provider, "cli") && !str_eq(external_user_id, "local") {
            return Ok(Some(str_to_string(external_user_id)));
        }
        self.service.resolve_global_user_id(provider, external_user_id)
    }

    /// Resolve identity for a provider message event.
    pub fn resolve_message_turn(&self, provider: &str, external_user_id: &str, thread_id: &str) -> (r:
        Result<ResolvedTurnIdentity, RuntimeStateServiceError>)
        requires
            self.inv(),
        ensures
            r matches Ok(id) ==> id@ == spec_message_turn(
                self.model(),
                provider@,
                external_user_id@,
                thread_id@,
            ),
            self.store_infallible() ==> r is Ok,
    {
        let channel_session_id = default_channel_session_id(provider, thread_id);
        let global_user_id = match self.resolve_global_user_id(provider, external_user_id) {
            Ok(g) => g,
            Err(e) => return Err(e),
        };
        match global_user_id {
            None => {
                let mut profile: Vec<char> = Vec::new();
                push_str(&mut profile, provider);
                push_str(&mut profile, "-user-");
                push_str(&mut profile, external_user_id);
                Ok(
                    ResolvedTurnIdentity {
                        session_id: channel_session_id,
                        profile_id: string_from_chars(profile.as_slice()),
                        global_user_id: None,
                    },
                )
            },
            Some(g) => {
                let session_id = match self.preferred_session_for_global_user(
                    g.as_str(),
                    channel_session_id.as_str(),
                ) {
                    Ok(s) => s,
                    Err(e) => return Err(e),
                };
                Ok(
                    ResolvedTurnIdentity {
                        session_id,
                        profile_id: g.clone(),
                        global_user_id: Some(g),
                    },
                )
            },
        }
    }

    /// Persist the latest active session lease when a global user id is known.
    pub fn remember_active_session(&mut self, identity: &ResolvedTurnIdentity, channel: Option<&str>) -> (r:
        Result<Option<ActiveSessionLease>, RuntimeStateServiceError>)
        requires
            old(self).inv(),
        ensures
            final(self).inv(),
            final(self).store_infallible() == old(self).store_infallible(),
            identity.global_user_id is None ==> (r matches Ok(None) && final(self).model() == old(self).model()),
            identity.global_user_id is Some ==> !(r matches Ok(None)),
            r matches Ok(Some(l)) ==> identity@.global_user_id == Some(l@.global_user_id)
                && l@.session_id == identity@.session_id && l@.channel == opt_str_slice(channel)
                && l@.thread_id == Some(identity@.session_id) && final(self).model() == old(self).model().with_session(l@),
            r is Err ==> final(self).model() == old(self).model(),
            old(self).store_infallible() ==> r is Ok,
    {
        self.remember_active_session_with_thread_id(identity, channel, None)
    }

    /// Persist the latest active session lease when a global user id is known; the
    /// thread id defaults to the session id.
    pub fn remember_active_session_with_thread_id(
        &mut self,
        identity: &ResolvedTurnIdentity,
        channel: Option<&str>,
        thread_id: Option<&str>,
    ) -> (r: Result<Option<ActiveSessionLease>, RuntimeStateServiceError>)
        requires
            old(self).inv(),
        ensures
            final(self).inv(),
            final(self).store_infallible() == old(self).store_infallible(),
            identity.global_user_id is None ==> (r matches Ok(None) && final(self).model() == old(self).model()),
            identity.global_user_id is Some ==> !(r matches Ok(None)),
            r matches Ok(Some(l)) ==> identity@.global_user_id == Some(l@.global_user_id)
                && l@.session_id == identity@.session_id && l@.channel == opt_str_slice(channel)
                && l@.thread_id == Some(
                match thread_id {
                    Some(t) => t@,
                    None => identity@.session_id,
                },
            ) && final(self).model() == old(self).model().with_session(l@),
            r is Err ==> final(self).model() == old(self).model(),
            old(self).store_infallible() ==> r is Ok,
    {
        let global_user_id = match &identity.global_user_id {
            Some(g) => g,
            None => return Ok(None),
        };
        let effective_thread = match thread_id {
            Some(t) => t,
            None => identity.session_id.as_str(),
        };
        match self.service.upsert_active_session_with_thread_id(
            global_user_id.as_str(),
            identity.session_id.as_str(),
            channel,
            Some(effective_thread),
        ) {
            Ok(l) => Ok(Some(l)),
            Err(e) => Err(e),
        }
    }

    /// Handle a `/bind <token>` command for a channel identity at the given time: a token
    /// that can be used at `now_ms` binds the identity to the token's user and is consumed;
    /// any other token is refused and nothing changes.
    pub fn consume_bind_command_at(
        &mut self,
        provider: &str,
        external_user_id: &str,
        input: &str,
        now_ms: i64,
    ) -> (r: Result<Option<BindCommandOutcome>, RuntimeStateServiceError>)
        requires
            old(self).inv(),
        ensures
            final(self).inv(),
            final(self).store_infallible() == old(self).store_infallible(),
            final(self).service_counter() == old(self).service_counter(),
            spec_parse_bind_command(input@) is None ==> (r matches Ok(None) && final(self).model()
                == old(self).model()),
            spec_parse_bind_command(input@) == Some(Seq::<char>::empty()) ==> (r matches Ok(
                Some(o),
            ) && o.global_user_id is None && o.message@ == bind_usage_message() && final(self).model() == old(self).model()),
            spec_parse_bind_command(input@) matches Some(tok) && tok.len() > 0 ==> !(r matches Ok(
                None,
            )),
            r matches Ok(Some(o)) ==> (o.global_user_id is None ==> final(self).model() == old(self).model() && (o.message@ == bind_usage_message() || o.message@
                == bind_refused_message())),
            r matches Ok(Some(o)) ==> (o.global_user_id is None && spec_parse_bind_command(input@)
                != Some(Seq::<char>::empty()) ==> o.message@ == bind_refused_message()),
            r matches Ok(Some(o)) ==> (o.global_user_id matches Some(g) ==> (spec_parse_bind_command(
                input@,
            ) matches Some(tok) && o.message@ == bind_success_message(provider@, g@)
                && old(self).model().tokens.contains_key(tok) && old(self).model().tokens[tok].global_user_id
                == g@ && (final(self).model().binding_for(provider@, external_user_id@) matches Some(
                b,
            ) && b.global_user_id == g@))),
            r matches Err(e) ==> e is Store,
            old(self).store_infallible() ==> r is Ok,
            spec_parse_bind_command(input@) matches Some(tok) ==> (tok.len() > 0 ==> (r matches Ok(
                Some(o),
            ) ==> bind_command_reply(old(self).model(), tok, provider@, now_ms) == (
            opt_str_view(o.global_user_id),
            o.message@,
            ) && final(self).model() == bind_command_model(
                old(self).model(),
                tok,
                provider@,
                external_user_id@,
                now_ms,
            ))),
    {
        let token = match parse_bind_command(input) {
            Some(t) => t,
            None => return Ok(None),
        };
        if token.unicode_len() == 0 {
            proof {
                reveal_strlit("Usage: /bind <token>");
                assert(token@ =~= Seq::<char>::empty());
            }
            return Ok(
                Some(
                    BindCommandOutcome {
                        global_user_id: None,
                        message: String::from_str("Usage: /bind <token>"),
                    },
                ),
            );
        }
        let maybe_binding = match self.service.consume_bind_token_at(
            token,
            provider,
            external_user_id,
            now_ms,
        ) {
            Ok(b) => b,
            Err(e) => return Err(e),
        };
        assert(spec_parse_bind_command(input@) == Some(token@));
        match maybe_binding {
            None => {
                proof {
                    reveal_strlit("Bind token is invalid, expired, or already used.");
                }
                Ok(
                    Some(
                        BindCommandOutcome {
                            global_user_id: None,
                            message: String::from_str("Bind token is invalid, expired, or already used."),
                        },
                    ),
                )
            },
            Some(binding) => {
                let mut msg: Vec<char> = Vec::new();
                push_str(&mut msg, "Bound this ");
                push_str(&mut msg, provider);
                push_str(&mut msg, " account to global user '");
                push_str(&mut msg, binding.global_user_id.as_str());
                push_str(&mut msg, "'.");
                assert(msg@ =~= bind_success_message(provider@, binding@.global_user_id));
                proof {
                    crate::runtime_state::laws::lemma_consumed_binding_resolves(
                        old(self).model(),
                        token@,
                        provider@,
                        external_user_id@,
                        binding@.global_user_id,
                        now_ms,
                    );
                }
                let outcome = BindCommandOutcome {
                    global_user_id: Some(binding.global_user_id.clone()),
                    message: string_from_chars(msg.as_slice()),
                };
                assert(self.model().binding_for(provider@, external_user_id@) matches Some(b)
                    && b.global_user_id == binding@.global_user_id);
                assert(outcome.message@ == bind_success_message(provider@, binding@.global_user_id));
                Ok(Some(outcome))
            },
        }
    }

    /// Handle a `/bind <token>` command for a channel identity, at the current time.
    pub fn consume_bind_command(&mut self, provider: &str, external_user_id: &str, input: &str) -> (r:
        Result<Option<BindCommandOutcome>, RuntimeStateServiceError>)
        requires
            old(self).inv(),
        ensures
            final(self).inv(),
            final(self).store_infallible() == old(self).store_infallible(),
            final(self).service_counter() == old(self).service_counter(),
            spec_parse_bind_command(input@) is None ==> (r matches Ok(None) && final(self).model()
                == old(self).model()),
            spec_parse_bind_command(input@) == Some(Seq::<char>::empty()) ==> (r matches Ok(
                Some(o),
            ) && o.global_user_id is None && o.message@ == bind_usage_message() && final(self).model() == old(self).model()),
            spec_parse_bind_command(input@) matches Some(tok) && tok.len() > 0 ==> !(r matches Ok(
                None,
            )),
            r matches Ok(Some(o)) ==> (o.global_user_id is None ==> final(self).model() == old(self).model() && (o.message@ == bind_usage_message() || o.message@
                == bind_refused_message())),
            r matches Ok(Some(o)) ==> (o.global_user_id is None && spec_parse_bind_command(input@)
                != Some(Seq::<char>::empty()) ==> o.message@ == bind_refused_message()),
            r matches Ok(Some(o)) ==> (o.global_user_id matches Some(g) ==> (spec_parse_bind_command(
                input@,
            ) matches Some(tok) && o.message@ == bind_success_message(provider@, g@)
                && old(self).model().tokens.contains_key(tok) && old(self).model().tokens[tok].global_user_id
                == g@ && (final(self).model().binding_for(provider@, external_user_id@) matches Some(
                b,
            ) && b.global_user_id == g@))),
            r matches Err(e) ==> e is Store,
            old(self).store_infallible() ==> r is Ok,
            spec_parse_bind_command(input@) matches Some(tok) ==> (tok.len() > 0 ==> (r matches Ok(
                Some(o),
            ) ==> exists|now_ms: i64|
                #[trigger] bind_command_reply(old(self).model(), tok, provider@, now_ms) == (
                opt_str_view(o.global_user_id),
                o.message@,
                ) && final(self).model() == bind_command_model(
                    old(self).model(),
                    tok,
                    provider@,
                    external_user_id@,
                    now_ms,
                ))),
    {
        let now_ms = current_time_millis();
        self.consume_bind_command_at(provider, external_user_id, input, now_ms)
    }
}

} // verus!
