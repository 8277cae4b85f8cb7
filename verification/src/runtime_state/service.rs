//! Application service wrapping runtime-state workflows.
use vstd::prelude::*;

use crate::clock::current_time_millis;
use crate::keyed::{opt_view, views};
use crate::runtime_state::domain::{
    opt_str_to_string, opt_str_view, ActiveSessionLease, BindToken,
    BindTokenView, GlobalIdentityBinding, GlobalIdentityBindingView, ScheduledTask,
    ScheduledTaskView,
};
use crate::runtime_state::error::{RuntimeStateServiceError, RuntimeStateValidationError};
use crate::runtime_state::ports::{
    any_task, is_due, is_task_listing, RuntimeStateModel, RuntimeStateStorePort,
};
use crate::text::{
    decimal, push_signed_decimal, push_str, push_zero_padded, signed_decimal, string_from_chars,
    zero_padded,
};

verus! {

/// The text of the bind token issued at `now_ms` with counter value `counter`
/// (`bind-{now_ms}-{counter:04}`).
pub open spec fn bind_token_text(now_ms: i64, counter: u64) -> Seq<char> {
    "bind-"@ + signed_decimal(now_ms as int) + "-"@ + zero_padded(decimal(counter as nat), 4)
}

/// The view of an optional string slice.
pub open spec fn opt_str_slice_view(o: Option<&str>) -> Option<Seq<char>> {
    match o {
        Some(s) => Some(s@),
        None => None,
    }
}

/// The token issued for a user at `now_ms` with lifetime `ttl_ms`.
pub open spec fn issued_token(
    global_user_id: Seq<char>,
    provider: Option<Seq<char>>,
    ttl_ms: i64,
    now_ms: i64,
    counter: u64,
) -> BindTokenView {
    BindTokenView {
        token: bind_token_text(now_ms, counter),
        global_user_id,
        provider,
        expires_at_epoch_ms: (now_ms + ttl_ms) as i64,
        consumed_at_epoch_ms: None,
        created_at_epoch_ms: now_ms,
    }
}

/// The global user id that consuming `token` for `provider` at `now_ms` binds to,
/// or `None` when the token is unknown, already consumed, expired, or restricted
/// to another provider.
pub open spec fn consume_decision(
    model: RuntimeStateModel,
    token: Seq<char>,
    provider: Seq<char>,
    now_ms: i64,
) -> Option<Seq<char>> {
    match model.tokens.get(token) {
        None => None,
        Some(t) => if t.consumed_at_epoch_ms is Some || t.expires_at_epoch_ms < now_ms {
            None
        } else if t.provider is Some && t.provider != Some(provider) {
            None
        } else {
            Some(t.global_user_id)
        },
    }
}

/// The binding created by consuming a token.
pub open spec fn consumed_binding(
    provider: Seq<char>,
    external_user_id: Seq<char>,
    global_user_id: Seq<char>,
    now_ms: i64,
) -> GlobalIdentityBindingView {
    GlobalIdentityBindingView { provider, external_user_id, global_user_id, bound_at_epoch_ms: now_ms }
}

/// A task after a successful execution at `ran_at`, next due at `next`.
pub open spec fn executed_task(t: ScheduledTaskView, ran_at: i64, next: i64) -> ScheduledTaskView {
    ScheduledTaskView { last_run_epoch_ms: Some(ran_at), next_run_epoch_ms: next, ..t }
}

/// High-level runtime-state use-cases for Alice runtime integration.
///
/// The counter that numbers bind tokens belongs to the service value, not to the process:
/// two services number their tokens independently, so within one millisecond they can
/// issue the same token text (the store then refuses the second one when they share it).
/// A program keeps one service per store.
pub struct RuntimeStateService<S: RuntimeStateStorePort> {
    store: S,
    token_counter: u64,
}

impl<S: RuntimeStateStorePort> RuntimeStateService<S> {
    /// The contents of the underlying store.
    pub closed spec fn model(&self) -> RuntimeStateModel {
        self.store.model()
    }

    /// The counter that the next issued token carries.
    pub closed spec fn counter(&self) -> u64 {
        self.token_counter
    }

    /// The service's internal consistency.
    pub closed spec fn inv(&self) -> bool {
        self.store.inv()
    }

    /// Every stored task is kept under its own id.
    pub proof fn lemma_tasks_keyed(&self)
        requires
            self.inv(),
        ensures
            self.model().tasks_keyed(),
    {
        self.store.lemma_tasks_keyed();
    }

    /// Whether the underlying store never fails.
    pub closed spec fn store_infallible(&self) -> bool {
        self.store.infallible()
    }

    /// Construct a runtime-state service and initialize store schema.
    pub fn new(store: S) -> (r: Result<Self, RuntimeStateServiceError>)
        requires
            store.inv(),
        ensures
            r matches Ok(svc) ==> svc.inv() && svc.model() == store.model() && svc.counter() == 1
                && svc.store_infallible() == store.infallible(),
            r matches Err(e) ==> e is Store,
            store.infallible() ==> r is Ok,
    {
        let mut store = store;
        match store.init_schema() {
            Ok(()) => Ok(RuntimeStateService { store, token_counter: 1 }),
            Err(e) => Err(RuntimeStateServiceError::Store(e)),
        }
    }

    /// The underlying store.
    pub fn store(&self) -> (r: &S)
        ensures
            r.model() == self.model(),
            r.infallible() == self.store_infallible(),
    {
        &self.store
    }

    /// Give back the underlying store.
    pub fn into_store(self) -> (r: S)
        ensures
            r.model() == self.model(),
            self.inv() ==> r.inv(),
            r.infallible() == self.store_infallible(),
    {
        self.store
    }

    /// Issue a one-time bind token at the given time.
    pub fn issue_bind_token_at(
        &mut self,
        global_user_id: &str,
        provider: Option<&str>,
        ttl_ms: i64,
        now_ms: i64,
    ) -> (r: Result<BindToken, RuntimeStateServiceError>)
        requires
            old(self).inv(),
            ttl_ms > 0 ==> now_ms + ttl_ms <= i64::MAX,
        ensures
            final(self).inv(),
            final(self).store_infallible() == old(self).store_infallible(),
            ttl_ms <= 0 ==> r matches Err(
                RuntimeStateServiceError::Validation(RuntimeStateValidationError::InvalidBindTokenTtl),
            ),
            ttl_ms <= 0 ==> final(self).model() == old(self).model() && final(self).counter()
                == old(self).counter(),
            ttl_ms > 0 ==> final(self).counter() == old(self).counter().wrapping_add(1),
            r matches Ok(t) ==> ttl_ms > 0 && t@ == issued_token(
                global_user_id@,
                opt_str_slice_view(provider),
                ttl_ms,
                now_ms,
                old(self).counter(),
            ) && !old(self).model().tokens.contains_key(t@.token) && final(self).model()
                == old(self).model().with_token(t@),
            ttl_ms > 0 && r is Err ==> (r matches Err(RuntimeStateServiceError::Store(_))
                && final(self).model() == old(self).model()),
            ttl_ms > 0 && old(self).store_infallible() && !old(self).model().tokens.contains_key(
                bind_token_text(now_ms, old(self).counter()),
            ) ==> r is Ok,
    {
        if ttl_ms <= 0 {
            return Err(RuntimeStateServiceError::Validation(RuntimeStateValidationError::InvalidBindTokenTtl));
        }
        let counter = self.token_counter;
        self.token_counter = self.token_counter.wrapping_add(1);
        let mut text: Vec<char> = Vec::new();
        push_str(&mut text, "bind-");
        push_signed_decimal(&mut text, now_ms);
        push_str(&mut text, "-");
        push_zero_padded(&mut text, counter, 4);
        assert(text@ =~= bind_token_text(now_ms, counter));
        let token = BindToken {
            token: string_from_chars(text.as_slice()),
            global_user_id: String::from_str(global_user_id),
            provider: opt_str_to_string(provider),
            expires_at_epoch_ms: now_ms + ttl_ms,
            consumed_at_epoch_ms: None,
            created_at_epoch_ms: now_ms,
        };
        match self.store.insert_bind_token(&token) {
            Ok(()) => Ok(token),
            Err(e) => Err(RuntimeStateServiceError::Store(e)),
        }
    }

    /// Issue a one-time bind token, stamped with the current time.
    ///
    /// A lifetime that is not positive, or that would put the expiry past the
    /// largest representable time, is refused as an invalid TTL.
    pub fn issue_bind_token(
        &mut self,
        global_user_id: &str,
        provider: Option<&str>,
        ttl_ms: i64,
    ) -> (r: Result<BindToken, RuntimeStateServiceError>)
        requires
            old(self).inv(),
        ensures
            final(self).inv(),
            final(self).store_infallible() == old(self).store_infallible(),
            ttl_ms <= 0 ==> r matches Err(
                RuntimeStateServiceError::Validation(RuntimeStateValidationError::InvalidBindTokenTtl),
            ),
            r matches Err(RuntimeStateServiceError::Validation(v)) ==> v
                == RuntimeStateValidationError::InvalidBindTokenTtl && final(self).model() == old(self).model(),
            r matches Err(RuntimeStateServiceError::Store(_)) ==> final(self).model() == old(self).model(),
            r matches Ok(t) ==> ttl_ms > 0 && t@ == issued_token(
                global_user_id@,
                opt_str_slice_view(provider),
                ttl_ms,
                t.created_at_epoch_ms,
                old(self).counter(),
            ) && !old(self).model().tokens.contains_key(t@.token) && final(self).model()
                == old(self).model().with_token(t@),
    {
        if ttl_ms <= 0 {
            return Err(RuntimeStateServiceError::Validation(RuntimeStateValidationError::InvalidBindTokenTtl));
        }
        let now_ms = current_time_millis();
        if now_ms > i64::MAX - ttl_ms {
            return Err(RuntimeStateServiceError::Validation(RuntimeStateValidationError::InvalidBindTokenTtl));
        }
        self.issue_bind_token_at(global_user_id, provider, ttl_ms, now_ms)
    }

    /// Consume a bind token at the given time and materialize the provider binding when valid.
    pub fn consume_bind_token_at(
        &mut self,
        token: &str,
        provider: &str,
        external_user_id: &str,
        now_ms: i64,
    ) -> (r: Result<Option<GlobalIdentityBinding>, RuntimeStateServiceError>)
        requires
            old(self).inv(),
        ensures
            final(self).inv(),
            final(self).store_infallible() == old(self).store_infallible(),
            final(self).counter() == old(self).counter(),
            r matches Ok(None) ==> consume_decision(old(self).model(), token@, provider@, now_ms)
                is None && final(self).model() == old(self).model(),
            r matches Ok(Some(b)) ==> consume_decision(old(self).model(), token@, provider@, now_ms)
                == Some(b@.global_user_id) && b@ == consumed_binding(
                provider@,
                external_user_id@,
                b@.global_user_id,
                now_ms,
            ) && final(self).model() == old(self).model().with_binding(b@).with_token_consumed(
                token@,
                now_ms,
            ),
            r matches Err(e) ==> e is Store && (final(self).model() == old(self).model() || (
            consume_decision(old(self).model(), token@, provider@, now_ms) matches Some(g)
                && final(self).model() == old(self).model().with_binding(
                consumed_binding(provider@, external_user_id@, g, now_ms),
            ))),
            old(self).store_infallible() ==> r is Ok,
    {
        let existing = match self.store.get_bind_token(token) {
            Ok(found) => found,
            Err(e) => return Err(RuntimeStateServiceError::Store(e)),
        };
        let existing = match existing {
            Some(t) => t,
            None => return Ok(None),
        };
        if existing.consumed_at_epoch_ms.is_some() || existing.expires_at_epoch_ms < now_ms {
            return Ok(None);
        }
        match &existing.provider {
            Some(expected_provider) => {
                if !crate::text::str_eq(expected_provider.as_str(), provider) {
                    return Ok(None);
                }
            },
            None => {},
        }
        let binding = GlobalIdentityBinding {
            provider: String::from_str(provider),
            external_user_id: String::from_str(external_user_id),
            global_user_id: existing.global_user_id,
            bound_at_epoch_ms: now_ms,
        };
        match self.store.upsert_identity_binding(&binding) {
            Ok(()) => {},
            Err(e) => return Err(RuntimeStateServiceError::Store(e)),
        }
        match self.store.mark_bind_token_consumed(token, now_ms) {
            Ok(()) => {},
            Err(e) => return Err(RuntimeStateServiceError::Store(e)),
        }
        Ok(Some(binding))
    }

    /// Consume a bind token at the current time and materialize the provider binding when valid.
    pub fn consume_bind_token(&mut self, token: &str, provider: &str, external_user_id: &str) -> (r:
        Result<Option<GlobalIdentityBinding>, RuntimeStateServiceError>)
        requires
            old(self).inv(),
        ensures
            final(self).inv(),
            final(self).store_infallible() == old(self).store_infallible(),
            final(self).counter() == old(self).counter(),
            r matches Ok(None) ==> exists|now_ms: i64|
                consume_decision(old(self).model(), token@, provider@, now_ms) is None,
            r matches Ok(None) ==> final(self).model() == old(self).model(),
            r matches Ok(Some(b)) ==> consume_decision(
                old(self).model(),
                token@,
                provider@,
                b.bound_at_epoch_ms,
            ) == Some(b@.global_user_id) && b@ == consumed_binding(
                provider@,
                external_user_id@,
                b@.global_user_id,
                b.bound_at_epoch_ms,
            ) && final(self).model() == old(self).model().with_binding(b@).with_token_consumed(
                token@,
                b.bound_at_epoch_ms,
            ),
            r matches Err(e) ==> e is Store,
            old(self).store_infallible() ==> r is Ok,
    {
        let now_ms = current_time_millis();
        self.consume_bind_token_at(token, provider, external_user_id, now_ms)
    }

    /// Persist an explicit identity binding.
    pub fn bind_identity(&mut self, provider: &str, external_user_id: &str, global_user_id: &str) -> (r:
        Result<GlobalIdentityBinding, RuntimeStateServiceError>)
        requires
            old(self).inv(),
        ensures
            final(self).inv(),
            final(self).store_infallible() == old(self).store_infallible(),
            final(self).counter() == old(self).counter(),
            r matches Ok(b) ==> b@.provider == provider@ && b@.external_user_id
                == external_user_id@ && b@.global_user_id == global_user_id@ && final(self).model()
                == old(self).model().with_binding(b@),
            r matches Err(e) ==> e is Store && final(self).model() == old(self).model(),
            old(self).store_infallible() ==> r is Ok,
    {
        let binding = GlobalIdentityBinding {
            provider: String::from_str(provider),
            external_user_id: String::from_str(external_user_id),
            global_user_id: String::from_str(global_user_id),
            bound_at_epoch_ms: current_time_millis(),
        };
        match self.store.upsert_identity_binding(&binding) {
            Ok(()) => Ok(binding),
            Err(e) => Err(RuntimeStateServiceError::Store(e)),
        }
    }

    /// Resolve the global user id for a provider identity.
    pub fn resolve_global_user_id(&self, provider: &str, external_user_id: &str) -> (r: Result<
        Option<String>,
        RuntimeStateServiceError,
    >)
        requires
            self.inv(),
        ensures
            r matches Ok(o) ==> opt_str_view(o) == match self.model().binding_for(
                provider@,
                external_user_id@,
            ) {
                Some(b) => Some(b.global_user_id),
                None => None::<Seq<char>>,
            },
            r matches Err(e) ==> e is Store,
            self.store_infallible() ==> r is Ok,
    {
        match self.store.get_identity_binding(provider, external_user_id) {
            Ok(Some(b)) => Ok(Some(b.global_user_id)),
            Ok(None) => Ok(None),
            Err(e) => Err(RuntimeStateServiceError::Store(e)),
        }
    }

    /// Upsert the active session lease for a user.
    pub fn upsert_active_session(
        &mut self,
        global_user_id: &str,
        session_id: &str,
        channel: Option<&str>,
    ) -> (r: Result<ActiveSessionLease, RuntimeStateServiceError>)
        requires
            old(self).inv(),
        ensures
            final(self).inv(),
            final(self).store_infallible() == old(self).store_infallible(),
            final(self).counter() == old(self).counter(),
            r matches Ok(l) ==> l@.global_user_id == global_user_id@ && l@.session_id
                == session_id@ && l@.channel == opt_str_slice_view(channel) && l@.thread_id
                is None && final(self).model() == old(self).model().with_session(l@),
            r matches Err(e) ==> e is Store && final(self).model() == old(self).model(),
            old(self).store_infallible() ==> r is Ok,
    {
        self.upsert_active_session_with_thread_id(global_user_id, session_id, channel, None)
    }

    /// Upsert the active session lease for a user with an explicit thread id.
    pub fn upsert_active_session_with_thread_id(
        &mut self,
        global_user_id: &str,
        session_id: &str,
        channel: Option<&str>,
        thread_id: Option<&str>,
    ) -> (r: Result<ActiveSessionLease, RuntimeStateServiceError>)
        requires
            old(self).inv(),
        ensures
            final(self).inv(),
            final(self).store_infallible() == old(self).store_infallible(),
            final(self).counter() == old(self).counter(),
            r matches Ok(l) ==> l@.global_user_id == global_user_id@ && l@.session_id
                == session_id@ && l@.channel == opt_str_slice_view(channel) && l@.thread_id
                == opt_str_slice_view(thread_id) && final(self).model() == old(self).model().with_session(l@),
            r matches Err(e) ==> e is Store && final(self).model() == old(self).model(),
            old(self).store_infallible() ==> r is Ok,
    {
        let lease = ActiveSessionLease {
            global_user_id: String::from_str(global_user_id),
            session_id: String::from_str(session_id),
            channel: opt_str_to_string(channel),
            thread_id: opt_str_to_string(thread_id),
            updated_at_epoch_ms: current_time_millis(),
        };
        match self.store.upsert_active_session(&lease) {
            Ok(()) => Ok(lease),
            Err(e) => Err(RuntimeStateServiceError::Store(e)),
        }
    }

    /// Load the active session lease for a user.
    pub fn get_active_session(&self, global_user_id: &str) -> (r: Result<
        Option<ActiveSessionLease>,
        RuntimeStateServiceError,
    >)
        requires
            self.inv(),
        ensures
            r matches Ok(o) ==> opt_view(o) == self.model().sessions.get(global_user_id@),
            r matches Err(e) ==> e is Store,
            self.store_infallible() ==> r is Ok,
    {
        match self.store.get_active_session(global_user_id) {
            Ok(o) => Ok(o),
            Err(e) => Err(RuntimeStateServiceError::Store(e)),
        }
    }

    /// Persist a scheduled task.
    pub fn insert_scheduled_task(&mut self, task: ScheduledTask) -> (r: Result<
        ScheduledTask,
        RuntimeStateServiceError,
    >)
        requires
            old(self).inv(),
        ensures
            final(self).inv(),
            final(self).store_infallible() == old(self).store_infallible(),
            final(self).counter() == old(self).counter(),
            task@.spec_validate() matches Err(v) ==> (r matches Err(
                RuntimeStateServiceError::Validation(w),
            ) && w == v && final(self).model() == old(self).model()),
            r matches Ok(t) ==> task@.spec_validate() is Ok && t@ == task@ && final(self).model()
                == old(self).model().with_task(task@),
            task@.spec_validate() is Ok && r is Err ==> (r matches Err(
                RuntimeStateServiceError::Store(_),
            ) && final(self).model() == old(self).model()),
            task@.spec_validate() is Ok && old(self).store_infallible() ==> r is Ok,
    {
        match task.validate() {
            Ok(()) => {},
            Err(v) => return Err(RuntimeStateServiceError::Validation(v)),
        }
        match self.store.upsert_scheduled_task(&task) {
            Ok(()) => Ok(task),
            Err(e) => Err(RuntimeStateServiceError::Store(e)),
        }
    }

    /// List enabled tasks due at or before the given timestamp.
    pub fn list_due_tasks(&self, now_epoch_ms: i64) -> (r: Result<
        Vec<ScheduledTask>,
        RuntimeStateServiceError,
    >)
        requires
            self.inv(),
        ensures
            r matches Ok(v) ==> is_task_listing(
                self.model().tasks,
                |t: ScheduledTaskView| is_due(t, now_epoch_ms),
                views(v@),
            ),
            r matches Err(e) ==> e is Store,
            self.store_infallible() ==> r is Ok,
    {
        match self.store.list_due_tasks(now_epoch_ms) {
            Ok(v) => Ok(v),
            Err(e) => Err(RuntimeStateServiceError::Store(e)),
        }
    }

    /// List all scheduled tasks in storage.
    pub fn list_scheduled_tasks(&self) -> (r: Result<Vec<ScheduledTask>, RuntimeStateServiceError>)
        requires
            self.inv(),
        ensures
            r matches Ok(v) ==> is_task_listing(
                self.model().tasks,
                any_task(),
                views(v@),
            ),
            r matches Err(e) ==> e is Store,
            self.store_infallible() ==> r is Ok,
    {
        match self.store.list_scheduled_tasks() {
            Ok(v) => Ok(v),
            Err(e) => Err(RuntimeStateServiceError::Store(e)),
        }
    }

    /// Mark a scheduled task as executed and advance its next run timestamp.
    pub fn mark_task_executed(&mut self, task_id: &str, ran_at_epoch_ms: i64) -> (r: Result<
        Option<ScheduledTask>,
        RuntimeStateServiceError,
    >)
        requires
            old(self).inv(),
            old(self).model().tasks.contains_key(task_id@) ==> old(self).model().tasks[task_id@].schedule.next_run_fits(
                ran_at_epoch_ms,
            ),
        ensures
            final(self).inv(),
            final(self).store_infallible() == old(self).store_infallible(),
            final(self).counter() == old(self).counter(),
            r matches Ok(None) ==> !old(self).model().tasks.contains_key(task_id@) && final(self).model() == old(self).model(),
            r matches Ok(Some(t)) ==> old(self).model().tasks.contains_key(task_id@) && t@
                == executed_task(old(self).model().tasks[task_id@], ran_at_epoch_ms, t.next_run_epoch_ms)
                && t@.schedule.is_next_run(ran_at_epoch_ms as int, t.next_run_epoch_ms as int)
                && final(self).model() == old(self).model().with_task(t@),
            r matches Err(e) ==> e is Store && final(self).model() == old(self).model(),
            old(self).store_infallible() ==> r is Ok,
    {
        let found = match self.store.get_scheduled_task(task_id) {
            Ok(found) => found,
            Err(e) => return Err(RuntimeStateServiceError::Store(e)),
        };
        let mut task = match found {
            Some(t) => t,
            None => return Ok(None),
        };
        task.last_run_epoch_ms = Some(ran_at_epoch_ms);
        task.next_run_epoch_ms = task.schedule.next_run_after(ran_at_epoch_ms);
        match self.store.upsert_scheduled_task(&task) {
            Ok(()) => Ok(Some(task)),
            Err(e) => Err(RuntimeStateServiceError::Store(e)),
        }
    }
}

} // verus!
