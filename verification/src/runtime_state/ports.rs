//! Port trait for runtime-state persistence, stated over an abstract model.
use vstd::prelude::*;

use crate::keyed::{opt_view, views};
use crate::runtime_state::domain::{
    ActiveSessionLease, ActiveSessionLeaseView, BindToken, BindTokenView, GlobalIdentityBinding,
    GlobalIdentityBindingView, ScheduledTask, ScheduledTaskView,
};
use crate::runtime_state::error::RuntimeStateStoreError;
use crate::text::seq_lt;

verus! {

/// The abstract contents of a runtime-state store.
pub struct RuntimeStateModel {
    /// Identity bindings keyed by `(provider, external_user_id)`.
    pub bindings: Map<(Seq<char>, Seq<char>), GlobalIdentityBindingView>,
    /// Bind tokens keyed by token value.
    pub tokens: Map<Seq<char>, BindTokenView>,
    /// Active session leases keyed by global user id.
    pub sessions: Map<Seq<char>, ActiveSessionLeaseView>,
    /// Scheduled tasks keyed by task id.
    pub tasks: Map<Seq<char>, ScheduledTaskView>,
}

impl RuntimeStateModel {
    /// A store with nothing in it.
    pub open spec fn empty() -> Self {
        RuntimeStateModel {
            bindings: Map::empty(),
            tokens: Map::empty(),
            sessions: Map::empty(),
            tasks: Map::empty(),
        }
    }

    /// The binding stored for a provider identity, if any.
    pub open spec fn binding_for(self, provider: Seq<char>, external_user_id: Seq<char>) -> Option<
        GlobalIdentityBindingView,
    > {
        self.bindings.get((provider, external_user_id))
    }

    /// The store after inserting or replacing a binding.
    pub open spec fn with_binding(self, b: GlobalIdentityBindingView) -> Self {
        RuntimeStateModel {
            bindings: self.bindings.insert((b.provider, b.external_user_id), b),
            ..self
        }
    }

    /// The store after inserting a new bind token.
    pub open spec fn with_token(self, t: BindTokenView) -> Self {
        RuntimeStateModel { tokens: self.tokens.insert(t.token, t), ..self }
    }

    /// The store after marking a bind token consumed; unknown tokens leave it unchanged.
    pub open spec fn with_token_consumed(self, token: Seq<char>, at: i64) -> Self {
        if self.tokens.contains_key(token) {
            RuntimeStateModel {
                tokens: self.tokens.insert(
                    token,
                    BindTokenView { consumed_at_epoch_ms: Some(at), ..self.tokens[token] },
                ),
                ..self
            }
        } else {
            self
        }
    }

    /// The store after inserting or replacing an active session lease.
    pub open spec fn with_session(self, l: ActiveSessionLeaseView) -> Self {
        RuntimeStateModel { sessions: self.sessions.insert(l.global_user_id, l), ..self }
    }

    /// Whether every stored task is kept under its own id.
    pub open spec fn tasks_keyed(self) -> bool {
        forall|k: Seq<char>| #[trigger] self.tasks.contains_key(k) ==> self.tasks[k].task_id == k
    }

    /// The store after inserting or replacing a scheduled task.
    pub open spec fn with_task(self, t: ScheduledTaskView) -> Self {
        RuntimeStateModel { tasks: self.tasks.insert(t.task_id, t), ..self }
    }
}

/// Listing order of tasks: by next run time, then by task id.
pub open spec fn task_before(a: ScheduledTaskView, b: ScheduledTaskView) -> bool {
    ||| a.next_run_epoch_ms < b.next_run_epoch_ms
    ||| (a.next_run_epoch_ms == b.next_run_epoch_ms && seq_lt(a.task_id, b.task_id))
}

/// Selects every task.
pub open spec fn any_task() -> spec_fn(ScheduledTaskView) -> bool {
    |t: ScheduledTaskView| true
}

/// Whether a task is enabled and due at `now`.
pub open spec fn is_due(t: ScheduledTaskView, now: i64) -> bool {
    t.enabled && t.next_run_epoch_ms <= now
}

/// `out` lists, in listing order and each once, exactly the stored tasks that `selects` selects.
pub open spec fn is_task_listing(
    tasks: Map<Seq<char>, ScheduledTaskView>,
    selects: spec_fn(ScheduledTaskView) -> bool,
    out: Seq<ScheduledTaskView>,
) -> bool {
    &&& forall|i: int|
        0 <= i < out.len() ==> tasks.contains_key(out[i].task_id) && tasks[out[i].task_id]
            == out[i] && selects(out[i])
    &&& forall|k: Seq<char>|
        tasks.contains_key(k) && selects(tasks[k]) ==> exists|i: int|
            0 <= i < out.len() && out[i] == tasks[k]
    &&& forall|i: int, j: int| 0 <= i < j < out.len() ==> task_before(out[i], out[j])
}

/// No task is listed before itself.
pub proof fn lemma_task_before_irreflexive(a: ScheduledTaskView)
    ensures
        !task_before(a, a),
{
    crate::text::lemma_seq_lt_irreflexive(a.task_id);
}

/// The listing order is transitive.
pub proof fn lemma_task_before_transitive(
    a: ScheduledTaskView,
    b: ScheduledTaskView,
    c: ScheduledTaskView,
)
    requires
        task_before(a, b),
        task_before(b, c),
    ensures
        task_before(a, c),
{
    if a.next_run_epoch_ms == b.next_run_epoch_ms && b.next_run_epoch_ms == c.next_run_epoch_ms {
        crate::text::lemma_seq_lt_transitive(a.task_id, b.task_id, c.task_id);
    }
}

/// Tasks with different ids are ordered one way or the other.
pub proof fn lemma_task_before_total(a: ScheduledTaskView, b: ScheduledTaskView)
    requires
        a.task_id != b.task_id,
    ensures
        task_before(a, b) || task_before(b, a),
{
    crate::text::lemma_seq_lt_total(a.task_id, b.task_id);
}

/// The listing order is asymmetric.
pub proof fn lemma_task_before_asymmetric(a: ScheduledTaskView, b: ScheduledTaskView)
    requires
        task_before(a, b),
    ensures
        !task_before(b, a),
{
    if task_before(b, a) {
        lemma_task_before_transitive(a, b, a);
        lemma_task_before_irreflexive(a);
    }
}

/// Two sequences strictly increasing in listing order that hold the same tasks are equal.
proof fn lemma_sorted_same_tasks_equal(a: Seq<ScheduledTaskView>, b: Seq<ScheduledTaskView>)
    requires
        forall|i: int, j: int| 0 <= i < j < a.len() ==> task_before(a[i], a[j]),
        forall|i: int, j: int| 0 <= i < j < b.len() ==> task_before(b[i], b[j]),
        forall|x: ScheduledTaskView| a.contains(x) <==> b.contains(x),
    ensures
        a == b,
    decreases a.len(),
{
    if a.len() == 0 {
        if b.len() > 0 {
            assert(b.contains(b[0]));
        }
        assert(a =~= b);
    } else {
        assert(a.contains(a[0]));
        assert(b.len() > 0);
        assert(b.contains(b[0]));
        let j = choose|j: int| 0 <= j < a.len() && a[j] == b[0];
        let k = choose|k: int| 0 <= k < b.len() && b[k] == a[0];
        if j > 0 && k > 0 {
            lemma_task_before_asymmetric(a[0], a[j]);
        }
        assert(a[0] == b[0]);
        let ta = a.drop_first();
        let tb = b.drop_first();
        assert forall|x: ScheduledTaskView| ta.contains(x) <==> tb.contains(x) by {
            if ta.contains(x) {
                let p = choose|p: int| 0 <= p < ta.len() && ta[p] == x;
                assert(a[p + 1] == x);
                assert(a.contains(x));
                let q = choose|q: int| 0 <= q < b.len() && b[q] == x;
                if q == 0 {
                    lemma_task_before_irreflexive(a[0]);
                    assert(task_before(a[0], a[p + 1]));
                }
                assert(tb[q - 1] == x);
            }
            if tb.contains(x) {
                let p = choose|p: int| 0 <= p < tb.len() && tb[p] == x;
                assert(b[p + 1] == x);
                assert(b.contains(x));
                let q = choose|q: int| 0 <= q < a.len() && a[q] == x;
                if q == 0 {
                    lemma_task_before_irreflexive(b[0]);
                    assert(task_before(b[0], b[p + 1]));
                }
                assert(ta[q - 1] == x);
            }
        }
        assert forall|i: int, j2: int| 0 <= i < j2 < ta.len() implies task_before(ta[i], ta[j2]) by {
            assert(ta[i] == a[i + 1] && ta[j2] == a[j2 + 1]);
        }
        assert forall|i: int, j2: int| 0 <= i < j2 < tb.len() implies task_before(tb[i], tb[j2]) by {
            assert(tb[i] == b[i + 1] && tb[j2] == b[j2 + 1]);
        }
        lemma_sorted_same_tasks_equal(ta, tb);
        assert(a =~= seq![a[0]] + ta);
        assert(b =~= seq![b[0]] + tb);
    }
}

/// Law: a listing is determined by the stored tasks and the selection: two listings of
/// the same tasks under the same selection are equal.
pub proof fn lemma_task_listing_unique(
    tasks: Map<Seq<char>, ScheduledTaskView>,
    selects: spec_fn(ScheduledTaskView) -> bool,
    a: Seq<ScheduledTaskView>,
    b: Seq<ScheduledTaskView>,
)
    requires
        is_task_listing(tasks, selects, a),
        is_task_listing(tasks, selects, b),
    ensures
        a == b,
{
    assert forall|x: ScheduledTaskView| a.contains(x) <==> b.contains(x) by {
        if a.contains(x) {
            let i = choose|i: int| 0 <= i < a.len() && a[i] == x;
            assert(tasks.contains_key(a[i].task_id) && tasks[a[i].task_id] == a[i] && selects(a[i]));
            let k = a[i].task_id;
            let j = choose|j: int| 0 <= j < b.len() && b[j] == tasks[k];
            assert(b[j] == x);
        }
        if b.contains(x) {
            let i = choose|i: int| 0 <= i < b.len() && b[i] == x;
            assert(tasks.contains_key(b[i].task_id) && tasks[b[i].task_id] == b[i] && selects(b[i]));
            let k = b[i].task_id;
            let j = choose|j: int| 0 <= j < a.len() && a[j] == tasks[k];
            assert(a[j] == x);
        }
    }
    lemma_sorted_same_tasks_equal(a, b);
}

/// Whether task `a` is listed before task `b`.
pub fn task_listed_before(a: &ScheduledTask, b: &ScheduledTask) -> (r: bool)
    ensures
        r == task_before(a@, b@),
{
    if a.next_run_epoch_ms < b.next_run_epoch_ms {
        true
    } else if a.next_run_epoch_ms == b.next_run_epoch_ms {
        crate::text::str_lt(a.task_id.as_str(), b.task_id.as_str())
    } else {
        false
    }
}

/// Storage boundary for runtime-state implementations.
///
/// Reads leave the store unchanged. A write that fails leaves the model unchanged.
pub trait RuntimeStateStorePort: Sized {
    /// The abstract contents of the store.
    spec fn model(&self) -> RuntimeStateModel;

    /// The store's internal consistency.
    spec fn inv(&self) -> bool;

    /// Whether the store's operations never fail (as in memory), so that each succeeds
    /// wherever its contract allows; a database can fail on any operation.
    spec fn infallible(&self) -> bool;

    /// Every stored task is kept under its own id.
    proof fn lemma_tasks_keyed(&self)
        requires
            self.inv(),
        ensures
            self.model().tasks_keyed(),
    ;

    /// Ensure required schema exists.
    fn init_schema(&mut self) -> (r: Result<(), RuntimeStateStoreError>)
        requires
            old(self).inv(),
        ensures
            final(self).inv(),
            final(self).model() == old(self).model(),
            old(self).infallible() ==> r is Ok,
            final(self).infallible() == old(self).infallible(),
    ;

    /// Insert or update a global identity binding.
    fn upsert_identity_binding(&mut self, binding: &GlobalIdentityBinding) -> (r: Result<
        (),
        RuntimeStateStoreError,
    >)
        requires
            old(self).inv(),
        ensures
            final(self).inv(),
            r is Ok ==> final(self).model() == old(self).model().with_binding(binding@),
            r is Err ==> final(self).model() == old(self).model(),
            old(self).infallible() ==> r is Ok,
            final(self).infallible() == old(self).infallible(),
    ;

    /// Resolve a global identity binding by provider and external user id.
    fn get_identity_binding(&self, provider: &str, external_user_id: &str) -> (r: Result<
        Option<GlobalIdentityBinding>,
        RuntimeStateStoreError,
    >)
        requires
            self.inv(),
        ensures
            r matches Ok(found) ==> opt_view(found) == self.model().binding_for(
                provider@,
                external_user_id@,
            ),
            self.infallible() ==> r is Ok,
    ;

    /// Insert a bind token; an existing token with the same value is an error.
    fn insert_bind_token(&mut self, token: &BindToken) -> (r: Result<(), RuntimeStateStoreError>)
        requires
            old(self).inv(),
        ensures
            final(self).inv(),
            r is Ok ==> !old(self).model().tokens.contains_key(token.token@) && final(self).model()
                == old(self).model().with_token(token@),
            r is Err ==> final(self).model() == old(self).model(),
            old(self).infallible() && !old(self).model().tokens.contains_key(token.token@) ==> r is Ok,
            final(self).infallible() == old(self).infallible(),
    ;

    /// Load a bind token by token string.
    fn get_bind_token(&self, token: &str) -> (r: Result<Option<BindToken>, RuntimeStateStoreError>)
        requires
            self.inv(),
        ensures
            r matches Ok(found) ==> opt_view(found) == self.model().tokens.get(token@),
            self.infallible() ==> r is Ok,
    ;

    /// Mark a bind token as consumed.
    fn mark_bind_token_consumed(&mut self, token: &str, consumed_at_epoch_ms: i64) -> (r: Result<
        (),
        RuntimeStateStoreError,
    >)
        requires
            old(self).inv(),
        ensures
            final(self).inv(),
            r is Ok ==> final(self).model() == old(self).model().with_token_consumed(
                token@,
                consumed_at_epoch_ms,
            ),
            r is Err ==> final(self).model() == old(self).model(),
            old(self).infallible() ==> r is Ok,
            final(self).infallible() == old(self).infallible(),
    ;

    /// Insert or update an active session lease.
    fn upsert_active_session(&mut self, lease: &ActiveSessionLease) -> (r: Result<
        (),
        RuntimeStateStoreError,
    >)
        requires
            old(self).inv(),
        ensures
            final(self).inv(),
            r is Ok ==> final(self).model() == old(self).model().with_session(lease@),
            r is Err ==> final(self).model() == old(self).model(),
            old(self).infallible() ==> r is Ok,
            final(self).infallible() == old(self).infallible(),
    ;

    /// Resolve an active session lease by global user id.
    fn get_active_session(&self, global_user_id: &str) -> (r: Result<
        Option<ActiveSessionLease>,
        RuntimeStateStoreError,
    >)
        requires
            self.inv(),
        ensures
            r matches Ok(found) ==> opt_view(found) == self.model().sessions.get(global_user_id@),
            self.infallible() ==> r is Ok,
    ;

    /// Insert or update a scheduled task.
    fn upsert_scheduled_task(&mut self, task: &ScheduledTask) -> (r: Result<
        (),
        RuntimeStateStoreError,
    >)
        requires
            old(self).inv(),
        ensures
            final(self).inv(),
            r is Ok ==> final(self).model() == old(self).model().with_task(task@),
            r is Err ==> final(self).model() == old(self).model(),
            old(self).infallible() ==> r is Ok,
            final(self).infallible() == old(self).infallible(),
    ;

    /// Load a scheduled task by id.
    fn get_scheduled_task(&self, task_id: &str) -> (r: Result<
        Option<ScheduledTask>,
        RuntimeStateStoreError,
    >)
        requires
            self.inv(),
        ensures
            r matches Ok(found) ==> opt_view(found) == self.model().tasks.get(task_id@),
            self.infallible() ==> r is Ok,
    ;

    /// List all scheduled tasks ordered by next run timestamp and task id.
    fn list_scheduled_tasks(&self) -> (r: Result<Vec<ScheduledTask>, RuntimeStateStoreError>)
        requires
            self.inv(),
        ensures
            r matches Ok(v) ==> is_task_listing(
                self.model().tasks,
                any_task(),
                views(v@),
            ),
            self.infallible() ==> r is Ok,
    ;

    /// List enabled tasks that are due at or before the given timestamp, in listing order.
    fn list_due_tasks(&self, now_epoch_ms: i64) -> (r: Result<
        Vec<ScheduledTask>,
        RuntimeStateStoreError,
    >)
        requires
            self.inv(),
        ensures
            r matches Ok(v) ==> is_task_listing(
                self.model().tasks,
                |t: ScheduledTaskView| is_due(t, now_epoch_ms),
                views(v@),
            ),
            self.infallible() ==> r is Ok,
    ;
}

} // verus!
