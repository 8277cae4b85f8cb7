//! An in-process runtime-state store that keeps its records in vectors.
use vstd::prelude::*;

use crate::keyed::{
    has_key, keyed_map, keys_unique, lemma_keyed_index, lemma_keyed_insert, lemma_keyed_push,
    lemma_keyed_remove, lemma_keyed_update, views,
};
use crate::runtime_state::domain::{
    ActiveSessionLease, ActiveSessionLeaseView, BindToken, BindTokenView, GlobalIdentityBinding,
    GlobalIdentityBindingView, ScheduledTask, ScheduledTaskView,
};
use crate::runtime_state::error::RuntimeStateStoreError;
use crate::runtime_state::ports::{
    any_task, is_due, is_task_listing, lemma_task_before_total,
    lemma_task_before_transitive, task_before, task_listed_before, RuntimeStateModel,
    RuntimeStateStorePort,
};

verus! {

/// Key of a binding: provider and external user id.
pub open spec fn binding_key() -> spec_fn(GlobalIdentityBindingView) -> (Seq<char>, Seq<char>) {
    |b: GlobalIdentityBindingView| (b.provider, b.external_user_id)
}

/// Key of a bind token: its value.
pub open spec fn token_key() -> spec_fn(BindTokenView) -> Seq<char> {
    |t: BindTokenView| t.token
}

/// Key of an active session lease: its global user id.
pub open spec fn session_key() -> spec_fn(ActiveSessionLeaseView) -> Seq<char> {
    |l: ActiveSessionLeaseView| l.global_user_id
}

/// Key of a scheduled task: its id.
pub open spec fn task_key() -> spec_fn(ScheduledTaskView) -> Seq<char> {
    |t: ScheduledTaskView| t.task_id
}

/// Whether a sequence of tasks is strictly increasing in listing order.
pub open spec fn tasks_sorted(s: Seq<ScheduledTaskView>) -> bool {
    forall|i: int, j: int| 0 <= i < j < s.len() ==> task_before(s[i], s[j])
}

/// Runtime-state store held in memory; its contents last as long as the value.
pub struct InMemoryRuntimeStateStore {
    bindings: Vec<GlobalIdentityBinding>,
    tokens: Vec<BindToken>,
    sessions: Vec<ActiveSessionLease>,
    tasks: Vec<ScheduledTask>,
}

impl InMemoryRuntimeStateStore {
    /// An empty store.
    pub fn new() -> (r: Self)
        ensures
            r.inv(),
            r.model() == RuntimeStateModel::empty(),
    {
        let r = InMemoryRuntimeStateStore {
            bindings: Vec::new(),
            tokens: Vec::new(),
            sessions: Vec::new(),
            tasks: Vec::new(),
        };
        assert(r.model().bindings =~= Map::empty());
        assert(r.model().tokens =~= Map::empty());
        assert(r.model().sessions =~= Map::empty());
        assert(r.model().tasks =~= Map::empty());
        r
    }

    /// Every stored identity binding, each once.
    pub fn all_bindings(&self) -> (r: Vec<GlobalIdentityBinding>)
        requires
            self.inv(),
        ensures
            keys_unique(views(r@), binding_key()),
            keyed_map(views(r@), binding_key()) == self.model().bindings,
    {
        let mut out: Vec<GlobalIdentityBinding> = Vec::new();
        let mut i: usize = 0;
        while i < self.bindings.len()
            invariant
                i <= self.bindings.len(),
                views(out@) == views(self.bindings@).take(i as int),
            decreases self.bindings.len() - i,
        {
            let ghost before = views(out@);
            let item = self.bindings[i].duplicate();
            out.push(item);
            assert(views(out@) =~= before.push(self.bindings@[i as int]@));
            assert(views(self.bindings@).take(i + 1) =~= views(self.bindings@).take(i as int).push(self.bindings@[i as int]@));
            i = i + 1;
        }
        assert(views(self.bindings@).take(self.bindings.len() as int) =~= views(self.bindings@));
        out
    }

    /// Every stored bind token, each once.
    pub fn all_tokens(&self) -> (r: Vec<BindToken>)
        requires
            self.inv(),
        ensures
            keys_unique(views(r@), token_key()),
            keyed_map(views(r@), token_key()) == self.model().tokens,
    {
        let mut out: Vec<BindToken> = Vec::new();
        let mut i: usize = 0;
        while i < self.tokens.len()
            invariant
                i <= self.tokens.len(),
                views(out@) == views(self.tokens@).take(i as int),
            decreases self.tokens.len() - i,
        {
            let ghost before = views(out@);
            let item = self.tokens[i].duplicate();
            out.push(item);
            assert(views(out@) =~= before.push(self.tokens@[i as int]@));
            assert(views(self.tokens@).take(i + 1) =~= views(self.tokens@).take(i as int).push(self.tokens@[i as int]@));
            i = i + 1;
        }
        assert(views(self.tokens@).take(self.tokens.len() as int) =~= views(self.tokens@));
        out
    }

    /// Every stored active session lease, each once.
    pub fn all_sessions(&self) -> (r: Vec<ActiveSessionLease>)
        requires
            self.inv(),
        ensures
            keys_unique(views(r@), session_key()),
            keyed_map(views(r@), session_key()) == self.model().sessions,
    {
        let mut out: Vec<ActiveSessionLease> = Vec::new();
        let mut i: usize = 0;
        while i < self.sessions.len()
            invariant
                i <= self.sessions.len(),
                views(out@) == views(self.sessions@).take(i as int),
            decreases self.sessions.len() - i,
        {
            let ghost before = views(out@);
            let item = self.sessions[i].duplicate();
            out.push(item);
            assert(views(out@) =~= before.push(self.sessions@[i as int]@));
            assert(views(self.sessions@).take(i + 1) =~= views(self.sessions@).take(i as int).push(self.sessions@[i as int]@));
            i = i + 1;
        }
        assert(views(self.sessions@).take(self.sessions.len() as int) =~= views(self.sessions@));
        out
    }

    fn find_binding(&self, provider: &String, external_user_id: &String) -> (r: Option<usize>)
        ensures
            match r {
                Some(i) => i < self.bindings.len() && binding_key()(self.bindings@[i as int]@) == (
                    provider@,
                    external_user_id@,
                ),
                None => !has_key(
                    views(self.bindings@),
                    binding_key(),
                    (provider@, external_user_id@),
                ),
            },
    {
        let mut i: usize = 0;
        while i < self.bindings.len()
            invariant
                i <= self.bindings.len(),
                forall|j: int|
                    0 <= j < i ==> binding_key()(self.bindings@[j]@) != (
                        provider@,
                        external_user_id@,
                    ),
            decreases self.bindings.len() - i,
        {
            if self.bindings[i].provider == *provider && self.bindings[i].external_user_id
                == *external_user_id {
                return Some(i);
            }
            i = i + 1;
        }
        proof {
            let vs = views(self.bindings@);
            assert forall|j: int| 0 <= j < vs.len() implies binding_key()(vs[j]) != (
                provider@,
                external_user_id@,
            ) by {
                assert(vs[j] == self.bindings@[j]@);
            }
        }
        None
    }

    fn find_token(&self, token: &String) -> (r: Option<usize>)
        ensures
            match r {
                Some(i) => i < self.tokens.len() && token_key()(self.tokens@[i as int]@)
                    == token@,
                None => !has_key(views(self.tokens@), token_key(), token@),
            },
    {
        let mut i: usize = 0;
        while i < self.tokens.len()
            invariant
                i <= self.tokens.len(),
                forall|j: int| 0 <= j < i ==> token_key()(self.tokens@[j]@) != token@,
            decreases self.tokens.len() - i,
        {
            if self.tokens[i].token == *token {
                return Some(i);
            }
            i = i + 1;
        }
        proof {
            let vs = views(self.tokens@);
            assert forall|j: int| 0 <= j < vs.len() implies token_key()(vs[j]) != token@ by {
                assert(vs[j] == self.tokens@[j]@);
            }
        }
        None
    }

    fn find_session(&self, global_user_id: &String) -> (r: Option<usize>)
        ensures
            match r {
                Some(i) => i < self.sessions.len() && session_key()(self.sessions@[i as int]@)
                    == global_user_id@,
                None => !has_key(views(self.sessions@), session_key(), global_user_id@),
            },
    {
        let mut i: usize = 0;
        while i < self.sessions.len()
            invariant
                i <= self.sessions.len(),
                forall|j: int| 0 <= j < i ==> session_key()(self.sessions@[j]@) != global_user_id@,
            decreases self.sessions.len() - i,
        {
            if self.sessions[i].global_user_id == *global_user_id {
                return Some(i);
            }
            i = i + 1;
        }
        proof {
            let vs = views(self.sessions@);
            assert forall|j: int| 0 <= j < vs.len() implies session_key()(vs[j])
                != global_user_id@ by {
                assert(vs[j] == self.sessions@[j]@);
            }
        }
        None
    }

    fn find_task(&self, task_id: &String) -> (r: Option<usize>)
        ensures
            match r {
                Some(i) => i < self.tasks.len() && task_key()(self.tasks@[i as int]@) == task_id@,
                None => !has_key(views(self.tasks@), task_key(), task_id@),
            },
    {
        let mut i: usize = 0;
        while i < self.tasks.len()
            invariant
                i <= self.tasks.len(),
                forall|j: int| 0 <= j < i ==> task_key()(self.tasks@[j]@) != task_id@,
            decreases self.tasks.len() - i,
        {
            if self.tasks[i].task_id == *task_id {
                return Some(i);
            }
            i = i + 1;
        }
        proof {
            let vs = views(self.tasks@);
            assert forall|j: int| 0 <= j < vs.len() implies task_key()(vs[j]) != task_id@ by {
                assert(vs[j] == self.tasks@[j]@);
            }
        }
        None
    }

    /// The tasks that `selects` keeps, in stored order.
    fn filter_tasks(
        &self,
        due_only: bool,
        now_epoch_ms: i64,
        Ghost(sel): Ghost<spec_fn(ScheduledTaskView) -> bool>,
    ) -> (r: Vec<ScheduledTask>)
        requires
            self.inv(),
            forall|t: ScheduledTaskView| #[trigger] sel(t) == (!due_only || is_due(t, now_epoch_ms)),
        ensures
            is_task_listing(self.model().tasks, sel, views(r@)),
    {
        let ghost tv = views(self.tasks@);
        let mut out: Vec<ScheduledTask> = Vec::new();
        let ghost mut idx: Seq<int> = Seq::empty();
        let mut i: usize = 0;
        while i < self.tasks.len()
            invariant
                tv == views(self.tasks@),
                forall|t: ScheduledTaskView| #[trigger] sel(t) == (!due_only || is_due(t, now_epoch_ms)),
                i <= self.tasks.len(),
                idx.len() == out.len(),
                forall|j: int| 0 <= j < idx.len() ==> 0 <= #[trigger] idx[j] < i,
                forall|j: int| 0 <= j < idx.len() ==> out@[j]@ == tv[#[trigger] idx[j]],
                forall|j: int| 0 <= j < idx.len() ==> sel(tv[#[trigger] idx[j]]),
                forall|a: int, b: int| 0 <= a < b < idx.len() ==> idx[a] < idx[b],
                forall|m: int|
                    0 <= m < i && sel(#[trigger] tv[m]) ==> exists|j: int|
                        0 <= j < idx.len() && idx[j] == m,
            decreases self.tasks.len() - i,
        {
            let keep = !due_only || (self.tasks[i].enabled && self.tasks[i].next_run_epoch_ms
                <= now_epoch_ms);
            assert(tv[i as int] == self.tasks@[i as int]@);
            assert(keep == sel(tv[i as int]));
            let ghost idx0 = idx;
            if keep {
                let t = self.tasks[i].duplicate();
                out.push(t);
                proof {
                    idx = idx.push(i as int);
                    assert(idx[idx.len() - 1] == i as int);
                }
            }
            proof {
                assert forall|m: int| 0 <= m < i + 1 && sel(#[trigger] tv[m]) implies exists|j: int|
                    0 <= j < idx.len() && idx[j] == m by {
                    if m < i {
                        let j = choose|j: int| 0 <= j < idx0.len() && idx0[j] == m;
                        assert(idx[j] == idx0[j]);
                    } else {
                        assert(idx[idx.len() - 1] == m);
                    }
                }
            }
            i = i + 1;
        }
        proof {
            let ov = views(out@);
            let m = self.model().tasks;
            assert forall|j: int| 0 <= j < ov.len() implies m.contains_key(ov[j].task_id)
                && m[ov[j].task_id] == ov[j] && sel(ov[j]) by {
                assert(ov[j] == out@[j]@);
                let k = idx[j];
                lemma_keyed_index(tv, task_key(), k);
            }
            assert forall|k: Seq<char>| m.contains_key(k) && sel(m[k]) implies exists|j: int|
                0 <= j < ov.len() && ov[j] == m[k] by {
                let q = choose|q: int| 0 <= q < tv.len() && task_key()(tv[q]) == k;
                lemma_keyed_index(tv, task_key(), q);
                assert(sel(tv[q]));
                let j = choose|j: int| 0 <= j < idx.len() && idx[j] == q;
                assert(ov[j] == out@[j]@);
            }
            assert forall|a: int, b: int| 0 <= a < b < ov.len() implies task_before(
                ov[a],
                ov[b],
            ) by {
                assert(ov[a] == out@[a]@);
                assert(ov[b] == out@[b]@);
                assert(idx[a] < idx[b]);
            }
        }
        out
    }
}

impl RuntimeStateStorePort for InMemoryRuntimeStateStore {
    closed spec fn model(&self) -> RuntimeStateModel {
        RuntimeStateModel {
            bindings: keyed_map(views(self.bindings@), binding_key()),
            tokens: keyed_map(views(self.tokens@), token_key()),
            sessions: keyed_map(views(self.sessions@), session_key()),
            tasks: keyed_map(views(self.tasks@), task_key()),
        }
    }

    open spec fn infallible(&self) -> bool {
        true
    }

    closed spec fn inv(&self) -> bool {
        &&& keys_unique(views(self.bindings@), binding_key())
        &&& keys_unique(views(self.tokens@), token_key())
        &&& keys_unique(views(self.sessions@), session_key())
        &&& keys_unique(views(self.tasks@), task_key())
        &&& tasks_sorted(views(self.tasks@))
    }

    proof fn lemma_tasks_keyed(&self) {
        crate::keyed::lemma_keyed_map_keys(views(self.tasks@), task_key());
    }

    fn init_schema(&mut self) -> (r: Result<(), RuntimeStateStoreError>) {
        Ok(())
    }

    fn upsert_identity_binding(&mut self, binding: &GlobalIdentityBinding) -> (r: Result<
        (),
        RuntimeStateStoreError,
    >) {
        let b = binding.duplicate();
        let ghost old_views = views(self.bindings@);
        match self.find_binding(&binding.provider, &binding.external_user_id) {
            Some(i) => {
                self.bindings.set(i, b);
                proof {
                    lemma_keyed_update(old_views, binding_key(), i as int, binding@);
                    assert(views(self.bindings@) =~= old_views.update(i as int, binding@));
                }
            },
            None => {
                self.bindings.push(b);
                proof {
                    lemma_keyed_push(old_views, binding_key(), binding@);
                    assert(views(self.bindings@) =~= old_views.push(binding@));
                }
            },
        }
        assert(self.model().bindings == old(self).model().bindings.insert(
            (binding@.provider, binding@.external_user_id),
            binding@,
        ));
        Ok(())
    }

    fn get_identity_binding(&self, provider: &str, external_user_id: &str) -> (r: Result<
        Option<GlobalIdentityBinding>,
        RuntimeStateStoreError,
    >) {
        let p = String::from_str(provider);
        let e = String::from_str(external_user_id);
        match self.find_binding(&p, &e) {
            Some(i) => {
                proof {
                    lemma_keyed_index(views(self.bindings@), binding_key(), i as int);
                    assert(views(self.bindings@)[i as int] == self.bindings@[i as int]@);
                }
                Ok(Some(self.bindings[i].duplicate()))
            },
            None => Ok(None),
        }
    }

    fn insert_bind_token(&mut self, token: &BindToken) -> (r: Result<(), RuntimeStateStoreError>) {
        match self.find_token(&token.token) {
            Some(i) => {
                proof {
                    lemma_keyed_index(views(self.tokens@), token_key(), i as int);
                    assert(views(self.tokens@)[i as int] == self.tokens@[i as int]@);
                }
                let msg = String::from_str("bind token already exists");
                Err(RuntimeStateStoreError::Database(msg))
            },
            None => {
                let ghost old_views = views(self.tokens@);
                self.tokens.push(token.duplicate());
                proof {
                    lemma_keyed_push(old_views, token_key(), token@);
                    assert(views(self.tokens@) =~= old_views.push(token@));
                }
                assert(self.model().tokens == old(self).model().tokens.insert(token@.token, token@));
                Ok(())
            },
        }
    }

    fn get_bind_token(&self, token: &str) -> (r: Result<Option<BindToken>, RuntimeStateStoreError>) {
        let t = String::from_str(token);
        match self.find_token(&t) {
            Some(i) => {
                proof {
                    lemma_keyed_index(views(self.tokens@), token_key(), i as int);
                    assert(views(self.tokens@)[i as int] == self.tokens@[i as int]@);
                }
                Ok(Some(self.tokens[i].duplicate()))
            },
            None => Ok(None),
        }
    }

    fn mark_bind_token_consumed(&mut self, token: &str, consumed_at_epoch_ms: i64) -> (r: Result<
        (),
        RuntimeStateStoreError,
    >) {
        let t = String::from_str(token);
        match self.find_token(&t) {
            Some(i) => {
                let ghost old_views = views(self.tokens@);
                let mut updated = self.tokens[i].duplicate();
                updated.consumed_at_epoch_ms = Some(consumed_at_epoch_ms);
                proof {
                    lemma_keyed_index(old_views, token_key(), i as int);
                    assert(old_views[i as int] == self.tokens@[i as int]@);
                    lemma_keyed_update(old_views, token_key(), i as int, updated@);
                }
                self.tokens.set(i, updated);
                proof {
                    assert(views(self.tokens@) =~= old_views.update(i as int, updated@));
                    assert(updated@ == BindTokenView {
                        consumed_at_epoch_ms: Some(consumed_at_epoch_ms),
                        ..old(self).model().tokens[token@]
                    });
                }
                Ok(())
            },
            None => Ok(()),
        }
    }

    fn upsert_active_session(&mut self, lease: &ActiveSessionLease) -> (r: Result<
        (),
        RuntimeStateStoreError,
    >) {
        let l = lease.duplicate();
        let ghost old_views = views(self.sessions@);
        match self.find_session(&lease.global_user_id) {
            Some(i) => {
                self.sessions.set(i, l);
                proof {
                    lemma_keyed_update(old_views, session_key(), i as int, lease@);
                    assert(views(self.sessions@) =~= old_views.update(i as int, lease@));
                }
            },
            None => {
                self.sessions.push(l);
                proof {
                    lemma_keyed_push(old_views, session_key(), lease@);
                    assert(views(self.sessions@) =~= old_views.push(lease@));
                }
            },
        }
        Ok(())
    }

    fn get_active_session(&self, global_user_id: &str) -> (r: Result<
        Option<ActiveSessionLease>,
        RuntimeStateStoreError,
    >) {
        let g = String::from_str(global_user_id);
        match self.find_session(&g) {
            Some(i) => {
                proof {
                    lemma_keyed_index(views(self.sessions@), session_key(), i as int);
                    assert(views(self.sessions@)[i as int] == self.sessions@[i as int]@);
                }
                Ok(Some(self.sessions[i].duplicate()))
            },
            None => Ok(None),
        }
    }

    fn upsert_scheduled_task(&mut self, task: &ScheduledTask) -> (r: Result<
        (),
        RuntimeStateStoreError,
    >) {
        let ghost v0 = views(self.tasks@);
        let ghost m0 = keyed_map(v0, task_key());
        match self.find_task(&task.task_id) {
            Some(i) => {
                let ghost before = views(self.tasks@);
                self.tasks.remove(i);
                proof {
                    lemma_keyed_remove(before, task_key(), i as int);
                    assert(views(self.tasks@) =~= before.remove(i as int));
                }
            },
            None => {},
        }
        let ghost v1 = views(self.tasks@);
        assert(keys_unique(v1, task_key()));
        assert(tasks_sorted(v1));
        assert(!has_key(v1, task_key(), task@.task_id));
        assert(keyed_map(v1, task_key()).insert(task@.task_id, task@) == m0.insert(
            task@.task_id,
            task@,
        )) by {
            assert(keyed_map(v1, task_key()).insert(task@.task_id, task@) =~= m0.insert(
                task@.task_id,
                task@,
            ));
        }
        let mut p: usize = 0;
        while p < self.tasks.len() && task_listed_before(&self.tasks[p], task)
            invariant
                v1 == views(self.tasks@),
                p <= self.tasks.len(),
                forall|q: int| 0 <= q < p ==> task_before(#[trigger] v1[q], task@),
            decreases self.tasks.len() - p,
        {
            assert(v1[p as int] == self.tasks@[p as int]@);
            p = p + 1;
        }
        proof {
            if p < v1.len() {
                assert(v1[p as int] == self.tasks@[p as int]@);
                assert(!task_before(v1[p as int], task@));
                assert(v1[p as int].task_id != task@.task_id);
                lemma_task_before_total(v1[p as int], task@);
            }
        }
        self.tasks.insert(p, task.duplicate());
        proof {
            let v2 = views(self.tasks@);
            assert(v2 =~= v1.insert(p as int, task@));
            lemma_keyed_insert(v1, task_key(), p as int, task@);
            assert forall|a: int, b: int| 0 <= a < b < v2.len() implies task_before(
                v2[a],
                v2[b],
            ) by {
                if b < p {
                } else if a < p && b == p {
                } else if a < p && b > p {
                    assert(v2[b] == v1[b - 1]);
                    if b - 1 > p {
                        lemma_task_before_transitive(task@, v1[p as int], v1[b - 1]);
                    }
                    lemma_task_before_transitive(v1[a], task@, v1[b - 1]);
                } else if a == p {
                    assert(v2[b] == v1[b - 1]);
                    if b - 1 > p {
                        lemma_task_before_transitive(task@, v1[p as int], v1[b - 1]);
                    }
                } else {
                    assert(v2[a] == v1[a - 1]);
                    assert(v2[b] == v1[b - 1]);
                }
            }
        }
        Ok(())
    }

    fn get_scheduled_task(&self, task_id: &str) -> (r: Result<
        Option<ScheduledTask>,
        RuntimeStateStoreError,
    >) {
        let t = String::from_str(task_id);
        match self.find_task(&t) {
            Some(i) => {
                proof {
                    lemma_keyed_index(views(self.tasks@), task_key(), i as int);
                    assert(views(self.tasks@)[i as int] == self.tasks@[i as int]@);
                }
                Ok(Some(self.tasks[i].duplicate()))
            },
            None => Ok(None),
        }
    }

    fn list_scheduled_tasks(&self) -> (r: Result<Vec<ScheduledTask>, RuntimeStateStoreError>) {
        let out = self.filter_tasks(false, 0, Ghost(any_task()));
        Ok(out)
    }

    fn list_due_tasks(&self, now_epoch_ms: i64) -> (r: Result<
        Vec<ScheduledTask>,
        RuntimeStateStoreError,
    >) {
        let out = self.filter_tasks(
            true,
            now_epoch_ms,
            Ghost(|t: ScheduledTaskView| is_due(t, now_epoch_ms)),
        );
        Ok(out)
    }
}

} // verus!
