//! Orchestration of a manager profile plus worker fan-out.
//!
//! The registry maps profile names to backends and lists them in name order. The
//! orchestrator decides which backend and session each turn uses and how the turns are
//! summarized; running a turn against a backend is left to the caller.
use vstd::prelude::*;

use crate::keyed::{
    has_key, keyed_map, keys_unique, lemma_keyed_index, lemma_keyed_insert, lemma_keyed_remove,
};
use crate::handle_input::RequestContextPlan;
use crate::text::{
    join, lemma_seq_lt_asymmetric, lemma_seq_lt_irreflexive, lemma_seq_lt_total,
    lemma_seq_lt_transitive, push_str, seq_lt, str_eq, str_lt, str_to_string, string_from_chars,
    string_views,
};

verus! {

/// Error returned by orchestration operations.
#[derive(Debug, Clone, PartialEq, Eq)]
pub enum OrchestrationError {
    /// A requested profile name was not present in the registry.
    MissingProfile {
        /// The profile that could not be resolved.
        profile_name: String,
    },
    /// A backend session returned an error while processing a turn.
    BackendFailure {
        /// The profile that returned the error.
        profile_name: String,
        /// The backend error message.
        message: String,
    },
}

/// The human-readable text of an orchestration error.
pub open spec fn orchestration_message(e: OrchestrationError) -> Seq<char> {
    match e {
        OrchestrationError::MissingProfile { profile_name } => "missing orchestration profile '"@
            + profile_name@ + "'"@,
        OrchestrationError::BackendFailure { profile_name, message } => "orchestration profile '"@
            + profile_name@ + "' failed: "@ + message@,
    }
}

impl OrchestrationError {
    /// The human-readable text of this error.
    pub fn message(&self) -> (r: String)
        ensures
            r@ == orchestration_message(*self),
    {
        let mut out: Vec<char> = Vec::new();
        match self {
            OrchestrationError::MissingProfile { profile_name } => {
                push_str(&mut out, "missing orchestration profile '");
                push_str(&mut out, profile_name.as_str());
                push_str(&mut out, "'");
            },
            OrchestrationError::BackendFailure { profile_name, message } => {
                push_str(&mut out, "orchestration profile '");
                push_str(&mut out, profile_name.as_str());
                push_str(&mut out, "' failed: ");
                push_str(&mut out, message.as_str());
            },
        }
        assert(out@ =~= orchestration_message(*self));
        string_from_chars(out.as_slice())
    }
}

/// Backend descriptor for a named orchestration profile.
#[derive(Debug, Clone)]
pub struct OrchestrationProfileDescriptor<B> {
    name: String,
    backend: B,
}

impl<B> OrchestrationProfileDescriptor<B> {
    /// The registered profile name.
    pub closed spec fn spec_name(&self) -> Seq<char> {
        self.name@
    }

    /// The backend bound to the profile.
    pub closed spec fn spec_backend(&self) -> B {
        self.backend
    }

    /// Create a new profile descriptor.
    pub fn new(name: &str, backend: B) -> (r: Self)
        ensures
            r.spec_name() == name@,
            r.spec_backend() == backend,
    {
        OrchestrationProfileDescriptor { name: str_to_string(name), backend }
    }

    /// Return the registered profile name.
    pub fn name(&self) -> (r: &str)
        ensures
            r@ == self.spec_name(),
    {
        self.name.as_str()
    }

    /// Return the backend bound to the profile.
    pub fn backend(&self) -> (r: &B)
        ensures
            *r == self.spec_backend(),
    {
        &self.backend
    }
}

/// Name of a descriptor.
pub open spec fn descriptor_name<B>() -> spec_fn(OrchestrationProfileDescriptor<B>) -> Seq<char> {
    |d: OrchestrationProfileDescriptor<B>| d.spec_name()
}

/// Names strictly increasing.
pub open spec fn names_sorted(names: Seq<Seq<char>>) -> bool {
    forall|i: int, j: int| 0 <= i < j < names.len() ==> seq_lt(names[i], names[j])
}

/// The names of descriptors, in order.
pub open spec fn descriptor_names<B>(s: Seq<OrchestrationProfileDescriptor<B>>) -> Seq<Seq<char>> {
    Seq::new(s.len(), |i: int| s[i].spec_name())
}

/// Whether a name differs from `excluded`.
pub open spec fn other_than(excluded: Seq<char>) -> spec_fn(Seq<char>) -> bool {
    |n: Seq<char>| n != excluded
}

/// The names other than `excluded`, in their order.
pub open spec fn names_except(names: Seq<Seq<char>>, excluded: Seq<char>) -> Seq<Seq<char>> {
    names.filter(other_than(excluded))
}

/// Registry for orchestration profiles, ordered by name.
#[derive(Debug, Clone)]
pub struct OrchestrationProfileRegistry<B> {
    profiles: Vec<OrchestrationProfileDescriptor<B>>,
}

impl<B> OrchestrationProfileRegistry<B> {
    /// The registered profiles, by name.
    pub closed spec fn profiles_map(&self) -> Map<Seq<char>, OrchestrationProfileDescriptor<B>> {
        keyed_map(self.profiles@, descriptor_name())
    }

    /// The backend registered under each profile name.
    pub open spec fn backends(&self) -> Map<Seq<char>, B> {
        self.profiles_map().map_values(|d: OrchestrationProfileDescriptor<B>| d.spec_backend())
    }

    /// The registered names, in name order.
    pub closed spec fn names(&self) -> Seq<Seq<char>> {
        descriptor_names(self.profiles@)
    }

    /// The registry's internal consistency.
    pub closed spec fn inv(&self) -> bool {
        &&& names_sorted(descriptor_names(self.profiles@))
        &&& forall|k: Seq<char>| #[trigger] self.profiles_map().contains_key(k) ==> self.profiles_map()[k].spec_name() == k
    }

    /// Law: the registered names are listed in strictly increasing order, each name
    /// once, exactly the names that have a backend.
    pub proof fn lemma_names_are_sorted_keys(&self)
        requires
            self.inv(),
        ensures
            names_sorted(self.names()),
            forall|k: Seq<char>| self.backends().contains_key(k) <==> self.names().contains(k),
    {
        let s = self.profiles@;
        let ns = descriptor_names(s);
        assert forall|k: Seq<char>| self.backends().contains_key(k) implies ns.contains(k) by {
            let i = choose|i: int| 0 <= i < s.len() && descriptor_name::<B>()(s[i]) == k;
            assert(ns[i] == k);
        }
        assert forall|k: Seq<char>| ns.contains(k) implies self.backends().contains_key(k) by {
            let i = choose|i: int| 0 <= i < ns.len() && ns[i] == k;
            assert(descriptor_name::<B>()(s[i]) == k);
            assert(has_key(s, descriptor_name::<B>(), k));
        }
    }

    /// Create an empty registry.
    pub fn new() -> (r: Self)
        ensures
            r.inv(),
            r.backends() == Map::<Seq<char>, B>::empty(),
    {
        let r = OrchestrationProfileRegistry { profiles: Vec::new() };
        assert(r.profiles_map() =~= Map::empty());
        assert(r.backends() =~= Map::empty());
        r
    }

    proof fn lemma_sorted_unique(&self)
        requires
            names_sorted(descriptor_names(self.profiles@)),
        ensures
            keys_unique(self.profiles@, descriptor_name()),
    {
        let s = self.profiles@;
        assert forall|i: int, j: int| 0 <= i < s.len() && 0 <= j < s.len() && i != j implies descriptor_name::<B>()(
            s[i],
        ) != descriptor_name::<B>()(s[j]) by {
            let ns = descriptor_names(s);
            if i < j {
                assert(seq_lt(ns[i], ns[j]));
                lemma_seq_lt_irreflexive(ns[i]);
            } else {
                assert(seq_lt(ns[j], ns[i]));
                lemma_seq_lt_irreflexive(ns[j]);
            }
        }
    }

    /// Register a pre-built profile descriptor; the descriptor it replaces, if any, is returned.
    pub fn register_descriptor(&mut self, descriptor: OrchestrationProfileDescriptor<B>) -> (r:
        Option<OrchestrationProfileDescriptor<B>>)
        requires
            old(self).inv(),
        ensures
            final(self).inv(),
            final(self).backends() == old(self).backends().insert(
                descriptor.spec_name(),
                descriptor.spec_backend(),
            ),
            match r {
                Some(d) => old(self).backends().contains_key(descriptor.spec_name())
                    && d.spec_backend() == old(self).backends()[descriptor.spec_name()]
                    && d.spec_name() == descriptor.spec_name(),
                None => !old(self).backends().contains_key(descriptor.spec_name()),
            },
    {
        proof {
            self.lemma_sorted_unique();
        }
        let ghost s0 = self.profiles@;
        let ghost key = descriptor.spec_name();
        let mut p: usize = 0;
        while p < self.profiles.len() && str_lt(self.profiles[p].name.as_str(), descriptor.name.as_str())
            invariant
                s0 == self.profiles@,
                key == descriptor.spec_name(),
                names_sorted(descriptor_names(s0)),
                keys_unique(s0, descriptor_name()),
                p <= s0.len(),
                forall|q: int| 0 <= q < p ==> seq_lt(#[trigger] s0[q].spec_name(), key),
            decreases self.profiles.len() - p,
        {
            p = p + 1;
        }
        proof {
            let ns = descriptor_names(s0);
            // Every name at or after `p` is at least the key.
            assert forall|q: int| p <= q < s0.len() implies !seq_lt(#[trigger] s0[q].spec_name(), key) by {
                assert(!seq_lt(s0[p as int].spec_name(), key));
                if q > p {
                    assert(seq_lt(ns[p as int], ns[q]));
                    if seq_lt(s0[q].spec_name(), key) {
                        lemma_seq_lt_transitive(ns[p as int], ns[q], key);
                    }
                }
            }
        }
        if p < self.profiles.len() && str_eq(self.profiles[p].name.as_str(), descriptor.name.as_str()) {
            let old_desc = self.profiles.remove(p);
            proof {
                lemma_keyed_index(s0, descriptor_name(), p as int);
                lemma_keyed_remove(s0, descriptor_name(), p as int);
                assert(self.profiles@ =~= s0.remove(p as int));
            }
            let ghost s1 = self.profiles@;
            self.profiles.insert(p, descriptor);
            proof {
                let s2 = self.profiles@;
                assert(s2 =~= s1.insert(p as int, descriptor));
                lemma_keyed_insert(s1, descriptor_name(), p as int, descriptor);
                assert(s2 =~= s0.update(p as int, descriptor));
                let ns2 = descriptor_names(s2);
                assert(ns2 =~= descriptor_names(s0));
                assert(self.profiles_map() =~= keyed_map(s0, descriptor_name()).insert(key, descriptor));
                assert(self.backends() =~= old(self).backends().insert(key, descriptor.spec_backend()));
            }
            Some(old_desc)
        } else {
            proof {
                if p < s0.len() {
                    lemma_seq_lt_total(s0[p as int].spec_name(), key);
                }
                assert(!has_key(s0, descriptor_name(), key)) by {
                    if has_key(s0, descriptor_name(), key) {
                        let i = choose|i: int| 0 <= i < s0.len() && descriptor_name::<B>()(s0[i]) == key;
                        if i < p {
                            lemma_seq_lt_irreflexive(key);
                        } else if i > p {
                            let ns = descriptor_names(s0);
                            assert(seq_lt(ns[p as int], ns[i]));
                            lemma_seq_lt_asymmetric(key, ns[p as int]);
                        }
                    }
                }
            }
            self.profiles.insert(p, descriptor);
            proof {
                let s2 = self.profiles@;
                assert(s2 =~= s0.insert(p as int, descriptor));
                lemma_keyed_insert(s0, descriptor_name(), p as int, descriptor);
                let ns0 = descriptor_names(s0);
                let ns2 = descriptor_names(s2);
                assert forall|a: int, b: int| 0 <= a < b < ns2.len() implies seq_lt(ns2[a], ns2[b]) by {
                    if b < p {
                        assert(ns2[a] == ns0[a] && ns2[b] == ns0[b]);
                    } else if b == p {
                        assert(ns2[a] == ns0[a]);
                    } else if a < p {
                        assert(ns2[a] == ns0[a] && ns2[b] == ns0[b - 1]);
                        lemma_seq_lt_total(s0[p as int].spec_name(), key);
                        if b - 1 > p {
                            lemma_seq_lt_transitive(key, ns0[p as int], ns0[b - 1]);
                        }
                        lemma_seq_lt_transitive(ns0[a], key, ns0[b - 1]);
                    } else if a == p {
                        assert(ns2[b] == ns0[b - 1]);
                        lemma_seq_lt_total(s0[p as int].spec_name(), key);
                        if b - 1 > p {
                            lemma_seq_lt_transitive(key, ns0[p as int], ns0[b - 1]);
                        }
                    } else {
                        assert(ns2[a] == ns0[a - 1] && ns2[b] == ns0[b - 1]);
                    }
                }
                assert(self.backends() =~= old(self).backends().insert(key, descriptor.spec_backend()));
            }
            None
        }
    }

    /// Register a backend under a profile name; the descriptor it replaces, if any, is returned.
    pub fn register(&mut self, profile_name: &str, backend: B) -> (r: Option<
        OrchestrationProfileDescriptor<B>,
    >)
        requires
            old(self).inv(),
        ensures
            final(self).inv(),
            final(self).backends() == old(self).backends().insert(profile_name@, backend),
            match r {
                Some(d) => old(self).backends().contains_key(profile_name@) && d.spec_backend()
                    == old(self).backends()[profile_name@],
                None => !old(self).backends().contains_key(profile_name@),
            },
    {
        let descriptor = OrchestrationProfileDescriptor::new(profile_name, backend);
        self.register_descriptor(descriptor)
    }

    /// Return the backend for the requested profile name.
    pub fn backend(&self, profile_name: &str) -> (r: Option<&B>)
        requires
            self.inv(),
        ensures
            match r {
                Some(b) => self.backends().contains_key(profile_name@) && *b == self.backends()[profile_name@],
                None => !self.backends().contains_key(profile_name@),
            },
    {
        proof {
            self.lemma_sorted_unique();
        }
        let mut i: usize = 0;
        while i < self.profiles.len()
            invariant
                i <= self.profiles.len(),
                keys_unique(self.profiles@, descriptor_name()),
                forall|j: int| 0 <= j < i ==> self.profiles@[j].spec_name() != profile_name@,
            decreases self.profiles.len() - i,
        {
            if str_eq(self.profiles[i].name.as_str(), profile_name) {
                proof {
                    lemma_keyed_index(self.profiles@, descriptor_name(), i as int);
                }
                return Some(&self.profiles[i].backend);
            }
            i = i + 1;
        }
        None
    }

    /// Return the registered profile names in name order.
    pub fn profile_names(&self) -> (r: Vec<String>)
        ensures
            string_views(r@) == self.names(),
    {
        let mut out: Vec<String> = Vec::new();
        let mut i: usize = 0;
        while i < self.profiles.len()
            invariant
                i <= self.profiles.len(),
                string_views(out@) == descriptor_names(self.profiles@).take(i as int),
            decreases self.profiles.len() - i,
        {
            let ghost before = string_views(out@);
            let n = self.profiles[i].name.clone();
            let ghost nv = n@;
            out.push(n);
            assert(string_views(out@) =~= before.push(nv));
            i = i + 1;
            assert(string_views(out@) =~= descriptor_names(self.profiles@).take(i as int));
        }
        assert(descriptor_names(self.profiles@).take(self.profiles.len() as int) =~= descriptor_names(self.profiles@));
        out
    }
}

/// A single worker task to execute during fan-out.
#[derive(Debug, Clone, PartialEq, Eq)]
pub struct WorkerTask {
    profile_name: String,
    prompt: String,
}

impl WorkerTask {
    /// The profile that should run the task.
    pub closed spec fn spec_profile_name(&self) -> Seq<char> {
        self.profile_name@
    }

    /// The prompt of the task.
    pub closed spec fn spec_prompt(&self) -> Seq<char> {
        self.prompt@
    }

    /// Create a new worker task.
    pub fn new(profile_name: &str, prompt: &str) -> (r: Self)
        ensures
            r.spec_profile_name() == profile_name@,
            r.spec_prompt() == prompt@,
    {
        WorkerTask { profile_name: str_to_string(profile_name), prompt: str_to_string(prompt) }
    }

    /// The profile that should run the task.
    pub fn profile_name(&self) -> (r: &str)
        ensures
            r@ == self.spec_profile_name(),
    {
        self.profile_name.as_str()
    }

    /// The prompt of the task.
    pub fn prompt(&self) -> (r: &str)
        ensures
            r@ == self.spec_prompt(),
    {
        self.prompt.as_str()
    }
}

/// A single turn executed against a profile backend.
#[derive(Debug, Clone, PartialEq, Eq)]
pub struct OrchestrationTurn {
    /// Profile used to execute the turn.
    pub profile_name: String,
    /// Session identifier passed to the backend.
    pub session_id: String,
    /// Prompt sent to the backend.
    pub prompt: String,
    /// Assistant response returned by the backend.
    pub response: String,
}

/// Aggregated result for a complete orchestration run.
#[derive(Debug, Clone, PartialEq, Eq)]
pub struct OrchestrationRun {
    /// Manager turn result.
    pub manager: OrchestrationTurn,
    /// Worker turn results in input order.
    pub workers: Vec<OrchestrationTurn>,
    /// Human-readable aggregation of the run.
    pub summary: String,
}

/// A backend turn that the orchestrator asks its caller to run: which backend, under
/// which session, with which prompt, on behalf of which profile.
pub struct TurnRequest<'a, B> {
    /// Profile the turn runs for.
    pub profile_name: String,
    /// Session identifier to open on the backend.
    pub session_id: String,
    /// Prompt to send.
    pub prompt: String,
    /// Backend that runs the turn.
    pub backend: &'a B,
    /// Per-request overrides the turn runs with.
    pub context: &'a RequestContextPlan,
}

/// Session id of the manager turn under a root session.
pub open spec fn spec_manager_session_id(root: Seq<char>) -> Seq<char> {
    root + "::manager"@
}

/// Session id of a worker profile's turn under a root session.
pub open spec fn spec_worker_session_id(root: Seq<char>, profile: Seq<char>) -> Seq<char> {
    root + "::worker::"@ + profile
}

/// Summary line of the manager turn.
pub open spec fn manager_line(manager: OrchestrationTurn) -> Seq<char> {
    "manager: "@ + manager.response@
}

/// Summary line of a worker turn.
pub open spec fn worker_line(worker: OrchestrationTurn) -> Seq<char> {
    worker.profile_name@ + ": "@ + worker.response@
}

/// The summary lines: the manager's, then each worker's in order.
pub open spec fn summary_lines(manager: OrchestrationTurn, workers: Seq<OrchestrationTurn>) -> Seq<
    Seq<char>,
> {
    seq![manager_line(manager)] + Seq::new(workers.len(), |i: int| worker_line(workers[i]))
}

/// The human-readable summary of a run: its lines joined by newlines.
pub open spec fn spec_render_summary(manager: OrchestrationTurn, workers: Seq<OrchestrationTurn>) -> Seq<
    char,
> {
    join(summary_lines(manager, workers), "\n"@)
}

/// Runtime-owned orchestrator for a manager profile plus worker fan-out.
#[derive(Debug, Clone)]
pub struct Orchestrator<B> {
    manager_profile_name: String,
    registry: OrchestrationProfileRegistry<B>,
}

impl<B> Orchestrator<B> {
    /// Name of the manager profile.
    pub closed spec fn manager_name(&self) -> Seq<char> {
        self.manager_profile_name@
    }

    /// The profile registry the orchestrator draws backends from.
    pub closed spec fn spec_registry(&self) -> OrchestrationProfileRegistry<B> {
        self.registry
    }

    /// The orchestrator's internal consistency.
    pub closed spec fn inv(&self) -> bool {
        self.registry.inv()
    }

    /// Create a new orchestrator with the given manager profile name.
    pub fn new(manager_profile_name: &str, registry: OrchestrationProfileRegistry<B>) -> (r: Self)
        requires
            registry.inv(),
        ensures
            r.inv(),
            r.manager_name() == manager_profile_name@,
            r.spec_registry() == registry,
    {
        Orchestrator { manager_profile_name: str_to_string(manager_profile_name), registry }
    }

    /// Return the registered profile names in name order, without the manager profile.
    pub fn worker_profile_names(&self) -> (r: Vec<String>)
        ensures
            string_views(r@) == names_except(self.spec_registry().names(), self.manager_name()),
    {
        let names = self.registry.profile_names();
        let ghost all = string_views(names@);
        let mut out: Vec<String> = Vec::new();
        let mut i: usize = 0;
        while i < names.len()
            invariant
                i <= names.len(),
                all == string_views(names@),
                string_views(out@) == names_except(all.take(i as int), self.manager_name()),
            decreases names.len() - i,
        {
            let ghost before = string_views(out@);
            proof {
                assert(all.take(i + 1).drop_last() =~= all.take(i as int));
                reveal(Seq::filter);
            }
            if !str_eq(names[i].as_str(), self.manager_profile_name.as_str()) {
                let n = names[i].clone();
                out.push(n);
                assert(string_views(out@) =~= before.push(all[i as int]));
            } else {
                assert(string_views(out@) =~= before);
            }
            i = i + 1;
        }
        assert(all.take(names.len() as int) =~= all);
        out
    }

    /// Session id of the manager turn under a root session.
    pub fn manager_session_id(root_session_id: &str) -> (r: String)
        ensures
            r@ == spec_manager_session_id(root_session_id@),
    {
        let mut out: Vec<char> = Vec::new();
        push_str(&mut out, root_session_id);
        push_str(&mut out, "::manager");
        string_from_chars(out.as_slice())
    }

    /// Session id of a worker profile's turn under a root session.
    pub fn worker_session_id(root_session_id: &str, profile_name: &str) -> (r: String)
        ensures
            r@ == spec_worker_session_id(root_session_id@, profile_name@),
    {
        let mut out: Vec<char> = Vec::new();
        push_str(&mut out, root_session_id);
        push_str(&mut out, "::worker::");
        push_str(&mut out, profile_name);
        string_from_chars(out.as_slice())
    }

    /// Look a profile's backend up, failing with `MissingProfile` when it is not registered.
    pub fn backend_for(&self, profile_name: &str) -> (r: Result<&B, OrchestrationError>)
        requires
            self.inv(),
        ensures
            match r {
                Ok(b) => self.spec_registry().backends().contains_key(profile_name@) && *b
                    == self.spec_registry().backends()[profile_name@],
                Err(e) => !self.spec_registry().backends().contains_key(profile_name@) && e is MissingProfile
                    && e->MissingProfile_profile_name@ == profile_name@,
            },
    {
        match self.registry.backend(profile_name) {
            Some(b) => Ok(b),
            None => Err(OrchestrationError::MissingProfile { profile_name: str_to_string(profile_name) }),
        }
    }

    /// The manager turn of a run: the manager profile's backend, under the manager session
    /// of the root session, with the manager prompt.
    pub fn manager_turn_request<'a>(
        &'a self,
        root_session_id: &str,
        manager_prompt: &str,
        context: &'a RequestContextPlan,
    ) -> (r: Result<TurnRequest<'a, B>, OrchestrationError>)
        requires
            self.inv(),
        ensures
            match r {
                Ok(t) => self.spec_registry().backends().contains_key(self.manager_name())
                    && *t.backend == self.spec_registry().backends()[self.manager_name()]
                    && t.profile_name@ == self.manager_name()
                    && t.session_id@ == spec_manager_session_id(root_session_id@)
                    && t.prompt@ == manager_prompt@ && t.context == context,
                Err(e) => !self.spec_registry().backends().contains_key(self.manager_name())
                    && e is MissingProfile && e->MissingProfile_profile_name@ == self.manager_name(),
            },
    {
        let backend = self.backend_for(self.manager_profile_name.as_str())?;
        Ok(TurnRequest {
            profile_name: self.manager_profile_name.clone(),
            session_id: Self::manager_session_id(root_session_id),
            prompt: str_to_string(manager_prompt),
            backend,
            context,
        })
    }

    /// The turn of one worker task: the task profile's backend, under that profile's worker
    /// session of the root session, with the task prompt.
    pub fn worker_turn_request<'a>(
        &'a self,
        root_session_id: &str,
        task: &WorkerTask,
        context: &'a RequestContextPlan,
    ) -> (r: Result<TurnRequest<'a, B>, OrchestrationError>)
        requires
            self.inv(),
        ensures
            match r {
                Ok(t) => self.spec_registry().backends().contains_key(task.spec_profile_name())
                    && *t.backend == self.spec_registry().backends()[task.spec_profile_name()]
                    && t.profile_name@ == task.spec_profile_name()
                    && t.session_id@ == spec_worker_session_id(root_session_id@, task.spec_profile_name())
                    && t.prompt@ == task.spec_prompt() && t.context == context,
                Err(e) => !self.spec_registry().backends().contains_key(task.spec_profile_name())
                    && e is MissingProfile && e->MissingProfile_profile_name@ == task.spec_profile_name(),
            },
    {
        let backend = self.backend_for(task.profile_name())?;
        Ok(TurnRequest {
            profile_name: str_to_string(task.profile_name()),
            session_id: Self::worker_session_id(root_session_id, task.profile_name()),
            prompt: str_to_string(task.prompt()),
            backend,
            context,
        })
    }

    /// The outcome of a requested turn, given the backend's reply: the turn, or
    /// `BackendFailure` carrying the backend's error message.
    pub fn turn_result(request: &TurnRequest<B>, reply: Result<String, String>) -> (r: Result<
        OrchestrationTurn,
        OrchestrationError,
    >)
        ensures
            match reply {
                Ok(content) => r matches Ok(t) && t.profile_name@ == request.profile_name@
                    && t.session_id@ == request.session_id@ && t.prompt@ == request.prompt@
                    && t.response@ == content@,
                Err(message) => r matches Err(e) && e is BackendFailure
                    && e->BackendFailure_profile_name@ == request.profile_name@
                    && e->message@ == message@,
            },
    {
        match reply {
            Ok(content) => Ok(OrchestrationTurn {
                profile_name: request.profile_name.clone(),
                session_id: request.session_id.clone(),
                prompt: request.prompt.clone(),
                response: content,
            }),
            Err(message) => Err(OrchestrationError::BackendFailure {
                profile_name: request.profile_name.clone(),
                message,
            }),
        }
    }

    /// Human-readable aggregation: `manager: <response>`, then `<profile>: <response>` for
    /// each worker in order, one per line.
    pub fn render_summary(manager: &OrchestrationTurn, workers: &[OrchestrationTurn]) -> (r: String)
        ensures
            r@ == spec_render_summary(*manager, workers@),
    {
        let ghost lines = summary_lines(*manager, workers@);
        let mut out: Vec<char> = Vec::new();
        push_str(&mut out, "manager: ");
        push_str(&mut out, manager.response.as_str());
        proof {
            assert(lines.take(1) =~= seq![lines[0]]);
            assert(out@ =~= join(lines.take(1), "\n"@));
        }
        let mut i: usize = 0;
        while i < workers.len()
            invariant
                i <= workers@.len(),
                lines == summary_lines(*manager, workers@),
                out@ == join(lines.take(i + 1), "\n"@),
            decreases workers@.len() - i,
        {
            push_str(&mut out, "\n");
            push_str(&mut out, workers[i].profile_name.as_str());
            push_str(&mut out, ": ");
            push_str(&mut out, workers[i].response.as_str());
            proof {
                let t = lines.take(i + 2);
                assert(t.drop_last() =~= lines.take(i + 1));
                assert(t.last() == worker_line(workers@[i as int]));
                assert(out@ =~= join(t.drop_last(), "\n"@) + "\n"@ + t.last());
            }
            i = i + 1;
        }
        assert(lines.take(workers@.len() as int + 1) =~= lines);
        string_from_chars(out.as_slice())
    }

    /// Whether the run of a worker task can go through: its profile is registered and its
    /// backend answered.
    pub open spec fn worker_ok(&self, task: WorkerTask, reply: Result<String, String>) -> bool {
        self.spec_registry().backends().contains_key(task.spec_profile_name()) && reply is Ok
    }

    /// The run of a manager prompt and its worker tasks, given what each backend answered
    /// (`manager_reply`, and `worker_replies[i]` for `tasks[i]`). The manager turn runs
    /// first; a missing manager profile or a manager failure ends the run. Otherwise the
    /// first worker whose profile is missing or whose backend failed ends it with that
    /// error; when every turn went through, the run holds each turn, in order, and the
    /// summary of them.
    pub fn run_from_replies(
        &self,
        root_session_id: &str,
        manager_prompt: &str,
        tasks: &[WorkerTask],
        manager_reply: &Result<String, String>,
        worker_replies: &[Result<String, String>],
    ) -> (r: Result<OrchestrationRun, OrchestrationError>)
        requires
            self.inv(),
            worker_replies.len() == tasks.len(),
        ensures
            !self.spec_registry().backends().contains_key(self.manager_name()) ==> (r matches Err(e)
                && e is MissingProfile && e->MissingProfile_profile_name@ == self.manager_name()),
            self.spec_registry().backends().contains_key(self.manager_name()) ==> (
            manager_reply matches Err(m) ==> (r matches Err(e) && e is BackendFailure
                && e->BackendFailure_profile_name@ == self.manager_name() && e->message@ == m@)),
            self.spec_registry().backends().contains_key(self.manager_name()) && manager_reply is Ok
                && (forall|i: int| 0 <= i < tasks.len() ==> #[trigger] self.worker_ok(tasks[i], worker_replies[i]))
                ==> r is Ok,
            r matches Ok(run) ==> (manager_reply matches Ok(m) && run.manager.profile_name@
                == self.manager_name() && run.manager.session_id@ == spec_manager_session_id(
                root_session_id@,
            ) && run.manager.prompt@ == manager_prompt@ && run.manager.response@ == m@
                && run.workers.len() == tasks.len() && (forall|i: int|
                0 <= i < tasks.len() ==> #[trigger] self.worker_ok(tasks[i], worker_replies[i])
                    && run.workers[i].profile_name@ == tasks[i].spec_profile_name()
                    && run.workers[i].session_id@ == spec_worker_session_id(
                    root_session_id@,
                    tasks[i].spec_profile_name(),
                ) && run.workers[i].prompt@ == tasks[i].spec_prompt() && (worker_replies[i] matches Ok(
                    c,
                ) && run.workers[i].response@ == c@)) && run.summary@ == spec_render_summary(
                run.manager,
                run.workers@,
            )),
            self.spec_registry().backends().contains_key(self.manager_name()) && manager_reply is Ok
                && r is Err ==> exists|i: int|
                0 <= i < tasks.len() && !#[trigger] self.worker_ok(tasks[i], worker_replies[i])
                    && (forall|j: int| 0 <= j < i ==> self.worker_ok(tasks[j], worker_replies[j]))
                    && (r matches Err(e) && if !self.spec_registry().backends().contains_key(
                    tasks[i].spec_profile_name(),
                ) {
                    e is MissingProfile && e->MissingProfile_profile_name@ == tasks[i].spec_profile_name()
                } else {
                    e is BackendFailure && e->BackendFailure_profile_name@ == tasks[i].spec_profile_name()
                        && (worker_replies[i] matches Err(m) && e->message@ == m@)
                }),
    {
        let _manager_backend = self.backend_for(self.manager_profile_name.as_str())?;
        let manager = match manager_reply {
            Ok(content) => OrchestrationTurn {
                profile_name: self.manager_profile_name.clone(),
                session_id: Self::manager_session_id(root_session_id),
                prompt: str_to_string(manager_prompt),
                response: content.clone(),
            },
            Err(message) => {
                return Err(
                    OrchestrationError::BackendFailure {
                        profile_name: self.manager_profile_name.clone(),
                        message: message.clone(),
                    },
                );
            },
        };
        let mut workers: Vec<OrchestrationTurn> = Vec::new();
        let mut i: usize = 0;
        while i < tasks.len()
            invariant
                self.inv(),
                self.spec_registry().backends().contains_key(self.manager_name()),
                manager_reply is Ok,
                i <= tasks.len(),
                worker_replies.len() == tasks.len(),
                workers.len() == i,
                forall|j: int|
                    0 <= j < i ==> #[trigger] self.worker_ok(tasks[j], worker_replies[j])
                        && workers[j].profile_name@ == tasks[j].spec_profile_name()
                        && workers[j].session_id@ == spec_worker_session_id(
                        root_session_id@,
                        tasks[j].spec_profile_name(),
                    ) && workers[j].prompt@ == tasks[j].spec_prompt() && (worker_replies[j] matches Ok(
                        c,
                    ) && workers[j].response@ == c@),
            decreases tasks.len() - i,
        {
            let task = &tasks[i];
            match self.backend_for(task.profile_name()) {
                Ok(_) => {},
                Err(e) => {
                    assert(!self.worker_ok(tasks[i as int], worker_replies[i as int]));
                    return Err(e);
                },
            }
            let response = match &worker_replies[i] {
                Ok(content) => content.clone(),
                Err(message) => {
                    assert(!self.worker_ok(tasks[i as int], worker_replies[i as int]));
                    return Err(
                        OrchestrationError::BackendFailure {
                            profile_name: str_to_string(task.profile_name()),
                            message: message.clone(),
                        },
                    );
                },
            };
            let ghost old_workers = workers@;
            workers.push(
                OrchestrationTurn {
                    profile_name: str_to_string(task.profile_name()),
                    session_id: Self::worker_session_id(root_session_id, task.profile_name()),
                    prompt: str_to_string(task.prompt()),
                    response,
                },
            );
            proof {
                assert(self.worker_ok(tasks[i as int], worker_replies[i as int]));
                assert(worker_replies[i as int] matches Ok(c) && workers[i as int].response@ == c@);
                assert(workers[i as int].profile_name@ == tasks[i as int].spec_profile_name());
                assert(workers[i as int].session_id@ == spec_worker_session_id(
                    root_session_id@,
                    tasks[i as int].spec_profile_name(),
                ));
                assert(workers[i as int].prompt@ == tasks[i as int].spec_prompt());
                assert forall|j: int| 0 <= j < i + 1 implies #[trigger] self.worker_ok(tasks[j], worker_replies[j])
                    && workers[j].profile_name@ == tasks[j].spec_profile_name()
                    && workers[j].session_id@ == spec_worker_session_id(
                    root_session_id@,
                    tasks[j].spec_profile_name(),
                ) && workers[j].prompt@ == tasks[j].spec_prompt() && (worker_replies[j] matches Ok(
                    c,
                ) && workers[j].response@ == c@) by {
                    if j < i {
                        assert(workers@[j] == old_workers[j]);
                    }
                }
            }
            i = i + 1;
        }
        Ok(Self::assemble_run(manager, workers))
    }

    /// Assemble the run from the manager turn and the worker turns in input order.
    pub fn assemble_run(manager: OrchestrationTurn, workers: Vec<OrchestrationTurn>) -> (r:
        OrchestrationRun)
        ensures
            r.manager == manager,
            r.workers@ == workers@,
            r.summary@ == spec_render_summary(manager, workers@),
    {
        let summary = Self::render_summary(&manager, workers.as_slice());
        OrchestrationRun { manager, workers, summary }
    }
}

/// Filtering a strictly increasing list of names keeps it strictly increasing.
proof fn lemma_filter_sorted(names: Seq<Seq<char>>, keep: spec_fn(Seq<char>) -> bool)
    requires
        names_sorted(names),
    ensures
        names_sorted(names.filter(keep)),
    decreases names.len(),
{
    reveal(Seq::filter);
    if names.len() > 0 {
        let front = names.drop_last();
        assert forall|i: int, j: int| 0 <= i < j < front.len() implies seq_lt(front[i], front[j]) by {
            assert(front[i] == names[i] && front[j] == names[j]);
        }
        lemma_filter_sorted(front, keep);
        let f = front.filter(keep);
        if keep(names.last()) {
            let g = names.filter(keep);
            assert(g == f.push(names.last()));
            assert forall|a: int, b: int| 0 <= a < b < g.len() implies seq_lt(g[a], g[b]) by {
                if b == g.len() - 1 {
                    assert(f.contains(f[a]));
                    front.lemma_filter_contains_rev(keep, f[a]);
                    let j = choose|j: int| 0 <= j < front.len() && front[j] == f[a];
                    assert(names[j] == f[a]);
                } else {
                    assert(g[a] == f[a] && g[b] == f[b]);
                }
            }
        }
    }
}

/// Law: a worker turn's session never coincides with the manager session of the same
/// root session.
pub proof fn lemma_worker_session_isolated(root: Seq<char>, profile: Seq<char>)
    ensures
        spec_worker_session_id(root, profile) != spec_manager_session_id(root),
{
    reveal_strlit("::manager");
    reveal_strlit("::worker::");
    let w = spec_worker_session_id(root, profile);
    let m = spec_manager_session_id(root);
    assert(w[root.len() as int + 2] == 'w');
    assert(m[root.len() as int + 2] == 'm');
}

/// Law: under one root session, distinct worker profiles get distinct sessions.
pub proof fn lemma_worker_sessions_distinct(root: Seq<char>, a: Seq<char>, b: Seq<char>)
    requires
        a != b,
    ensures
        spec_worker_session_id(root, a) != spec_worker_session_id(root, b),
{
    reveal_strlit("::worker::");
    let n = root.len() + 10;
    assert(spec_worker_session_id(root, a).skip(n as int) =~= a);
    assert(spec_worker_session_id(root, b).skip(n as int) =~= b);
}

/// Law: the worker profile names are the registered names other than the manager's, in
/// strictly increasing order.
pub proof fn lemma_worker_names_exclude_manager<B>(o: Orchestrator<B>)
    requires
        o.inv(),
    ensures
        names_sorted(names_except(o.spec_registry().names(), o.manager_name())),
        forall|k: Seq<char>| #[trigger] names_except(o.spec_registry().names(), o.manager_name()).contains(k) <==> (o.spec_registry().backends().contains_key(k) && k != o.manager_name()),
{
    let r = o.spec_registry();
    let keep = other_than(o.manager_name());
    let ns = r.names();
    r.lemma_names_are_sorted_keys();
    lemma_filter_sorted(ns, keep);
    assert forall|k: Seq<char>| #[trigger] names_except(ns, o.manager_name()).contains(k) <==> (
    r.backends().contains_key(k) && k != o.manager_name()) by {
        let f = ns.filter(keep);
        if f.contains(k) {
            ns.lemma_filter_contains_rev(keep, k);
            let i = choose|i: int| 0 <= i < f.len() && f[i] == k;
            ns.lemma_filter_pred(keep, i);
        }
        if r.backends().contains_key(k) && k != o.manager_name() {
            assert(ns.contains(k));
            let i = choose|i: int| 0 <= i < ns.len() && ns[i] == k;
            ns.lemma_filter_contains(keep, i);
        }
    }
}

/// Law: after registering a backend under a name, looking that name up gives the backend;
/// every other name keeps its backend.
pub proof fn lemma_registry_read_after_write<B>(
    before: OrchestrationProfileRegistry<B>,
    after: OrchestrationProfileRegistry<B>,
    name: Seq<char>,
    backend: B,
)
    requires
        after.backends() == before.backends().insert(name, backend),
    ensures
        after.backends().contains_key(name),
        after.backends()[name] == backend,
        forall|k: Seq<char>| k != name ==> (#[trigger] after.backends().contains_key(k)
            <==> before.backends().contains_key(k)),
        forall|k: Seq<char>| k != name && before.backends().contains_key(k) ==> #[trigger] after.backends()[k]
            == before.backends()[k],
{
}

} // verus!
