//! Runtime wiring decisions: model names, external-agent profiles and the orchestrator
//! built from them.
use vstd::prelude::*;

use crate::agent_backend::{copy_strings, AcpAgentBackend, AcpConfig, AcpConfigView};
use crate::config::{AcpProfileConfig, AgentBackendConfig, AgentBackendType};
use crate::keyed::{has_key, keyed_map, keys_unique, lemma_keyed_insert, lemma_keyed_push};
use crate::orchestration::{names_sorted, OrchestrationProfileRegistry, Orchestrator};
use crate::text::{
    lemma_seq_lt_total, lemma_seq_lt_transitive, push_str, seq_lt,
    split_once_char, split_once_chars, str_chars, str_eq, str_lt, str_to_string, string_from_chars,
    string_views,
};

verus! {

/// A model identifier in `provider/model` form: the first `:` of a `provider:model`
/// identifier becomes `/`; other identifiers are kept.
pub open spec fn spec_normalize_model_name(model: Seq<char>) -> Seq<char> {
    match split_once_char(model, ':') {
        Some((provider, rest)) => provider + "/"@ + rest,
        None => model,
    }
}

/// Convert a model identifier from the `provider:model` form to the `provider/model`
/// form.
pub fn normalize_model_name(model: &str) -> (r: String)
    ensures
        r@ == spec_normalize_model_name(model@),
{
    let chars = str_chars(model);
    match split_once_chars(&chars, ':') {
        Some((provider, rest)) => {
            let mut out = provider;
            out.push('/');
            let mut i: usize = 0;
            let ghost start = out@;
            while i < rest.len()
                invariant
                    i <= rest.len(),
                    out@ == start + rest@.take(i as int),
                decreases rest.len() - i,
            {
                out.push(rest[i]);
                assert(rest@.take(i + 1) =~= rest@.take(i as int).push(rest@[i as int]));
                i = i + 1;
            }
            assert(rest@.take(rest.len() as int) =~= rest@);
            assert(out@ =~= spec_normalize_model_name(model@)) by {
                assert(start =~= provider@ + "/"@) by {
                    reveal_strlit("/");
                }
            }
            string_from_chars(out.as_slice())
        },
        None => str_to_string(model),
    }
}

/// Failures of the runtime wiring.
#[derive(Debug)]
pub enum BootstrapError {
    /// No named profile is configured and neither is the unnamed profile's command.
    MissingAcpCommand,
    /// The primary profile names no configured profile.
    UnknownPrimaryProfile(String),
    /// The primary profile's backend was not among those registered.
    PrimaryNotRegistered(String),
}

/// The human-readable text of a wiring error.
pub open spec fn bootstrap_message(e: BootstrapError) -> Seq<char> {
    match e {
        BootstrapError::MissingAcpCommand => "agent.acp_command is required for acp backend"@,
        BootstrapError::UnknownPrimaryProfile(p) => "agent.primary_profile '"@ + p@
            + "' is not defined in agent.acp_profiles"@,
        BootstrapError::PrimaryNotRegistered(p) => "primary ACP profile '"@ + p@
            + "' was not registered"@,
    }
}

impl BootstrapError {
    /// The human-readable text of this error.
    pub fn message(&self) -> (r: String)
        ensures
            r@ == bootstrap_message(*self),
    {
        let mut out: Vec<char> = Vec::new();
        match self {
            BootstrapError::MissingAcpCommand => push_str(
                &mut out,
                "agent.acp_command is required for acp backend",
            ),
            BootstrapError::UnknownPrimaryProfile(p) => {
                push_str(&mut out, "agent.primary_profile '");
                push_str(&mut out, p.as_str());
                push_str(&mut out, "' is not defined in agent.acp_profiles");
            },
            BootstrapError::PrimaryNotRegistered(p) => {
                push_str(&mut out, "primary ACP profile '");
                push_str(&mut out, p.as_str());
                push_str(&mut out, "' was not registered");
            },
        }
        assert(out@ =~= bootstrap_message(*self));
        string_from_chars(out.as_slice())
    }
}

/// The agent configuration a named profile describes.
pub open spec fn profile_view(p: AcpProfileConfig) -> AcpConfigView {
    AcpConfigView {
        command: p.command@,
        args: string_views(p.args@),
        working_dir: match p.working_dir {
            Some(w) => Some(w@),
            None => None,
        },
    }
}

/// The name of an entry.
pub open spec fn entry_name() -> spec_fn((Seq<char>, AcpConfigView)) -> Seq<char> {
    |e: (Seq<char>, AcpConfigView)| e.0
}

/// The configured profiles, as names with agent configurations.
pub open spec fn configured_entries(cfg: AgentBackendConfig) -> Seq<(Seq<char>, AcpConfigView)> {
    Seq::new(
        cfg.acp_profiles@.len(),
        |i: int| (cfg.acp_profiles@[i].0@, profile_view(cfg.acp_profiles@[i].1)),
    )
}

/// Resolved profiles, as names with agent configurations.
pub open spec fn resolved_entries(s: Seq<(String, AcpConfig)>) -> Seq<(Seq<char>, AcpConfigView)> {
    Seq::new(s.len(), |i: int| (s[i].0@, s[i].1@))
}

/// The names of resolved profiles, in order.
pub open spec fn resolved_names(s: Seq<(String, AcpConfig)>) -> Seq<Seq<char>> {
    Seq::new(s.len(), |i: int| s[i].0@)
}

/// No two named profiles share a name.
pub open spec fn profile_names_unique(cfg: AgentBackendConfig) -> bool {
    keys_unique(configured_entries(cfg), entry_name())
}

/// The least configured profile name.
pub open spec fn least_profile_name(cfg: AgentBackendConfig) -> Seq<char> {
    choose|k: Seq<char>|
        has_key(configured_entries(cfg), entry_name(), k) && forall|j: Seq<char>|
            has_key(configured_entries(cfg), entry_name(), j) && j != k ==> seq_lt(k, j)
}

/// The primary profile: the configured one, else `primary` when no named profile is
/// configured, else the least profile name.
pub open spec fn spec_primary_profile(cfg: AgentBackendConfig) -> Seq<char> {
    match cfg.primary_profile {
        Some(p) => p@,
        None => if cfg.acp_profiles@.len() == 0 {
            "primary"@
        } else {
            least_profile_name(cfg)
        },
    }
}

/// The unnamed profile's agent configuration.
pub open spec fn unnamed_profile(cfg: AgentBackendConfig) -> AcpConfigView {
    AcpConfigView {
        command: cfg.acp_command->0@,
        args: string_views(cfg.acp_args@),
        working_dir: match cfg.acp_working_dir {
            Some(w) => Some(w@),
            None => None,
        },
    }
}

/// Where resolution succeeds: with named profiles, the primary must be one of them;
/// without, the unnamed profile's command must be set.
pub open spec fn profiles_resolvable(cfg: AgentBackendConfig) -> bool {
    if cfg.acp_profiles@.len() == 0 {
        cfg.acp_command is Some
    } else {
        has_key(configured_entries(cfg), entry_name(), spec_primary_profile(cfg))
    }
}

/// Resolve the primary profile and the agent configuration of every profile, the
/// profiles in name order.
pub fn resolve_acp_profile_configs(agent_cfg: &AgentBackendConfig) -> (r: Result<
    (String, Vec<(String, AcpConfig)>),
    BootstrapError,
>)
    requires
        profile_names_unique(*agent_cfg),
    ensures
        profiles_resolvable(*agent_cfg) <==> r is Ok,
        r matches Ok((primary, profiles)) ==> {
            &&& primary@ == spec_primary_profile(*agent_cfg)
            &&& names_sorted(resolved_names(profiles@))
            &&& (agent_cfg.acp_profiles@.len() == 0 ==> resolved_entries(profiles@) == seq![
                (primary@, unnamed_profile(*agent_cfg)),
            ])
            &&& (agent_cfg.acp_profiles@.len() > 0 ==> keys_unique(
                resolved_entries(profiles@),
                entry_name(),
            ) && keyed_map(resolved_entries(profiles@), entry_name()) == keyed_map(
                configured_entries(*agent_cfg),
                entry_name(),
            ))
        },
        r matches Err(e) ==> (agent_cfg.acp_profiles@.len() == 0 && e is MissingAcpCommand) || (
        agent_cfg.acp_profiles@.len() > 0 && (e matches BootstrapError::UnknownPrimaryProfile(p)
            && p@ == spec_primary_profile(*agent_cfg))),
{
    if agent_cfg.acp_profiles.len() == 0 {
        let primary = match &agent_cfg.primary_profile {
            Some(p) => p.clone(),
            None => str_to_string("primary"),
        };
        let command = match &agent_cfg.acp_command {
            Some(c) => c.clone(),
            None => return Err(BootstrapError::MissingAcpCommand),
        };
        let config = AcpConfig {
            command,
            args: copy_strings(&agent_cfg.acp_args),
            working_dir: match &agent_cfg.acp_working_dir {
                Some(w) => Some(w.clone()),
                None => None,
            },
        };
        let mut profiles: Vec<(String, AcpConfig)> = Vec::new();
        profiles.push((primary.clone(), config));
        assert(resolved_entries(profiles@) =~= seq![(primary@, unnamed_profile(*agent_cfg))]);
        return Ok((primary, profiles));
    }
    let profiles = sorted_profiles(agent_cfg);
    proof {
        lemma_least_name(*agent_cfg, profiles@);
    }
    let primary = match &agent_cfg.primary_profile {
        Some(p) => p.clone(),
        None => profiles[0].0.clone(),
    };
    let mut found = false;
    let mut i: usize = 0;
    while i < profiles.len()
        invariant
            i <= profiles.len(),
            found <==> exists|j: int| 0 <= j < i && #[trigger] profiles@[j].0@ == primary@,
        decreases profiles.len() - i,
    {
        if str_eq(profiles[i].0.as_str(), primary.as_str()) {
            found = true;
        }
        i = i + 1;
    }
    proof {
        let ce = configured_entries(*agent_cfg);
        let re = resolved_entries(profiles@);
        if found {
            let j = choose|j: int| 0 <= j < profiles.len() && #[trigger] profiles@[j].0@ == primary@;
            assert(re[j].0 == primary@);
            assert(has_key(re, entry_name(), primary@));
            assert(keyed_map(re, entry_name()).contains_key(primary@));
        } else {
            if has_key(ce, entry_name(), primary@) {
                assert(keyed_map(ce, entry_name()).contains_key(primary@));
                let j = choose|j: int| 0 <= j < re.len() && entry_name()(re[j]) == primary@;
                assert(profiles@[j].0@ == primary@);
            }
        }
    }
    if !found {
        return Err(BootstrapError::UnknownPrimaryProfile(primary));
    }
    Ok((primary, profiles))
}

/// The least name of a list sorted by name that holds the configured profiles is the
/// least configured profile name.
proof fn lemma_least_name(cfg: AgentBackendConfig, profiles: Seq<(String, AcpConfig)>)
    requires
        cfg.acp_profiles@.len() > 0,
        names_sorted(resolved_names(profiles)),
        keys_unique(resolved_entries(profiles), entry_name()),
        keyed_map(resolved_entries(profiles), entry_name()) == keyed_map(
            configured_entries(cfg),
            entry_name(),
        ),
    ensures
        profiles.len() > 0,
        least_profile_name(cfg) == profiles[0].0@,
{
    let ce = configured_entries(cfg);
    let re = resolved_entries(profiles);
    assert(has_key(ce, entry_name(), ce[0].0));
    assert(keyed_map(ce, entry_name()).contains_key(ce[0].0));
    assert(profiles.len() > 0);
    let k = profiles[0].0@;
    assert(has_key(re, entry_name(), k)) by {
        assert(entry_name()(re[0]) == k);
    }
    assert(keyed_map(re, entry_name()).contains_key(k));
    assert(has_key(ce, entry_name(), k));
    assert forall|j: Seq<char>| has_key(ce, entry_name(), j) && j != k implies seq_lt(k, j) by {
        assert(keyed_map(ce, entry_name()).contains_key(j));
        assert(keyed_map(re, entry_name()).contains_key(j));
        let m = choose|m: int| 0 <= m < re.len() && entry_name()(re[m]) == j;
        assert(resolved_names(profiles)[m] == j);
        assert(m != 0);
        assert(resolved_names(profiles)[0] == k);
    }
    let c = least_profile_name(cfg);
    assert(has_key(ce, entry_name(), c) && forall|j: Seq<char>|
        has_key(ce, entry_name(), j) && j != c ==> seq_lt(c, j));
    if c != k {
        assert(seq_lt(c, k));
        assert(seq_lt(k, c));
        crate::text::lemma_seq_lt_asymmetric(c, k);
    }
}

/// The agent configuration a named profile describes.
fn profile_to_config(p: &AcpProfileConfig) -> (r: AcpConfig)
    ensures
        r@ == profile_view(*p),
{
    AcpConfig {
        command: p.command.clone(),
        args: copy_strings(&p.args),
        working_dir: match &p.working_dir {
            Some(w) => Some(w.clone()),
            None => None,
        },
    }
}

/// The configured profiles in name order.
fn sorted_profiles(agent_cfg: &AgentBackendConfig) -> (r: Vec<(String, AcpConfig)>)
    requires
        profile_names_unique(*agent_cfg),
    ensures
        r.len() == agent_cfg.acp_profiles.len(),
        names_sorted(resolved_names(r@)),
        keys_unique(resolved_entries(r@), entry_name()),
        keyed_map(resolved_entries(r@), entry_name()) == keyed_map(
            configured_entries(*agent_cfg),
            entry_name(),
        ),
{
    let ghost ce = configured_entries(*agent_cfg);
    let mut out: Vec<(String, AcpConfig)> = Vec::new();
    let mut i: usize = 0;
    assert(keyed_map(resolved_entries(out@), entry_name()) =~= keyed_map(ce.take(0), entry_name()));
    while i < agent_cfg.acp_profiles.len()
        invariant
            ce == configured_entries(*agent_cfg),
            keys_unique(ce, entry_name()),
            i <= agent_cfg.acp_profiles.len(),
            out.len() == i,
            names_sorted(resolved_names(out@)),
            keys_unique(resolved_entries(out@), entry_name()),
            keyed_map(resolved_entries(out@), entry_name()) == keyed_map(ce.take(i as int), entry_name()),
        decreases agent_cfg.acp_profiles.len() - i,
    {
        let name = agent_cfg.acp_profiles[i].0.clone();
        let config = profile_to_config(&agent_cfg.acp_profiles[i].1);
        let ghost x = (name@, config@);
        proof {
            assert(x == ce[i as int]);
            let t = ce.take(i as int);
            assert(keys_unique(t, entry_name()));
            assert(!has_key(t, entry_name(), x.0)) by {
                if has_key(t, entry_name(), x.0) {
                    let j = choose|j: int| 0 <= j < t.len() && entry_name()(t[j]) == x.0;
                    assert(ce[j].0 == ce[i as int].0);
                }
            }
            lemma_keyed_push(t, entry_name(), x);
            assert(ce.take(i + 1) =~= t.push(x));
            assert(!has_key(resolved_entries(out@), entry_name(), x.0)) by {
                if has_key(resolved_entries(out@), entry_name(), x.0) {
                    assert(keyed_map(resolved_entries(out@), entry_name()).contains_key(x.0));
                }
            }
        }
        insert_sorted(&mut out, name, config);
        i = i + 1;
    }
    assert(ce.take(agent_cfg.acp_profiles.len() as int) =~= ce);
    out
}

/// Insert an entry with a new name into a list sorted by name, keeping it sorted.
fn insert_sorted(out: &mut Vec<(String, AcpConfig)>, name: String, config: AcpConfig)
    requires
        names_sorted(resolved_names(old(out)@)),
        keys_unique(resolved_entries(old(out)@), entry_name()),
        !has_key(resolved_entries(old(out)@), entry_name(), name@),
    ensures
        final(out).len() == old(out).len() + 1,
        names_sorted(resolved_names(final(out)@)),
        keys_unique(resolved_entries(final(out)@), entry_name()),
        keyed_map(resolved_entries(final(out)@), entry_name()) == keyed_map(
            resolved_entries(old(out)@),
            entry_name(),
        ).insert(name@, (name@, config@)),
{
    let ghost s0 = out@;
    let ghost ns0 = resolved_names(s0);
    let ghost key = name@;
    let mut p: usize = 0;
    while p < out.len() && str_lt(out[p].0.as_str(), name.as_str())
        invariant
            s0 == out@,
            ns0 == resolved_names(s0),
            key == name@,
            p <= s0.len(),
            forall|q: int| 0 <= q < p ==> seq_lt(#[trigger] ns0[q], key),
        decreases out.len() - p,
    {
        p = p + 1;
    }
    proof {
        if p < s0.len() {
            assert(entry_name()(resolved_entries(s0)[p as int]) == ns0[p as int]);
            if ns0[p as int] == key {
                assert(has_key(resolved_entries(s0), entry_name(), key));
            }
            lemma_seq_lt_total(ns0[p as int], key);
        }
    }
    let ghost x = (name@, config@);
    out.insert(p, (name, config));
    proof {
        let s2 = out@;
        let ns2 = resolved_names(s2);
        assert(resolved_entries(s2) =~= resolved_entries(s0).insert(p as int, x));
        lemma_keyed_insert(resolved_entries(s0), entry_name(), p as int, x);
        assert forall|a: int, b: int| 0 <= a < b < ns2.len() implies seq_lt(ns2[a], ns2[b]) by {
            if b < p {
                assert(ns2[a] == ns0[a] && ns2[b] == ns0[b]);
            } else if b == p {
                assert(ns2[a] == ns0[a]);
            } else if a < p {
                assert(ns2[a] == ns0[a] && ns2[b] == ns0[b - 1]);
                if b - 1 > p {
                    lemma_seq_lt_transitive(key, ns0[p as int], ns0[b - 1]);
                }
                lemma_seq_lt_transitive(ns0[a], key, ns0[b - 1]);
            } else if a == p {
                assert(ns2[b] == ns0[b - 1]);
                if b - 1 > p {
                    lemma_seq_lt_transitive(key, ns0[p as int], ns0[b - 1]);
                }
            } else {
                assert(ns2[a] == ns0[a - 1] && ns2[b] == ns0[b - 1]);
            }
        }
    }
}

/// The agent configuration of every profile, by name.
pub open spec fn spec_profile_configs(cfg: AgentBackendConfig) -> Map<Seq<char>, AcpConfigView> {
    if cfg.acp_profiles@.len() == 0 {
        map![spec_primary_profile(cfg) => unnamed_profile(cfg)]
    } else {
        keyed_map(configured_entries(cfg), entry_name()).map_values(
            |e: (Seq<char>, AcpConfigView)| e.1,
        )
    }
}

/// Whether a registry holds exactly one backend per profile, configured as the profile.
pub open spec fn registry_matches(
    registry: OrchestrationProfileRegistry<AcpAgentBackend>,
    configs: Map<Seq<char>, AcpConfigView>,
) -> bool {
    &&& forall|k: Seq<char>| #[trigger] registry.backends().contains_key(k) <==> configs.contains_key(k)
    &&& forall|k: Seq<char>|
        #[trigger] registry.backends().contains_key(k) ==> registry.backends()[k].spec_config()
            == configs[k]
}

/// The backend of the primary profile, and an orchestrator whose manager is the primary
/// profile and whose registry holds one backend per profile.
pub fn build_acp_backend_and_orchestrator(agent_cfg: &AgentBackendConfig) -> (r: Result<
    (AcpAgentBackend, Orchestrator<AcpAgentBackend>),
    BootstrapError,
>)
    requires
        profile_names_unique(*agent_cfg),
    ensures
        profiles_resolvable(*agent_cfg) <==> r is Ok,
        r matches Ok((primary, o)) ==> {
            &&& o.inv()
            &&& o.manager_name() == spec_primary_profile(*agent_cfg)
            &&& spec_profile_configs(*agent_cfg).contains_key(spec_primary_profile(*agent_cfg))
            &&& primary.spec_config() == spec_profile_configs(*agent_cfg)[spec_primary_profile(
                *agent_cfg,
            )]
            &&& registry_matches(o.spec_registry(), spec_profile_configs(*agent_cfg))
        },
        r matches Err(e) ==> (agent_cfg.acp_profiles@.len() == 0 && e is MissingAcpCommand) || (
        agent_cfg.acp_profiles@.len() > 0 && (e matches BootstrapError::UnknownPrimaryProfile(p)
            && p@ == spec_primary_profile(*agent_cfg))),
{
    let (primary_profile, profiles) = resolve_acp_profile_configs(agent_cfg)?;
    let ghost re = resolved_entries(profiles@);
    let ghost configs = spec_profile_configs(*agent_cfg);
    proof {
        assert(keys_unique(re, entry_name()));
        assert forall|k: Seq<char>| #[trigger] configs.contains_key(k) <==> keyed_map(re, entry_name()).contains_key(k) by {
            if agent_cfg.acp_profiles@.len() == 0 {
                if has_key(re, entry_name(), k) {
                    let j = choose|j: int| 0 <= j < re.len() && entry_name()(re[j]) == k;
                    assert(j == 0);
                }
                if k == primary_profile@ {
                    assert(entry_name()(re[0]) == k);
                }
            }
        }
        assert forall|k: Seq<char>| #[trigger] configs.contains_key(k) implies configs[k] == keyed_map(re, entry_name())[k].1 by {
            if agent_cfg.acp_profiles@.len() == 0 {
                assert(has_key(re, entry_name(), k)) by {
                    assert(entry_name()(re[0]) == k);
                }
            }
        }
    }
    let mut registry: OrchestrationProfileRegistry<AcpAgentBackend> = OrchestrationProfileRegistry::new();
    let mut primary_backend: Option<AcpAgentBackend> = None;
    let mut i: usize = 0;
    while i < profiles.len()
        invariant
            re == resolved_entries(profiles@),
            keys_unique(re, entry_name()),
            i <= profiles.len(),
            registry.inv(),
            forall|k: Seq<char>| #[trigger] registry.backends().contains_key(k) <==> keyed_map(re.take(i as int), entry_name()).contains_key(k),
            forall|k: Seq<char>| #[trigger] registry.backends().contains_key(k) ==> registry.backends()[k].spec_config()
                == keyed_map(re.take(i as int), entry_name())[k].1,
            primary_backend matches Some(b) ==> keyed_map(re.take(i as int), entry_name()).contains_key(primary_profile@)
                && b.spec_config() == keyed_map(re.take(i as int), entry_name())[primary_profile@].1,
            primary_backend is None ==> !keyed_map(re.take(i as int), entry_name()).contains_key(primary_profile@),
        decreases profiles.len() - i,
    {
        let ghost t = re.take(i as int);
        proof {
            assert(keys_unique(t, entry_name()));
            assert(!has_key(t, entry_name(), re[i as int].0)) by {
                if has_key(t, entry_name(), re[i as int].0) {
                    let j = choose|j: int| 0 <= j < t.len() && entry_name()(t[j]) == re[i as int].0;
                    assert(re[j].0 == re[i as int].0);
                }
            }
            lemma_keyed_push(t, entry_name(), re[i as int]);
            assert(re.take(i + 1) =~= t.push(re[i as int]));
        }
        if str_eq(profiles[i].0.as_str(), primary_profile.as_str()) {
            primary_backend = Some(AcpAgentBackend::new(profiles[i].1.duplicate()));
        }
        let backend = AcpAgentBackend::new(profiles[i].1.duplicate());
        registry.register(profiles[i].0.as_str(), backend);
        i = i + 1;
    }
    proof {
        assert(re.take(profiles.len() as int) =~= re);
    }
    let primary_backend = match primary_backend {
        Some(b) => b,
        None => {
            proof {
                assert(configs.contains_key(spec_primary_profile(*agent_cfg))) by {
                    if agent_cfg.acp_profiles@.len() > 0 {
                        assert(keyed_map(configured_entries(*agent_cfg), entry_name()).contains_key(
                            spec_primary_profile(*agent_cfg),
                        ));
                    }
                }
            }
            return Err(BootstrapError::PrimaryNotRegistered(primary_profile));
        },
    };
    proof {
        assert(configs.contains_key(spec_primary_profile(*agent_cfg))) by {
            if agent_cfg.acp_profiles@.len() > 0 {
                assert(keyed_map(configured_entries(*agent_cfg), entry_name()).contains_key(
                    spec_primary_profile(*agent_cfg),
                ));
            }
        }
    }
    let orchestrator = Orchestrator::new(primary_profile.as_str(), registry);
    Ok((primary_backend, orchestrator))
}

/// The orchestrator the agent configuration calls for: none for the built-in backend,
/// one over the external-agent profiles otherwise.
pub fn build_orchestrator_from_config(agent_cfg: &AgentBackendConfig) -> (r: Result<
    Option<Orchestrator<AcpAgentBackend>>,
    BootstrapError,
>)
    requires
        profile_names_unique(*agent_cfg),
    ensures
        agent_cfg.backend == AgentBackendType::Bob ==> r matches Ok(None),
        agent_cfg.backend == AgentBackendType::Acp ==> (profiles_resolvable(*agent_cfg) <==> r is Ok),
        agent_cfg.backend == AgentBackendType::Acp && r is Ok ==> (r matches Ok(Some(o)) && o.inv()
            && o.manager_name() == spec_primary_profile(*agent_cfg) && registry_matches(
            o.spec_registry(),
            spec_profile_configs(*agent_cfg),
        )),
{
    match agent_cfg.backend {
        AgentBackendType::Bob => Ok(None),
        AgentBackendType::Acp => {
            let (_, orchestrator) = build_acp_backend_and_orchestrator(agent_cfg)?;
            Ok(Some(orchestrator))
        },
    }
}

} // verus!
