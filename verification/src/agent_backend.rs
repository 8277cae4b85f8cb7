//! External agents spoken to over the Agent Client Protocol: their configuration and the
//! decisions taken around a session. Spawning the agent process and exchanging protocol
//! messages is left to the caller.
use vstd::prelude::*;

use crate::text::{decimal, push_decimal, push_str, str_to_string, string_from_chars, string_views};

verus! {

/// Configuration for the external-agent backend.
#[derive(Debug, Clone)]
pub struct AcpConfig {
    /// Shell command to invoke the agent.
    pub command: String,
    /// Arguments passed to the command.
    pub args: Vec<String>,
    /// Working directory for the agent subprocess.
    pub working_dir: Option<String>,
}

/// Abstract value of an [`AcpConfig`].
pub struct AcpConfigView {
    pub command: Seq<char>,
    pub args: Seq<Seq<char>>,
    pub working_dir: Option<Seq<char>>,
}

impl View for AcpConfig {
    type V = AcpConfigView;

    open spec fn view(&self) -> AcpConfigView {
        AcpConfigView {
            command: self.command@,
            args: string_views(self.args@),
            working_dir: match self.working_dir {
                Some(w) => Some(w@),
                None => None,
            },
        }
    }
}

/// A copy of a list of strings.
pub fn copy_strings(v: &Vec<String>) -> (r: Vec<String>)
    ensures
        string_views(r@) == string_views(v@),
{
    let mut out: Vec<String> = Vec::new();
    let mut i: usize = 0;
    while i < v.len()
        invariant
            i <= v.len(),
            string_views(out@) == string_views(v@).take(i as int),
        decreases v.len() - i,
    {
        let ghost before = string_views(out@);
        out.push(v[i].clone());
        assert(string_views(out@) =~= before.push(v@[i as int]@));
        assert(string_views(v@).take(i + 1) =~= string_views(v@).take(i as int).push(v@[i as int]@));
        i = i + 1;
    }
    assert(string_views(v@).take(v.len() as int) =~= string_views(v@));
    out
}

impl AcpConfig {
    /// A field-by-field copy.
    pub fn duplicate(&self) -> (r: Self)
        ensures
            r@ == self@,
    {
        AcpConfig {
            command: self.command.clone(),
            args: copy_strings(&self.args),
            working_dir: match &self.working_dir {
                Some(w) => Some(w.clone()),
                None => None,
            },
        }
    }

    /// The directory the agent runs in: the configured one, the current directory
    /// otherwise.
    pub fn effective_working_dir(&self) -> (r: &str)
        ensures
            r@ == (match self@.working_dir {
                Some(w) => w,
                None => "."@,
            }),
    {
        match &self.working_dir {
            Some(w) => w.as_str(),
            None => ".",
        }
    }
}

/// Backend that runs turns on external agents, one agent process per session.
#[derive(Debug, Clone)]
pub struct AcpAgentBackend {
    config: AcpConfig,
}

impl AcpAgentBackend {
    /// The configuration the backend starts agents with.
    pub closed spec fn spec_config(&self) -> AcpConfigView {
        self.config@
    }

    /// Create a new backend from configuration.
    pub fn new(config: AcpConfig) -> (r: Self)
        ensures
            r.spec_config() == config@,
    {
        AcpAgentBackend { config }
    }

    /// The configuration the backend starts agents with.
    pub fn config(&self) -> (r: &AcpConfig)
        ensures
            r@ == self.spec_config(),
    {
        &self.config
    }
}

/// Identifier of the `counter`-th session the process creates without a given id.
pub open spec fn spec_acp_session_id(counter: u64) -> Seq<char> {
    "acp-"@ + decimal(counter as nat)
}

/// Identifier of the `counter`-th session the process creates without a given id.
pub fn acp_session_id(counter: u64) -> (r: String)
    ensures
        r@ == spec_acp_session_id(counter),
{
    let mut out: Vec<char> = Vec::new();
    push_str(&mut out, "acp-");
    push_decimal(&mut out, counter);
    string_from_chars(out.as_slice())
}

/// The text blocks of a prompt: the system context first, under a `[System Context]`
/// heading, when there is one; then the user's text.
pub open spec fn spec_prompt_blocks(system_prompt: Option<Seq<char>>, text: Seq<char>) -> Seq<
    Seq<char>,
> {
    match system_prompt {
        Some(p) => seq!["[System Context]\n"@ + p, text],
        None => seq![text],
    }
}

/// The text blocks of a prompt sent to an external agent.
pub fn prompt_blocks(system_prompt: Option<&str>, text: &str) -> (r: Vec<String>)
    ensures
        string_views(r@) == spec_prompt_blocks(
            match system_prompt {
                Some(p) => Some(p@),
                None => None,
            },
            text@,
        ),
{
    let mut blocks: Vec<String> = Vec::new();
    if let Some(p) = system_prompt {
        let mut head: Vec<char> = Vec::new();
        push_str(&mut head, "[System Context]\n");
        push_str(&mut head, p);
        blocks.push(string_from_chars(head.as_slice()));
    }
    blocks.push(str_to_string(text));
    assert(string_views(blocks@) =~= spec_prompt_blocks(
        match system_prompt {
            Some(p) => Some(p@),
            None => None,
        },
        text@,
    ));
    blocks
}

/// What a permission option grants, as the agent offers it.
#[derive(Debug, Clone, Copy, PartialEq, Eq, Structural)]
pub enum PermissionOptionKind {
    /// Allow this once.
    AllowOnce,
    /// Allow from now on.
    AllowAlways,
    /// Reject this once.
    RejectOnce,
    /// Reject from now on.
    RejectAlways,
}

/// One permission option offered by an agent: its id and what it grants.
#[derive(Debug, Clone)]
pub struct PermissionOption {
    /// Identifier to answer with.
    pub option_id: String,
    /// What the option grants.
    pub kind: PermissionOptionKind,
}

/// Whether an option allows the request.
pub open spec fn is_allow(kind: PermissionOptionKind) -> bool {
    kind == PermissionOptionKind::AllowAlways || kind == PermissionOptionKind::AllowOnce
}

/// Answer a permission request automatically: the first option that allows, else the
/// first option, else `allow_always`.
pub fn choose_permission_option(options: &[PermissionOption]) -> (r: String)
    ensures
        r@ == (if exists|i: int| 0 <= i < options@.len() && is_allow(#[trigger] options@[i].kind) {
            options@[first_allow(options@)].option_id@
        } else if options@.len() > 0 {
            options@[0].option_id@
        } else {
            "allow_always"@
        }),
{
    let mut i: usize = 0;
    while i < options.len()
        invariant
            i <= options@.len(),
            forall|j: int| 0 <= j < i ==> !is_allow(#[trigger] options@[j].kind),
        decreases options.len() - i,
    {
        if options[i].kind == PermissionOptionKind::AllowAlways || options[i].kind
            == PermissionOptionKind::AllowOnce {
            proof {
                lemma_first_allow(options@, i as int);
            }
            return options[i].option_id.clone();
        }
        i = i + 1;
    }
    if options.len() > 0 {
        options[0].option_id.clone()
    } else {
        str_to_string("allow_always")
    }
}

/// Index of the first option that allows, when there is one.
pub open spec fn first_allow(options: Seq<PermissionOption>) -> int {
    choose|i: int|
        0 <= i < options.len() && is_allow(options[i].kind) && forall|j: int|
            0 <= j < i ==> !is_allow(#[trigger] options[j].kind)
}

/// The first option that allows is the one `first_allow` names.
proof fn lemma_first_allow(options: Seq<PermissionOption>, i: int)
    requires
        0 <= i < options.len(),
        is_allow(options[i].kind),
        forall|j: int| 0 <= j < i ==> !is_allow(#[trigger] options[j].kind),
    ensures
        first_allow(options) == i,
{
    let k = first_allow(options);
    assert(0 <= k < options.len() && is_allow(options[k].kind) && forall|j: int|
        0 <= j < k ==> !is_allow(#[trigger] options[j].kind));
    if k < i {
        assert(!is_allow(options[k].kind));
    } else if k > i {
        assert(!is_allow(options[i].kind));
    }
}

} // verus!
