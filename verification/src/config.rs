//! Runtime configuration values and their defaults.
//!
//! Reading and parsing the configuration file is left to the caller; these are the
//! values it yields, with the defaults that apply where the file is silent.
use vstd::prelude::*;

use std::collections::HashMap;

verus! {

/// Runtime settings for the agent runtime.
#[derive(Debug, Clone)]
pub struct RuntimeConfig {
    /// Default model identifier.
    pub default_model: String,
    /// Maximum turn steps.
    pub max_steps: Option<u32>,
    /// Turn timeout in milliseconds.
    pub turn_timeout_ms: Option<u64>,
    /// Dispatch mode preference.
    pub dispatch_mode: Option<DispatchMode>,
}

/// Dispatch mode used by the agent runtime.
#[derive(Debug, Clone, Copy, PartialEq, Eq, Structural)]
pub enum DispatchMode {
    /// Prompt-guided action parsing only.
    PromptGuided,
    /// Native tool-calling first, fallback to prompt-guided.
    NativePreferred,
}

/// The dispatch mode in effect: the configured one, native tool-calling first when none
/// is configured.
pub fn resolve_dispatch_mode(mode: Option<DispatchMode>) -> (r: DispatchMode)
    ensures
        r == (match mode {
            Some(m) => m,
            None => DispatchMode::NativePreferred,
        }),
{
    match mode {
        Some(DispatchMode::PromptGuided) => DispatchMode::PromptGuided,
        Some(DispatchMode::NativePreferred) | None => DispatchMode::NativePreferred,
    }
}

/// Turn steps allowed when the configuration sets none.
pub const DEFAULT_MAX_STEPS: u32 = 12;

/// Turn timeout in milliseconds when the configuration sets none.
pub const DEFAULT_TURN_TIMEOUT_MS: u64 = 90000;

/// Timeout of a single tool call in milliseconds, unless a tool server overrides it.
pub const DEFAULT_TOOL_TIMEOUT_MS: u64 = 15000;

/// The limits a turn runs under.
#[derive(Debug, Clone, Copy, PartialEq, Eq, Structural)]
pub struct TurnLimits {
    /// Maximum turn steps.
    pub max_steps: u32,
    /// Turn timeout in milliseconds.
    pub turn_timeout_ms: u64,
    /// Tool call timeout in milliseconds.
    pub tool_timeout_ms: u64,
}

/// The limits a turn runs under: the configured ones, the defaults where none is set.
pub fn resolve_turn_limits(runtime: &RuntimeConfig) -> (r: TurnLimits)
    ensures
        r.max_steps == (match runtime.max_steps {
            Some(n) => n,
            None => DEFAULT_MAX_STEPS,
        }),
        r.turn_timeout_ms == (match runtime.turn_timeout_ms {
            Some(n) => n,
            None => DEFAULT_TURN_TIMEOUT_MS,
        }),
        r.tool_timeout_ms == DEFAULT_TOOL_TIMEOUT_MS,
{
    TurnLimits {
        max_steps: match runtime.max_steps {
            Some(n) => n,
            None => DEFAULT_MAX_STEPS,
        },
        turn_timeout_ms: match runtime.turn_timeout_ms {
            Some(n) => n,
            None => DEFAULT_TURN_TIMEOUT_MS,
        },
        tool_timeout_ms: DEFAULT_TOOL_TIMEOUT_MS,
    }
}

/// Default of flags that are on unless configured off.
pub fn default_true() -> (r: bool)
    ensures
        r,
{
    true
}

/// Default number of skills selected per turn.
pub fn default_max_selected() -> (r: usize)
    ensures
        r == 3,
{
    3
}

/// Default token budget for skill prompt injection.
pub fn default_token_budget() -> (r: usize)
    ensures
        r == 1800,
{
    1800
}

/// Skill system settings.
#[derive(Debug, Clone)]
pub struct SkillsConfig {
    /// Whether skill system is enabled.
    pub enabled: bool,
    /// Maximum skills to select per turn.
    pub max_selected: usize,
    /// Token budget for skill prompt injection.
    pub token_budget: usize,
    /// Skill source directories.
    pub sources: Vec<SkillSourceEntry>,
}

impl Default for SkillsConfig {
    fn default() -> (r: Self)
        ensures
            r.enabled,
            r.max_selected == 3,
            r.token_budget == 1800,
            r.sources@.len() == 0,
    {
        SkillsConfig {
            enabled: default_true(),
            max_selected: default_max_selected(),
            token_budget: default_token_budget(),
            sources: Vec::new(),
        }
    }
}

/// Whether skills are loaded at all: the skill system must be enabled and have at
/// least one source directory.
pub fn skills_active(cfg: &SkillsConfig) -> (r: bool)
    ensures
        r == (cfg.enabled && cfg.sources@.len() > 0),
{
    cfg.enabled && cfg.sources.len() > 0
}

/// A skill source directory entry.
#[derive(Debug, Clone)]
pub struct SkillSourceEntry {
    /// Path to the skill directory.
    pub path: String,
    /// Whether to search subdirectories recursively.
    pub recursive: bool,
}

/// Channel provider settings.
#[derive(Debug, Clone)]
pub struct ChannelsConfig {
    /// Discord channel settings.
    pub discord: ChannelProviderConfig,
    /// Telegram channel settings.
    pub telegram: ChannelProviderConfig,
}

impl Default for ChannelsConfig {
    fn default() -> (r: Self)
        ensures
            !r.discord.enabled,
            !r.telegram.enabled,
    {
        ChannelsConfig { discord: ChannelProviderConfig::default(), telegram: ChannelProviderConfig::default() }
    }
}

/// Individual channel provider configuration.
#[derive(Debug, Clone)]
pub struct ChannelProviderConfig {
    /// Whether this channel is enabled.
    pub enabled: bool,
}

impl Default for ChannelProviderConfig {
    fn default() -> (r: Self)
        ensures
            !r.enabled,
    {
        ChannelProviderConfig { enabled: false }
    }
}

/// MCP server list.
#[derive(Debug, Clone)]
pub struct McpConfig {
    /// Configured MCP servers.
    pub servers: Vec<McpServerConfig>,
}

impl Default for McpConfig {
    fn default() -> (r: Self)
        ensures
            r.servers@.len() == 0,
    {
        McpConfig { servers: Vec::new() }
    }
}

/// One MCP server entry.
#[derive(Debug, Clone)]
pub struct McpServerConfig {
    /// Namespace id for the server.
    pub id: String,
    /// Command executable.
    pub command: String,
    /// Command arguments.
    pub args: Vec<String>,
    /// Additional environment variables.
    pub env: Option<HashMap<String, String>>,
    /// Optional timeout override for this server.
    pub tool_timeout_ms: Option<u64>,
}

impl McpServerConfig {
    /// The timeout of this server's tool calls: its override, the default otherwise.
    pub fn tool_timeout(&self) -> (r: u64)
        ensures
            r == (match self.tool_timeout_ms {
                Some(t) => t,
                None => DEFAULT_TOOL_TIMEOUT_MS,
            }),
    {
        match self.tool_timeout_ms {
            Some(t) => t,
            None => DEFAULT_TOOL_TIMEOUT_MS,
        }
    }
}

/// How the configured tool servers are combined into the runtime's tool port.
#[derive(Debug, Clone, Copy, PartialEq, Eq, Structural)]
pub enum ToolPortLayout {
    /// No tool server: tools are unavailable.
    NoTools,
    /// One tool server, used directly.
    Single,
    /// Several tool servers, each under its id as namespace.
    Composite,
}

/// How the configured tool servers are combined.
pub fn tool_port_layout(mcp: &McpConfig) -> (r: ToolPortLayout)
    ensures
        mcp.servers@.len() == 0 ==> r == ToolPortLayout::NoTools,
        mcp.servers@.len() == 1 ==> r == ToolPortLayout::Single,
        mcp.servers@.len() > 1 ==> r == ToolPortLayout::Composite,
{
    if mcp.servers.len() == 0 {
        ToolPortLayout::NoTools
    } else if mcp.servers.len() == 1 {
        ToolPortLayout::Single
    } else {
        ToolPortLayout::Composite
    }
}

/// Agent backend implementation selector.
#[derive(Debug, Clone, Copy, PartialEq, Eq, Structural)]
pub enum AgentBackendType {
    /// The built-in agent runtime.
    Bob,
    /// External agents spoken to over the Agent Client Protocol.
    Acp,
}

/// One named external agent profile.
#[derive(Debug, Clone)]
pub struct AcpProfileConfig {
    /// Command that starts the agent.
    pub command: String,
    /// Arguments passed to the command.
    pub args: Vec<String>,
    /// Working directory for the agent process.
    pub working_dir: Option<String>,
}

/// Agent backend settings.
///
/// The named profiles are kept as a list of `(name, profile)` entries in which no name
/// occurs twice.
#[derive(Debug, Clone)]
pub struct AgentBackendConfig {
    /// Which backend runs agent turns.
    pub backend: AgentBackendType,
    /// Whether natural-language turns fan out to the worker profiles.
    pub auto_orchestrate: bool,
    /// Profile that serves as primary backend and orchestration manager.
    pub primary_profile: Option<String>,
    /// Command of the single unnamed profile, used when no named profile is configured.
    pub acp_command: Option<String>,
    /// Arguments of the single unnamed profile.
    pub acp_args: Vec<String>,
    /// Working directory of the single unnamed profile.
    pub acp_working_dir: Option<String>,
    /// Named profiles.
    pub acp_profiles: Vec<(String, AcpProfileConfig)>,
}

impl Default for AgentBackendConfig {
    fn default() -> (r: Self)
        ensures
            r.backend == AgentBackendType::Bob,
            !r.auto_orchestrate,
            r.primary_profile is None,
            r.acp_command is None,
            r.acp_args@.len() == 0,
            r.acp_working_dir is None,
            r.acp_profiles@.len() == 0,
    {
        AgentBackendConfig {
            backend: AgentBackendType::Bob,
            auto_orchestrate: false,
            primary_profile: None,
            acp_command: None,
            acp_args: Vec::new(),
            acp_working_dir: None,
            acp_profiles: Vec::new(),
        }
    }
}

/// Background scheduler settings.
#[derive(Debug, Clone, Copy, PartialEq, Eq, Structural)]
pub struct SchedulerConfig {
    /// Whether the scheduler worker runs.
    pub enabled: bool,
    /// Poll interval in milliseconds.
    pub poll_interval_ms: u64,
}

} // verus!
