//! Configuration model with safe defaults for every section.
//!
//! The TOML reader lives with the application; here are the shapes, the
//! defaults a missing key falls back to, and the effective-language rule.
use vstd::prelude::*;

verus! {

/// A single permission decision: allow, ask the user, or deny.
#[derive(Debug, Clone, Copy, PartialEq, Eq, Structural)]
pub enum PermissionDecision {
    Allow,
    Ask,
    Deny,
}

/// `[app]` section.
#[derive(Debug, Clone)]
pub struct AppConfig {
    pub language: String,
    pub profile: String,
}

impl Default for AppConfig {
    fn default() -> (r: Self)
        ensures
            r.language@ == "pt"@,
            r.profile@ == "eco"@,
    {
        AppConfig { language: crate::text::owned("pt"), profile: crate::text::owned("eco") }
    }
}

/// `[provider]` section.
#[derive(Debug, Clone)]
pub struct ProviderConfig {
    pub name: String,
    pub model: String,
}

impl Default for ProviderConfig {
    fn default() -> (r: Self)
        ensures
            r.name@ == "openai"@,
            r.model@ == "..."@,
    {
        ProviderConfig { name: crate::text::owned("openai"), model: crate::text::owned("...") }
    }
}

/// `[interface]` section.
#[derive(Debug, Clone)]
pub struct InterfaceConfig {
    pub language: String,
    pub mouse: bool,
    pub animations: bool,
    pub compact: bool,
}

impl Default for InterfaceConfig {
    fn default() -> (r: Self)
        ensures
            r.language@ == "pt"@,
            r.mouse,
            !r.animations,
            !r.compact,
    {
        InterfaceConfig {
            language: crate::text::owned("pt"),
            mouse: true,
            animations: false,
            compact: false,
        }
    }
}

/// `[context]` section.
#[derive(Debug, Clone)]
pub struct ContextConfig {
    pub max_tokens: u32,
    pub lazy_indexing: bool,
}

impl Default for ContextConfig {
    fn default() -> (r: Self)
        ensures
            r.max_tokens == 16000,
            r.lazy_indexing,
    {
        ContextConfig { max_tokens: 16000, lazy_indexing: true }
    }
}

/// `[performance]` section. `remote_requests: None` keeps the profile's
/// default behavior.
#[derive(Debug, Clone)]
pub struct PerformanceConfig {
    pub profile: String,
    pub remote_requests: Option<bool>,
}

impl Default for PerformanceConfig {
    fn default() -> (r: Self)
        ensures
            r.profile@ == "eco"@,
            r.remote_requests is None,
    {
        PerformanceConfig { profile: crate::text::owned("eco"), remote_requests: None }
    }
}

/// `[permissions]` section: one decision per tool family.
#[derive(Debug, Clone, Copy, PartialEq, Eq, Structural)]
pub struct PermissionsConfig {
    pub read: PermissionDecision,
    pub edit: PermissionDecision,
    pub shell: PermissionDecision,
    pub delete: PermissionDecision,
    pub git_push: PermissionDecision,
}

/// The safe default policy: read freely, ask before edits, shell commands
/// and deletions, never push.
pub open spec fn default_permissions() -> PermissionsConfig {
    PermissionsConfig {
        read: PermissionDecision::Allow,
        edit: PermissionDecision::Ask,
        shell: PermissionDecision::Ask,
        delete: PermissionDecision::Ask,
        git_push: PermissionDecision::Deny,
    }
}

impl Default for PermissionsConfig {
    fn default() -> (r: Self)
        ensures
            r == default_permissions(),
    {
        PermissionsConfig {
            read: PermissionDecision::Allow,
            edit: PermissionDecision::Ask,
            shell: PermissionDecision::Ask,
            delete: PermissionDecision::Ask,
            git_push: PermissionDecision::Deny,
        }
    }
}

/// `[agent]` section: the budgets that bound autonomy.
#[derive(Debug, Clone, Copy, PartialEq, Eq, Structural)]
pub struct AgentConfig {
    pub max_iterations: u32,
    pub max_tool_calls: u32,
    pub max_retries: u32,
    pub timeout_seconds: u64,
}

impl Default for AgentConfig {
    fn default() -> (r: Self)
        ensures
            r.max_iterations == 20,
            r.max_tool_calls == 100,
            r.max_retries == 3,
            r.timeout_seconds == 900,
    {
        AgentConfig { max_iterations: 20, max_tool_calls: 100, max_retries: 3, timeout_seconds: 900 }
    }
}

/// Root configuration.
#[derive(Debug, Clone)]
pub struct DarbConfig {
    pub app: AppConfig,
    pub provider: ProviderConfig,
    pub interface: InterfaceConfig,
    pub context: ContextConfig,
    pub performance: PerformanceConfig,
    pub permissions: PermissionsConfig,
    pub agent: AgentConfig,
}

impl Default for DarbConfig {
    fn default() -> (r: Self)
        ensures
            r.app.language@ == "pt"@,
            r.app.profile@ == "eco"@,
            r.provider.name@ == "openai"@,
            r.provider.model@ == "..."@,
            r.interface.language@ == "pt"@,
            r.interface.mouse && !r.interface.animations && !r.interface.compact,
            r.context.max_tokens == 16000 && r.context.lazy_indexing,
            r.performance.profile@ == "eco"@ && r.performance.remote_requests is None,
            r.permissions == default_permissions(),
            r.agent.max_iterations == 20 && r.agent.max_tool_calls == 100,
            r.agent.max_retries == 3 && r.agent.timeout_seconds == 900,
    {
        DarbConfig {
            app: AppConfig::default(),
            provider: ProviderConfig::default(),
            interface: InterfaceConfig::default(),
            context: ContextConfig::default(),
            performance: PerformanceConfig::default(),
            permissions: PermissionsConfig::default(),
            agent: AgentConfig::default(),
        }
    }
}

impl DarbConfig {
    /// Effective UI language: `interface.language` wins unless empty,
    /// `app.language` is the legacy fallback.
    pub open spec fn language_view(&self) -> Seq<char> {
        if self.interface.language@.len() == 0 {
            self.app.language@
        } else {
            self.interface.language@
        }
    }

    /// Effective UI language.
    pub fn language(&self) -> (r: &str)
        ensures
            r@ == self.language_view(),
    {
        if self.interface.language.as_str().is_empty() {
            self.app.language.as_str()
        } else {
            self.interface.language.as_str()
        }
    }
}

} // verus!
