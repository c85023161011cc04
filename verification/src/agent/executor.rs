//! Executor: a parsed call goes to the registry as its request, so the
//! permission check is never skipped and refusals come back as results.
use vstd::prelude::*;

use crate::agent::tool_calling::ToolCallSpec;
use crate::tools::registry::{gated, Dispatch, ToolRegistry};

verus! {

/// Runs parsed calls through a tool registry.
pub struct Executor {
    pub registry: ToolRegistry,
}

impl Executor {
    /// An executor over `registry`.
    pub fn new(registry: ToolRegistry) -> (e: Self)
        ensures
            e.registry == registry,
    {
        Executor { registry }
    }

    /// Execute one parsed call: exactly the dispatch of the request with
    /// the call's tool, target and arguments. A tool runs only when the
    /// permission check allows it; a question or a refusal is answered
    /// with its result, never a panic.
    pub fn execute(&mut self, call: ToolCallSpec) -> (r: Dispatch)
        ensures
            final(self).registry.root == old(self).registry.root,
            final(self).registry.permissions.policy() == old(self).registry.permissions.policy(),
            ({
                let (v, g) = crate::permissions::check_spec(
                    old(self).registry.permissions.policy(),
                    old(self).registry.permissions.grants(),
                    call.tool@,
                    call.target@,
                );
                &&& final(self).registry.permissions.grants() == g
                &&& gated(v, r, call.tool@, call.target@)
            }),
    {
        let request = call.into_request();
        self.registry.dispatch(&request)
    }
}

} // verus!
