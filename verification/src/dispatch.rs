//! Routing of tool names and the errors of dispatch.
use vstd::prelude::*;
use crate::metadata::{lookup, ToolMetadata};
use crate::text::concat3;

verus! {

/// Dispatch errors corresponding to MCP error codes.
pub enum DispatchError {
    /// Tool name not found in the route table (-32601).
    MethodNotFound(String),
    /// Parameter parsing failed (-32602).
    InvalidParams(String),
    /// Tool requires a workspace but none is configured.
    WorkspaceRequired,
    /// Tool is registered but not active in the current session.
    ToolDisabled(String),
}

impl DispatchError {
    /// The error for an unknown tool `name`.
    pub fn method_not_found(name: &str) -> (e: Self)
        ensures
            e matches DispatchError::MethodNotFound(m) && m@ == "Tool '"@ + name@ + "' not found"@,
    {
        DispatchError::MethodNotFound(concat3("Tool '", name, "' not found"))
    }
}

/// Whether a tool called `name` is registered.
pub fn route_exists(name: &str) -> (r: bool)
    ensures
        r == lookup(name@) is Some,
{
    ToolMetadata::get(name).is_some()
}

} // verus!
