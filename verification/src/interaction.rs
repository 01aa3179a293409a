//! How the server interacts with a human: by the client's elicitation, by a
//! local presenter program, or by plain text prompts.
use vstd::prelude::*;
use crate::error::ToolError;
use crate::text::{opt_clone, owned};

verus! {

/// Parameters of `probe_interaction_capability`.
pub struct ProbeInteractionCapabilityParams {
    /// Directory to search instead of the workspace.
    pub workspace_override: Option<String>,
}

/// Result of `probe_interaction_capability`.
pub struct ProbeInteractionCapabilityResult {
    pub kind: String,
    pub supports_elicitation: bool,
    pub supports_local_presenter: bool,
    /// "elicitation" | "local_presenter" | "text_fallback"
    pub preferred_mode: String,
    pub presenter_binary_path: Option<String>,
    pub mode_reason: String,
}

/// The capabilities given where the presenter program was found, if it
/// was: the client offers no elicitation, so a found presenter is
/// preferred, and plain text otherwise.
pub fn run_probe_interaction_capability(presenter_binary_path: &Option<String>) -> (r: Result<
    ProbeInteractionCapabilityResult,
    ToolError,
>)
    ensures
        r matches Ok(res) && {
            &&& res.kind@ == "capability_probe"@
            &&& !res.supports_elicitation
            &&& res.supports_local_presenter == presenter_binary_path.is_some()
            &&& res.presenter_binary_path == *presenter_binary_path
            &&& res.preferred_mode@ == if presenter_binary_path.is_some() { "local_presenter"@ } else { "text_fallback"@ }
            &&& res.mode_reason@ == if presenter_binary_path.is_some() {
                "sy-interact binary found; will use TUI presenter for interactions"@
            } else {
                "No elicitation or presenter available; falling back to plain text prompts"@
            }
        },
{
    let supports_elicitation = false;
    let supports_local_presenter = presenter_binary_path.is_some();
    let (preferred_mode, mode_reason) = if supports_elicitation {
        (owned("elicitation"), owned("MCP elicitation protocol supported by client"))
    } else if supports_local_presenter {
        (
            owned("local_presenter"),
            owned("sy-interact binary found; will use TUI presenter for interactions"),
        )
    } else {
        (
            owned("text_fallback"),
            owned("No elicitation or presenter available; falling back to plain text prompts"),
        )
    };
    Ok(ProbeInteractionCapabilityResult {
        kind: owned("capability_probe"),
        supports_elicitation,
        supports_local_presenter,
        preferred_mode,
        presenter_binary_path: opt_clone(presenter_binary_path),
        mode_reason,
    })
}

} // verus!
