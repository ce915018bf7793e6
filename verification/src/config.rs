//! Tool selection strategy for message generation.

use vstd::prelude::*;

verus! {

/// Tool selection strategy for AI message generation.
#[derive(Debug, Clone, Copy, PartialEq, Eq, Structural)]
pub enum ToolChoice {
    /// Let the model choose tools automatically (default).
    Auto,
    /// Require tool usage.
    Required,
    /// Do not use tools.
    Disabled,
}

impl Default for ToolChoice {
    /// The default tool selection strategy is `Auto`.
    fn default() -> (r: Self)
        ensures
            r == ToolChoice::Auto,
    {
        ToolChoice::Auto
    }
}

} // verus!
