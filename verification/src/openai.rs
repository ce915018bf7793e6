//! Transcript encoders: lowering canonical messages into each backend
//! dialect's request items, and the wire shape of tool definitions.

pub mod chat;
pub mod responses;

use vstd::prelude::*;

use crate::tool::Tool;
use crate::tool::ToolV;

verus! {

/// A fatal encoding error: a part stands in a message whose role may not
/// carry it.
#[derive(Debug, Clone, Copy, PartialEq, Eq, Structural)]
pub enum EncodeError {
    /// A tool part stood outside an assistant message.
    ToolPartOutsideAssistant,
    /// An error part stood outside a developer message.
    ErrorPartOutsideDeveloper,
}

/// The wire shape of a tool definition, shared by both dialects; each tags it
/// with type `"function"` on the wire.
#[derive(Debug, Clone, PartialEq, Eq)]
pub struct FunctionToolDef {
    /// Name of the tool.
    pub name: String,
    /// Description of the tool.
    pub description: String,
    /// JSON text of the parameter schema.
    pub parameters: String,
    /// Whether the backend must hold arguments strictly to the schema; the
    /// encoder always emits `true`.
    pub strict: bool,
}

/// Mathematical model of a tool definition.
#[verifier::ext_equal]
pub struct FunctionToolDefV {
    pub name: Seq<char>,
    pub description: Seq<char>,
    pub parameters: Seq<char>,
    pub strict: bool,
}

impl View for FunctionToolDef {
    type V = FunctionToolDefV;

    open spec fn view(&self) -> FunctionToolDefV {
        FunctionToolDefV {
            name: self.name@,
            description: self.description@,
            parameters: self.parameters@,
            strict: self.strict,
        }
    }
}

/// The definition a tool is lowered to: its wire description with
/// `strict: true`.
pub open spec fn tool_def_of(t: ToolV) -> FunctionToolDefV {
    FunctionToolDefV {
        name: t.name,
        description: t.description,
        parameters: t.parameters,
        strict: true,
    }
}

/// The definitions of a sequence of tools, in order.
pub open spec fn tool_defs_of(tools: Seq<ToolV>) -> Seq<FunctionToolDefV> {
    tools.map_values(|t: ToolV| tool_def_of(t))
}

/// Lowers one tool into its wire definition.
pub fn function_tool_def(t: &Tool) -> (r: FunctionToolDef)
    ensures
        r@ == tool_def_of(t@),
{
    FunctionToolDef {
        name: t.name().clone(),
        description: t.description().clone(),
        parameters: t.parameters().clone(),
        strict: true,
    }
}

/// Lowers every registered tool into its wire definition, in registration
/// order.
pub fn function_tool_defs(tools: &crate::tool::ToolSet) -> (r: Vec<FunctionToolDef>)
    ensures
        r@.map_values(|d: FunctionToolDef| d@) == tool_defs_of(tools@),
{
    let list = tools.values();
    let mut defs: Vec<FunctionToolDef> = Vec::new();
    let n = list.len();
    for i in 0..n
        invariant
            n == list.len(),
            list@.map_values(|t: Tool| t@) == tools@,
            defs@.len() == i,
            forall|j: int| 0 <= j < i ==> (#[trigger] defs@[j])@ == tool_def_of(tools@[j]),
    {
        proof {
            assert(list@.map_values(|t: Tool| t@)[i as int] == tools@[i as int]);
        }
        defs.push(function_tool_def(&list[i]));
    }
    proof {
        assert forall|j: int| 0 <= j < n implies defs@.map_values(|d: FunctionToolDef| d@)[j]
            == tool_defs_of(tools@)[j] by {
            assert(defs@.map_values(|d: FunctionToolDef| d@)[j] == defs@[j]@);
            assert(tool_defs_of(tools@)[j] == tool_def_of(tools@[j]));
        }
        assert(defs@.map_values(|d: FunctionToolDef| d@) =~= tool_defs_of(tools@));
    }
    defs
}

} // verus!
