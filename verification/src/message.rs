//! Canonical conversation data types: a message authored by a role,
//! carrying an ordered sequence of text, tool-call and error parts.

use vstd::prelude::*;
use vstd::seq_lib::*;

verus! {

/// A message exchanged in the conversation, including its role and content parts.
#[derive(Debug, Clone, PartialEq, Eq)]
pub struct Message {
    /// Unique identifier for the message.
    pub id: String,
    /// The role of the message sender (developer, user, assistant).
    pub role: Role,
    /// The content parts of the message (text, tool, or error).
    pub parts: Vec<Part>,
}

/// The role of a message sender in the conversation.
#[derive(Debug, Clone, Copy, PartialEq, Eq)]
#[non_exhaustive]
pub enum Role {
    /// Message from the developer.
    Developer,
    /// Message from the user.
    User,
    /// Message from the assistant.
    Assistant,
}

/// A part of a message, which can be text, a tool call, or an error.
#[derive(Debug, Clone, PartialEq, Eq)]
pub enum Part {
    /// Text content part.
    Text(TextPart),
    /// Tool call part. Appears only inside assistant messages.
    Tool(ToolPart),
    /// Error part. Appears only inside developer messages.
    Error(ErrorPart),
}

/// Text content for a message part.
#[derive(Debug, Clone, PartialEq, Eq)]
pub struct TextPart {
    /// The text content.
    pub text: String,
}

/// Tool call content for a message part.
#[derive(Debug, Clone, PartialEq, Eq)]
pub struct ToolPart {
    /// The tool call details.
    pub tool: ToolCall,
}

/// A tool call, including its arguments and result.
///
/// `args` and `result` carry JSON text: the argument value is refined from
/// `"null"` through repaired fragments to the final parsed object, and the
/// result is absent until execution completes.
#[derive(Debug, PartialEq, Eq)]
pub struct ToolCall {
    /// Backend-assigned identifier for the tool call.
    pub id: String,
    /// Name of the tool being called.
    pub name: String,
    /// JSON text of the arguments for the tool call.
    pub args: String,
    /// Optional JSON text of the result of the tool call.
    pub result: Option<String>,
}

impl Clone for ToolCall {
    /// An equal copy of the call.
    fn clone(&self) -> (r: Self)
        ensures
            r == *self,
    {
        let r = ToolCall {
            id: self.id.clone(),
            name: self.name.clone(),
            args: self.args.clone(),
            result: match &self.result {
                Some(s) => Some(s.clone()),
                None => None,
            },
        };
        r
    }
}

/// An error part in a message, carrying the error's description.
#[derive(Debug, Clone, PartialEq, Eq)]
pub struct ErrorPart {
    /// Description of the error.
    pub description: String,
}

/// Mathematical model of a tool call: every field as a sequence of characters.
#[verifier::ext_equal]
pub struct ToolCallV {
    pub id: Seq<char>,
    pub name: Seq<char>,
    pub args: Seq<char>,
    pub result: Option<Seq<char>>,
}

/// Mathematical model of a message part.
#[verifier::ext_equal]
pub enum PartV {
    Text(Seq<char>),
    Tool(ToolCallV),
    Error(Seq<char>),
}

/// Mathematical model of a message.
#[verifier::ext_equal]
pub struct MessageV {
    pub id: Seq<char>,
    pub role: Role,
    pub parts: Seq<PartV>,
}

impl View for ToolCall {
    type V = ToolCallV;

    open spec fn view(&self) -> ToolCallV {
        ToolCallV {
            id: self.id@,
            name: self.name@,
            args: self.args@,
            result: match self.result {
                Some(ref r) => Some(r@),
                None => None,
            },
        }
    }
}

impl View for Part {
    type V = PartV;

    open spec fn view(&self) -> PartV {
        match self {
            Part::Text(t) => PartV::Text(t.text@),
            Part::Tool(t) => PartV::Tool(t.tool@),
            Part::Error(e) => PartV::Error(e.description@),
        }
    }
}

impl View for Message {
    type V = MessageV;

    open spec fn view(&self) -> MessageV {
        MessageV {
            id: self.id@,
            role: self.role,
            parts: self.parts@.map_values(|p: Part| p@),
        }
    }
}

/// The tool calls among a sequence of parts, in order.
pub open spec fn tool_calls_of(parts: Seq<PartV>) -> Seq<ToolCallV>
    decreases parts.len(),
{
    if parts.len() == 0 {
        Seq::empty()
    } else {
        tool_calls_of(parts.drop_last()) + match parts.last() {
            PartV::Tool(t) => seq![t],
            _ => Seq::empty(),
        }
    }
}

/// The text of a text part; meaningful only for text parts.
pub open spec fn part_text(p: PartV) -> Seq<char>
    recommends
        p is Text,
{
    match p {
        PartV::Text(t) => t,
        _ => Seq::empty(),
    }
}

/// The tool call of a tool part; meaningful only for tool parts.
pub open spec fn part_tool(p: PartV) -> ToolCallV
    recommends
        p is Tool,
{
    match p {
        PartV::Tool(t) => t,
        _ => ToolCallV { id: Seq::empty(), name: Seq::empty(), args: Seq::empty(), result: None },
    }
}

/// Whether some tool call among `parts` still has an absent result.
pub open spec fn has_unresolved_tool_call(parts: Seq<PartV>) -> bool {
    exists|i: int|
        0 <= i < parts.len() && ((#[trigger] parts[i]) matches PartV::Tool(t) && t.result is None)
}

impl Message {
    /// Returns the tool calls in the message parts, in order.
    pub fn tool_calls(&self) -> (r: Vec<ToolCall>)
        ensures
            r@.map_values(|c: ToolCall| c@) == tool_calls_of(self@.parts),
    {
        let mut r: Vec<ToolCall> = Vec::new();
        let n = self.parts.len();
        for i in 0..n
            invariant
                n == self.parts.len(),
                r@.map_values(|c: ToolCall| c@) == tool_calls_of(
                    self@.parts.take(i as int),
                ),
        {
            if let Part::Tool(tp) = &self.parts[i] {
                r.push(tp.tool.clone());
            }
            proof {
                let parts = self@.parts;
                assert(parts.take(i + 1).drop_last() =~= parts.take(i as int));
                assert(parts.take(i + 1).last() == parts[i as int]);
                match self.parts@[i as int] {
                    Part::Tool(tp) => {
                        assert(r@.map_values(|c: ToolCall| c@) =~= tool_calls_of(
                            parts.take(i as int),
                        ) + seq![tp.tool@]);
                    },
                    _ => {
                        assert(r@.map_values(|c: ToolCall| c@) =~= tool_calls_of(
                            parts.take(i as int),
                        ));
                    },
                }
            }
        }
        proof {
            assert(self@.parts.take(n as int) =~= self@.parts);
        }
        r
    }

    /// Whether some tool call in the message still has an absent result.
    pub fn has_unresolved_tool_call(&self) -> (b: bool)
        ensures
            b == has_unresolved_tool_call(self@.parts),
    {
        let n = self.parts.len();
        for i in 0..n
            invariant
                n == self.parts.len(),
                forall|j: int|
                    0 <= j < i ==> !(#[trigger] self@.parts[j] matches PartV::Tool(t)
                        && t.result is None),
        {
            if let Part::Tool(tp) = &self.parts[i] {
                if tp.tool.result.is_none() {
                    proof {
                        assert(self@.parts[i as int] matches PartV::Tool(t) && t.result is None);
                    }
                    return true;
                }
            }
        }
        false
    }
}

/// Whether `post` is the same part as `pre`, possibly further along: a text
/// part whose text has grown at the end, a tool part for the same call, or an
/// unchanged error part.
pub open spec fn part_monotone(pre: PartV, post: PartV) -> bool {
    match (pre, post) {
        (PartV::Text(a), PartV::Text(b)) => a.is_prefix_of(b),
        (PartV::Tool(a), PartV::Tool(b)) => a.id == b.id && a.name == b.name,
        (PartV::Error(a), PartV::Error(b)) => a == b,
        _ => false,
    }
}

/// Whether `post` extends `pre`: same identity and role, the part sequence is
/// append-only, and every part already present has kept its identity — text
/// parts grow only by suffix extension and tool parts keep their call id and
/// name.
pub open spec fn message_extended(pre: MessageV, post: MessageV) -> bool {
    &&& pre.id == post.id
    &&& pre.role == post.role
    &&& pre.parts.len() <= post.parts.len()
    &&& forall|i: int|
        0 <= i < pre.parts.len() ==> part_monotone(pre.parts[i], #[trigger] post.parts[i])
}

/// A message extends itself.
pub proof fn lemma_message_extended_refl(m: MessageV)
    ensures
        message_extended(m, m),
{
    assert forall|i: int| 0 <= i < m.parts.len() implies part_monotone(
        m.parts[i],
        #[trigger] m.parts[i],
    ) by {
        match m.parts[i] {
            PartV::Text(a) => {
                assert(a.is_prefix_of(a)) by {
                    assert(a =~= a.subrange(0, a.len() as int));
                }
            },
            _ => {},
        }
    }
}

/// Extension of the assistant message is transitive: across any chain of
/// engine steps, parts are never removed or reordered, every text part's
/// observed texts form a prefix chain, and a `part_index` continues to refer
/// to the same tool part (same call id and name).
pub proof fn lemma_message_extended_trans(a: MessageV, b: MessageV, c: MessageV)
    requires
        message_extended(a, b),
        message_extended(b, c),
    ensures
        message_extended(a, c),
{
    assert forall|i: int| 0 <= i < a.parts.len() implies part_monotone(
        a.parts[i],
        #[trigger] c.parts[i],
    ) by {
        assert(part_monotone(a.parts[i], b.parts[i]));
        assert(part_monotone(b.parts[i], c.parts[i]));
        match (a.parts[i], b.parts[i], c.parts[i]) {
            (PartV::Text(x), PartV::Text(y), PartV::Text(z)) => {
                assert(x =~= y.subrange(0, x.len() as int));
                assert(y =~= z.subrange(0, y.len() as int));
                assert(x =~= z.subrange(0, x.len() as int));
            },
            _ => {},
        }
    }
}

} // verus!
