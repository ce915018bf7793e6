//! Chat-dialect encoder: consecutive assistant tool parts within one
//! canonical message coalesce into a single assistant message whose
//! `tool_calls` is a list; each tool result is emitted as a separate
//! tool-role message that follows the assistant message, buffered so text
//! parts never interleave between a tool call and its results.

use vstd::prelude::*;

use crate::message::Message;
use crate::message::MessageV;
use crate::message::Part;
use crate::message::PartV;
use crate::message::Role;
use crate::message::ToolCallV;
use crate::openai::EncodeError;

verus! {

/// A tool call as carried inside a Chat-dialect assistant message; tagged
/// with type `"function"` on the wire.
#[derive(Debug, Clone, PartialEq, Eq)]
pub struct ChatToolCall {
    /// Backend-assigned call identifier.
    pub id: String,
    /// Name of the called tool.
    pub name: String,
    /// JSON text of the call arguments.
    pub arguments: String,
}

/// Mathematical model of a Chat-dialect tool call.
#[verifier::ext_equal]
pub struct ChatToolCallV {
    pub id: Seq<char>,
    pub name: Seq<char>,
    pub arguments: Seq<char>,
}

impl View for ChatToolCall {
    type V = ChatToolCallV;

    open spec fn view(&self) -> ChatToolCallV {
        ChatToolCallV { id: self.id@, name: self.name@, arguments: self.arguments@ }
    }
}

/// One message of a Chat-dialect request.
#[derive(Debug, Clone, PartialEq, Eq)]
pub enum ChatRequestMessage {
    /// A developer message.
    Developer {
        /// The text content.
        content: String,
    },
    /// A user message.
    User {
        /// The text content.
        content: String,
    },
    /// An assistant message: text content, or a list of tool calls, or both.
    Assistant {
        /// The text content, when the message carries one.
        content: Option<String>,
        /// The tool calls the assistant made.
        tool_calls: Vec<ChatToolCall>,
    },
    /// A tool-role message carrying one call's result.
    Tool {
        /// Call identifier of the call this result belongs to.
        tool_call_id: String,
        /// JSON text of the call's result.
        content: String,
    },
}

/// Mathematical model of a Chat-dialect request message.
#[verifier::ext_equal]
pub enum ChatRequestMessageV {
    Developer { content: Seq<char> },
    User { content: Seq<char> },
    Assistant { content: Option<Seq<char>>, tool_calls: Seq<ChatToolCallV> },
    Tool { tool_call_id: Seq<char>, content: Seq<char> },
}

impl View for ChatRequestMessage {
    type V = ChatRequestMessageV;

    open spec fn view(&self) -> ChatRequestMessageV {
        match self {
            ChatRequestMessage::Developer { content } => ChatRequestMessageV::Developer {
                content: content@,
            },
            ChatRequestMessage::User { content } => ChatRequestMessageV::User {
                content: content@,
            },
            ChatRequestMessage::Assistant { content, tool_calls } => {
                ChatRequestMessageV::Assistant {
                    content: match content {
                        Some(c) => Some(c@),
                        None => None,
                    },
                    tool_calls: tool_calls@.map_values(|c: ChatToolCall| c@),
                }
            },
            ChatRequestMessage::Tool { tool_call_id, content } => ChatRequestMessageV::Tool {
                tool_call_id: tool_call_id@,
                content: content@,
            },
        }
    }
}

/// The role-tagged message a text part lowers to.
pub open spec fn text_message_of(role: Role, text: Seq<char>) -> ChatRequestMessageV {
    match role {
        Role::Developer => ChatRequestMessageV::Developer { content: text },
        Role::User => ChatRequestMessageV::User { content: text },
        _ => ChatRequestMessageV::Assistant { content: Some(text), tool_calls: Seq::empty() },
    }
}

/// The wire form of a tool call.
pub open spec fn chat_tool_call_of(t: ToolCallV) -> ChatToolCallV {
    ChatToolCallV { id: t.id, name: t.name, arguments: t.args }
}

/// The buffered tool-role messages a tool call contributes: one if and only
/// if its result is present.
pub open spec fn tool_result_messages(t: ToolCallV) -> Seq<ChatRequestMessageV> {
    match t.result {
        Some(output) => seq![
            ChatRequestMessageV::Tool { tool_call_id: t.id, content: output },
        ],
        None => Seq::empty(),
    }
}

/// Appends a tool call to the accumulated messages: merged into a trailing
/// assistant message when one ends the list, otherwise as a fresh assistant
/// message with only this call.
pub open spec fn append_tool_call(acc: Seq<ChatRequestMessageV>, t: ToolCallV) -> Seq<
    ChatRequestMessageV,
> {
    if acc.len() > 0 {
        match acc.last() {
            ChatRequestMessageV::Assistant { content, tool_calls } => acc.update(
                acc.len() - 1,
                ChatRequestMessageV::Assistant {
                    content,
                    tool_calls: tool_calls.push(chat_tool_call_of(t)),
                },
            ),
            _ => acc.push(
                ChatRequestMessageV::Assistant {
                    content: None,
                    tool_calls: seq![chat_tool_call_of(t)],
                },
            ),
        }
    } else {
        acc.push(
            ChatRequestMessageV::Assistant {
                content: None,
                tool_calls: seq![chat_tool_call_of(t)],
            },
        )
    }
}

/// The Chat-dialect encoding of the remaining parts, given the messages
/// emitted so far and the buffered tool-result messages not yet flushed.
pub open spec fn chat_encode(
    role: Role,
    parts: Seq<PartV>,
    acc: Seq<ChatRequestMessageV>,
    pending: Seq<ChatRequestMessageV>,
) -> Seq<ChatRequestMessageV>
    decreases parts.len(),
{
    if parts.len() == 0 {
        acc + pending
    } else {
        match parts[0] {
            PartV::Text(text) => chat_encode(
                role,
                parts.drop_first(),
                acc + pending + seq![text_message_of(role, text)],
                Seq::empty(),
            ),
            PartV::Tool(t) => chat_encode(
                role,
                parts.drop_first(),
                append_tool_call(acc, t),
                pending + tool_result_messages(t),
            ),
            PartV::Error(description) => chat_encode(
                role,
                parts.drop_first(),
                acc + pending + seq![
                    ChatRequestMessageV::Developer { content: description },
                ],
                Seq::empty(),
            ),
        }
    }
}

/// The Chat-dialect encoding of a whole message.
pub open spec fn chat_messages_of(m: MessageV) -> Seq<ChatRequestMessageV> {
    chat_encode(m.role, m.parts, Seq::empty(), Seq::empty())
}

/// Lowers a canonical message into Chat-dialect request messages. Fails if
/// and only if a part violates the placement rules, naming the first
/// violation.
pub fn encode_chat(message: &Message) -> (r: Result<Vec<ChatRequestMessage>, EncodeError>)
    ensures
        r is Ok <==> crate::openai::responses::message_encodable(message@),
        r matches Ok(v) ==> v@.map_values(|x: ChatRequestMessage| x@) == chat_messages_of(
            message@,
        ),
        r matches Err(e) ==> e == crate::openai::responses::encode_error_of(
            message@.role,
            message@.parts,
        ),
{
    let mut messages: Vec<ChatRequestMessage> = Vec::new();
    let mut tool_messages: Vec<ChatRequestMessage> = Vec::new();
    let n = message.parts.len();
    let ghost partsv = message@.parts;
    let ghost role = message@.role;
    proof {
        assert(partsv.skip(0) =~= partsv);
        assert(messages@.map_values(|x: ChatRequestMessage| x@) =~= Seq::<
            ChatRequestMessageV,
        >::empty());
        assert(tool_messages@.map_values(|x: ChatRequestMessage| x@) =~= Seq::<
            ChatRequestMessageV,
        >::empty());
    }
    for i in 0..n
        invariant
            n == message.parts.len(),
            partsv == message@.parts,
            role == message@.role,
            forall|j: int| 0 <= j < i ==> part_encodable_chat(role, #[trigger] partsv[j]),
            chat_encode(role, partsv, Seq::empty(), Seq::empty()) == chat_encode(
                role,
                partsv.skip(i as int),
                messages@.map_values(|x: ChatRequestMessage| x@),
                tool_messages@.map_values(|x: ChatRequestMessage| x@),
            ),
            forall|j: int|
                0 <= j < tool_messages@.len() ==> (#[trigger] tool_messages@[j]@)
                    matches ChatRequestMessageV::Tool { .. },
    {
        let ghost acc_pre = messages@.map_values(|x: ChatRequestMessage| x@);
        let ghost pending_pre = tool_messages@.map_values(|x: ChatRequestMessage| x@);
        proof {
            assert(partsv.skip(i as int)[0] == partsv[i as int]);
            assert(partsv.skip(i as int).drop_first() =~= partsv.skip(i + 1));
        }
        match &message.parts[i] {
            Part::Text(text_part) => {
                let ghost tv = text_part.text@;
                flush_tool_messages(&mut messages, &mut tool_messages);
                messages.push(chat_text_message(message.role, text_part.text.clone()));
                proof {
                    assert(partsv[i as int] == PartV::Text(tv));
                    assert(messages@.map_values(|x: ChatRequestMessage| x@) =~= acc_pre
                        + pending_pre + seq![text_message_of(role, tv)]);
                    assert(tool_messages@.map_values(|x: ChatRequestMessage| x@)
                        =~= Seq::<ChatRequestMessageV>::empty());
                    assert(chat_encode(role, partsv.skip(i as int), acc_pre, pending_pre)
                        == chat_encode(
                        role,
                        partsv.skip(i + 1),
                        acc_pre + pending_pre + seq![text_message_of(role, tv)],
                        Seq::empty(),
                    ));
                }
            },
            Part::Tool(tool_part) => {
                if !matches!(message.role, Role::Assistant) {
                    proof {
                        crate::openai::responses::lemma_first_encode_error(role, partsv, i as int);
                    }
                    return Err(EncodeError::ToolPartOutsideAssistant);
                }
                let ghost t = tool_part.tool@;
                let ghost msgs_pre = messages@;
                let call = ChatToolCall {
                    id: tool_part.tool.id.clone(),
                    name: tool_part.tool.name.clone(),
                    arguments: tool_part.tool.args.clone(),
                };
                proof {
                    assert(call@ =~= chat_tool_call_of(t));
                }
                let leftover = match messages.pop() {
                    Some(ChatRequestMessage::Assistant { content, tool_calls }) => {
                        let ghost tcs_pre = tool_calls@;
                        let mut tool_calls = tool_calls;
                        tool_calls.push(call);
                        messages.push(ChatRequestMessage::Assistant { content, tool_calls });
                        proof {
                            assert(messages@ =~= msgs_pre.update(
                                msgs_pre.len() - 1,
                                messages@.last(),
                            ));
                            assert(acc_pre.last() == msgs_pre.last()@);
                            assert(messages@.last()@ matches ChatRequestMessageV::Assistant {
                                content: c2,
                                tool_calls: t2,
                            } && acc_pre.last() matches ChatRequestMessageV::Assistant {
                                content: c1,
                                tool_calls: t1,
                            } && c1 == c2 && t2 =~= t1.push(chat_tool_call_of(t)));
                            assert(messages@.map_values(|x: ChatRequestMessage| x@)
                                =~~= append_tool_call(acc_pre, t));
                        }
                        None
                    },
                    Some(other) => {
                        messages.push(other);
                        proof {
                            assert(messages@ =~= msgs_pre);
                        }
                        Some(call)
                    },
                    None => Some(call),
                };
                if let Some(call) = leftover {
                    let mut tool_calls: Vec<ChatToolCall> = Vec::new();
                    tool_calls.push(call);
                    messages.push(ChatRequestMessage::Assistant { content: None, tool_calls });
                    proof {
                        assert(messages@.last()@ matches ChatRequestMessageV::Assistant {
                            content: c2,
                            tool_calls: t2,
                        } && c2 is None && t2 =~= seq![chat_tool_call_of(t)]);
                        assert(messages@.map_values(|x: ChatRequestMessage| x@)
                            =~~= append_tool_call(acc_pre, t));
                    }
                }
                if let Some(result) = &tool_part.tool.result {
                    tool_messages.push(
                        ChatRequestMessage::Tool {
                            tool_call_id: tool_part.tool.id.clone(),
                            content: result.clone(),
                        },
                    );
                }
                proof {
                    assert(partsv[i as int] == PartV::Tool(t));
                    assert(messages@.map_values(|x: ChatRequestMessage| x@) =~~= append_tool_call(
                        acc_pre,
                        t,
                    ));
                    assert(tool_messages@.map_values(|x: ChatRequestMessage| x@) =~~= pending_pre
                        + tool_result_messages(t));
                    assert(chat_encode(role, partsv.skip(i as int), acc_pre, pending_pre)
                        == chat_encode(
                        role,
                        partsv.skip(i + 1),
                        append_tool_call(acc_pre, t),
                        pending_pre + tool_result_messages(t),
                    ));
                }
            },
            Part::Error(error_part) => {
                if !matches!(message.role, Role::Developer) {
                    proof {
                        crate::openai::responses::lemma_first_encode_error(role, partsv, i as int);
                    }
                    return Err(EncodeError::ErrorPartOutsideDeveloper);
                }
                let ghost dv = error_part.description@;
                flush_tool_messages(&mut messages, &mut tool_messages);
                messages.push(
                    ChatRequestMessage::Developer { content: error_part.description.clone() },
                );
                proof {
                    assert(partsv[i as int] == PartV::Error(dv));
                    assert(messages@.map_values(|x: ChatRequestMessage| x@) =~= acc_pre
                        + pending_pre + seq![ChatRequestMessageV::Developer { content: dv }]);
                    assert(tool_messages@.map_values(|x: ChatRequestMessage| x@)
                        =~= Seq::<ChatRequestMessageV>::empty());
                    assert(chat_encode(role, partsv.skip(i as int), acc_pre, pending_pre)
                        == chat_encode(
                        role,
                        partsv.skip(i + 1),
                        acc_pre + pending_pre + seq![ChatRequestMessageV::Developer { content: dv }],
                        Seq::empty(),
                    ));
                }
            },
        }
    }
    proof {
        assert(partsv.skip(n as int) =~= Seq::<PartV>::empty());
    }
    flush_tool_messages(&mut messages, &mut tool_messages);
    proof {
        assert(messages@.map_values(|x: ChatRequestMessage| x@) =~= chat_messages_of(message@));
    }
    Ok(messages)
}

/// The placement rules, shared with the Responses dialect.
pub open spec fn part_encodable_chat(role: Role, p: PartV) -> bool {
    crate::openai::responses::part_encodable(role, p)
}

/// Builds the role-tagged message for a text part.
fn chat_text_message(role: Role, text: String) -> (r: ChatRequestMessage)
    ensures
        r@ == text_message_of(role, text@),
{
    match role {
        Role::Developer => ChatRequestMessage::Developer { content: text },
        Role::User => ChatRequestMessage::User { content: text },
        _ => {
            let tool_calls: Vec<ChatToolCall> = Vec::new();
            proof {
                assert(tool_calls@.map_values(|c: ChatToolCall| c@) =~= Seq::<
                    ChatToolCallV,
                >::empty());
            }
            ChatRequestMessage::Assistant { content: Some(text), tool_calls }
        },
    }
}

/// Appends the buffered tool-result messages and clears the buffer.
fn flush_tool_messages(
    messages: &mut Vec<ChatRequestMessage>,
    tool_messages: &mut Vec<ChatRequestMessage>,
)
    ensures
        final(messages)@ == old(messages)@ + old(tool_messages)@,
        final(tool_messages)@.len() == 0,
{
    messages.append(tool_messages);
}

/// Two consecutive assistant tool parts in one canonical message coalesce
/// into a single assistant message with both tool calls, and their results
/// appear as two immediately-following tool messages.
pub proof fn lemma_chat_coalesces_tool_pair(m: MessageV, a: ToolCallV, b: ToolCallV)
    requires
        m.role is Assistant,
        m.parts == seq![PartV::Tool(a), PartV::Tool(b)],
        a.result is Some,
        b.result is Some,
    ensures
        chat_messages_of(m) == seq![
            ChatRequestMessageV::Assistant {
                content: None,
                tool_calls: seq![chat_tool_call_of(a), chat_tool_call_of(b)],
            },
            ChatRequestMessageV::Tool { tool_call_id: a.id, content: a.result->0 },
            ChatRequestMessageV::Tool { tool_call_id: b.id, content: b.result->0 },
        ],
{
    let e: Seq<ChatRequestMessageV> = Seq::empty();
    assert(m.parts[0] == PartV::Tool(a));
    assert(m.parts.len() == 2);
    let acc1 = append_tool_call(e, a);
    let pend1 = e + tool_result_messages(a);
    assert(chat_messages_of(m) == chat_encode(m.role, m.parts.drop_first(), acc1, pend1));
    assert(m.parts.drop_first()[0] == PartV::Tool(b));
    assert(m.parts.drop_first().len() == 1);
    let acc2 = append_tool_call(acc1, b);
    let pend2 = pend1 + tool_result_messages(b);
    assert(chat_encode(m.role, m.parts.drop_first(), acc1, pend1) == chat_encode(
        m.role,
        m.parts.drop_first().drop_first(),
        acc2,
        pend2,
    ));
    assert(m.parts.drop_first().drop_first().len() == 0);
    assert(chat_encode(m.role, m.parts.drop_first().drop_first(), acc2, pend2) == acc2 + pend2);
    assert(acc1 =~~= seq![
        ChatRequestMessageV::Assistant { content: None, tool_calls: seq![chat_tool_call_of(a)] },
    ]);
    assert(acc2 =~~= seq![
        ChatRequestMessageV::Assistant {
            content: None,
            tool_calls: seq![chat_tool_call_of(a), chat_tool_call_of(b)],
        },
    ]);
    assert(acc2 + pend2 =~~= seq![
        ChatRequestMessageV::Assistant {
            content: None,
            tool_calls: seq![chat_tool_call_of(a), chat_tool_call_of(b)],
        },
        ChatRequestMessageV::Tool { tool_call_id: a.id, content: a.result->0 },
        ChatRequestMessageV::Tool { tool_call_id: b.id, content: b.result->0 },
    ]);
}

} // verus!
