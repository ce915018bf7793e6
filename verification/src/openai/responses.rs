//! Responses-dialect encoder: each canonical message is lowered into a flat
//! list of input items at the top level — role-tagged text messages, and for
//! each tool part a function-call item followed, when a result exists, by a
//! function-call-output item carrying the same call id.

use vstd::prelude::*;

use crate::message::Message;
use crate::message::MessageV;
use crate::message::Part;
use crate::message::PartV;
use crate::message::Role;
use crate::message::ToolCallV;
use crate::openai::EncodeError;

verus! {

/// One item of a Responses-dialect request input list.
#[derive(Debug, Clone, PartialEq, Eq)]
pub enum InputListItem {
    /// A role-tagged text message.
    Message {
        /// The author role the item is tagged with.
        role: Role,
        /// The text content.
        text: String,
    },
    /// A function-call record.
    FunctionCall {
        /// Backend-assigned call identifier.
        call_id: String,
        /// Name of the called tool.
        name: String,
        /// JSON text of the call arguments.
        arguments: String,
    },
    /// The output of an earlier function call.
    FunctionCallOutput {
        /// Call identifier of the call this output belongs to.
        call_id: String,
        /// JSON text of the call's result.
        output: String,
    },
}

/// Mathematical model of an input list item.
#[verifier::ext_equal]
pub enum InputListItemV {
    Message { role: Role, text: Seq<char> },
    FunctionCall { call_id: Seq<char>, name: Seq<char>, arguments: Seq<char> },
    FunctionCallOutput { call_id: Seq<char>, output: Seq<char> },
}

impl View for InputListItem {
    type V = InputListItemV;

    open spec fn view(&self) -> InputListItemV {
        match self {
            InputListItem::Message { role, text } => InputListItemV::Message {
                role: *role,
                text: text@,
            },
            InputListItem::FunctionCall { call_id, name, arguments } => {
                InputListItemV::FunctionCall {
                    call_id: call_id@,
                    name: name@,
                    arguments: arguments@,
                }
            },
            InputListItem::FunctionCallOutput { call_id, output } => {
                InputListItemV::FunctionCallOutput { call_id: call_id@, output: output@ }
            },
        }
    }
}

/// The items a tool call lowers to: one function-call item, then one
/// function-call-output item if and only if a result exists.
pub open spec fn tool_call_items(t: ToolCallV) -> Seq<InputListItemV> {
    seq![
        InputListItemV::FunctionCall { call_id: t.id, name: t.name, arguments: t.args },
    ] + match t.result {
        Some(output) => seq![InputListItemV::FunctionCallOutput { call_id: t.id, output }],
        None => Seq::empty(),
    }
}

/// The items one part lowers to, under the message's role.
pub open spec fn part_items(role: Role, p: PartV) -> Seq<InputListItemV> {
    match p {
        PartV::Text(text) => seq![InputListItemV::Message { role, text }],
        PartV::Tool(t) => tool_call_items(t),
        PartV::Error(description) => seq![
            InputListItemV::Message { role: Role::Developer, text: description },
        ],
    }
}

/// The placement rules: a tool part may appear only inside an assistant
/// message, an error part only inside a developer message.
pub open spec fn part_encodable(role: Role, p: PartV) -> bool {
    match p {
        PartV::Text(_) => true,
        PartV::Tool(_) => role is Assistant,
        PartV::Error(_) => role is Developer,
    }
}

/// Whether every part of the message satisfies the placement rules.
pub open spec fn message_encodable(m: MessageV) -> bool {
    forall|i: int| 0 <= i < m.parts.len() ==> part_encodable(m.role, #[trigger] m.parts[i])
}

/// The encoding of a sequence of parts under a role: parts are lowered in
/// order, each to its items.
pub open spec fn items_of_parts(role: Role, parts: Seq<PartV>) -> Seq<InputListItemV>
    decreases parts.len(),
{
    if parts.len() == 0 {
        Seq::empty()
    } else {
        items_of_parts(role, parts.drop_last()) + part_items(role, parts.last())
    }
}

/// The encoding of a whole message.
pub open spec fn items_of_message(m: MessageV) -> Seq<InputListItemV> {
    items_of_parts(m.role, m.parts)
}

/// The error reported for the first part that violates the placement rules.
pub open spec fn encode_error_of(role: Role, parts: Seq<PartV>) -> EncodeError
    decreases parts.len(),
{
    if parts.len() == 0 {
        EncodeError::ToolPartOutsideAssistant
    } else if !part_encodable(role, parts[0]) {
        match parts[0] {
            PartV::Error(_) => EncodeError::ErrorPartOutsideDeveloper,
            _ => EncodeError::ToolPartOutsideAssistant,
        }
    } else {
        encode_error_of(role, parts.drop_first())
    }
}

/// Lowers a canonical message into Responses-dialect input items. Fails if
/// and only if a part violates the placement rules, naming the first
/// violation.
pub fn encode_responses(message: &Message) -> (r: Result<Vec<InputListItem>, EncodeError>)
    ensures
        r is Ok <==> message_encodable(message@),
        r matches Ok(v) ==> v@.map_values(|x: InputListItem| x@) == items_of_message(message@),
        r matches Err(e) ==> e == encode_error_of(message@.role, message@.parts),
{
    let mut items: Vec<InputListItem> = Vec::new();
    let n = message.parts.len();
    let ghost partsv = message@.parts;
    for i in 0..n
        invariant
            n == message.parts.len(),
            partsv == message@.parts,
            forall|j: int| 0 <= j < i ==> part_encodable(message@.role, #[trigger] partsv[j]),
            items@.map_values(|x: InputListItem| x@) == items_of_parts(
                message@.role,
                partsv.take(i as int),
            ),
    {
        let ghost items_pre = items@.map_values(|x: InputListItem| x@);
        match &message.parts[i] {
            Part::Text(text_part) => {
                items.push(
                    InputListItem::Message { role: message.role, text: text_part.text.clone() },
                );
            },
            Part::Tool(tool_part) => {
                if !matches!(message.role, Role::Assistant) {
                    proof {
                        lemma_first_encode_error(message@.role, partsv, i as int);
                    }
                    return Err(EncodeError::ToolPartOutsideAssistant);
                }
                items.push(
                    InputListItem::FunctionCall {
                        call_id: tool_part.tool.id.clone(),
                        name: tool_part.tool.name.clone(),
                        arguments: tool_part.tool.args.clone(),
                    },
                );
                if let Some(result) = &tool_part.tool.result {
                    items.push(
                        InputListItem::FunctionCallOutput {
                            call_id: tool_part.tool.id.clone(),
                            output: result.clone(),
                        },
                    );
                }
            },
            Part::Error(error_part) => {
                if !matches!(message.role, Role::Developer) {
                    proof {
                        lemma_first_encode_error(message@.role, partsv, i as int);
                    }
                    return Err(EncodeError::ErrorPartOutsideDeveloper);
                }
                items.push(
                    InputListItem::Message {
                        role: Role::Developer,
                        text: error_part.description.clone(),
                    },
                );
            },
        }
        proof {
            assert(partsv.take(i + 1).drop_last() =~= partsv.take(i as int));
            assert(partsv.take(i + 1).last() == partsv[i as int]);
            assert(items@.map_values(|x: InputListItem| x@) =~= items_pre + part_items(
                message@.role,
                partsv[i as int],
            ));
        }
    }
    proof {
        assert(partsv.take(n as int) =~= partsv);
    }
    Ok(items)
}

/// When every part before `i` is well placed and part `i` is not, the
/// reported error is that of part `i`.
pub proof fn lemma_first_encode_error(role: Role, parts: Seq<PartV>, i: int)
    requires
        0 <= i < parts.len(),
        forall|j: int| 0 <= j < i ==> part_encodable(role, #[trigger] parts[j]),
        !part_encodable(role, parts[i]),
    ensures
        encode_error_of(role, parts) == match parts[i] {
            PartV::Error(_) => EncodeError::ErrorPartOutsideDeveloper,
            _ => EncodeError::ToolPartOutsideAssistant,
        },
        !message_encodable(MessageV { id: Seq::empty(), role, parts }),
    decreases i,
{
    if i > 0 {
        assert(parts.drop_first()[i - 1] == parts[i]);
        assert forall|j: int| 0 <= j < i - 1 implies part_encodable(
            role,
            #[trigger] parts.drop_first()[j],
        ) by {
            assert(parts.drop_first()[j] == parts[j + 1]);
        }
        lemma_first_encode_error(role, parts.drop_first(), i - 1);
    }
    let m = MessageV { id: Seq::empty(), role, parts };
    assert(m.parts[i] == parts[i]);
    assert(!part_encodable(m.role, m.parts[i]));
}

/// Each assistant tool part produces exactly one function-call item, plus one
/// function-call-output item if and only if its result is present, both at
/// the top level of the input list, in part order.
pub proof fn lemma_responses_tool_part_items(m: MessageV, i: int)
    requires
        0 <= i < m.parts.len(),
        m.parts[i] matches PartV::Tool(_),
    ensures
        m.parts[i] matches PartV::Tool(t) ==> part_items(m.role, m.parts[i])
            == if t.result is Some {
            seq![
                InputListItemV::FunctionCall { call_id: t.id, name: t.name, arguments: t.args },
                InputListItemV::FunctionCallOutput { call_id: t.id, output: t.result->0 },
            ]
        } else {
            seq![
                InputListItemV::FunctionCall { call_id: t.id, name: t.name, arguments: t.args },
            ]
        },
        items_of_message(m) == items_of_parts(m.role, m.parts.take(i)) + part_items(
            m.role,
            m.parts[i],
        ) + items_of_parts_from(m.role, m.parts, i + 1),
{
    if let PartV::Tool(t) = m.parts[i] {
        match t.result {
            Some(output) => {
                assert(part_items(m.role, m.parts[i]) =~= seq![
                    InputListItemV::FunctionCall {
                        call_id: t.id,
                        name: t.name,
                        arguments: t.args,
                    },
                    InputListItemV::FunctionCallOutput { call_id: t.id, output },
                ]);
            },
            None => {
                assert(part_items(m.role, m.parts[i]) =~= seq![
                    InputListItemV::FunctionCall {
                        call_id: t.id,
                        name: t.name,
                        arguments: t.args,
                    },
                ]);
            },
        }
    }
    lemma_items_of_parts_split(m.role, m.parts, i);
}

/// The encoding of the parts from index `from` on.
pub open spec fn items_of_parts_from(role: Role, parts: Seq<PartV>, from: int) -> Seq<
    InputListItemV,
>
    decreases parts.len() - from,
{
    if from < 0 || from >= parts.len() {
        Seq::empty()
    } else {
        part_items(role, parts[from]) + items_of_parts_from(role, parts, from + 1)
    }
}

/// The encoding splits around any index: the items of the parts before it,
/// then the items of the part, then the items of the parts after it.
pub proof fn lemma_items_of_parts_split(role: Role, parts: Seq<PartV>, i: int)
    requires
        0 <= i < parts.len(),
    ensures
        items_of_parts(role, parts) == items_of_parts(role, parts.take(i)) + part_items(
            role,
            parts[i],
        ) + items_of_parts_from(role, parts, i + 1),
    decreases parts.len(),
{
    if parts.len() == 0 {
    } else if i == parts.len() - 1 {
        assert(parts.take(i) =~= parts.drop_last());
        assert(items_of_parts_from(role, parts, i + 1) =~= Seq::<InputListItemV>::empty());
        assert(parts[i] == parts.last());
        assert(items_of_parts(role, parts) =~= items_of_parts(role, parts.take(i)) + part_items(
            role,
            parts[i],
        ) + items_of_parts_from(role, parts, i + 1));
    } else {
        lemma_items_of_parts_split(role, parts.drop_last(), i);
        assert(parts.drop_last().take(i) =~= parts.take(i));
        assert(parts.drop_last()[i] == parts[i]);
        lemma_items_of_parts_from_drop_last(role, parts, i + 1);
        assert(items_of_parts(role, parts) =~= items_of_parts(role, parts.take(i)) + part_items(
            role,
            parts[i],
        ) + items_of_parts_from(role, parts, i + 1));
    }
}

/// Dropping the last part removes exactly its items from the tail encoding.
proof fn lemma_items_of_parts_from_drop_last(role: Role, parts: Seq<PartV>, from: int)
    requires
        0 <= from <= parts.len() - 1,
    ensures
        items_of_parts_from(role, parts, from) == items_of_parts_from(
            role,
            parts.drop_last(),
            from,
        ) + part_items(role, parts.last()),
    decreases parts.len() - from,
{
    if from == parts.len() - 1 {
        assert(items_of_parts_from(role, parts.drop_last(), from) =~= Seq::<
            InputListItemV,
        >::empty());
        assert(items_of_parts_from(role, parts, from + 1) =~= Seq::<InputListItemV>::empty());
        assert(parts[from] == parts.last());
        assert(items_of_parts_from(role, parts, from) =~= items_of_parts_from(
            role,
            parts.drop_last(),
            from,
        ) + part_items(role, parts.last()));
    } else {
        assert(parts.drop_last()[from] == parts[from]);
        lemma_items_of_parts_from_drop_last(role, parts, from + 1);
        assert(items_of_parts_from(role, parts, from) =~= items_of_parts_from(
            role,
            parts.drop_last(),
            from,
        ) + part_items(role, parts.last()));
    }
}

} // verus!
