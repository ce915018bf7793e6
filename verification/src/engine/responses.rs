//! Responses-dialect event demultiplexing: each typed event mutates the
//! shared assistant message through the engine's slot registry, keyed by the
//! backend's `(output_index, content_index)` pair.

use vstd::prelude::*;
use vstd::string::StringExecFns;

use crate::ai::GenerateConfig;
use crate::ai::model_identifier;
use crate::config::ToolChoice;
use crate::message::Message;
use crate::openai::EncodeError;
use crate::openai::FunctionToolDef;
use crate::openai::function_tool_defs;
use crate::openai::tool_defs_of;
use crate::openai::responses::InputListItem;
use crate::openai::responses::InputListItemV;
use crate::openai::responses::encode_error_of;
use crate::openai::responses::encode_responses;
use crate::openai::responses::items_of_message;
use crate::openai::responses::message_encodable;
use crate::ai::Model;
use crate::ai::Session;
use crate::ai::Usage;
use crate::ai::cost_nanos;
use crate::engine::Engine;
use crate::engine::EngineV;
use crate::engine::HandleOutcome;
use crate::engine::Slot;
use crate::engine::SlotKind;
use crate::engine::SlotV;
use crate::engine::SpawnRequest;
use crate::engine::SpawnRequestV;
use crate::engine::find_slot_spec;
use crate::engine::lemma_extended_after_push_part;
use crate::engine::lemma_extended_after_update_part;
use crate::engine::lemma_find_slot_none;
use crate::engine::lemma_prefix_append;
use crate::engine::lemma_slots_extended_push;
use crate::engine::lemma_slots_extended_update;
use crate::engine::slots_extended;
use crate::engine::spawn_view;
use crate::message::MessageV;
use crate::message::message_extended;
use crate::message::Part;
use crate::message::PartV;
use crate::message::TextPart;
use crate::message::ToolCall;
use crate::message::ToolCallV;
use crate::message::ToolPart;
use crate::message::part_tool;
use crate::tool::ExecutionRequestV;
use crate::tool::ToolSet;
use crate::tool::ToolV;
use crate::tool::find_tool;
use crate::tool::lemma_find_tool_name;
use crate::util::json_string_of;
use crate::util::repaired_json_of;

verus! {

/// Raw token counts as a backend reports them, before the saturating
/// subtraction of cached tokens.
#[derive(Debug, Clone, Copy, PartialEq, Eq, Structural)]
pub struct RawUsage {
    /// Raw prompt token count, cached tokens included.
    pub input_tokens: u64,
    /// Cached prompt token count.
    pub cached_tokens: u64,
    /// Output token count.
    pub output_tokens: u64,
}

/// The usage a raw report accounts for: the cached tokens are subtracted from
/// the raw prompt count, saturating at zero.
pub open spec fn usage_of_raw(r: RawUsage) -> Usage {
    Usage {
        cached_input_tokens: r.cached_tokens,
        input_tokens: if r.input_tokens >= r.cached_tokens {
            (r.input_tokens - r.cached_tokens) as u64
        } else {
            0
        },
        output_tokens: r.output_tokens,
    }
}

/// One event of a Responses-dialect stream, as the engine consumes it. Events
/// the engine ignores arrive as `Other`.
#[derive(Debug, Clone, PartialEq, Eq)]
pub enum Event {
    /// A function-call output item was added.
    OutputItemAdded {
        /// The item's output index.
        output_index: u64,
        /// Backend-assigned call identifier.
        call_id: String,
        /// Name of the called tool.
        name: String,
        /// Seed of the argument fragment.
        arguments: String,
    },
    /// A text or refusal content part was added.
    ContentPartAdded {
        /// The part's output index.
        output_index: u64,
        /// The part's content index.
        content_index: u64,
        /// Seed of the text.
        text: String,
    },
    /// An incremental fragment of a text part.
    OutputTextDelta {
        /// The part's output index.
        output_index: u64,
        /// The part's content index.
        content_index: u64,
        /// The fragment.
        delta: String,
    },
    /// An incremental fragment of a refusal part.
    RefusalDelta {
        /// The part's output index.
        output_index: u64,
        /// The part's content index.
        content_index: u64,
        /// The fragment.
        delta: String,
    },
    /// An incremental fragment of a function call's arguments.
    FunctionCallArgumentsDelta {
        /// The call's output index.
        output_index: u64,
        /// The fragment.
        delta: String,
    },
    /// A function call's arguments are complete.
    FunctionCallArgumentsDone {
        /// The call's output index.
        output_index: u64,
    },
    /// The response completed; the session's cursor and cost are updated.
    ResponseCompleted {
        /// Cursor of the previous response, when the backend reports one.
        previous_response_id: Option<String>,
        /// Token usage of the turn, when the backend reports it.
        usage: Option<RawUsage>,
    },
    /// Any event the engine ignores.
    Other,
}

/// Whether the engine can take the event: a registering event's key must be
/// fresh, a delta's key must be registered with the matching slot kind, and
/// the spawn counter must have room.
pub open spec fn accepts(pre: EngineV, event: Event) -> bool {
    match event {
        Event::OutputItemAdded { output_index, .. } => find_slot_spec(
            pre.slots,
            output_index,
            0,
        ) is None,
        Event::ContentPartAdded { output_index, content_index, .. } => find_slot_spec(
            pre.slots,
            output_index,
            content_index,
        ) is None,
        Event::OutputTextDelta { output_index, content_index, .. } => {
            match find_slot_spec(pre.slots, output_index, content_index) {
                Some(k) => pre.slots[k].kind is TextSlot,
                None => false,
            }
        },
        Event::RefusalDelta { output_index, content_index, .. } => {
            match find_slot_spec(pre.slots, output_index, content_index) {
                Some(k) => pre.slots[k].kind is TextSlot,
                None => false,
            }
        },
        Event::FunctionCallArgumentsDelta { output_index, .. } => {
            match find_slot_spec(pre.slots, output_index, 0) {
                Some(k) => pre.slots[k].kind is ToolSlot && pre.spawned < usize::MAX,
                None => false,
            }
        },
        Event::FunctionCallArgumentsDone { output_index } => {
            match find_slot_spec(pre.slots, output_index, 0) {
                Some(k) => pre.slots[k].kind is ToolSlot && pre.spawned < usize::MAX,
                None => false,
            }
        },
        Event::ResponseCompleted { .. } => true,
        Event::Other => true,
    }
}

/// The engine state after a function-call item is added: a fresh tool part
/// with null arguments, and a tool slot seeded with the announced fragment.
pub open spec fn apply_item_added(
    pre: EngineV,
    output_index: u64,
    call_id: Seq<char>,
    name: Seq<char>,
    arguments: Seq<char>,
) -> EngineV {
    EngineV {
        message: MessageV {
            parts: pre.message.parts.push(
                PartV::Tool(ToolCallV { id: call_id, name, args: "null"@, result: None }),
            ),
            ..pre.message
        },
        slots: pre.slots.push(
            SlotV {
                output_index,
                content_index: 0,
                kind: SlotKind::ToolSlot,
                accum: arguments,
                part_index: pre.message.parts.len() as int,
            },
        ),
        spawned: pre.spawned,
    }
}

/// The engine state after a content part is added: a fresh text part holding
/// the seed, and a text slot accumulating it.
pub open spec fn apply_content_added(
    pre: EngineV,
    output_index: u64,
    content_index: u64,
    text: Seq<char>,
) -> EngineV {
    EngineV {
        message: MessageV { parts: pre.message.parts.push(PartV::Text(text)), ..pre.message },
        slots: pre.slots.push(
            SlotV {
                output_index,
                content_index,
                kind: SlotKind::TextSlot,
                accum: text,
                part_index: pre.message.parts.len() as int,
            },
        ),
        spawned: pre.spawned,
    }
}

/// The engine state after a text or refusal delta: the slot's accumulated
/// string grows by the fragment, and the tracked text part is overwritten
/// with the accumulated string.
pub open spec fn apply_text_delta(
    pre: EngineV,
    output_index: u64,
    content_index: u64,
    delta: Seq<char>,
) -> EngineV {
    match find_slot_spec(pre.slots, output_index, content_index) {
        Some(k) => {
            let s = pre.slots[k];
            let accum2 = s.accum + delta;
            EngineV {
                message: MessageV {
                    parts: pre.message.parts.update(s.part_index, PartV::Text(accum2)),
                    ..pre.message
                },
                slots: pre.slots.update(k, SlotV { accum: accum2, ..s }),
                spawned: pre.spawned,
            }
        },
        None => pre,
    }
}

/// The engine state and spawn after an argument delta: the slot's fragment
/// grows, the tool part's arguments become the repaired fragment (or null
/// when irreparable), and a streamable tool with an executor is dispatched
/// with the current snapshot.
pub open spec fn apply_args_delta(
    pre: EngineV,
    tools: Seq<ToolV>,
    output_index: u64,
    delta: Seq<char>,
) -> (EngineV, Option<SpawnRequestV>) {
    match find_slot_spec(pre.slots, output_index, 0) {
        Some(k) => {
            let s = pre.slots[k];
            let accum2 = s.accum + delta;
            let tc = part_tool(pre.message.parts[s.part_index]);
            let args2 = match repaired_json_of(accum2) {
                Some(t) => t,
                None => "null"@,
            };
            let spawn = match find_tool(tools, tc.name) {
                Some(t) => if t.stream && t.has_executor {
                    Some(
                        SpawnRequestV {
                            part_index: s.part_index,
                            request: ExecutionRequestV { name: tc.name, id: tc.id, args: args2 },
                        },
                    )
                } else {
                    None
                },
                None => None,
            };
            (
                EngineV {
                    message: MessageV {
                        parts: pre.message.parts.update(
                            s.part_index,
                            PartV::Tool(ToolCallV { args: args2, ..tc }),
                        ),
                        ..pre.message
                    },
                    slots: pre.slots.update(k, SlotV { accum: accum2, ..s }),
                    spawned: pre.spawned + if spawn is Some {
                        1int
                    } else {
                        0int
                    },
                },
                spawn,
            )
        },
        None => (pre, None),
    }
}

/// The engine state and spawn after a final argument signal: an unknown tool
/// is answered with a `"No such tool: <name>"` result, a non-streamable tool
/// with an executor is dispatched with the final arguments, and a streamable
/// or client tool needs nothing here.
pub open spec fn apply_args_done(pre: EngineV, tools: Seq<ToolV>, output_index: u64) -> (
    EngineV,
    Option<SpawnRequestV>,
) {
    match find_slot_spec(pre.slots, output_index, 0) {
        Some(k) => {
            let s = pre.slots[k];
            let tc = part_tool(pre.message.parts[s.part_index]);
            match find_tool(tools, tc.name) {
                None => (
                    EngineV {
                        message: MessageV {
                            parts: pre.message.parts.update(
                                s.part_index,
                                PartV::Tool(
                                    ToolCallV {
                                        result: Some(json_string_of("No such tool: "@ + tc.name)),
                                        ..tc
                                    },
                                ),
                            ),
                            ..pre.message
                        },
                        ..pre
                    },
                    None,
                ),
                Some(t) => {
                    if t.stream {
                        (pre, None)
                    } else if t.has_executor {
                        (
                            EngineV { spawned: pre.spawned + 1, ..pre },
                            Some(
                                SpawnRequestV {
                                    part_index: s.part_index,
                                    request: ExecutionRequestV {
                                        name: tc.name,
                                        id: tc.id,
                                        args: tc.args,
                                    },
                                },
                            ),
                        )
                    } else {
                        (pre, None)
                    }
                },
            }
        },
        None => (pre, None),
    }
}

impl Engine {
    /// Consumes one Responses-dialect event, mutating the assistant message,
    /// the session, and the slot registry as the event demands. Returns the
    /// execution to spawn, if the event dispatched one, and whether the
    /// mutation is worth announcing to observers.
    pub fn handle_event(
        &mut self,
        session: &mut Session,
        tools: &ToolSet,
        model: Model,
        event: Event,
    ) -> (r: HandleOutcome)
        requires
            old(self)@.wf(),
            accepts(old(self)@, event),
            event matches Event::ResponseCompleted { usage: Some(u), .. } ==> old(session).cost
                + cost_nanos(model, usage_of_raw(u)) <= u128::MAX,
        ensures
            final(self)@.wf(),
            message_extended(old(self)@.message, final(self)@.message),
            slots_extended(old(self)@.slots, final(self)@.slots),
            old(self)@.spawned <= final(self)@.spawned,
            match event {
                Event::OutputItemAdded { output_index, call_id, name, arguments } => {
                    &&& final(self)@ == apply_item_added(
                        old(self)@,
                        output_index,
                        call_id@,
                        name@,
                        arguments@,
                    )
                    &&& r.spawn is None
                    &&& r.updated
                    &&& *final(session) == *old(session)
                },
                Event::ContentPartAdded { output_index, content_index, text } => {
                    &&& final(self)@ == apply_content_added(
                        old(self)@,
                        output_index,
                        content_index,
                        text@,
                    )
                    &&& r.spawn is None
                    &&& r.updated
                    &&& *final(session) == *old(session)
                },
                Event::OutputTextDelta { output_index, content_index, delta } => {
                    &&& final(self)@ == apply_text_delta(
                        old(self)@,
                        output_index,
                        content_index,
                        delta@,
                    )
                    &&& r.spawn is None
                    &&& r.updated
                    &&& *final(session) == *old(session)
                },
                Event::RefusalDelta { output_index, content_index, delta } => {
                    &&& final(self)@ == apply_text_delta(
                        old(self)@,
                        output_index,
                        content_index,
                        delta@,
                    )
                    &&& r.spawn is None
                    &&& r.updated
                    &&& *final(session) == *old(session)
                },
                Event::FunctionCallArgumentsDelta { output_index, delta } => {
                    &&& (final(self)@, spawn_view(r.spawn)) == apply_args_delta(
                        old(self)@,
                        tools@,
                        output_index,
                        delta@,
                    )
                    &&& !r.updated
                    &&& *final(session) == *old(session)
                },
                Event::FunctionCallArgumentsDone { output_index } => {
                    &&& (final(self)@, spawn_view(r.spawn)) == apply_args_done(
                        old(self)@,
                        tools@,
                        output_index,
                    )
                    &&& !r.updated
                    &&& *final(session) == *old(session)
                },
                Event::ResponseCompleted { previous_response_id, usage } => {
                    &&& final(self)@ == old(self)@
                    &&& r.spawn is None
                    &&& r.updated
                    &&& final(session).cost == old(session).cost + (match usage {
                        Some(u) => cost_nanos(model, usage_of_raw(u)),
                        None => 0,
                    })
                    &&& (match previous_response_id {
                        Some(p) => final(session).cursor == Some(p),
                        None => final(session).cursor == old(session).cursor,
                    })
                },
                Event::Other => {
                    &&& final(self)@ == old(self)@
                    &&& r.spawn is None
                    &&& !r.updated
                    &&& *final(session) == *old(session)
                },
            },
    {
        match event {
            Event::OutputItemAdded { output_index, call_id, name, arguments } => {
                self.on_item_added(output_index, call_id, name, arguments);
                HandleOutcome { spawn: None, updated: true }
            },
            Event::ContentPartAdded { output_index, content_index, text } => {
                self.on_content_added(output_index, content_index, text);
                HandleOutcome { spawn: None, updated: true }
            },
            Event::OutputTextDelta { output_index, content_index, delta } => {
                self.on_text_delta(output_index, content_index, delta);
                HandleOutcome { spawn: None, updated: true }
            },
            Event::RefusalDelta { output_index, content_index, delta } => {
                self.on_text_delta(output_index, content_index, delta);
                HandleOutcome { spawn: None, updated: true }
            },
            Event::FunctionCallArgumentsDelta { output_index, delta } => {
                let spawn = self.on_args_delta(tools, output_index, delta);
                HandleOutcome { spawn, updated: false }
            },
            Event::FunctionCallArgumentsDone { output_index } => {
                let spawn = self.on_args_done(tools, output_index);
                HandleOutcome { spawn, updated: false }
            },
            Event::ResponseCompleted { previous_response_id, usage } => {
                if let Some(p) = previous_response_id {
                    session.cursor = Some(p);
                }
                if let Some(u) = usage {
                    let turn = Usage::from_raw(u.input_tokens, u.cached_tokens, u.output_tokens);
                    session.accrue_cost(model, &turn);
                }
                HandleOutcome { spawn: None, updated: true }
            },
            Event::Other => HandleOutcome { spawn: None, updated: false },
        }
    }

    /// Registers a fresh function-call item: appends a tool part with null
    /// arguments and seeds its argument slot.
    fn on_item_added(&mut self, output_index: u64, call_id: String, name: String, arguments: String)
        requires
            old(self)@.wf(),
            find_slot_spec(old(self)@.slots, output_index, 0) is None,
        ensures
            final(self)@.wf(),
            final(self)@ == apply_item_added(
                old(self)@,
                output_index,
                call_id@,
                name@,
                arguments@,
            ),
            message_extended(old(self)@.message, final(self)@.message),
            slots_extended(old(self)@.slots, final(self)@.slots),
    {
        let ghost pre = self@;
        let ghost cid = call_id@;
        let ghost nm = name@;
        let ghost argsv = arguments@;
        let part_index = self.message.parts.len();
        self.message.parts.push(
            Part::Tool(
                ToolPart {
                    tool: ToolCall {
                        id: call_id,
                        name,
                        args: String::from_str("null"),
                        result: None,
                    },
                },
            ),
        );
        self.slots.push(
            Slot {
                output_index,
                content_index: 0,
                kind: SlotKind::ToolSlot,
                accum: arguments,
                part_index,
            },
        );
        proof {
            let post = apply_item_added(pre, output_index, cid, nm, argsv);
            assert(self@.message.parts =~= post.message.parts);
            assert(self@.slots =~= post.slots);
            assert(self@ =~~= post);
            lemma_extended_after_push_part(
                pre.message,
                self@.message,
                PartV::Tool(ToolCallV { id: cid, name: nm, args: "null"@, result: None }),
            );
            lemma_slots_extended_push(pre.slots, self@.slots, post.slots.last());
            lemma_find_slot_none(pre.slots, output_index, 0);
            assert forall|i: int, j: int| 0 <= i < j < self@.slots.len() implies !((
            #[trigger] self@.slots[i]).output_index == (#[trigger] self@.slots[j]).output_index
                && self@.slots[i].content_index == self@.slots[j].content_index) by {
                if j < pre.slots.len() {
                    assert(pre.slots[i] == self@.slots[i]);
                    assert(pre.slots[j] == self@.slots[j]);
                } else {
                    assert(self@.slots[i] == pre.slots[i]);
                }
            }
            assert forall|i: int| 0 <= i < self@.slots.len() implies {
                let s = #[trigger] self@.slots[i];
                &&& 0 <= s.part_index < self@.message.parts.len()
                &&& (s.kind is TextSlot ==> self@.message.parts[s.part_index] == PartV::Text(
                    s.accum,
                ))
                &&& (s.kind is ToolSlot ==> self@.message.parts[s.part_index] is Tool)
            } by {
                if i < pre.slots.len() {
                    assert(self@.slots[i] == pre.slots[i]);
                    assert(self@.message.parts[pre.slots[i].part_index]
                        == pre.message.parts[pre.slots[i].part_index]);
                }
            }
            assert(self@.wf());
        }
    }

    /// Registers a fresh text or refusal content part: appends a text part
    /// holding the seed and tracks it in a text slot.
    fn on_content_added(&mut self, output_index: u64, content_index: u64, text: String)
        requires
            old(self)@.wf(),
            find_slot_spec(old(self)@.slots, output_index, content_index) is None,
        ensures
            final(self)@.wf(),
            final(self)@ == apply_content_added(old(self)@, output_index, content_index, text@),
            message_extended(old(self)@.message, final(self)@.message),
            slots_extended(old(self)@.slots, final(self)@.slots),
    {
        let ghost pre = self@;
        let ghost tv = text@;
        let part_index = self.message.parts.len();
        let seed = text.clone();
        self.message.parts.push(Part::Text(TextPart { text: seed }));
        self.slots.push(
            Slot { output_index, content_index, kind: SlotKind::TextSlot, accum: text, part_index },
        );
        proof {
            let post = apply_content_added(pre, output_index, content_index, tv);
            assert(self@.message.parts =~= post.message.parts);
            assert(self@.slots =~= post.slots);
            assert(self@ =~~= post);
            lemma_extended_after_push_part(pre.message, self@.message, PartV::Text(tv));
            lemma_slots_extended_push(pre.slots, self@.slots, post.slots.last());
            lemma_find_slot_none(pre.slots, output_index, content_index);
            assert forall|i: int, j: int| 0 <= i < j < self@.slots.len() implies !((
            #[trigger] self@.slots[i]).output_index == (#[trigger] self@.slots[j]).output_index
                && self@.slots[i].content_index == self@.slots[j].content_index) by {
                if j < pre.slots.len() {
                    assert(pre.slots[i] == self@.slots[i]);
                    assert(pre.slots[j] == self@.slots[j]);
                } else {
                    assert(self@.slots[i] == pre.slots[i]);
                }
            }
            assert forall|i: int| 0 <= i < self@.slots.len() implies {
                let s = #[trigger] self@.slots[i];
                &&& 0 <= s.part_index < self@.message.parts.len()
                &&& (s.kind is TextSlot ==> self@.message.parts[s.part_index] == PartV::Text(
                    s.accum,
                ))
                &&& (s.kind is ToolSlot ==> self@.message.parts[s.part_index] is Tool)
            } by {
                if i < pre.slots.len() {
                    assert(self@.slots[i] == pre.slots[i]);
                    assert(self@.message.parts[pre.slots[i].part_index]
                        == pre.message.parts[pre.slots[i].part_index]);
                }
            }
            assert(self@.wf());
        }
    }

    /// Applies a text or refusal delta: extends the slot's accumulated string
    /// and overwrites the tracked text part with it.
    fn on_text_delta(&mut self, output_index: u64, content_index: u64, delta: String)
        requires
            old(self)@.wf(),
            find_slot_spec(old(self)@.slots, output_index, content_index) matches Some(k) && old(
                self,
            )@.slots[k].kind is TextSlot,
        ensures
            final(self)@.wf(),
            final(self)@ == apply_text_delta(old(self)@, output_index, content_index, delta@),
            message_extended(old(self)@.message, final(self)@.message),
            slots_extended(old(self)@.slots, final(self)@.slots),
    {
        let ghost pre = self@;
        let k = match self.find_slot(output_index, content_index) {
            Some(k) => k,
            None => {
                proof {
                    assert(false);
                }
                return ;
            },
        };
        let s0 = self.slots[k].clone();
        let accum2 = s0.accum.concat(delta.as_str());
        let part_text = accum2.clone();
        self.slots.set(
            k,
            Slot {
                output_index: s0.output_index,
                content_index: s0.content_index,
                kind: s0.kind,
                accum: accum2,
                part_index: s0.part_index,
            },
        );
        self.message.parts.set(s0.part_index, Part::Text(TextPart { text: part_text }));
        proof {
            let ki = k as int;
            let sv = pre.slots[ki];
            let accum2v = sv.accum + delta@;
            let post = apply_text_delta(pre, output_index, content_index, delta@);
            assert(self@.slots =~= pre.slots.update(ki, SlotV { accum: accum2v, ..sv }));
            assert(self@.message.parts =~= pre.message.parts.update(
                sv.part_index,
                PartV::Text(accum2v),
            ));
            assert(self@ =~~= post);
            lemma_prefix_append(sv.accum, delta@);
            assert(pre.message.parts[sv.part_index] == PartV::Text(sv.accum));
            lemma_extended_after_update_part(
                pre.message,
                self@.message,
                sv.part_index,
                PartV::Text(accum2v),
            );
            lemma_slots_extended_update(
                pre.slots,
                self@.slots,
                ki,
                SlotV { accum: accum2v, ..sv },
            );
            assert forall|i: int, j: int| 0 <= i < j < self@.slots.len() implies !((
            #[trigger] self@.slots[i]).output_index == (#[trigger] self@.slots[j]).output_index
                && self@.slots[i].content_index == self@.slots[j].content_index) by {
                assert(self@.slots[i].output_index == pre.slots[i].output_index);
                assert(self@.slots[j].output_index == pre.slots[j].output_index);
                assert(self@.slots[i].content_index == pre.slots[i].content_index);
                assert(self@.slots[j].content_index == pre.slots[j].content_index);
            }
            assert forall|i: int| 0 <= i < self@.slots.len() implies {
                let s = #[trigger] self@.slots[i];
                &&& 0 <= s.part_index < self@.message.parts.len()
                &&& (s.kind is TextSlot ==> self@.message.parts[s.part_index] == PartV::Text(
                    s.accum,
                ))
                &&& (s.kind is ToolSlot ==> self@.message.parts[s.part_index] is Tool)
            } by {
                if i != ki {
                    assert(self@.slots[i] == pre.slots[i]);
                    assert(pre.slots[i].part_index != sv.part_index);
                    assert(self@.message.parts[pre.slots[i].part_index]
                        == pre.message.parts[pre.slots[i].part_index]);
                }
            }
            assert(self@.wf());
        }
    }

    /// Applies an argument delta: extends the slot's fragment, refreshes the
    /// tool part's arguments from the repaired fragment, and dispatches a
    /// streamable tool's executor with the current snapshot.
    fn on_args_delta(&mut self, tools: &ToolSet, output_index: u64, delta: String) -> (r: Option<
        SpawnRequest,
    >)
        requires
            old(self)@.wf(),
            find_slot_spec(old(self)@.slots, output_index, 0) matches Some(k) && old(
                self,
            )@.slots[k].kind is ToolSlot,
            old(self)@.spawned < usize::MAX,
        ensures
            final(self)@.wf(),
            (final(self)@, spawn_view(r)) == apply_args_delta(
                old(self)@,
                tools@,
                output_index,
                delta@,
            ),
            message_extended(old(self)@.message, final(self)@.message),
            slots_extended(old(self)@.slots, final(self)@.slots),
            old(self)@.spawned <= final(self)@.spawned,
    {
        let ghost pre = self@;
        let k = match self.find_slot(output_index, 0) {
            Some(k) => k,
            None => {
                proof {
                    assert(false);
                }
                return None;
            },
        };
        let s0 = self.slots[k].clone();
        let accum2 = s0.accum.concat(delta.as_str());
        let slot_accum = accum2.clone();
        self.slots.set(
            k,
            Slot {
                output_index: s0.output_index,
                content_index: s0.content_index,
                kind: s0.kind,
                accum: slot_accum,
                part_index: s0.part_index,
            },
        );
        let tc = match &self.message.parts[s0.part_index] {
            Part::Tool(tp) => tp.tool.clone(),
            _ => {
                proof {
                    assert(false);
                }
                return None;
            },
        };
        let tname = tc.name.clone();
        let tid = tc.id.clone();
        let args2 = match crate::util::parse_incomplete_json(accum2.as_str()) {
            Ok(v) => v,
            Err(_) => String::from_str("null"),
        };
        let tool2 = ToolCall { args: args2.clone(), ..tc };
        self.message.parts.set(s0.part_index, Part::Tool(ToolPart { tool: tool2 }));
        let spawn = match tools.get(&tname) {
            Some(t) => {
                if t.is_streamable() {
                    match t.execute(tid, args2) {
                        Some(req) => {
                            self.spawned = self.spawned + 1;
                            Some(SpawnRequest { part_index: s0.part_index, request: req })
                        },
                        None => None,
                    }
                } else {
                    None
                }
            },
            None => None,
        };
        proof {
            let ki = k as int;
            let sv = pre.slots[ki];
            let accum2v = sv.accum + delta@;
            let tcv = part_tool(pre.message.parts[sv.part_index]);
            let (post, spawnv) = apply_args_delta(pre, tools@, output_index, delta@);
            if find_tool(tools@, tcv.name) is Some {
                lemma_find_tool_name(tools@, tcv.name);
            }
            assert(self@.slots =~= pre.slots.update(ki, SlotV { accum: accum2v, ..sv }));
            assert(self@.message.parts =~= pre.message.parts.update(
                sv.part_index,
                PartV::Tool(
                    ToolCallV {
                        args: match repaired_json_of(accum2v) {
                            Some(t) => t,
                            None => "null"@,
                        },
                        ..tcv
                    },
                ),
            ));
            assert(self@ =~~= post);
            assert(spawn_view(spawn) == spawnv);
            lemma_prefix_append(sv.accum, delta@);
            lemma_extended_after_update_part(
                pre.message,
                self@.message,
                sv.part_index,
                self@.message.parts[sv.part_index],
            );
            lemma_slots_extended_update(
                pre.slots,
                self@.slots,
                ki,
                SlotV { accum: accum2v, ..sv },
            );
            assert forall|i: int, j: int| 0 <= i < j < self@.slots.len() implies !((
            #[trigger] self@.slots[i]).output_index == (#[trigger] self@.slots[j]).output_index
                && self@.slots[i].content_index == self@.slots[j].content_index) by {
                assert(self@.slots[i].output_index == pre.slots[i].output_index);
                assert(self@.slots[j].output_index == pre.slots[j].output_index);
                assert(self@.slots[i].content_index == pre.slots[i].content_index);
                assert(self@.slots[j].content_index == pre.slots[j].content_index);
            }
            assert forall|i: int| 0 <= i < self@.slots.len() implies {
                let s = #[trigger] self@.slots[i];
                &&& 0 <= s.part_index < self@.message.parts.len()
                &&& (s.kind is TextSlot ==> self@.message.parts[s.part_index] == PartV::Text(
                    s.accum,
                ))
                &&& (s.kind is ToolSlot ==> self@.message.parts[s.part_index] is Tool)
            } by {
                if i != ki {
                    assert(self@.slots[i] == pre.slots[i]);
                    assert(pre.slots[i].part_index != sv.part_index);
                    assert(self@.message.parts[pre.slots[i].part_index]
                        == pre.message.parts[pre.slots[i].part_index]);
                }
            }
            assert(self@.wf());
        }
        spawn
    }

    /// Applies a final argument signal: answers an unknown tool with a
    /// diagnostic result, dispatches a non-streamable tool's executor with
    /// the final arguments, and leaves streamable and client tools alone.
    pub(crate) fn on_args_done(&mut self, tools: &ToolSet, output_index: u64) -> (r: Option<SpawnRequest>)
        requires
            old(self)@.wf(),
            find_slot_spec(old(self)@.slots, output_index, 0) matches Some(k) && old(
                self,
            )@.slots[k].kind is ToolSlot,
            old(self)@.spawned < usize::MAX,
        ensures
            final(self)@.wf(),
            (final(self)@, spawn_view(r)) == apply_args_done(old(self)@, tools@, output_index),
            message_extended(old(self)@.message, final(self)@.message),
            slots_extended(old(self)@.slots, final(self)@.slots),
            old(self)@.spawned <= final(self)@.spawned,
    {
        let ghost pre = self@;
        let k = match self.find_slot(output_index, 0) {
            Some(k) => k,
            None => {
                proof {
                    assert(false);
                }
                return None;
            },
        };
        let part_index = self.slots[k].part_index;
        let tc = match &self.message.parts[part_index] {
            Part::Tool(tp) => tp.tool.clone(),
            _ => {
                proof {
                    assert(false);
                }
                return None;
            },
        };
        let tname = tc.name.clone();
        let tid = tc.id.clone();
        let spawn = match tools.get(&tname) {
            Some(t) => {
                if t.is_streamable() {
                    None
                } else {
                    match t.execute(tid, tc.args.clone()) {
                        Some(req) => {
                            self.spawned = self.spawned + 1;
                            Some(SpawnRequest { part_index, request: req })
                        },
                        None => None,
                    }
                }
            },
            None => {
                let text = String::from_str("No such tool: ").concat(tname.as_str());
                let encoded = crate::util::json_encode_string(text.as_str());
                let tool2 = ToolCall { result: Some(encoded), ..tc };
                self.message.parts.set(part_index, Part::Tool(ToolPart { tool: tool2 }));
                None
            },
        };
        proof {
            let ki = k as int;
            let sv = pre.slots[ki];
            let tcv = part_tool(pre.message.parts[sv.part_index]);
            let (post, spawnv) = apply_args_done(pre, tools@, output_index);
            if find_tool(tools@, tcv.name) is Some {
                lemma_find_tool_name(tools@, tcv.name);
                assert(self@ =~~= post);
            } else {
                assert(self@.message.parts =~= pre.message.parts.update(
                    sv.part_index,
                    PartV::Tool(
                        ToolCallV {
                            result: Some(json_string_of("No such tool: "@ + tcv.name)),
                            ..tcv
                        },
                    ),
                ));
                assert(self@ =~~= post);
            }
            assert(spawn_view(spawn) == spawnv);
            crate::message::lemma_message_extended_refl(pre.message);
            assert forall|i: int| 0 <= i < pre.message.parts.len() implies crate::message::part_monotone(
                pre.message.parts[i],
                #[trigger] self@.message.parts[i],
            ) by {
                if i != sv.part_index {
                    assert(self@.message.parts[i] == pre.message.parts[i]);
                    assert(crate::message::part_monotone(
                        pre.message.parts[i],
                        pre.message.parts[i],
                    ));
                }
            }
            crate::engine::lemma_slots_extended_refl(pre.slots);
            assert(self@.slots == pre.slots);
            assert forall|i: int| 0 <= i < self@.slots.len() implies {
                let s = #[trigger] self@.slots[i];
                &&& 0 <= s.part_index < self@.message.parts.len()
                &&& (s.kind is TextSlot ==> self@.message.parts[s.part_index] == PartV::Text(
                    s.accum,
                ))
                &&& (s.kind is ToolSlot ==> self@.message.parts[s.part_index] is Tool)
            } by {
                if pre.slots[i].part_index != sv.part_index {
                    assert(self@.message.parts[pre.slots[i].part_index]
                        == pre.message.parts[pre.slots[i].part_index]);
                }
            }
            assert(self@.wf());
        }
        spawn
    }
}


/// The encoding of the transcript from index `from` on: each message's
/// items in order, or the error of the first message that violates the
/// placement rules.
pub open spec fn responses_thread_result(msgs: Seq<MessageV>, from: int) -> Result<
    Seq<InputListItemV>,
    EncodeError,
>
    decreases msgs.len() - from,
{
    if from < 0 || from >= msgs.len() {
        Ok(Seq::empty())
    } else if !message_encodable(msgs[from]) {
        Err(encode_error_of(msgs[from].role, msgs[from].parts))
    } else {
        match responses_thread_result(msgs, from + 1) {
            Ok(rest) => Ok(items_of_message(msgs[from]) + rest),
            Err(e) => Err(e),
        }
    }
}

/// The input list of a Responses-dialect request: the encoded transcript,
/// followed by the encoded assistant message when it is non-empty.
pub open spec fn responses_input_result(msgs: Seq<MessageV>, assistant: MessageV) -> Result<
    Seq<InputListItemV>,
    EncodeError,
> {
    match responses_thread_result(msgs, 0) {
        Err(e) => Err(e),
        Ok(items) => if assistant.parts.len() == 0 {
            Ok(items)
        } else if !message_encodable(assistant) {
            Err(encode_error_of(assistant.role, assistant.parts))
        } else {
            Ok(items + items_of_message(assistant))
        },
    }
}

/// A Responses-dialect request, ready for transport.
#[derive(Debug, PartialEq, Eq)]
pub struct ResponsesRequest {
    /// The model's wire identifier.
    pub model: String,
    /// The encoded input list.
    pub input: Vec<InputListItem>,
    /// Cursor of the previous response, when the session holds one.
    pub previous_response_id: Option<String>,
    /// The registered tools' wire definitions.
    pub tools: Vec<FunctionToolDef>,
    /// The tool selection strategy.
    pub tool_choice: ToolChoice,
    /// Always false: the backend is asked never to emit parallel tool calls.
    pub parallel_tool_calls: bool,
}

/// Builds the Responses-dialect request for one turn: the encoded transcript
/// followed by the encoded assistant message when it is non-empty, the
/// session's cursor, the tool definitions, and parallel tool calls disabled.
/// Fails if and only if a message violates the placement rules, naming the
/// first violation.
pub fn build_responses_request(
    config: &GenerateConfig,
    session: &Session,
    messages: &Vec<Message>,
    assistant: &Message,
    tools: &ToolSet,
) -> (r: Result<ResponsesRequest, EncodeError>)
    ensures
        r is Ok <==> responses_input_result(
            messages@.map_values(|m: Message| m@),
            assistant@,
        ) is Ok,
        r matches Ok(req) ==> {
            &&& Ok::<Seq<InputListItemV>, EncodeError>(
                req.input@.map_values(|x: InputListItem| x@),
            ) == responses_input_result(messages@.map_values(|m: Message| m@), assistant@)
            &&& req.model@ == model_identifier(config.model)
            &&& req.previous_response_id == session.cursor
            &&& req.tools@.map_values(|d: FunctionToolDef| d@) == tool_defs_of(tools@)
            &&& req.tool_choice == config.tool_choice
            &&& req.parallel_tool_calls == false
        },
        r matches Err(e) ==> Err::<Seq<InputListItemV>, EncodeError>(e) == responses_input_result(
            messages@.map_values(|m: Message| m@),
            assistant@,
        ),
{
    let ghost msgsv = messages@.map_values(|m: Message| m@);
    let mut input: Vec<InputListItem> = Vec::new();
    let n = messages.len();
    proof {
        assert(input@.map_values(|x: InputListItem| x@) =~= Seq::<InputListItemV>::empty());
    }
    for i in 0..n
        invariant
            n == messages.len(),
            msgsv == messages@.map_values(|m: Message| m@),
            forall|j: int| 0 <= j < i ==> message_encodable(#[trigger] msgsv[j]),
            responses_thread_result(msgsv, 0) == (match responses_thread_result(msgsv, i as int) {
                Ok(rest) => Ok::<Seq<InputListItemV>, EncodeError>(
                    input@.map_values(|x: InputListItem| x@) + rest,
                ),
                Err(e) => Err::<Seq<InputListItemV>, EncodeError>(e),
            }),
    {
        let ghost items_pre = input@.map_values(|x: InputListItem| x@);
        proof {
            assert(msgsv[i as int] == messages@[i as int]@);
        }
        let mut encoded = match encode_responses(&messages[i]) {
            Ok(v) => v,
            Err(e) => {
                return Err(e);
            },
        };
        input.append(&mut encoded);
        proof {
            let rest_result = responses_thread_result(msgsv, i + 1);
            assert(input@.map_values(|x: InputListItem| x@) =~= items_pre + items_of_message(
                msgsv[i as int],
            ));
            match rest_result {
                Ok(rest) => {
                    assert((items_pre + items_of_message(msgsv[i as int])) + rest =~= items_pre + (
                    items_of_message(msgsv[i as int]) + rest));
                },
                Err(_) => {},
            }
        }
    }
    let assistant_items = if assistant.parts.len() > 0 {
        match encode_responses(assistant) {
            Ok(v) => Some(v),
            Err(e) => {
                return Err(e);
            },
        }
    } else {
        None
    };
    if let Some(mut items) = assistant_items {
        input.append(&mut items);
    }
    proof {
        assert(responses_thread_result(msgsv, n as int) == Ok::<
            Seq<InputListItemV>,
            EncodeError,
        >(Seq::empty()));
        match responses_thread_result(msgsv, 0) {
            Ok(items) => {
                assert(input@.map_values(|x: InputListItem| x@) =~= (match responses_input_result(
                    msgsv,
                    assistant@,
                ) {
                    Ok(v) => v,
                    Err(_) => Seq::empty(),
                }));
            },
            Err(_) => {},
        }
    }
    Ok(
        ResponsesRequest {
            model: config.model.identifier(),
            input,
            previous_response_id: match &session.cursor {
                Some(c) => Some(c.clone()),
                None => None,
            },
            tools: function_tool_defs(tools),
            tool_choice: config.tool_choice,
            parallel_tool_calls: false,
        },
    )
}

} // verus!

