//! Chat-dialect chunk demultiplexing: each chunk may carry a content
//! fragment for the trailing text part and argument fragments for tool
//! calls, keyed by a small per-call index. After the stream ends, a sweep
//! over the accumulated entries recovers the final-arguments semantics for
//! non-streamable tools, which the dialect never signals explicitly.

use vstd::prelude::*;
use vstd::string::StringExecFns;

use crate::ai::GenerateConfig;
use crate::ai::model_identifier;
use crate::config::ToolChoice;
use crate::message::Message;
use crate::openai::EncodeError;
use crate::openai::FunctionToolDef;
use crate::openai::function_tool_defs;
use crate::openai::tool_defs_of;
use crate::openai::chat::ChatRequestMessage;
use crate::openai::chat::ChatRequestMessageV;
use crate::openai::chat::chat_messages_of;
use crate::openai::chat::encode_chat;
use crate::openai::responses::encode_error_of;
use crate::openai::responses::message_encodable;
use crate::ai::Model;
use crate::ai::Session;
use crate::ai::Usage;
use crate::ai::cost_nanos;
use crate::engine::Engine;
use crate::engine::EngineV;
use crate::engine::Slot;
use crate::engine::SlotKind;
use crate::engine::SlotV;
use crate::engine::SpawnRequest;
use crate::engine::SpawnRequestV;
use crate::engine::find_slot_spec;
use crate::engine::lemma_extended_after_push_part;
use crate::engine::lemma_extended_after_update_part;
use crate::engine::lemma_find_slot_at;
use crate::engine::lemma_find_slot_none;
use crate::engine::lemma_prefix_append;
use crate::engine::lemma_slots_extended_push;
use crate::engine::lemma_slots_extended_refl;
use crate::engine::lemma_slots_extended_trans;
use crate::engine::lemma_slots_extended_update;
use crate::engine::slots_extended;
use crate::engine::spawn_view;
use crate::engine::responses::RawUsage;
use crate::engine::responses::apply_args_done;
use crate::engine::responses::usage_of_raw;
use crate::message::MessageV;
use crate::message::Part;
use crate::message::PartV;
use crate::message::TextPart;
use crate::message::ToolCall;
use crate::message::ToolCallV;
use crate::message::ToolPart;
use crate::message::lemma_message_extended_trans;
use crate::message::message_extended;
use crate::message::part_text;
use crate::message::part_tool;
use crate::tool::ExecutionRequestV;
use crate::tool::ToolSet;
use crate::tool::ToolV;
use crate::tool::find_tool;
use crate::tool::lemma_find_tool_name;
use crate::util::repaired_json_of;

verus! {

/// The function fragment of one tool-call delta.
#[derive(Debug, Clone, PartialEq, Eq)]
pub struct FunctionDelta {
    /// Name of the called tool, carried by the first delta of a call.
    pub name: Option<String>,
    /// An incremental fragment of the call's arguments.
    pub arguments: Option<String>,
}

/// One tool-call delta of a chunk, keyed by a small per-call index.
#[derive(Debug, Clone, PartialEq, Eq)]
pub struct ToolCallDelta {
    /// The call's index within the turn.
    pub index: u32,
    /// Backend-assigned call identifier, carried by the first delta.
    pub id: Option<String>,
    /// The function fragment, when present.
    pub function: Option<FunctionDelta>,
}

/// The delta of the single choice of a chunk.
#[derive(Debug, Clone, PartialEq, Eq)]
pub struct ChatChoice {
    /// A fragment of assistant text.
    pub content: Option<String>,
    /// Tool-call fragments.
    pub tool_calls: Option<Vec<ToolCallDelta>>,
}

/// One chunk of a Chat-dialect stream. An empty choice list marks the final
/// chunk, which carries the turn's usage.
#[derive(Debug, Clone, PartialEq, Eq)]
pub struct ChatChunk {
    /// The chunk's choices; the engine reads the first.
    pub choices: Vec<ChatChoice>,
    /// Token usage of the turn, reported on the final chunk.
    pub usage: Option<RawUsage>,
}

/// What one consumed chunk yields: the executions to spawn, in delta order,
/// and whether observers should be shown the message.
#[derive(Debug, Clone, PartialEq, Eq)]
pub struct ChunkOutcome {
    /// The executions the embedder must spawn now.
    pub spawns: Vec<SpawnRequest>,
    /// Whether observers should be shown the message after this chunk.
    pub updated: bool,
}

/// The Chat dialect registers only argument slots: every slot is a tool slot
/// at content index zero.
pub open spec fn chat_slots(e: EngineV) -> bool {
    forall|i: int|
        0 <= i < e.slots.len() ==> (#[trigger] e.slots[i]).kind is ToolSlot
            && e.slots[i].content_index == 0
}

/// The engine state after a content fragment: appended to the trailing text
/// part when one ends the message, otherwise opening a fresh text part.
pub open spec fn apply_chat_content(pre: EngineV, content: Seq<char>) -> EngineV {
    if pre.message.parts.len() > 0 && pre.message.parts.last() is Text {
        EngineV {
            message: MessageV {
                parts: pre.message.parts.update(
                    pre.message.parts.len() - 1,
                    PartV::Text(part_text(pre.message.parts.last()) + content),
                ),
                ..pre.message
            },
            ..pre
        }
    } else {
        EngineV {
            message: MessageV { parts: pre.message.parts.push(PartV::Text(content)), ..pre.message },
            ..pre
        }
    }
}

/// The view of an optional string: its characters, or empty when absent.
pub open spec fn opt_str_view(o: Option<String>) -> Seq<char> {
    match o {
        Some(s) => s@,
        None => Seq::empty(),
    }
}

/// The engine state and spawn after one tool-call delta. A fresh index
/// appends a tool part carrying the delta's id and name and registers an
/// empty argument slot. A known index extends the accumulated fragment with
/// the delta's argument fragment, refreshes the part's arguments from the
/// repaired fragment, and dispatches a streamable tool's executor with the
/// current snapshot.
pub open spec fn apply_chat_delta(pre: EngineV, tools: Seq<ToolV>, d: ToolCallDelta) -> (
    EngineV,
    Option<SpawnRequestV>,
) {
    match find_slot_spec(pre.slots, d.index as u64, 0) {
        None => (
            EngineV {
                message: MessageV {
                    parts: pre.message.parts.push(
                        PartV::Tool(
                            ToolCallV {
                                id: opt_str_view(d.id),
                                name: match d.function {
                                    Some(f) => opt_str_view(f.name),
                                    None => Seq::empty(),
                                },
                                args: "null"@,
                                result: None,
                            },
                        ),
                    ),
                    ..pre.message
                },
                slots: pre.slots.push(
                    SlotV {
                        output_index: d.index as u64,
                        content_index: 0,
                        kind: SlotKind::ToolSlot,
                        accum: Seq::empty(),
                        part_index: pre.message.parts.len() as int,
                    },
                ),
                spawned: pre.spawned,
            },
            None,
        ),
        Some(k) => {
            let s = pre.slots[k];
            let tc = part_tool(pre.message.parts[s.part_index]);
            let accum2 = match d.function {
                Some(f) => s.accum + opt_str_view(f.arguments),
                None => s.accum,
            };
            let args2 = match d.function {
                Some(f) => match repaired_json_of(accum2) {
                    Some(t) => t,
                    None => "null"@,
                },
                None => tc.args,
            };
            let spawn = match find_tool(tools, tc.name) {
                Some(t) => if t.stream && t.has_executor {
                    Some(
                        SpawnRequestV {
                            part_index: s.part_index,
                            request: ExecutionRequestV { name: tc.name, id: tc.id, args: args2 },
                        },
                    )
                } else {
                    None
                },
                None => None,
            };
            (
                EngineV {
                    message: MessageV {
                        parts: pre.message.parts.update(
                            s.part_index,
                            PartV::Tool(ToolCallV { args: args2, ..tc }),
                        ),
                        ..pre.message
                    },
                    slots: pre.slots.update(k, SlotV { accum: accum2, ..s }),
                    spawned: pre.spawned + if spawn is Some {
                        1int
                    } else {
                        0int
                    },
                },
                spawn,
            )
        },
    }
}

/// The engine state and spawns after a sequence of tool-call deltas, taken
/// in order.
pub open spec fn apply_chat_deltas(pre: EngineV, tools: Seq<ToolV>, ds: Seq<ToolCallDelta>) -> (
    EngineV,
    Seq<SpawnRequestV>,
)
    decreases ds.len(),
{
    if ds.len() == 0 {
        (pre, Seq::empty())
    } else {
        let (mid, sp) = apply_chat_delta(pre, tools, ds[0]);
        let (post, rest) = apply_chat_deltas(mid, tools, ds.drop_first());
        (
            post,
            (match sp {
                Some(s) => seq![s],
                None => Seq::empty(),
            }) + rest,
        )
    }
}

/// The engine state and spawns after sweeping the accumulated entries from
/// position `j` on: each entry gets the final-arguments treatment of its
/// key.
pub open spec fn apply_sweep_from(pre: EngineV, tools: Seq<ToolV>, keys: Seq<u64>, j: int) -> (
    EngineV,
    Seq<SpawnRequestV>,
)
    decreases keys.len() - j,
{
    if j < 0 || j >= keys.len() {
        (pre, Seq::empty())
    } else {
        let (mid, sp) = apply_args_done(pre, tools, keys[j]);
        let (post, rest) = apply_sweep_from(mid, tools, keys, j + 1);
        (
            post,
            (match sp {
                Some(s) => seq![s],
                None => Seq::empty(),
            }) + rest,
        )
    }
}

/// The keys of the accumulated entries, in registration order.
pub open spec fn slot_keys(slots: Seq<SlotV>) -> Seq<u64> {
    slots.map_values(|s: SlotV| s.output_index)
}

/// How many tool-call deltas the engine would process in a chunk.
pub open spec fn chunk_delta_count(chunk: ChatChunk) -> int {
    if chunk.choices.len() > 0 {
        match chunk.choices[0].tool_calls {
            Some(ds) => ds@.len() as int,
            None => 0,
        }
    } else {
        0
    }
}

impl Engine {
    /// Appends a content fragment: extended onto the trailing text part when
    /// one ends the message, otherwise opening a fresh text part.
    fn append_chat_content(&mut self, content: String)
        requires
            old(self)@.wf(),
            chat_slots(old(self)@),
        ensures
            final(self)@.wf(),
            chat_slots(final(self)@),
            final(self)@ == apply_chat_content(old(self)@, content@),
            message_extended(old(self)@.message, final(self)@.message),
            final(self)@.slots == old(self)@.slots,
            final(self)@.spawned == old(self)@.spawned,
    {
        let ghost pre = self@;
        let ghost cv = content@;
        let n = self.message.parts.len();
        let mut replacement: Option<String> = None;
        if n > 0 {
            if let Part::Text(tp) = &self.message.parts[n - 1] {
                replacement = Some(tp.text.clone().concat(content.as_str()));
            }
        }
        match replacement {
            Some(grown) => {
                self.message.parts.set(n - 1, Part::Text(TextPart { text: grown }));
                proof {
                    let last = pre.message.parts.last();
                    assert(self@.message.parts =~= pre.message.parts.update(
                        pre.message.parts.len() - 1,
                        PartV::Text(part_text(last) + cv),
                    ));
                    assert(self@ =~~= apply_chat_content(pre, cv));
                    lemma_prefix_append(part_text(last), cv);
                    lemma_extended_after_update_part(
                        pre.message,
                        self@.message,
                        pre.message.parts.len() - 1,
                        PartV::Text(part_text(last) + cv),
                    );
                    assert forall|i: int| 0 <= i < self@.slots.len() implies {
                        let s = #[trigger] self@.slots[i];
                        &&& 0 <= s.part_index < self@.message.parts.len()
                        &&& (s.kind is TextSlot ==> self@.message.parts[s.part_index]
                            == PartV::Text(s.accum))
                        &&& (s.kind is ToolSlot ==> self@.message.parts[s.part_index] is Tool)
                    } by {
                        assert(pre.slots[i].kind is ToolSlot);
                        assert(pre.slots[i].part_index != pre.message.parts.len() - 1);
                        assert(self@.message.parts[pre.slots[i].part_index]
                            == pre.message.parts[pre.slots[i].part_index]);
                    }
                    assert(self@.wf());
                }
            },
            None => {
                self.message.parts.push(Part::Text(TextPart { text: content }));
                proof {
                    assert(self@.message.parts =~= pre.message.parts.push(PartV::Text(cv)));
                    assert(self@ =~~= apply_chat_content(pre, cv));
                    lemma_extended_after_push_part(pre.message, self@.message, PartV::Text(cv));
                    assert forall|i: int| 0 <= i < self@.slots.len() implies {
                        let s = #[trigger] self@.slots[i];
                        &&& 0 <= s.part_index < self@.message.parts.len()
                        &&& (s.kind is TextSlot ==> self@.message.parts[s.part_index]
                            == PartV::Text(s.accum))
                        &&& (s.kind is ToolSlot ==> self@.message.parts[s.part_index] is Tool)
                    } by {
                        assert(self@.message.parts[pre.slots[i].part_index]
                            == pre.message.parts[pre.slots[i].part_index]);
                    }
                    assert(self@.wf());
                }
            },
        }
    }

    /// Consumes one tool-call delta, registering a fresh call or extending a
    /// known one, and dispatching a streamable tool's executor.
    fn on_chat_delta(&mut self, tools: &ToolSet, d: &ToolCallDelta) -> (r: Option<SpawnRequest>)
        requires
            old(self)@.wf(),
            chat_slots(old(self)@),
            old(self)@.spawned < usize::MAX,
        ensures
            final(self)@.wf(),
            chat_slots(final(self)@),
            (final(self)@, spawn_view(r)) == apply_chat_delta(old(self)@, tools@, *d),
            message_extended(old(self)@.message, final(self)@.message),
            slots_extended(old(self)@.slots, final(self)@.slots),
            old(self)@.spawned <= final(self)@.spawned <= old(self)@.spawned + 1,
    {
        let ghost pre = self@;
        let index64: u64 = d.index as u64;
        match self.find_slot(index64, 0) {
            None => {
                let id = match &d.id {
                    Some(s) => s.clone(),
                    None => String::new(),
                };
                let name = match &d.function {
                    Some(f) => match &f.name {
                        Some(n) => n.clone(),
                        None => String::new(),
                    },
                    None => String::new(),
                };
                let part_index = self.message.parts.len();
                self.message.parts.push(
                    Part::Tool(
                        ToolPart {
                            tool: ToolCall {
                                id,
                                name,
                                args: String::from_str("null"),
                                result: None,
                            },
                        },
                    ),
                );
                self.slots.push(
                    Slot {
                        output_index: index64,
                        content_index: 0,
                        kind: SlotKind::ToolSlot,
                        accum: String::new(),
                        part_index,
                    },
                );
                proof {
                    let (post, spawnv) = apply_chat_delta(pre, tools@, *d);
                    assert(self@.message.parts =~= post.message.parts);
                    assert(self@.slots =~= post.slots);
                    assert(self@ =~~= post);
                    lemma_extended_after_push_part(
                        pre.message,
                        self@.message,
                        post.message.parts.last(),
                    );
                    lemma_slots_extended_push(pre.slots, self@.slots, post.slots.last());
                    lemma_find_slot_none(pre.slots, index64, 0);
                    assert forall|i: int, j: int| 0 <= i < j < self@.slots.len() implies !((
                    #[trigger] self@.slots[i]).output_index == (
                    #[trigger] self@.slots[j]).output_index && self@.slots[i].content_index
                        == self@.slots[j].content_index) by {
                        if j < pre.slots.len() {
                            assert(pre.slots[i] == self@.slots[i]);
                            assert(pre.slots[j] == self@.slots[j]);
                        } else {
                            assert(self@.slots[i] == pre.slots[i]);
                        }
                    }
                    assert forall|i: int| 0 <= i < self@.slots.len() implies {
                        let s = #[trigger] self@.slots[i];
                        &&& 0 <= s.part_index < self@.message.parts.len()
                        &&& (s.kind is TextSlot ==> self@.message.parts[s.part_index]
                            == PartV::Text(s.accum))
                        &&& (s.kind is ToolSlot ==> self@.message.parts[s.part_index] is Tool)
                    } by {
                        if i < pre.slots.len() {
                            assert(self@.slots[i] == pre.slots[i]);
                            assert(self@.message.parts[pre.slots[i].part_index]
                                == pre.message.parts[pre.slots[i].part_index]);
                        }
                    }
                    assert(self@.wf());
                }
                None
            },
            Some(k) => {
                let s0 = self.slots[k].clone();
                proof {
                    assert(pre.slots[k as int] == self.slots@.map_values(|s: Slot| s@)[k as int]);
                    assert(s0@ == pre.slots[k as int]);
                    assert(0 <= pre.slots[k as int].part_index < pre.message.parts.len());
                    assert(pre.message.parts[pre.slots[k as int].part_index] is Tool);
                }
                let accum2 = match &d.function {
                    Some(f) => match &f.arguments {
                        Some(a) => s0.accum.concat(a.as_str()),
                        None => s0.accum,
                    },
                    None => s0.accum,
                };
                let slot_accum = accum2.clone();
                self.slots.set(
                    k,
                    Slot {
                        output_index: s0.output_index,
                        content_index: s0.content_index,
                        kind: s0.kind,
                        accum: slot_accum,
                        part_index: s0.part_index,
                    },
                );
                let tc = match &self.message.parts[s0.part_index] {
                    Part::Tool(tp) => tp.tool.clone(),
                    _ => {
                        proof {
                            assert(false);
                        }
                        return None;
                    },
                };
                let tname = tc.name.clone();
                let tid = tc.id.clone();
                let args2 = match &d.function {
                    Some(_) => match crate::util::parse_incomplete_json(accum2.as_str()) {
                        Ok(v) => v,
                        Err(_) => String::from_str("null"),
                    },
                    None => tc.args.clone(),
                };
                let tool2 = ToolCall { args: args2.clone(), ..tc };
                self.message.parts.set(s0.part_index, Part::Tool(ToolPart { tool: tool2 }));
                let spawn = match tools.get(&tname) {
                    Some(t) => {
                        if t.is_streamable() {
                            match t.execute(tid, args2) {
                                Some(req) => {
                                    self.spawned = self.spawned + 1;
                                    Some(SpawnRequest { part_index: s0.part_index, request: req })
                                },
                                None => None,
                            }
                        } else {
                            None
                        }
                    },
                    None => None,
                };
                proof {
                    let ki = k as int;
                    let sv = pre.slots[ki];
                    let tcv = part_tool(pre.message.parts[sv.part_index]);
                    let accum2v = if d.function is Some {
                        sv.accum + opt_str_view((d.function->0).arguments)
                    } else {
                        sv.accum
                    };
                    let (post, spawnv) = apply_chat_delta(pre, tools@, *d);
                    if find_tool(tools@, tcv.name) is Some {
                        lemma_find_tool_name(tools@, tcv.name);
                    }
                    assert(accum2@ == accum2v);
                    assert(self@.slots =~= pre.slots.update(ki, SlotV { accum: accum2v, ..sv }));
                    assert(self@ =~~= post);
                    assert(spawn_view(spawn) == spawnv);
                    assert(sv.accum.is_prefix_of(accum2v)) by {
                        if d.function is Some {
                            lemma_prefix_append(sv.accum, opt_str_view((d.function->0).arguments));
                        } else {
                            assert(sv.accum =~= accum2v.subrange(0, sv.accum.len() as int));
                        }
                    }
                    lemma_extended_after_update_part(
                        pre.message,
                        self@.message,
                        sv.part_index,
                        self@.message.parts[sv.part_index],
                    );
                    lemma_slots_extended_update(
                        pre.slots,
                        self@.slots,
                        ki,
                        SlotV { accum: accum2v, ..sv },
                    );
                    assert forall|i: int, j: int| 0 <= i < j < self@.slots.len() implies !((
                    #[trigger] self@.slots[i]).output_index == (
                    #[trigger] self@.slots[j]).output_index && self@.slots[i].content_index
                        == self@.slots[j].content_index) by {
                        assert(self@.slots[i].output_index == pre.slots[i].output_index);
                        assert(self@.slots[j].output_index == pre.slots[j].output_index);
                        assert(self@.slots[i].content_index == pre.slots[i].content_index);
                        assert(self@.slots[j].content_index == pre.slots[j].content_index);
                    }
                    assert forall|i: int| 0 <= i < self@.slots.len() implies {
                        let s = #[trigger] self@.slots[i];
                        &&& 0 <= s.part_index < self@.message.parts.len()
                        &&& (s.kind is TextSlot ==> self@.message.parts[s.part_index]
                            == PartV::Text(s.accum))
                        &&& (s.kind is ToolSlot ==> self@.message.parts[s.part_index] is Tool)
                    } by {
                        if i != ki {
                            assert(self@.slots[i] == pre.slots[i]);
                            assert(pre.slots[i].part_index != sv.part_index);
                            assert(self@.message.parts[pre.slots[i].part_index]
                                == pre.message.parts[pre.slots[i].part_index]);
                        }
                    }
                    assert(self@.wf());
                }
                spawn
            },
        }
    }

    /// Consumes one Chat-dialect chunk: appends the first choice's content
    /// fragment, processes its tool-call deltas in order, and on the final,
    /// empty-choice chunk accrues the reported usage into the session.
    pub fn handle_chunk(
        &mut self,
        session: &mut Session,
        tools: &ToolSet,
        model: Model,
        chunk: ChatChunk,
    ) -> (r: ChunkOutcome)
        requires
            old(self)@.wf(),
            chat_slots(old(self)@),
            old(self)@.spawned + chunk_delta_count(chunk) <= usize::MAX,
            chunk.choices@.len() == 0 ==> old(session).cost + (match chunk.usage {
                Some(u) => cost_nanos(model, usage_of_raw(u)),
                None => 0,
            }) <= u128::MAX,
        ensures
            final(self)@.wf(),
            chat_slots(final(self)@),
            message_extended(old(self)@.message, final(self)@.message),
            slots_extended(old(self)@.slots, final(self)@.slots),
            old(self)@.spawned <= final(self)@.spawned,
            chunk.choices@.len() > 0 ==> {
                let mid = match chunk.choices@[0].content {
                    Some(t) => apply_chat_content(old(self)@, t@),
                    None => old(self)@,
                };
                let ds = match chunk.choices@[0].tool_calls {
                    Some(v) => v@,
                    None => Seq::<ToolCallDelta>::empty(),
                };
                &&& (final(self)@, r.spawns@.map_values(|s: SpawnRequest| s@)) == apply_chat_deltas(
                    mid,
                    tools@,
                    ds,
                )
                &&& r.updated
                &&& *final(session) == *old(session)
            },
            chunk.choices@.len() == 0 ==> {
                &&& final(self)@ == old(self)@
                &&& r.spawns@.len() == 0
                &&& !r.updated
                &&& final(session).cost == old(session).cost + (match chunk.usage {
                    Some(u) => cost_nanos(model, usage_of_raw(u)),
                    None => 0,
                })
                &&& final(session).cursor == old(session).cursor
            },
    {
        let ghost pre = self@;
        let mut spawns: Vec<SpawnRequest> = Vec::new();
        let is_last = chunk.choices.len() == 0;
        let mut updated = false;
        if chunk.choices.len() > 0 {
            let choice = &chunk.choices[0];
            if let Some(content) = &choice.content {
                self.append_chat_content(content.clone());
            }
            let ghost mid = self@;
            let ghost toolsv = tools@;
            if let Some(ds) = &choice.tool_calls {
                let n = ds.len();
                let ghost dsv = ds@;
                proof {
                    assert(dsv.skip(0) =~= dsv);
                    assert(spawns@.map_values(|s: SpawnRequest| s@) =~= Seq::<
                        SpawnRequestV,
                    >::empty());
                }
                for i in 0..n
                    invariant
                        n == ds.len(),
                        dsv == ds@,
                        toolsv == tools@,
                        self@.wf(),
                        chat_slots(self@),
                        mid.spawned <= self@.spawned <= mid.spawned + i,
                        mid.spawned + n <= usize::MAX,
                        message_extended(mid.message, self@.message),
                        slots_extended(mid.slots, self@.slots),
                        apply_chat_deltas(mid, toolsv, dsv).0 == apply_chat_deltas(
                            self@,
                            toolsv,
                            dsv.skip(i as int),
                        ).0,
                        apply_chat_deltas(mid, toolsv, dsv).1 == spawns@.map_values(
                            |s: SpawnRequest| s@,
                        ) + apply_chat_deltas(self@, toolsv, dsv.skip(i as int)).1,
                {
                    let ghost loop_pre = self@;
                    let ghost spawns_pre = spawns@.map_values(|s: SpawnRequest| s@);
                    proof {
                        assert(dsv.skip(i as int)[0] == dsv[i as int]);
                        assert(dsv.skip(i as int).drop_first() =~= dsv.skip(i + 1));
                    }
                    let sp = self.on_chat_delta(tools, &ds[i]);
                    let ghost spv0 = spawn_view(sp);
                    if let Some(s) = sp {
                        spawns.push(s);
                    }
                    proof {
                        let (mid2, spv) = apply_chat_delta(loop_pre, toolsv, dsv[i as int]);
                        assert(self@ == mid2);
                        assert(spv0 == spv);
                        let sp_seq: Seq<SpawnRequestV> = match spv {
                            Some(s) => seq![s],
                            None => Seq::empty(),
                        };
                        assert(spawns@.map_values(|s: SpawnRequest| s@) =~= spawns_pre + sp_seq);
                        assert(apply_chat_deltas(loop_pre, toolsv, dsv.skip(i as int)).0
                            == apply_chat_deltas(self@, toolsv, dsv.skip(i + 1)).0);
                        assert(apply_chat_deltas(loop_pre, toolsv, dsv.skip(i as int)).1 == sp_seq
                            + apply_chat_deltas(self@, toolsv, dsv.skip(i + 1)).1);
                        assert(spawns_pre + (sp_seq + apply_chat_deltas(
                            self@,
                            toolsv,
                            dsv.skip(i + 1),
                        ).1) =~= (spawns_pre + sp_seq) + apply_chat_deltas(
                            self@,
                            toolsv,
                            dsv.skip(i + 1),
                        ).1);
                        lemma_message_extended_trans(mid.message, loop_pre.message, self@.message);
                        lemma_slots_extended_trans(mid.slots, loop_pre.slots, self@.slots);
                    }
                }
                proof {
                    assert(dsv.skip(n as int) =~= Seq::<ToolCallDelta>::empty());
                    assert(apply_chat_deltas(self@, toolsv, dsv.skip(n as int)).1 =~= Seq::<
                        SpawnRequestV,
                    >::empty());
                    assert(spawns@.map_values(|s: SpawnRequest| s@) + Seq::<
                        SpawnRequestV,
                    >::empty() =~= spawns@.map_values(|s: SpawnRequest| s@));
                }
            } else {
                proof {
                    assert(spawns@.map_values(|s: SpawnRequest| s@) =~= Seq::<
                        SpawnRequestV,
                    >::empty());
                    assert(apply_chat_deltas(mid, tools@, Seq::<ToolCallDelta>::empty()).0 == mid);
                    assert(apply_chat_deltas(mid, tools@, Seq::<ToolCallDelta>::empty()).1 =~= Seq::<
                        SpawnRequestV,
                    >::empty());
                }
            }
            updated = true;
            proof {
                lemma_message_extended_trans(pre.message, mid.message, self@.message);
                lemma_slots_extended_trans(pre.slots, mid.slots, self@.slots);
            }
        } else {
            proof {
                crate::message::lemma_message_extended_refl(pre.message);
                lemma_slots_extended_refl(pre.slots);
            }
        }
        if is_last {
            if let Some(u) = &chunk.usage {
                let turn = Usage::from_raw(u.input_tokens, u.cached_tokens, u.output_tokens);
                session.accrue_cost(model, &turn);
            }
        }
        ChunkOutcome { spawns, updated }
    }

    /// Sweeps the accumulated entries after the stream ends, in registration
    /// order: every call whose tool is unknown is answered with a diagnostic
    /// result, and every non-streamable tool with an executor is dispatched
    /// with its final arguments. This recovers the final-arguments semantics
    /// the Chat dialect never signals explicitly.
    pub fn finish_chat_turn(&mut self, tools: &ToolSet) -> (r: Vec<SpawnRequest>)
        requires
            old(self)@.wf(),
            chat_slots(old(self)@),
            old(self)@.spawned + old(self)@.slots.len() <= usize::MAX,
        ensures
            final(self)@.wf(),
            chat_slots(final(self)@),
            message_extended(old(self)@.message, final(self)@.message),
            slots_extended(old(self)@.slots, final(self)@.slots),
            old(self)@.spawned <= final(self)@.spawned,
            (final(self)@, r@.map_values(|s: SpawnRequest| s@)) == apply_sweep_from(
                old(self)@,
                tools@,
                slot_keys(old(self)@.slots),
                0,
            ),
    {
        let ghost pre = self@;
        let ghost keysv = slot_keys(pre.slots);
        let ghost toolsv = tools@;
        let mut spawns: Vec<SpawnRequest> = Vec::new();
        let n = self.slots.len();
        proof {
            crate::message::lemma_message_extended_refl(pre.message);
            lemma_slots_extended_refl(pre.slots);
            assert(spawns@.map_values(|s: SpawnRequest| s@) =~= Seq::<SpawnRequestV>::empty());
        }
        for j in 0..n
            invariant
                n == self.slots.len(),
                keysv == slot_keys(pre.slots),
                toolsv == tools@,
                self@.wf(),
                chat_slots(self@),
                self@.slots == pre.slots,
                keysv.len() == n,
                pre.spawned <= self@.spawned <= pre.spawned + j,
                pre.spawned + n <= usize::MAX,
                message_extended(pre.message, self@.message),
                apply_sweep_from(pre, toolsv, keysv, 0).0 == apply_sweep_from(
                    self@,
                    toolsv,
                    keysv,
                    j as int,
                ).0,
                apply_sweep_from(pre, toolsv, keysv, 0).1 == spawns@.map_values(
                    |s: SpawnRequest| s@,
                ) + apply_sweep_from(self@, toolsv, keysv, j as int).1,
        {
            let ghost loop_pre = self@;
            let ghost spawns_pre = spawns@.map_values(|s: SpawnRequest| s@);
            proof {
                assert(keysv[j as int] == pre.slots[j as int].output_index);
                assert(self@.slots[j as int] == pre.slots[j as int]);
                lemma_find_slot_at(self@.slots, j as int);
                assert(self@.slots[j as int].content_index == 0);
            }
            let key = self.slots[j].output_index;
            let sp = self.on_args_done(tools, key);
            let ghost spv0 = spawn_view(sp);
            if let Some(s) = sp {
                spawns.push(s);
            }
            proof {
                let (mid2, spv) = apply_args_done(loop_pre, toolsv, keysv[j as int]);
                assert(self@ == mid2);
                assert(spv0 == spv);
                let sp_seq: Seq<SpawnRequestV> = match spv {
                    Some(s) => seq![s],
                    None => Seq::empty(),
                };
                assert(spawns@.map_values(|s: SpawnRequest| s@) =~= spawns_pre + sp_seq);
                assert(apply_sweep_from(loop_pre, toolsv, keysv, j as int).0 == apply_sweep_from(
                    self@,
                    toolsv,
                    keysv,
                    j + 1,
                ).0);
                assert(apply_sweep_from(loop_pre, toolsv, keysv, j as int).1 == sp_seq
                    + apply_sweep_from(self@, toolsv, keysv, j + 1).1);
                assert(spawns_pre + (sp_seq + apply_sweep_from(self@, toolsv, keysv, j + 1).1)
                    =~= (spawns_pre + sp_seq) + apply_sweep_from(self@, toolsv, keysv, j + 1).1);
                lemma_message_extended_trans(pre.message, loop_pre.message, self@.message);
                assert(self@.slots == pre.slots);
            }
        }
        proof {
            assert(apply_sweep_from(self@, toolsv, keysv, n as int).1 =~= Seq::<
                SpawnRequestV,
            >::empty());
            assert(spawns@.map_values(|s: SpawnRequest| s@) + Seq::<SpawnRequestV>::empty()
                =~= spawns@.map_values(|s: SpawnRequest| s@));
            lemma_slots_extended_refl(pre.slots);
        }
        spawns
    }
}


/// The Chat-dialect encoding of the transcript from index `from` on: each
/// message's request messages in order, or the error of the first message
/// that violates the placement rules.
pub open spec fn chat_thread_result(msgs: Seq<MessageV>, from: int) -> Result<
    Seq<ChatRequestMessageV>,
    EncodeError,
>
    decreases msgs.len() - from,
{
    if from < 0 || from >= msgs.len() {
        Ok(Seq::empty())
    } else if !message_encodable(msgs[from]) {
        Err(encode_error_of(msgs[from].role, msgs[from].parts))
    } else {
        match chat_thread_result(msgs, from + 1) {
            Ok(rest) => Ok(chat_messages_of(msgs[from]) + rest),
            Err(e) => Err(e),
        }
    }
}

/// The message list of a Chat-dialect request: the encoded transcript,
/// followed by the encoded assistant message when it is non-empty.
pub open spec fn chat_input_result(msgs: Seq<MessageV>, assistant: MessageV) -> Result<
    Seq<ChatRequestMessageV>,
    EncodeError,
> {
    match chat_thread_result(msgs, 0) {
        Err(e) => Err(e),
        Ok(items) => if assistant.parts.len() == 0 {
            Ok(items)
        } else if !message_encodable(assistant) {
            Err(encode_error_of(assistant.role, assistant.parts))
        } else {
            Ok(items + chat_messages_of(assistant))
        },
    }
}

/// A Chat-dialect request, ready for transport.
#[derive(Debug, PartialEq, Eq)]
pub struct ChatRequest {
    /// The model's wire identifier.
    pub model: String,
    /// The encoded messages.
    pub messages: Vec<ChatRequestMessage>,
    /// The registered tools' wire definitions.
    pub tools: Vec<FunctionToolDef>,
    /// The tool selection strategy.
    pub tool_choice: ToolChoice,
    /// Always false: the backend is asked never to emit parallel tool calls.
    pub parallel_tool_calls: bool,
    /// Always true: the final chunk must carry the turn's usage.
    pub include_usage: bool,
}

/// Builds the Chat-dialect request for one turn: the encoded transcript
/// followed by the encoded assistant message when it is non-empty, the tool
/// definitions, parallel tool calls disabled, and usage reporting demanded.
/// Fails if and only if a message violates the placement rules, naming the
/// first violation.
pub fn build_chat_request(
    config: &GenerateConfig,
    messages: &Vec<Message>,
    assistant: &Message,
    tools: &ToolSet,
) -> (r: Result<ChatRequest, EncodeError>)
    ensures
        r is Ok <==> chat_input_result(messages@.map_values(|m: Message| m@), assistant@) is Ok,
        r matches Ok(req) ==> {
            &&& Ok::<Seq<ChatRequestMessageV>, EncodeError>(
                req.messages@.map_values(|x: ChatRequestMessage| x@),
            ) == chat_input_result(messages@.map_values(|m: Message| m@), assistant@)
            &&& req.model@ == model_identifier(config.model)
            &&& req.tools@.map_values(|d: FunctionToolDef| d@) == tool_defs_of(tools@)
            &&& req.tool_choice == config.tool_choice
            &&& req.parallel_tool_calls == false
            &&& req.include_usage == true
        },
        r matches Err(e) ==> Err::<Seq<ChatRequestMessageV>, EncodeError>(e) == chat_input_result(
            messages@.map_values(|m: Message| m@),
            assistant@,
        ),
{
    let ghost msgsv = messages@.map_values(|m: Message| m@);
    let mut out: Vec<ChatRequestMessage> = Vec::new();
    let n = messages.len();
    proof {
        assert(out@.map_values(|x: ChatRequestMessage| x@) =~= Seq::<ChatRequestMessageV>::empty());
    }
    for i in 0..n
        invariant
            n == messages.len(),
            msgsv == messages@.map_values(|m: Message| m@),
            forall|j: int| 0 <= j < i ==> message_encodable(#[trigger] msgsv[j]),
            chat_thread_result(msgsv, 0) == (match chat_thread_result(msgsv, i as int) {
                Ok(rest) => Ok::<Seq<ChatRequestMessageV>, EncodeError>(
                    out@.map_values(|x: ChatRequestMessage| x@) + rest,
                ),
                Err(e) => Err::<Seq<ChatRequestMessageV>, EncodeError>(e),
            }),
    {
        let ghost items_pre = out@.map_values(|x: ChatRequestMessage| x@);
        proof {
            assert(msgsv[i as int] == messages@[i as int]@);
        }
        let mut encoded = match encode_chat(&messages[i]) {
            Ok(v) => v,
            Err(e) => {
                return Err(e);
            },
        };
        out.append(&mut encoded);
        proof {
            let rest_result = chat_thread_result(msgsv, i + 1);
            assert(out@.map_values(|x: ChatRequestMessage| x@) =~= items_pre + chat_messages_of(
                msgsv[i as int],
            ));
            match rest_result {
                Ok(rest) => {
                    assert((items_pre + chat_messages_of(msgsv[i as int])) + rest =~= items_pre + (
                    chat_messages_of(msgsv[i as int]) + rest));
                },
                Err(_) => {},
            }
        }
    }
    let assistant_items = if assistant.parts.len() > 0 {
        match encode_chat(assistant) {
            Ok(v) => Some(v),
            Err(e) => {
                return Err(e);
            },
        }
    } else {
        None
    };
    if let Some(mut items) = assistant_items {
        out.append(&mut items);
    }
    proof {
        assert(chat_thread_result(msgsv, n as int) == Ok::<
            Seq<ChatRequestMessageV>,
            EncodeError,
        >(Seq::empty()));
        match chat_thread_result(msgsv, 0) {
            Ok(items) => {
                assert(out@.map_values(|x: ChatRequestMessage| x@) =~= (match chat_input_result(
                    msgsv,
                    assistant@,
                ) {
                    Ok(v) => v,
                    Err(_) => Seq::empty(),
                }));
            },
            Err(_) => {},
        }
    }
    Ok(
        ChatRequest {
            model: config.model.identifier(),
            messages: out,
            tools: function_tool_defs(tools),
            tool_choice: config.tool_choice,
            parallel_tool_calls: false,
            include_usage: true,
        },
    )
}

} // verus!

