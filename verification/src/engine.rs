//! The streaming engine's state machine, shared by both dialects: the
//! assistant message under construction, the registry of accumulation slots
//! keyed by the backend's indices, and the count of tool executions spawned
//! in the current turn.
//!
//! The engine itself is pure state transitions: the embedder owns the event
//! stream and the executor futures, feeds each event to a handler, performs
//! the spawn requests the handler returns, and writes each execution's
//! outcome back through [`Engine::apply_execution_result`].

pub mod chat;
pub mod responses;

use vstd::prelude::*;
use vstd::string::StringExecFns;

use crate::message::Message;
use crate::message::MessageV;
use crate::message::Part;
use crate::message::PartV;
use crate::message::Role;
use crate::message::TextPart;
use crate::message::ToolCallV;
use crate::message::message_extended;
use crate::message::part_monotone;
use crate::message::part_tool;
use crate::tool::ExecutionRequest;
use crate::tool::ExecutionRequestV;
use crate::util::json_string_of;

verus! {

/// What a slot accumulates: the text of a text part, or the argument
/// fragment of a tool part.
#[derive(Debug, Clone, Copy, PartialEq, Eq, Structural)]
pub enum SlotKind {
    /// The slot tracks a text part.
    TextSlot,
    /// The slot tracks a tool part's argument fragment.
    ToolSlot,
}

/// One accumulation slot: the fragment string accumulated so far for one
/// backend index pair, and the message part it feeds.
#[derive(Debug, PartialEq, Eq)]
pub struct Slot {
    /// The backend's output index.
    pub output_index: u64,
    /// The backend's content index; zero for tool slots.
    pub content_index: u64,
    /// What the slot accumulates.
    pub kind: SlotKind,
    /// The accumulated fragment.
    pub accum: String,
    /// Index of the part the slot feeds, in the assistant message.
    pub part_index: usize,
}

impl Clone for Slot {
    /// An equal copy of the slot.
    fn clone(&self) -> (r: Self)
        ensures
            r == *self,
    {
        Slot {
            output_index: self.output_index,
            content_index: self.content_index,
            kind: self.kind,
            accum: self.accum.clone(),
            part_index: self.part_index,
        }
    }
}

/// Mathematical model of a slot.
#[verifier::ext_equal]
pub struct SlotV {
    pub output_index: u64,
    pub content_index: u64,
    pub kind: SlotKind,
    pub accum: Seq<char>,
    pub part_index: int,
}

impl View for Slot {
    type V = SlotV;

    open spec fn view(&self) -> SlotV {
        SlotV {
            output_index: self.output_index,
            content_index: self.content_index,
            kind: self.kind,
            accum: self.accum@,
            part_index: self.part_index as int,
        }
    }
}

/// A tool execution the embedder must spawn, tagged with the part its
/// eventual result belongs to.
#[derive(Debug, Clone, PartialEq, Eq)]
pub struct SpawnRequest {
    /// Index of the tool part the execution's result must be written to.
    pub part_index: usize,
    /// The invocation to perform.
    pub request: ExecutionRequest,
}

/// Mathematical model of a spawn request.
#[verifier::ext_equal]
pub struct SpawnRequestV {
    pub part_index: int,
    pub request: ExecutionRequestV,
}

impl View for SpawnRequest {
    type V = SpawnRequestV;

    open spec fn view(&self) -> SpawnRequestV {
        SpawnRequestV { part_index: self.part_index as int, request: self.request@ }
    }
}

/// What one consumed event yields: the execution to spawn, if the event
/// dispatched one, and whether the mutation is worth announcing to observers.
#[derive(Debug, Clone, PartialEq, Eq)]
pub struct HandleOutcome {
    /// The execution the embedder must spawn now, if any.
    pub spawn: Option<SpawnRequest>,
    /// Whether observers should be shown the message after this event.
    pub updated: bool,
}

/// The model of an optional spawn request.
pub open spec fn spawn_view(o: Option<SpawnRequest>) -> Option<SpawnRequestV> {
    match o {
        Some(s) => Some(s@),
        None => None,
    }
}

/// The engine's per-invocation state.
#[derive(Debug, Clone)]
pub struct Engine {
    /// The assistant message under construction. It persists across turns of
    /// one invocation.
    pub message: Message,
    /// The accumulation slots of the current turn.
    pub slots: Vec<Slot>,
    /// How many tool executions were spawned in the current turn.
    pub spawned: usize,
}

/// Mathematical model of the engine state.
#[verifier::ext_equal]
pub struct EngineV {
    pub message: MessageV,
    pub slots: Seq<SlotV>,
    pub spawned: int,
}

impl View for Engine {
    type V = EngineV;

    open spec fn view(&self) -> EngineV {
        EngineV {
            message: self.message@,
            slots: self.slots@.map_values(|s: Slot| s@),
            spawned: self.spawned as int,
        }
    }
}

/// The slot registered under an index pair, if any: the position of the
/// first slot carrying that pair.
pub open spec fn find_slot_spec(slots: Seq<SlotV>, oi: u64, ci: u64) -> Option<int>
    decreases slots.len(),
{
    if slots.len() == 0 {
        None
    } else if slots[0].output_index == oi && slots[0].content_index == ci {
        Some(0)
    } else {
        match find_slot_spec(slots.drop_first(), oi, ci) {
            Some(k) => Some(k + 1),
            None => None,
        }
    }
}

/// Key uniqueness of the slot registry.
pub open spec fn slot_keys_unique(slots: Seq<SlotV>) -> bool {
    forall|i: int, j: int|
        0 <= i < j < slots.len() ==> !((#[trigger] slots[i]).output_index == (
        #[trigger] slots[j]).output_index && slots[i].content_index == slots[j].content_index)
}

impl EngineV {
    /// Well-formedness of the engine state.
    ///
    /// The assistant message carries the assistant role and only text and
    /// tool parts. Slot keys are unique, every slot feeds a distinct,
    /// existing part of the matching kind, and a text slot's part holds
    /// exactly the accumulated text.
    pub open spec fn wf(self) -> bool {
        &&& self.message.role is Assistant
        &&& forall|i: int|
            0 <= i < self.message.parts.len() ==> !((#[trigger] self.message.parts[i]) is Error)
        &&& slot_keys_unique(self.slots)
        &&& forall|i: int, j: int|
            0 <= i < j < self.slots.len() ==> (#[trigger] self.slots[i]).part_index != (
            #[trigger] self.slots[j]).part_index
        &&& forall|i: int|
            0 <= i < self.slots.len() ==> {
                let s = #[trigger] self.slots[i];
                &&& 0 <= s.part_index < self.message.parts.len()
                &&& (s.kind is TextSlot ==> self.message.parts[s.part_index] == PartV::Text(
                    s.accum,
                ))
                &&& (s.kind is ToolSlot ==> self.message.parts[s.part_index] is Tool)
            }
        &&& 0 <= self.spawned
    }
}

/// When no slot carries an index pair, no position matches it.
pub proof fn lemma_find_slot_none(slots: Seq<SlotV>, oi: u64, ci: u64)
    requires
        find_slot_spec(slots, oi, ci) is None,
    ensures
        forall|i: int|
            0 <= i < slots.len() ==> !((#[trigger] slots[i]).output_index == oi
                && slots[i].content_index == ci),
    decreases slots.len(),
{
    if slots.len() > 0 {
        lemma_find_slot_none(slots.drop_first(), oi, ci);
        assert forall|i: int| 0 <= i < slots.len() implies !((#[trigger] slots[i]).output_index
            == oi && slots[i].content_index == ci) by {
            if i > 0 {
                assert(slots.drop_first()[i - 1] == slots[i]);
            }
        }
    }
}

/// Whether `post`'s slots extend `pre`'s: slots are append-only, and each
/// existing slot keeps its key, kind and target part, its fragment growing
/// only by suffix extension.
pub open spec fn slots_extended(pre: Seq<SlotV>, post: Seq<SlotV>) -> bool {
    &&& pre.len() <= post.len()
    &&& forall|i: int|
        0 <= i < pre.len() ==> {
            let s = #[trigger] pre[i];
            let t = #[trigger] post[i];
            &&& s.output_index == t.output_index
            &&& s.content_index == t.content_index
            &&& s.kind == t.kind
            &&& s.part_index == t.part_index
            &&& s.accum.is_prefix_of(t.accum)
        }
}

/// Slot extension is transitive: across any chain of engine steps, each
/// slot's accumulated fragment string grows only by suffix extension.
pub proof fn lemma_slots_extended_trans(a: Seq<SlotV>, b: Seq<SlotV>, c: Seq<SlotV>)
    requires
        slots_extended(a, b),
        slots_extended(b, c),
    ensures
        slots_extended(a, c),
{
    assert forall|i: int| 0 <= i < a.len() implies {
        let s = #[trigger] a[i];
        let t = #[trigger] c[i];
        &&& s.output_index == t.output_index
        &&& s.content_index == t.content_index
        &&& s.kind == t.kind
        &&& s.part_index == t.part_index
        &&& s.accum.is_prefix_of(t.accum)
    } by {
        let x = a[i].accum;
        let y = b[i].accum;
        let z = c[i].accum;
        assert(x =~= y.subrange(0, x.len() as int));
        assert(y =~= z.subrange(0, y.len() as int));
        assert(x =~= z.subrange(0, x.len() as int));
    }
}

/// Slot extension is reflexive.
pub proof fn lemma_slots_extended_refl(a: Seq<SlotV>)
    ensures
        slots_extended(a, a),
{
    assert forall|i: int| 0 <= i < a.len() implies (#[trigger] a[i]).accum.is_prefix_of(
        a[i].accum,
    ) by {
        assert(a[i].accum =~= a[i].accum.subrange(0, a[i].accum.len() as int));
    }
}

/// Under key uniqueness, looking up a slot's own key finds that slot.
pub proof fn lemma_find_slot_at(slots: Seq<SlotV>, j: int)
    requires
        slot_keys_unique(slots),
        0 <= j < slots.len(),
    ensures
        find_slot_spec(slots, slots[j].output_index, slots[j].content_index) == Some(j),
    decreases slots.len(),
{
    if j == 0 {
    } else {
        assert(!(slots[0].output_index == slots[j].output_index && slots[0].content_index
            == slots[j].content_index));
        assert forall|a: int, b: int| 0 <= a < b < slots.drop_first().len() implies !((
        #[trigger] slots.drop_first()[a]).output_index == (
        #[trigger] slots.drop_first()[b]).output_index && slots.drop_first()[a].content_index
            == slots.drop_first()[b].content_index) by {
            assert(slots.drop_first()[a] == slots[a + 1]);
            assert(slots.drop_first()[b] == slots[b + 1]);
        }
        assert(slots.drop_first()[j - 1] == slots[j]);
        lemma_find_slot_at(slots.drop_first(), j - 1);
    }
}

/// A sequence is a prefix of itself extended by anything.
pub proof fn lemma_prefix_append(a: Seq<char>, b: Seq<char>)
    ensures
        a.is_prefix_of(a + b),
{
    assert(a =~= (a + b).subrange(0, a.len() as int));
}

/// Appending a part extends a message.
pub proof fn lemma_extended_after_push_part(pre: MessageV, post: MessageV, p: PartV)
    requires
        post.id == pre.id,
        post.role == pre.role,
        post.parts == pre.parts.push(p),
    ensures
        message_extended(pre, post),
{
    crate::message::lemma_message_extended_refl(pre);
    assert forall|i: int| 0 <= i < pre.parts.len() implies part_monotone(
        pre.parts[i],
        #[trigger] post.parts[i],
    ) by {
        assert(post.parts[i] == pre.parts[i]);
        assert(part_monotone(pre.parts[i], pre.parts[i]));
    }
}

/// Replacing one part with a further-along part extends a message.
pub proof fn lemma_extended_after_update_part(pre: MessageV, post: MessageV, k: int, p: PartV)
    requires
        0 <= k < pre.parts.len(),
        post.id == pre.id,
        post.role == pre.role,
        post.parts == pre.parts.update(k, p),
        part_monotone(pre.parts[k], p),
    ensures
        message_extended(pre, post),
{
    crate::message::lemma_message_extended_refl(pre);
    assert forall|i: int| 0 <= i < pre.parts.len() implies part_monotone(
        pre.parts[i],
        #[trigger] post.parts[i],
    ) by {
        if i != k {
            assert(post.parts[i] == pre.parts[i]);
            assert(part_monotone(pre.parts[i], pre.parts[i]));
        }
    }
}

/// Appending a slot extends the slot registry.
pub proof fn lemma_slots_extended_push(pre: Seq<SlotV>, post: Seq<SlotV>, s: SlotV)
    requires
        post == pre.push(s),
    ensures
        slots_extended(pre, post),
{
    lemma_slots_extended_refl(pre);
    assert forall|i: int| 0 <= i < pre.len() implies {
        let a = #[trigger] pre[i];
        let b = #[trigger] post[i];
        &&& a.output_index == b.output_index
        &&& a.content_index == b.content_index
        &&& a.kind == b.kind
        &&& a.part_index == b.part_index
        &&& a.accum.is_prefix_of(b.accum)
    } by {
        assert(post[i] == pre[i]);
        assert(pre[i].accum.is_prefix_of(pre[i].accum)) by {
            assert(pre[i].accum =~= pre[i].accum.subrange(0, pre[i].accum.len() as int));
        }
    }
}

/// Extending one slot's fragment extends the slot registry.
pub proof fn lemma_slots_extended_update(pre: Seq<SlotV>, post: Seq<SlotV>, k: int, s2: SlotV)
    requires
        0 <= k < pre.len(),
        post == pre.update(k, s2),
        s2.output_index == pre[k].output_index,
        s2.content_index == pre[k].content_index,
        s2.kind == pre[k].kind,
        s2.part_index == pre[k].part_index,
        pre[k].accum.is_prefix_of(s2.accum),
    ensures
        slots_extended(pre, post),
{
    lemma_slots_extended_refl(pre);
    assert forall|i: int| 0 <= i < pre.len() implies {
        let a = #[trigger] pre[i];
        let b = #[trigger] post[i];
        &&& a.output_index == b.output_index
        &&& a.content_index == b.content_index
        &&& a.kind == b.kind
        &&& a.part_index == b.part_index
        &&& a.accum.is_prefix_of(b.accum)
    } by {
        if i != k {
            assert(post[i] == pre[i]);
            assert(pre[i].accum.is_prefix_of(pre[i].accum)) by {
                assert(pre[i].accum =~= pre[i].accum.subrange(0, pre[i].accum.len() as int));
            }
        }
    }
}

/// The engine state after writing an execution's outcome into the tool part
/// it was spawned for: the tool's structured return value, or a JSON string
/// `"Error: <message>"` for a failed execution.
pub open spec fn apply_execution_result_spec(
    pre: EngineV,
    part_index: int,
    outcome: Result<Seq<char>, Seq<char>>,
) -> EngineV {
    let tc = part_tool(pre.message.parts[part_index]);
    let written = match outcome {
        Ok(value) => value,
        Err(m) => json_string_of("Error: "@ + m),
    };
    EngineV {
        message: MessageV {
            parts: pre.message.parts.update(
                part_index,
                PartV::Tool(ToolCallV { result: Some(written), ..tc }),
            ),
            ..pre.message
        },
        ..pre
    }
}

impl Engine {
    /// A fresh engine: an empty assistant message under a newly minted
    /// time-ordered identifier, no slots, nothing spawned.
    pub fn new() -> (r: Engine)
        ensures
            r@.wf(),
            r@.message.parts == Seq::<PartV>::empty(),
            r@.message.role is Assistant,
            r@.slots == Seq::<SlotV>::empty(),
            r@.spawned == 0,
    {
        let r = Engine {
            message: Message {
                id: crate::util::fresh_message_id(),
                role: Role::Assistant,
                parts: Vec::new(),
            },
            slots: Vec::new(),
            spawned: 0,
        };
        proof {
            assert(r@.message.parts =~= Seq::<PartV>::empty());
            assert(r@.slots =~= Seq::<SlotV>::empty());
        }
        r
    }

    /// Begins a turn: clears the slots and the spawn count, keeping the
    /// assistant message.
    pub fn begin_turn(&mut self)
        ensures
            final(self)@.message == old(self)@.message,
            final(self)@.slots == Seq::<SlotV>::empty(),
            final(self)@.spawned == 0,
            old(self)@.wf() ==> final(self)@.wf(),
    {
        self.slots = Vec::new();
        self.spawned = 0;
        proof {
            assert(self@.slots =~= Seq::<SlotV>::empty());
        }
    }

    /// Looks up the slot registered under an index pair.
    pub fn find_slot(&self, output_index: u64, content_index: u64) -> (r: Option<usize>)
        ensures
            match r {
                Some(k) => find_slot_spec(self@.slots, output_index, content_index) == Some(
                    k as int,
                ) && k < self.slots.len(),
                None => find_slot_spec(self@.slots, output_index, content_index) is None,
            },
    {
        let n = self.slots.len();
        proof {
            assert(self@.slots.skip(0) =~= self@.slots);
        }
        for i in 0..n
            invariant
                n == self.slots.len(),
                find_slot_spec(self@.slots, output_index, content_index) == (match find_slot_spec(
                    self@.slots.skip(i as int),
                    output_index,
                    content_index,
                ) {
                    Some(k) => Some(k + i as int),
                    None => None,
                }),
        {
            proof {
                assert(self@.slots[i as int] == self.slots@.map_values(|s: Slot| s@)[i as int]);
                assert(self@.slots.skip(i as int)[0] == self@.slots[i as int]);
                assert(self@.slots.skip(i as int).drop_first() =~= self@.slots.skip(i + 1));
            }
            if self.slots[i].output_index == output_index && self.slots[i].content_index
                == content_index {
                proof {
                    assert(find_slot_spec(self@.slots.skip(i as int), output_index, content_index)
                        == Some(0int));
                }
                return Some(i);
            }
        }
        proof {
            assert(self@.slots.skip(n as int) =~= Seq::<SlotV>::empty());
        }
        None
    }

    /// Writes a completed execution's outcome into the tool part it was
    /// spawned for: the tool's structured return value on success, or the
    /// JSON string `"Error: <message>"` on failure. A later completion for
    /// the same part supersedes an earlier one.
    pub fn apply_execution_result(&mut self, part_index: usize, outcome: Result<String, String>)
        requires
            old(self)@.wf(),
            0 <= part_index < old(self)@.message.parts.len(),
            old(self)@.message.parts[part_index as int] is Tool,
        ensures
            final(self)@.wf(),
            final(self)@ == apply_execution_result_spec(
                old(self)@,
                part_index as int,
                match outcome {
                    Ok(v) => Ok::<Seq<char>, Seq<char>>(v@),
                    Err(m) => Err::<Seq<char>, Seq<char>>(m@),
                },
            ),
            message_extended(old(self)@.message, final(self)@.message),
            slots_extended(old(self)@.slots, final(self)@.slots),
    {
        let ghost pre = self@;
        let written: String = match outcome {
            Ok(value) => value,
            Err(m) => {
                let text = String::from_str("Error: ").concat(m.as_str());
                crate::util::json_encode_string(text.as_str())
            },
        };
        let part = &self.message.parts[part_index];
        let updated = match part {
            Part::Tool(tool_part) => {
                let mut tool = tool_part.tool.clone();
                tool.result = Some(written);
                Part::Tool(crate::message::ToolPart { tool })
            },
            _ => {
                proof {
                    assert(false);
                }
                Part::Text(TextPart { text: written })
            },
        };
        self.message.parts.set(part_index, updated);
        proof {
            assert(self@.message.parts =~= pre.message.parts.update(
                part_index as int,
                PartV::Tool(
                    ToolCallV {
                        result: Some(
                            match outcome {
                                Ok(v) => v@,
                                Err(m) => json_string_of("Error: "@ + m@),
                            },
                        ),
                        ..part_tool(pre.message.parts[part_index as int])
                    },
                ),
            ));
            assert(self@.slots =~= pre.slots);
            assert forall|i: int| 0 <= i < pre.message.parts.len() implies part_monotone(
                pre.message.parts[i],
                #[trigger] self@.message.parts[i],
            ) by {
                if i != part_index as int {
                    crate::message::lemma_message_extended_refl(pre.message);
                }
            }
            lemma_slots_extended_refl(pre.slots);
            assert forall|i: int| 0 <= i < self@.slots.len() implies {
                let s = #[trigger] self@.slots[i];
                &&& 0 <= s.part_index < self@.message.parts.len()
                &&& (s.kind is TextSlot ==> self@.message.parts[s.part_index] == PartV::Text(
                    s.accum,
                ))
                &&& (s.kind is ToolSlot ==> self@.message.parts[s.part_index] is Tool)
            } by {
                assert(pre.slots[i] == self@.slots[i]);
            }
        }
    }

    /// Whether the turn must end with no draining: no execution was spawned,
    /// so the model finished with no tools to resolve. The engine loops only
    /// while at least one execution was spawned in the turn.
    pub fn no_executions_spawned(&self) -> (b: bool)
        ensures
            b == (self@.spawned == 0),
    {
        self.spawned == 0
    }

    /// After draining, whether the invocation must end: some tool call still
    /// has an absent result, so the remaining calls belong to client tools
    /// the caller resolves externally.
    pub fn has_unresolved_tool_call(&self) -> (b: bool)
        ensures
            b == crate::message::has_unresolved_tool_call(self@.message.parts),
    {
        self.message.has_unresolved_tool_call()
    }
}

} // verus!
