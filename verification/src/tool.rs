//! Tool descriptors and the registry that the engine consults: name,
//! description, parameter schema, streamability, and whether an executor or
//! typed context was registered. Executor closures themselves live with the
//! embedder; the engine only decides when an execution must be performed and
//! hands out the invocation as a plain value.

pub mod executor;
pub mod extract;

use vstd::prelude::*;
use vstd::string::StringExecFns;

verus! {

/// A callable tool: its wire description and its execution flags.
#[derive(Debug, Clone, PartialEq, Eq)]
pub struct Tool {
    /// Name of the tool.
    name: String,
    /// Description of the tool.
    description: String,
    /// JSON text of the JSON schema for the tool's parameters.
    parameters: String,
    /// Whether the tool supports streaming: a streamable tool is invoked on
    /// each incremental refinement of its arguments.
    stream: bool,
    /// Whether a typed context was registered for the tool.
    context: bool,
    /// Whether an executor was registered. A tool without one is a client
    /// tool, resolved by the caller.
    execute: bool,
}

/// Mathematical model of a tool descriptor.
#[verifier::ext_equal]
pub struct ToolV {
    pub name: Seq<char>,
    pub description: Seq<char>,
    pub parameters: Seq<char>,
    pub stream: bool,
    pub has_context: bool,
    pub has_executor: bool,
}

impl View for Tool {
    type V = ToolV;

    closed spec fn view(&self) -> ToolV {
        ToolV {
            name: self.name@,
            description: self.description@,
            parameters: self.parameters@,
            stream: self.stream,
            has_context: self.context,
            has_executor: self.execute,
        }
    }
}

/// An execution the embedder must perform: invoke the named tool's executor
/// with the given call id and argument JSON text.
#[derive(Debug, Clone, PartialEq, Eq)]
pub struct ExecutionRequest {
    /// Name of the tool whose executor is to run.
    pub name: String,
    /// Backend-assigned identifier of the call.
    pub id: String,
    /// JSON text of the arguments at the moment of dispatch.
    pub args: String,
}

/// Mathematical model of an execution request.
#[verifier::ext_equal]
pub struct ExecutionRequestV {
    pub name: Seq<char>,
    pub id: Seq<char>,
    pub args: Seq<char>,
}

impl View for ExecutionRequest {
    type V = ExecutionRequestV;

    open spec fn view(&self) -> ExecutionRequestV {
        ExecutionRequestV { name: self.name@, id: self.id@, args: self.args@ }
    }
}

/// The JSON text of the default parameter schema, used for tools that declare
/// no parameters.
pub open spec fn default_parameters_schema() -> Seq<char> {
    "{\"type\":\"object\",\"properties\":{},\"additionalProperties\":false,\"required\":[]}"@
}

impl Tool {
    /// Returns the name of the tool.
    pub fn name(&self) -> (r: &String)
        ensures
            r@ == self@.name,
    {
        &self.name
    }

    /// Returns the description of the tool.
    pub fn description(&self) -> (r: &String)
        ensures
            r@ == self@.description,
    {
        &self.description
    }

    /// Returns the JSON text of the schema for the tool's parameters.
    pub fn parameters(&self) -> (r: &String)
        ensures
            r@ == self@.parameters,
    {
        &self.parameters
    }

    /// Returns true if the tool supports streaming.
    pub fn is_streamable(&self) -> (r: bool)
        ensures
            r == self@.stream,
    {
        self.stream
    }

    /// The execution to perform for a call of this tool, if an executor is
    /// registered; `None` for a client tool.
    pub fn execute(&self, id: String, args: String) -> (r: Option<ExecutionRequest>)
        ensures
            r is Some <==> self@.has_executor,
            r matches Some(req) ==> req@ == (ExecutionRequestV {
                name: self@.name,
                id: id@,
                args: args@,
            }),
    {
        if self.execute {
            Some(ExecutionRequest { name: self.name.clone(), id, args })
        } else {
            None
        }
    }
}

/// Builder for `Tool`, with defaults for everything but the name.
#[derive(Debug, Clone)]
pub struct ToolBuilder {
    name: Option<String>,
    description: Option<String>,
    parameters: Option<String>,
    stream: Option<bool>,
    context: Option<bool>,
    execute: Option<bool>,
}

/// Error returned when a tool is built without a name.
#[derive(Debug, Clone, Copy, PartialEq, Eq, Structural)]
pub struct ToolBuildError;

impl ToolBuilder {
    /// A builder with no field set.
    pub fn new() -> (r: ToolBuilder)
        ensures
            r.wf(),
            r@.name is None,
            r@.description is None,
            r@.parameters is None,
            r@.stream is None,
            r@.has_context is None,
            r@.has_executor is None,
    {
        ToolBuilder {
            name: None,
            description: None,
            parameters: None,
            stream: None,
            context: None,
            execute: None,
        }
    }

    /// Trivially true of every builder; kept so contracts read uniformly.
    pub open spec fn wf(&self) -> bool {
        true
    }

    /// Sets the name of the tool.
    pub fn name(self, name: String) -> (r: Self)
        ensures
            r@ == (ToolBuilderV { name: Some(name@), ..self@ }),
    {
        ToolBuilder { name: Some(name), ..self }
    }

    /// Sets the description of the tool.
    pub fn description(self, description: String) -> (r: Self)
        ensures
            r@ == (ToolBuilderV { description: Some(description@), ..self@ }),
    {
        ToolBuilder { description: Some(description), ..self }
    }

    /// Sets the JSON text of the parameter schema for the tool. The schema is
    /// produced outside the library, derived once from the tool's parameter
    /// type.
    pub fn parameters(self, schema: String) -> (r: Self)
        ensures
            r@ == (ToolBuilderV { parameters: Some(schema@), ..self@ }),
    {
        ToolBuilder { parameters: Some(schema), ..self }
    }

    /// Sets whether the tool supports streaming.
    pub fn stream(self, stream: bool) -> (r: Self)
        ensures
            r@ == (ToolBuilderV { stream: Some(stream), ..self@ }),
    {
        ToolBuilder { stream: Some(stream), ..self }
    }

    /// Records that a typed context is registered for the tool. The context
    /// value itself is held by the embedder.
    pub fn context(self) -> (r: Self)
        ensures
            r@ == (ToolBuilderV { has_context: Some(true), ..self@ }),
    {
        ToolBuilder { context: Some(true), ..self }
    }

    /// Records that an executor is registered for the tool. The executor
    /// closure itself is held by the embedder; the engine asks for its
    /// invocation through `Tool::execute`.
    pub fn executor(self) -> (r: Self)
        ensures
            r@ == (ToolBuilderV { has_executor: Some(true), ..self@ }),
    {
        ToolBuilder { execute: Some(true), ..self }
    }

    /// Builds the tool: the name is required, every other field defaults.
    pub fn build(self) -> (r: Result<Tool, ToolBuildError>)
        ensures
            r is Ok <==> self@.name is Some,
            r matches Ok(t) ==> t@ == (ToolV {
                name: self@.name->0,
                description: if self@.description is Some {
                    self@.description->0
                } else {
                    Seq::empty()
                },
                parameters: if self@.parameters is Some {
                    self@.parameters->0
                } else {
                    default_parameters_schema()
                },
                stream: if self@.stream is Some {
                    self@.stream->0
                } else {
                    false
                },
                has_context: self@.has_context is Some && self@.has_context->0,
                has_executor: self@.has_executor is Some && self@.has_executor->0,
            }),
    {
        let name = match self.name {
            Some(n) => n,
            None => {
                return Err(ToolBuildError);
            },
        };
        let description = match self.description {
            Some(d) => d,
            None => String::new(),
        };
        let parameters = match self.parameters {
            Some(p) => p,
            None => String::from_str(
                "{\"type\":\"object\",\"properties\":{},\"additionalProperties\":false,\"required\":[]}",
            ),
        };
        let stream = match self.stream {
            Some(s) => s,
            None => false,
        };
        let context = match self.context {
            Some(c) => c,
            None => false,
        };
        let execute = match self.execute {
            Some(e) => e,
            None => false,
        };
        Ok(Tool { name, description, parameters, stream, context, execute })
    }
}

/// Mathematical model of a tool builder.
#[verifier::ext_equal]
pub struct ToolBuilderV {
    pub name: Option<Seq<char>>,
    pub description: Option<Seq<char>>,
    pub parameters: Option<Seq<char>>,
    pub stream: Option<bool>,
    pub has_context: Option<bool>,
    pub has_executor: Option<bool>,
}

impl View for ToolBuilder {
    type V = ToolBuilderV;

    closed spec fn view(&self) -> ToolBuilderV {
        ToolBuilderV {
            name: match self.name {
                Some(ref n) => Some(n@),
                None => None,
            },
            description: match self.description {
                Some(ref d) => Some(d@),
                None => None,
            },
            parameters: match self.parameters {
                Some(ref p) => Some(p@),
                None => None,
            },
            stream: self.stream,
            has_context: self.context,
            has_executor: self.execute,
        }
    }
}

/// The tool registered under `name`, if any: the first entry with that name.
pub open spec fn find_tool(tools: Seq<ToolV>, name: Seq<char>) -> Option<ToolV>
    decreases tools.len(),
{
    if tools.len() == 0 {
        None
    } else if tools[0].name == name {
        Some(tools[0])
    } else {
        find_tool(tools.drop_first(), name)
    }
}

/// The tool a lookup finds carries the looked-up name.
pub proof fn lemma_find_tool_name(tools: Seq<ToolV>, name: Seq<char>)
    requires
        find_tool(tools, name) is Some,
    ensures
        find_tool(tools, name) matches Some(t) ==> t.name == name,
    decreases tools.len(),
{
    if tools.len() > 0 && tools[0].name != name {
        lemma_find_tool_name(tools.drop_first(), name);
    }
}

/// Whether all tool names in the sequence are distinct.
pub open spec fn names_unique(tools: Seq<ToolV>) -> bool {
    forall|i: int, j: int|
        0 <= i < j < tools.len() ==> (#[trigger] tools[i].name) != (#[trigger] tools[j].name)
}

/// A set of tools, indexed by name; keys are unique.
#[derive(Debug, Clone)]
pub struct ToolSet {
    tools: Vec<Tool>,
}

impl View for ToolSet {
    type V = Seq<ToolV>;

    closed spec fn view(&self) -> Seq<ToolV> {
        self.tools@.map_values(|t: Tool| t@)
    }
}

impl ToolSet {
    /// Key uniqueness: no two registered tools share a name.
    pub open spec fn wf(&self) -> bool {
        names_unique(self@)
    }

    /// An empty registry.
    pub fn new() -> (r: ToolSet)
        ensures
            r.wf(),
            r@ == Seq::<ToolV>::empty(),
    {
        ToolSet { tools: Vec::new() }
    }

    /// Looks up the tool registered under `name`.
    pub fn get(&self, name: &String) -> (r: Option<&Tool>)
        ensures
            r is Some <==> find_tool(self@, name@) is Some,
            r matches Some(t) ==> Some(t@) == find_tool(self@, name@),
    {
        let n = self.tools.len();
        proof {
            assert(self@.skip(0) =~= self@);
        }
        for i in 0..n
            invariant
                n == self.tools.len(),
                find_tool(self@, name@) == find_tool(self@.skip(i as int), name@),
        {
            proof {
                assert(self@.skip(i as int).drop_first() =~= self@.skip(i + 1));
                assert(self@.skip(i as int)[0] == self@[i as int]);
                assert(self@[i as int] == self.tools@.map_values(|t: Tool| t@)[i as int]);
            }
            if self.tools[i].name == *name {
                proof {
                    assert(find_tool(self@.skip(i as int), name@) == Some(self@[i as int]));
                }
                return Some(&self.tools[i]);
            }
        }
        proof {
            assert(self@.skip(n as int) =~= Seq::<ToolV>::empty());
        }
        None
    }

    /// The registered tools, in registration order.
    pub fn values(&self) -> (r: &Vec<Tool>)
        ensures
            r@.map_values(|t: Tool| t@) == self@,
    {
        &self.tools
    }
}

/// Extension trait for adding tools to a set.
pub trait SetExt: Sized {
    /// The tool the registry holds under each name.
    spec fn tool_named(&self, name: Seq<char>) -> Option<ToolV>;

    /// Key uniqueness of the registry.
    spec fn keys_unique(&self) -> bool;

    /// Adds a tool to the set under its name, replacing any tool already
    /// registered under that name.
    fn add(&mut self, tool: Tool)
        requires
            old(self).keys_unique(),
        ensures
            final(self).keys_unique(),
            final(self).tool_named(tool@.name) == Some(tool@),
            forall|n: Seq<char>|
                n != tool@.name ==> #[trigger] final(self).tool_named(n) == old(self).tool_named(n),
    ;
}

impl SetExt for ToolSet {
    open spec fn tool_named(&self, name: Seq<char>) -> Option<ToolV> {
        find_tool(self@, name)
    }

    open spec fn keys_unique(&self) -> bool {
        self.wf()
    }

    fn add(&mut self, tool: Tool) {
        let ghost pre = self@;
        let ghost toolv = tool@;
        let n = self.tools.len();
        for i in 0..n
            invariant
                n == self.tools.len(),
                self@ == pre,
                old(self)@ == pre,
                toolv == tool@,
                names_unique(pre),
                forall|j: int| 0 <= j < i ==> (#[trigger] pre[j].name) != toolv.name,
        {
            proof {
                assert(pre[i as int] == self.tools@.map_values(|t: Tool| t@)[i as int]);
            }
            if self.tools[i].name == tool.name {
                self.tools.set(i, tool);
                proof {
                    assert(self@ =~= pre.update(i as int, toolv));
                    lemma_update_keeps_lookups(pre, self@, i as int, toolv);
                    assert forall|n2: Seq<char>| n2 != toolv.name implies #[trigger] self.tool_named(
                        n2,
                    ) == old(self).tool_named(n2) by {
                        assert(find_tool(self@, n2) == find_tool(pre, n2));
                        assert(old(self).tool_named(n2) == find_tool(pre, n2));
                    }
                    assert(self.tool_named(toolv.name) == Some(toolv));
                }
                return ;
            }
        }
        self.tools.push(tool);
        proof {
            assert(self@ =~= pre.push(toolv));
            lemma_push_keeps_lookups(pre, self@, toolv);
            assert forall|n2: Seq<char>| n2 != toolv.name implies #[trigger] self.tool_named(
                n2,
            ) == old(self).tool_named(n2) by {
                assert(find_tool(self@, n2) == find_tool(pre, n2));
                assert(old(self).tool_named(n2) == find_tool(pre, n2));
            }
            assert(self.tool_named(toolv.name) == Some(toolv));
        }
    }
}

/// Replacing the entry that already carries a name leaves every lookup of
/// another name unchanged and makes the name's lookup the new tool.
proof fn lemma_update_keeps_lookups(pre: Seq<ToolV>, post: Seq<ToolV>, i: int, tool: ToolV)
    requires
        names_unique(pre),
        0 <= i < pre.len(),
        pre[i].name == tool.name,
        post == pre.update(i, tool),
    ensures
        names_unique(post),
        find_tool(post, tool.name) == Some(tool),
        forall|n: Seq<char>| n != tool.name ==> #[trigger] find_tool(post, n) == find_tool(pre, n),
    decreases pre.len(),
{
    assert forall|a: int, b: int| 0 <= a < b < post.len() implies (#[trigger] post[a].name)
        != (#[trigger] post[b].name) by {
        assert(pre[a].name != pre[b].name);
    }
    if i == 0 {
        assert(post[0] == tool);
        assert(post.drop_first() =~= pre.drop_first());
        assert(find_tool(post, tool.name) == Some(tool));
        assert forall|n: Seq<char>| n != tool.name implies #[trigger] find_tool(post, n)
            == find_tool(pre, n) by {
            assert(find_tool(post, n) == find_tool(post.drop_first(), n));
            assert(find_tool(pre, n) == find_tool(pre.drop_first(), n));
        }
    } else {
        assert(post[0] == pre[0]);
        assert(pre[0].name != pre[i].name);
        assert(post.drop_first() =~= pre.drop_first().update(i - 1, tool));
        assert forall|a: int, b: int| 0 <= a < b < pre.drop_first().len() implies (
        #[trigger] pre.drop_first()[a].name) != (#[trigger] pre.drop_first()[b].name) by {
            assert(pre.drop_first()[a] == pre[a + 1]);
            assert(pre.drop_first()[b] == pre[b + 1]);
            assert(pre[a + 1].name != pre[b + 1].name);
        }
        assert(pre.drop_first()[i - 1] == pre[i]);
        lemma_update_keeps_lookups(pre.drop_first(), post.drop_first(), i - 1, tool);
        assert(find_tool(post, tool.name) == find_tool(post.drop_first(), tool.name));
        assert forall|n: Seq<char>| n != tool.name implies #[trigger] find_tool(post, n)
            == find_tool(pre, n) by {
            if post[0].name == n {
                assert(find_tool(post, n) == Some(post[0]));
                assert(find_tool(pre, n) == Some(pre[0]));
            } else {
                assert(find_tool(post, n) == find_tool(post.drop_first(), n));
                assert(find_tool(pre, n) == find_tool(pre.drop_first(), n));
            }
        }
    }
}

/// Appending a tool whose name is fresh leaves every other lookup unchanged
/// and makes the name's lookup the new tool.
proof fn lemma_push_keeps_lookups(pre: Seq<ToolV>, post: Seq<ToolV>, tool: ToolV)
    requires
        names_unique(pre),
        forall|j: int| 0 <= j < pre.len() ==> (#[trigger] pre[j].name) != tool.name,
        post == pre.push(tool),
    ensures
        names_unique(post),
        find_tool(post, tool.name) == Some(tool),
        forall|n: Seq<char>| n != tool.name ==> #[trigger] find_tool(post, n) == find_tool(pre, n),
    decreases pre.len(),
{
    assert forall|a: int, b: int| 0 <= a < b < post.len() implies (#[trigger] post[a].name)
        != (#[trigger] post[b].name) by {
        if b < pre.len() {
            assert(pre[a].name != pre[b].name);
        } else {
            assert(post[b] == tool);
            assert(post[a] == pre[a]);
        }
    }
    if pre.len() == 0 {
        assert(post.len() == 1);
        assert(post[0] == tool);
        assert(find_tool(post, tool.name) == Some(tool));
        assert forall|n: Seq<char>| n != tool.name implies #[trigger] find_tool(post, n)
            == find_tool(pre, n) by {
            assert(post.drop_first() =~= Seq::<ToolV>::empty());
            assert(find_tool(post, n) == find_tool(post.drop_first(), n));
        }
    } else {
        assert(post[0] == pre[0]);
        assert(post.drop_first() =~= pre.drop_first().push(tool));
        assert forall|a: int, b: int| 0 <= a < b < pre.drop_first().len() implies (
        #[trigger] pre.drop_first()[a].name) != (#[trigger] pre.drop_first()[b].name) by {
            assert(pre.drop_first()[a] == pre[a + 1]);
            assert(pre.drop_first()[b] == pre[b + 1]);
            assert(pre[a + 1].name != pre[b + 1].name);
        }
        assert forall|j: int| 0 <= j < pre.drop_first().len() implies (
        #[trigger] pre.drop_first()[j].name) != tool.name by {
            assert(pre.drop_first()[j] == pre[j + 1]);
        }
        lemma_push_keeps_lookups(pre.drop_first(), post.drop_first(), tool);
        assert(pre[0].name != tool.name);
        assert(find_tool(post, tool.name) == find_tool(post.drop_first(), tool.name));
        assert forall|n: Seq<char>| n != tool.name implies #[trigger] find_tool(post, n)
            == find_tool(pre, n) by {
            if post[0].name == n {
                assert(find_tool(post, n) == Some(post[0]));
                assert(find_tool(pre, n) == Some(pre[0]));
            } else {
                assert(find_tool(post, n) == find_tool(post.drop_first(), n));
                assert(find_tool(pre, n) == find_tool(pre.drop_first(), n));
            }
        }
    }
}

} // verus!
