use aiflow::Model;
use aiflow::Session;
use aiflow::ToolBuilder;
use aiflow::engine::Engine;
use aiflow::engine::responses::Event;
use aiflow::engine::responses::RawUsage;
use aiflow::message::Part;
use aiflow::tool::SetExt;
use aiflow::tool::ToolSet;

fn server_tool(name: &str, streamable: bool) -> aiflow::Tool {
    ToolBuilder::new()
        .name(String::from(name))
        .description(String::from("adds two numbers"))
        .stream(streamable)
        .executor()
        .build()
        .expect("named tool builds")
}

fn client_tool(name: &str) -> aiflow::Tool {
    ToolBuilder::new()
        .name(String::from(name))
        .build()
        .expect("named tool builds")
}

fn completed(prompt: u64, cached: u64, completion: u64) -> Event {
    Event::ResponseCompleted {
        previous_response_id: None,
        usage: Some(RawUsage {
            input_tokens: prompt,
            cached_tokens: cached,
            output_tokens: completion,
        }),
    }
}

fn tool_call_at(engine: &Engine, index: usize) -> aiflow::message::ToolCall {
    match &engine.message.parts[index] {
        Part::Tool(tp) => tp.tool.clone(),
        other => panic!("expected tool part, got {:?}", other),
    }
}

#[test]
fn pure_text_stream_assembles_hello() {
    let mut engine = Engine::new();
    let mut session = Session::new();
    let tools = ToolSet::new();
    assert_eq!(engine.message.id.len(), 36);
    assert!(engine.message.parts.is_empty());

    engine.handle_event(
        &mut session,
        &tools,
        Model::Gpt4_1,
        Event::ContentPartAdded {
            output_index: 0,
            content_index: 0,
            text: String::new(),
        },
    );
    engine.handle_event(
        &mut session,
        &tools,
        Model::Gpt4_1,
        Event::OutputTextDelta {
            output_index: 0,
            content_index: 0,
            delta: String::from("Hel"),
        },
    );
    let partial = match &engine.message.parts[0] {
        Part::Text(t) => t.text.clone(),
        other => panic!("expected text part, got {:?}", other),
    };
    assert_eq!(partial, "Hel");
    engine.handle_event(
        &mut session,
        &tools,
        Model::Gpt4_1,
        Event::OutputTextDelta {
            output_index: 0,
            content_index: 0,
            delta: String::from("lo"),
        },
    );
    engine.handle_event(&mut session, &tools, Model::Gpt4_1, completed(5, 0, 2));

    assert_eq!(engine.message.parts.len(), 1);
    match &engine.message.parts[0] {
        Part::Text(t) => {
            // Monotone text: the earlier observation is a prefix.
            assert!(t.text.starts_with(&partial));
            assert_eq!(t.text, "Hello");
        }
        other => panic!("expected text part, got {:?}", other),
    }
    // 5 input tokens and 2 output tokens at gpt-4.1 rates, in nanodollars.
    assert_eq!(session.cost, 5 * 2000 + 2 * 8000);
    assert!(engine.no_executions_spawned());
}

#[test]
fn single_server_tool_runs_and_reloops() {
    let mut engine = Engine::new();
    let mut session = Session::new();
    let mut tools = ToolSet::new();
    tools.add(server_tool("add", false));

    engine.handle_event(
        &mut session,
        &tools,
        Model::Gpt4_1,
        Event::OutputItemAdded {
            output_index: 0,
            call_id: String::from("c1"),
            name: String::from("add"),
            arguments: String::new(),
        },
    );
    let r1 = engine.handle_event(
        &mut session,
        &tools,
        Model::Gpt4_1,
        Event::FunctionCallArgumentsDelta {
            output_index: 0,
            delta: String::from("{\"a\":1,"),
        },
    );
    assert!(r1.spawn.is_none(), "non-streamable tools wait for done");
    let r2 = engine.handle_event(
        &mut session,
        &tools,
        Model::Gpt4_1,
        Event::FunctionCallArgumentsDelta {
            output_index: 0,
            delta: String::from("\"b\":2}"),
        },
    );
    assert!(r2.spawn.is_none());
    let done = engine.handle_event(
        &mut session,
        &tools,
        Model::Gpt4_1,
        Event::FunctionCallArgumentsDone { output_index: 0 },
    );
    let spawn = done.spawn.expect("executor dispatched on done");
    assert_eq!(spawn.request.name, "add");
    assert_eq!(spawn.request.id, "c1");
    engine.handle_event(&mut session, &tools, Model::Gpt4_1, completed(7, 0, 3));

    // The embedder runs the executor on the dispatched snapshot.
    let args: serde_json::Value =
        serde_json::from_str(&spawn.request.args).expect("arguments parse");
    let sum = args.get("a").unwrap().as_i64().unwrap() + args.get("b").unwrap().as_i64().unwrap();
    assert_eq!(sum, 3);
    engine.apply_execution_result(spawn.part_index, Ok(sum.to_string()));

    let call = tool_call_at(&engine, 0);
    let parsed: serde_json::Value = serde_json::from_str(&call.args).expect("args are JSON");
    assert_eq!(parsed.get("a"), Some(&serde_json::Value::from(1_i64)));
    assert_eq!(parsed.get("b"), Some(&serde_json::Value::from(2_i64)));
    assert_eq!(call.result.as_deref(), Some("3"));

    // An execution was spawned and every call is resolved: the engine loops.
    assert!(!engine.no_executions_spawned());
    assert!(!engine.has_unresolved_tool_call());
}

#[test]
fn streamable_tool_last_completion_wins() {
    let mut engine = Engine::new();
    let mut session = Session::new();
    let mut tools = ToolSet::new();
    tools.add(server_tool("add", true));

    engine.handle_event(
        &mut session,
        &tools,
        Model::Gpt4_1,
        Event::OutputItemAdded {
            output_index: 0,
            call_id: String::from("c1"),
            name: String::from("add"),
            arguments: String::new(),
        },
    );
    let r1 = engine.handle_event(
        &mut session,
        &tools,
        Model::Gpt4_1,
        Event::FunctionCallArgumentsDelta {
            output_index: 0,
            delta: String::from("{\"a\":1"),
        },
    );
    let first = r1.spawn.expect("streamable tools run per delta");
    let r2 = engine.handle_event(
        &mut session,
        &tools,
        Model::Gpt4_1,
        Event::FunctionCallArgumentsDelta {
            output_index: 0,
            delta: String::from(",\"b\":2}"),
        },
    );
    let second = r2.spawn.expect("streamable tools run per delta");
    let done = engine.handle_event(
        &mut session,
        &tools,
        Model::Gpt4_1,
        Event::FunctionCallArgumentsDone { output_index: 0 },
    );
    assert!(done.spawn.is_none(), "streamable tools already ran");

    engine.apply_execution_result(first.part_index, Ok(String::from("1")));
    engine.apply_execution_result(second.part_index, Ok(String::from("3")));
    let call = tool_call_at(&engine, 0);
    assert_eq!(call.result.as_deref(), Some("3"), "last completion wins");
}

#[test]
fn unknown_tool_gets_a_diagnostic_result() {
    let mut engine = Engine::new();
    let mut session = Session::new();
    let tools = ToolSet::new();

    engine.handle_event(
        &mut session,
        &tools,
        Model::Gpt4_1,
        Event::OutputItemAdded {
            output_index: 0,
            call_id: String::from("c1"),
            name: String::from("nope"),
            arguments: String::new(),
        },
    );
    let done = engine.handle_event(
        &mut session,
        &tools,
        Model::Gpt4_1,
        Event::FunctionCallArgumentsDone { output_index: 0 },
    );
    assert!(done.spawn.is_none(), "no executor spawned");

    let call = tool_call_at(&engine, 0);
    assert_eq!(call.result.as_deref(), Some("\"No such tool: nope\""));
    // Nothing was spawned: the engine terminates.
    assert!(engine.no_executions_spawned());
}

#[test]
fn client_tool_is_left_for_the_caller() {
    let mut engine = Engine::new();
    let mut session = Session::new();
    let mut tools = ToolSet::new();
    tools.add(client_tool("ask_user"));

    engine.handle_event(
        &mut session,
        &tools,
        Model::Gpt4_1,
        Event::OutputItemAdded {
            output_index: 0,
            call_id: String::from("c1"),
            name: String::from("ask_user"),
            arguments: String::from("{}"),
        },
    );
    let done = engine.handle_event(
        &mut session,
        &tools,
        Model::Gpt4_1,
        Event::FunctionCallArgumentsDone { output_index: 0 },
    );
    assert!(done.spawn.is_none());
    let call = tool_call_at(&engine, 0);
    assert!(call.result.is_none(), "client tool result stays absent");
    assert!(engine.has_unresolved_tool_call());
    assert!(engine.no_executions_spawned());
}

#[test]
fn transport_failure_preserves_partial_state() {
    // Two text deltas arrive, then the transport fails: the partial message
    // and the session cost are preserved; no further events are consumed.
    let mut engine = Engine::new();
    let mut session = Session::new();
    let tools = ToolSet::new();

    engine.handle_event(
        &mut session,
        &tools,
        Model::Gpt4_1,
        Event::ContentPartAdded {
            output_index: 0,
            content_index: 0,
            text: String::new(),
        },
    );
    engine.handle_event(
        &mut session,
        &tools,
        Model::Gpt4_1,
        Event::OutputTextDelta {
            output_index: 0,
            content_index: 0,
            delta: String::from("par"),
        },
    );
    engine.handle_event(
        &mut session,
        &tools,
        Model::Gpt4_1,
        Event::OutputTextDelta {
            output_index: 0,
            content_index: 0,
            delta: String::from("tial"),
        },
    );
    match &engine.message.parts[0] {
        Part::Text(t) => assert_eq!(t.text, "partial"),
        other => panic!("expected text part, got {:?}", other),
    }
    assert_eq!(session.cost, 0, "no completed turn, no cost");
}

#[test]
fn cursor_follows_previous_response_id() {
    let mut engine = Engine::new();
    let mut session = Session::new();
    let tools = ToolSet::new();
    engine.handle_event(
        &mut session,
        &tools,
        Model::Gpt4_1,
        Event::ResponseCompleted {
            previous_response_id: Some(String::from("resp_1")),
            usage: None,
        },
    );
    assert_eq!(session.cursor.as_deref(), Some("resp_1"));
    assert_eq!(session.cost, 0);
}

#[test]
fn ignored_events_change_nothing() {
    let mut engine = Engine::new();
    let mut session = Session::new();
    let tools = ToolSet::new();
    let r = engine.handle_event(&mut session, &tools, Model::Gpt4_1, Event::Other);
    assert!(r.spawn.is_none());
    assert!(!r.updated);
    assert!(engine.message.parts.is_empty());
}

#[test]
fn failed_execution_records_diagnostic_value() {
    let mut engine = Engine::new();
    let mut session = Session::new();
    let mut tools = ToolSet::new();
    tools.add(server_tool("add", false));
    engine.handle_event(
        &mut session,
        &tools,
        Model::Gpt4_1,
        Event::OutputItemAdded {
            output_index: 0,
            call_id: String::from("c1"),
            name: String::from("add"),
            arguments: String::from("{}"),
        },
    );
    let done = engine.handle_event(
        &mut session,
        &tools,
        Model::Gpt4_1,
        Event::FunctionCallArgumentsDone { output_index: 0 },
    );
    let spawn = done.spawn.expect("dispatched");
    engine.apply_execution_result(spawn.part_index, Err(String::from("boom")));
    let call = tool_call_at(&engine, 0);
    assert_eq!(call.result.as_deref(), Some("\"Error: boom\""));

    // The diagnostic is a JSON string value: quotes in the message are
    // escaped on the way in.
    engine.apply_execution_result(spawn.part_index, Err(String::from("say \"hi\"")));
    let call = tool_call_at(&engine, 0);
    assert_eq!(call.result.as_deref(), Some("\"Error: say \\\"hi\\\"\""));
}
