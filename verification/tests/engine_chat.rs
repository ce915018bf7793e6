use aiflow::Model;
use aiflow::Session;
use aiflow::ToolBuilder;
use aiflow::engine::Engine;
use aiflow::engine::chat::ChatChoice;
use aiflow::engine::chat::ChatChunk;
use aiflow::engine::chat::FunctionDelta;
use aiflow::engine::chat::ToolCallDelta;
use aiflow::engine::responses::RawUsage;
use aiflow::message::Part;
use aiflow::tool::SetExt;
use aiflow::tool::ToolSet;

fn content_chunk(text: &str) -> ChatChunk {
    ChatChunk {
        choices: vec![ChatChoice {
            content: Some(String::from(text)),
            tool_calls: None,
        }],
        usage: None,
    }
}

fn delta_chunk(delta: ToolCallDelta) -> ChatChunk {
    ChatChunk {
        choices: vec![ChatChoice {
            content: None,
            tool_calls: Some(vec![delta]),
        }],
        usage: None,
    }
}

fn final_chunk(prompt: u64, cached: u64, completion: u64) -> ChatChunk {
    ChatChunk {
        choices: Vec::new(),
        usage: Some(RawUsage {
            input_tokens: prompt,
            cached_tokens: cached,
            output_tokens: completion,
        }),
    }
}

#[test]
fn content_fragments_grow_one_text_part() {
    let mut engine = Engine::new();
    let mut session = Session::new();
    let tools = ToolSet::new();
    engine.handle_chunk(&mut session, &tools, Model::Gpt4_1, content_chunk("Hel"));
    engine.handle_chunk(&mut session, &tools, Model::Gpt4_1, content_chunk("lo"));
    assert_eq!(engine.message.parts.len(), 1);
    match &engine.message.parts[0] {
        Part::Text(t) => assert_eq!(t.text, "Hello"),
        other => panic!("expected text part, got {:?}", other),
    }
}

#[test]
fn final_empty_chunk_accrues_usage() {
    let mut engine = Engine::new();
    let mut session = Session::new();
    let tools = ToolSet::new();
    engine.handle_chunk(&mut session, &tools, Model::Gpt4_1, content_chunk("Hi"));
    let r = engine.handle_chunk(&mut session, &tools, Model::Gpt4_1, final_chunk(5, 0, 2));
    assert!(!r.updated);
    assert_eq!(session.cost, 5 * 2000 + 2 * 8000);
}

#[test]
fn tool_call_deltas_accumulate_and_sweep_dispatches() {
    let mut engine = Engine::new();
    let mut session = Session::new();
    let mut tools = ToolSet::new();
    tools.add(
        ToolBuilder::new()
            .name(String::from("add"))
            .executor()
            .build()
            .expect("builds"),
    );

    // First delta announces the call; its argument seed is empty.
    let r1 = engine.handle_chunk(
        &mut session,
        &tools,
        Model::Gpt4_1,
        delta_chunk(ToolCallDelta {
            index: 0,
            id: Some(String::from("c1")),
            function: Some(FunctionDelta {
                name: Some(String::from("add")),
                arguments: None,
            }),
        }),
    );
    assert!(r1.spawns.is_empty());

    // Later deltas carry argument fragments.
    engine.handle_chunk(
        &mut session,
        &tools,
        Model::Gpt4_1,
        delta_chunk(ToolCallDelta {
            index: 0,
            id: None,
            function: Some(FunctionDelta {
                name: None,
                arguments: Some(String::from("{\"a\":1,")),
            }),
        }),
    );
    engine.handle_chunk(
        &mut session,
        &tools,
        Model::Gpt4_1,
        delta_chunk(ToolCallDelta {
            index: 0,
            id: None,
            function: Some(FunctionDelta {
                name: None,
                arguments: Some(String::from("\"b\":2}")),
            }),
        }),
    );
    engine.handle_chunk(&mut session, &tools, Model::Gpt4_1, final_chunk(9, 0, 4));

    // The dialect never signals done: the sweep recovers it.
    let spawns = engine.finish_chat_turn(&tools);
    assert_eq!(spawns.len(), 1);
    assert_eq!(spawns[0].request.name, "add");
    assert_eq!(spawns[0].request.id, "c1");
    let args: serde_json::Value =
        serde_json::from_str(&spawns[0].request.args).expect("arguments parse");
    assert_eq!(args.get("a"), Some(&serde_json::Value::from(1_i64)));
    assert_eq!(args.get("b"), Some(&serde_json::Value::from(2_i64)));

    engine.apply_execution_result(spawns[0].part_index, Ok(String::from("3")));
    match &engine.message.parts[0] {
        Part::Tool(tp) => assert_eq!(tp.tool.result.as_deref(), Some("3")),
        other => panic!("expected tool part, got {:?}", other),
    }
    assert_eq!(session.cost, 9 * 2000 + 4 * 8000);
}

#[test]
fn sweep_marks_unknown_tools() {
    let mut engine = Engine::new();
    let mut session = Session::new();
    let tools = ToolSet::new();
    engine.handle_chunk(
        &mut session,
        &tools,
        Model::Gpt4_1,
        delta_chunk(ToolCallDelta {
            index: 0,
            id: Some(String::from("c1")),
            function: Some(FunctionDelta {
                name: Some(String::from("nope")),
                arguments: None,
            }),
        }),
    );
    let spawns = engine.finish_chat_turn(&tools);
    assert!(spawns.is_empty());
    match &engine.message.parts[0] {
        Part::Tool(tp) => {
            assert_eq!(tp.tool.result.as_deref(), Some("\"No such tool: nope\""));
        }
        other => panic!("expected tool part, got {:?}", other),
    }
}

#[test]
fn streamable_chat_tool_runs_per_delta() {
    let mut engine = Engine::new();
    let mut session = Session::new();
    let mut tools = ToolSet::new();
    tools.add(
        ToolBuilder::new()
            .name(String::from("echo"))
            .stream(true)
            .executor()
            .build()
            .expect("builds"),
    );
    engine.handle_chunk(
        &mut session,
        &tools,
        Model::Gpt4_1,
        delta_chunk(ToolCallDelta {
            index: 0,
            id: Some(String::from("c1")),
            function: Some(FunctionDelta {
                name: Some(String::from("echo")),
                arguments: None,
            }),
        }),
    );
    let r = engine.handle_chunk(
        &mut session,
        &tools,
        Model::Gpt4_1,
        delta_chunk(ToolCallDelta {
            index: 0,
            id: None,
            function: Some(FunctionDelta {
                name: None,
                arguments: Some(String::from("{\"x\":1}")),
            }),
        }),
    );
    assert_eq!(r.spawns.len(), 1, "streamable tools run on each delta");
    // The sweep leaves streamable tools alone.
    let spawns = engine.finish_chat_turn(&tools);
    assert!(spawns.is_empty());
}
