use aiflow::GenerateConfig;
use aiflow::Message;
use aiflow::Model;
use aiflow::Session;
use aiflow::ToolBuilder;
use aiflow::config::ToolChoice;
use aiflow::engine::Engine;
use aiflow::engine::chat::build_chat_request;
use aiflow::engine::responses::build_responses_request;
use aiflow::message::Part;
use aiflow::message::Role;
use aiflow::message::TextPart;
use aiflow::message::ToolCall;
use aiflow::message::ToolPart;
use aiflow::tool::extract::Call;
use aiflow::tool::SetExt;
use aiflow::tool::ToolSet;
use aiflow::tool::extract::Args;
use aiflow::tool::extract::Id;

#[test]
fn builder_requires_a_name_and_defaults_the_rest() {
    assert!(ToolBuilder::new().build().is_err());
    let tool = ToolBuilder::new()
        .name(String::from("add"))
        .build()
        .expect("named tool builds");
    assert_eq!(tool.name(), "add");
    assert_eq!(tool.description(), "");
    assert_eq!(
        tool.parameters(),
        "{\"type\":\"object\",\"properties\":{},\"additionalProperties\":false,\"required\":[]}"
    );
    assert!(!tool.is_streamable());
    assert!(
        tool.execute(String::from("c1"), String::from("{}")).is_none(),
        "a tool without an executor is a client tool"
    );
}

#[test]
fn executor_flag_yields_execution_requests() {
    let tool = ToolBuilder::new()
        .name(String::from("add"))
        .description(String::from("adds"))
        .parameters(String::from("{\"type\":\"object\"}"))
        .stream(true)
        .context()
        .executor()
        .build()
        .expect("builds");
    assert!(tool.is_streamable());
    let request = tool
        .execute(String::from("c9"), String::from("{\"a\":1}"))
        .expect("executor registered");
    assert_eq!(request.name, "add");
    assert_eq!(request.id, "c9");
    assert_eq!(request.args, "{\"a\":1}");
}

#[test]
fn registry_replaces_entries_with_the_same_name() {
    let mut tools = ToolSet::new();
    tools.add(
        ToolBuilder::new()
            .name(String::from("add"))
            .description(String::from("first"))
            .build()
            .unwrap(),
    );
    tools.add(
        ToolBuilder::new()
            .name(String::from("mul"))
            .build()
            .unwrap(),
    );
    tools.add(
        ToolBuilder::new()
            .name(String::from("add"))
            .description(String::from("second"))
            .build()
            .unwrap(),
    );
    assert_eq!(tools.values().len(), 2, "same key replaces, not duplicates");
    let found = tools.get(&String::from("add")).expect("registered");
    assert_eq!(found.description(), "second");
    assert!(tools.get(&String::from("sub")).is_none());
}

#[test]
fn extractors_consume_the_call_state_once() {
    let mut call = Call::new(String::from("c1"), String::from("{\"a\":1}"));
    let id = Id::try_from(&mut call).expect("id present");
    assert_eq!(id.0, "c1");
    assert!(Id::try_from(&mut call).is_err(), "id was taken");
    let args = Args::try_from(&mut call).expect("args present");
    assert_eq!(args.0, "{\"a\":1}");
    assert!(Args::try_from(&mut call).is_err(), "args were taken");
}

#[test]
fn message_tool_calls_lists_calls_in_order() {
    let message = Message {
        id: String::from("m1"),
        role: Role::Assistant,
        parts: vec![
            Part::Text(TextPart {
                text: String::from("using tools"),
            }),
            Part::Tool(ToolPart {
                tool: ToolCall {
                    id: String::from("c1"),
                    name: String::from("add"),
                    args: String::from("{}"),
                    result: None,
                },
            }),
            Part::Tool(ToolPart {
                tool: ToolCall {
                    id: String::from("c2"),
                    name: String::from("mul"),
                    args: String::from("{}"),
                    result: Some(String::from("6")),
                },
            }),
        ],
    };
    let calls = message.tool_calls();
    assert_eq!(calls.len(), 2);
    assert_eq!(calls[0].id, "c1");
    assert_eq!(calls[1].id, "c2");
}

#[test]
fn requests_disable_parallel_tool_calls_and_demand_strict_schemas() {
    let mut tools = ToolSet::new();
    tools.add(
        ToolBuilder::new()
            .name(String::from("add"))
            .executor()
            .build()
            .unwrap(),
    );
    let config = GenerateConfig {
        model: Model::O3,
        tool_choice: ToolChoice::Required,
    };
    let mut session = Session::new();
    session.cursor = Some(String::from("resp_7"));
    let transcript = vec![Message {
        id: String::from("m1"),
        role: Role::User,
        parts: vec![Part::Text(TextPart {
            text: String::from("Hi"),
        })],
    }];
    let assistant = Engine::new().message;

    let request = build_responses_request(&config, &session, &transcript, &assistant, &tools)
        .expect("encodable");
    assert_eq!(request.model, "o3");
    assert!(!request.parallel_tool_calls);
    assert_eq!(request.previous_response_id.as_deref(), Some("resp_7"));
    assert_eq!(request.tool_choice, ToolChoice::Required);
    assert_eq!(request.input.len(), 1, "empty assistant message is skipped");
    assert_eq!(request.tools.len(), 1);
    assert!(request.tools[0].strict, "tool schemas are always strict");

    let chat = build_chat_request(&config, &transcript, &assistant, &tools).expect("encodable");
    assert!(!chat.parallel_tool_calls);
    assert!(chat.include_usage);
    assert_eq!(chat.messages.len(), 1);
    assert!(chat.tools[0].strict);
}
