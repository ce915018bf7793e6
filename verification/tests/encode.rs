use aiflow::Message;
use aiflow::message::ErrorPart;
use aiflow::message::Part;
use aiflow::message::Role;
use aiflow::message::TextPart;
use aiflow::message::ToolCall;
use aiflow::message::ToolPart;
use aiflow::openai::EncodeError;
use aiflow::openai::chat::ChatRequestMessage;
use aiflow::openai::chat::encode_chat;
use aiflow::openai::responses::InputListItem;
use aiflow::openai::responses::encode_responses;

fn tool_part(id: &str, name: &str, args: &str, result: Option<&str>) -> Part {
    Part::Tool(ToolPart {
        tool: ToolCall {
            id: String::from(id),
            name: String::from(name),
            args: String::from(args),
            result: result.map(String::from),
        },
    })
}

fn text_part(text: &str) -> Part {
    Part::Text(TextPart {
        text: String::from(text),
    })
}

#[test]
fn chat_coalesces_consecutive_tool_parts() {
    // Two consecutive assistant tool parts coalesce into one assistant
    // message with two tool calls; their results follow as two tool messages.
    let message = Message {
        id: String::from("m1"),
        role: Role::Assistant,
        parts: vec![
            tool_part("c1", "add", "{\"a\":1}", Some("3")),
            tool_part("c2", "add", "{\"a\":2}", Some("5")),
        ],
    };
    let encoded = encode_chat(&message).expect("encodable");
    assert_eq!(encoded.len(), 3);
    match &encoded[0] {
        ChatRequestMessage::Assistant {
            content,
            tool_calls,
        } => {
            assert!(content.is_none());
            assert_eq!(tool_calls.len(), 2);
            assert_eq!(tool_calls[0].id, "c1");
            assert_eq!(tool_calls[0].name, "add");
            assert_eq!(tool_calls[0].arguments, "{\"a\":1}");
            assert_eq!(tool_calls[1].id, "c2");
        }
        other => panic!("expected assistant message, got {:?}", other),
    }
    match &encoded[1] {
        ChatRequestMessage::Tool {
            tool_call_id,
            content,
        } => {
            assert_eq!(tool_call_id, "c1");
            assert_eq!(content, "3");
        }
        other => panic!("expected tool message, got {:?}", other),
    }
    match &encoded[2] {
        ChatRequestMessage::Tool {
            tool_call_id,
            content,
        } => {
            assert_eq!(tool_call_id, "c2");
            assert_eq!(content, "5");
        }
        other => panic!("expected tool message, got {:?}", other),
    }
}

#[test]
fn chat_buffers_results_so_text_never_interleaves() {
    let message = Message {
        id: String::from("m1"),
        role: Role::Assistant,
        parts: vec![
            tool_part("c1", "add", "{}", Some("3")),
            text_part("done"),
        ],
    };
    let encoded = encode_chat(&message).expect("encodable");
    assert_eq!(encoded.len(), 3);
    assert!(matches!(
        encoded[0],
        ChatRequestMessage::Assistant { .. }
    ));
    assert!(matches!(encoded[1], ChatRequestMessage::Tool { .. }));
    match &encoded[2] {
        ChatRequestMessage::Assistant { content, .. } => {
            assert_eq!(content.as_deref(), Some("done"));
        }
        other => panic!("expected assistant text, got {:?}", other),
    }
}

#[test]
fn responses_emits_flat_call_and_output_pairs() {
    // A tool part with a result produces exactly one function-call item and
    // one function-call-output item; without a result, only the call item.
    let message = Message {
        id: String::from("m1"),
        role: Role::Assistant,
        parts: vec![
            tool_part("c1", "add", "{\"a\":1}", Some("3")),
            tool_part("c2", "sub", "{}", None),
        ],
    };
    let encoded = encode_responses(&message).expect("encodable");
    assert_eq!(encoded.len(), 3);
    match &encoded[0] {
        InputListItem::FunctionCall {
            call_id,
            name,
            arguments,
        } => {
            assert_eq!(call_id, "c1");
            assert_eq!(name, "add");
            assert_eq!(arguments, "{\"a\":1}");
        }
        other => panic!("expected function call, got {:?}", other),
    }
    match &encoded[1] {
        InputListItem::FunctionCallOutput { call_id, output } => {
            assert_eq!(call_id, "c1");
            assert_eq!(output, "3");
        }
        other => panic!("expected function call output, got {:?}", other),
    }
    match &encoded[2] {
        InputListItem::FunctionCall { call_id, .. } => {
            assert_eq!(call_id, "c2");
        }
        other => panic!("expected function call, got {:?}", other),
    }
}

#[test]
fn tool_part_outside_assistant_is_fatal() {
    let message = Message {
        id: String::from("m1"),
        role: Role::User,
        parts: vec![tool_part("c1", "add", "{}", None)],
    };
    assert_eq!(
        encode_responses(&message),
        Err(EncodeError::ToolPartOutsideAssistant)
    );
    assert_eq!(
        encode_chat(&message),
        Err(EncodeError::ToolPartOutsideAssistant)
    );
}

#[test]
fn error_part_outside_developer_is_fatal() {
    let message = Message {
        id: String::from("m1"),
        role: Role::Assistant,
        parts: vec![Part::Error(ErrorPart {
            description: String::from("boom"),
        })],
    };
    assert_eq!(
        encode_responses(&message),
        Err(EncodeError::ErrorPartOutsideDeveloper)
    );
    assert_eq!(
        encode_chat(&message),
        Err(EncodeError::ErrorPartOutsideDeveloper)
    );
}

#[test]
fn text_parts_take_the_author_role() {
    let message = Message {
        id: String::from("m1"),
        role: Role::User,
        parts: vec![text_part("Hi")],
    };
    let encoded = encode_responses(&message).expect("encodable");
    assert_eq!(encoded.len(), 1);
    match &encoded[0] {
        InputListItem::Message { role, text } => {
            assert_eq!(*role, Role::User);
            assert_eq!(text, "Hi");
        }
        other => panic!("expected message item, got {:?}", other),
    }
    let chat = encode_chat(&message).expect("encodable");
    assert!(matches!(chat[0], ChatRequestMessage::User { .. }));
}

#[test]
fn error_parts_encode_as_developer_messages() {
    let message = Message {
        id: String::from("m1"),
        role: Role::Developer,
        parts: vec![Part::Error(ErrorPart {
            description: String::from("stream failed"),
        })],
    };
    let encoded = encode_responses(&message).expect("encodable");
    match &encoded[0] {
        InputListItem::Message { role, text } => {
            assert_eq!(*role, Role::Developer);
            assert_eq!(text, "stream failed");
        }
        other => panic!("expected message item, got {:?}", other),
    }
}
