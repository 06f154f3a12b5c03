//! The JSON model and its serde boundary, resolution, session auto-naming,
//! and the memory-server data shapes.

use toolcall::calls::{CallError, ToolCall, ToolResult};
use toolcall::json::{
    error_message_object, parse_json, process_failure_object, to_json_string, JsonValue,
};
use toolcall::memory::{chat_messages_url, chat_url, chats_url, Chat, ChatMessage, MessageRole};
use toolcall::resolver::{Agent, ToolCallConfig};
use toolcall::schema::{FunctionDeclaration, Functions, JsonSchema};
use toolcall::session::{has_autoname_prefix, sanitize_autoname, AutoName};

fn schema() -> JsonSchema {
    JsonSchema {
        type_value: None,
        description: None,
        properties: None,
        items: None,
        any_of: None,
        enum_value: None,
        default: None,
        required: None,
    }
}

fn decl(name: &str, agent: bool, allow_concurrency: bool) -> FunctionDeclaration {
    FunctionDeclaration {
        name: name.to_string(),
        description: String::new(),
        parameters: schema(),
        agent,
        allow_concurrency,
    }
}

fn obj(fields: Vec<(&str, JsonValue)>) -> JsonValue {
    JsonValue::Object(fields.into_iter().map(|(k, v)| (k.to_string(), v)).collect())
}

#[test]
fn parse_json_reads_every_shape() {
    assert_eq!(parse_json("null"), Some(JsonValue::Null));
    assert_eq!(parse_json("true"), Some(JsonValue::Bool(true)));
    assert_eq!(parse_json("-2.5"), Some(JsonValue::Number("-2.5".to_string())));
    assert_eq!(parse_json("\"hi\""), Some(JsonValue::Str("hi".to_string())));
    assert_eq!(
        parse_json("[1,\"a\"]"),
        Some(JsonValue::Array(vec![
            JsonValue::Number("1".to_string()),
            JsonValue::Str("a".to_string()),
        ]))
    );
    assert_eq!(parse_json("{"), None);
}

#[test]
fn parsed_object_fields_keep_their_order() {
    let v = parse_json("{\"b\":1,\"a\":2}").unwrap();
    assert_eq!(
        v,
        obj(vec![
            ("b", JsonValue::Number("1".to_string())),
            ("a", JsonValue::Number("2".to_string())),
        ])
    );
}

#[test]
fn serialization_round_trips_through_parsing() {
    let v = obj(vec![
        ("s", JsonValue::Str("x\ny".to_string())),
        ("arr", JsonValue::Array(vec![JsonValue::Null, JsonValue::Bool(false)])),
    ]);
    let text = to_json_string(&v);
    assert_eq!(text, "{\"s\":\"x\\ny\",\"arr\":[null,false]}");
    let expected = obj(vec![
        ("s", JsonValue::Str("x\ny".to_string())),
        ("arr", JsonValue::Array(vec![JsonValue::Null, JsonValue::Bool(false)])),
    ]);
    assert_eq!(parse_json(&text), Some(expected));
}

#[test]
fn error_objects_have_the_documented_shape() {
    assert_eq!(
        error_message_object("bad".to_string()),
        obj(vec![
            ("error", JsonValue::Bool(true)),
            ("message", JsonValue::Str("bad".to_string())),
        ])
    );
    assert_eq!(
        process_failure_object("out".to_string(), "err".to_string()),
        obj(vec![
            ("error", JsonValue::Bool(true)),
            ("stdout", JsonValue::Str("out".to_string())),
            ("stderr", JsonValue::Str("err".to_string())),
        ])
    );
}

#[test]
fn eval_results_wrap_as_documented() {
    let call = ToolCall::new("t".to_string(), JsonValue::Null, None);
    let r = ToolResult::new_from_eval_result(call, Ok(JsonValue::Null));
    assert_eq!(r.output, JsonValue::Str("DONE".to_string()));

    let call = ToolCall::new("t".to_string(), JsonValue::Null, None);
    let r = ToolResult::new_from_eval_result(call, Ok(JsonValue::Bool(true)));
    assert_eq!(r.output, JsonValue::Bool(true));

    let call = ToolCall::new("t".to_string(), JsonValue::Null, None);
    let r = ToolResult::new_from_eval_result(
        call,
        Err(CallError::InvalidArguments { name: "t".to_string(), raw: "x".to_string() }),
    );
    assert_eq!(
        r.output,
        obj(vec![
            ("error", JsonValue::Bool(true)),
            (
                "message",
                JsonValue::Str("The call 't' has invalid arguments: x".to_string()),
            ),
        ])
    );
}

#[test]
fn global_resolution_invokes_the_tool_directly() {
    let functions = Functions::new(vec![decl("fetch", false, true)]);
    let config = ToolCallConfig::extract("fetch", &functions, &None).unwrap();
    assert_eq!(config.name, "fetch");
    assert_eq!(config.cmd, "fetch");
    assert!(config.args.is_empty());
    assert!(config.envs.is_empty());
    assert!(config.concurrent);
}

#[test]
fn agent_scoped_resolution_delegates_through_the_agent() {
    let agent = Agent {
        name: "helper".to_string(),
        variables_env: vec![("HELPER_MODE".to_string(), "fast".to_string())],
        functions: Functions::new(vec![decl("lookup", true, false)]),
    };
    let functions = Functions::new(vec![]);
    let config = ToolCallConfig::extract("lookup", &functions, &Some(agent)).unwrap();
    assert_eq!(config.name, "helper-lookup");
    assert_eq!(config.cmd, "helper");
    assert_eq!(config.args, vec!["lookup".to_string()]);
    assert_eq!(config.envs, vec![("HELPER_MODE".to_string(), "fast".to_string())]);
    assert!(!config.concurrent);
}

#[test]
fn non_agent_scoped_declarations_fall_back_to_global() {
    let agent = Agent {
        name: "helper".to_string(),
        variables_env: vec![],
        functions: Functions::new(vec![decl("shared", false, false)]),
    };
    let functions = Functions::new(vec![decl("shared", false, true)]);
    let config = ToolCallConfig::extract("shared", &functions, &Some(agent)).unwrap();
    assert_eq!(config.cmd, "shared");
    assert!(config.concurrent);
}

#[test]
fn unresolvable_names_are_not_found() {
    let functions = Functions::new(vec![]);
    match ToolCallConfig::extract("ghost", &functions, &None) {
        Err(CallError::NotFound { name }) => assert_eq!(name, "ghost"),
        other => panic!("expected NotFound, got {:?}", other),
    }
}

#[test]
fn the_store_finds_the_first_declaration_by_name() {
    let functions = Functions::new(vec![decl("a", false, false), decl("b", false, true)]);
    assert_eq!(functions.find("b").unwrap().allow_concurrency, true);
    assert!(functions.find("c").is_none());
    assert!(functions.contains("a"));
    assert!(!functions.contains("c"));
    assert!(!functions.is_empty());
    assert!(Functions::new(vec![]).is_empty());
}

#[test]
fn empty_properties_are_recognized() {
    let mut s = schema();
    assert!(s.is_empty_properties());
    s.properties = Some(vec![]);
    assert!(s.is_empty_properties());
    s.properties = Some(vec![("a".to_string(), schema())]);
    assert!(!s.is_empty_properties());
}

#[test]
fn autoname_states_say_when_naming_is_owed() {
    let named = AutoName::new("my-chat".to_string());
    assert!(!named.need());
    let pending = AutoName::new_from_chat_history("USER: hi\n".to_string());
    assert!(pending.need());
    let mut naming = AutoName::new_from_chat_history("USER: hi\n".to_string());
    naming.naming = true;
    assert!(!naming.need());
}

#[test]
fn autoname_sanitizer_dashes_everything_else() {
    assert_eq!(sanitize_autoname("My Chat! 2"), "My-Chat--2");
    assert_eq!(sanitize_autoname(""), "");
    assert_eq!(sanitize_autoname("abc123"), "abc123");
}

#[test]
fn autoname_prefix_is_a_timestamp() {
    assert!(has_autoname_prefix("20240101T120000-my-chat"));
    assert!(has_autoname_prefix("20240101T120000-"));
    assert!(!has_autoname_prefix("20240101T120000"));
    assert!(!has_autoname_prefix("2024010aT120000-x"));
    assert!(!has_autoname_prefix("20240101X120000-x"));
    assert!(!has_autoname_prefix("plain-name"));
}

#[test]
fn memory_endpoints_are_built_from_the_base_url() {
    assert_eq!(chats_url("http://localhost:3000"), "http://localhost:3000/chats");
    assert_eq!(chat_url("http://m", "c1"), "http://m/chats/c1");
    assert_eq!(chat_messages_url("http://m", "c1"), "http://m/chats/c1/messages");
}

#[test]
fn memory_records_hold_their_fields() {
    let chat = Chat {
        id: "c1".to_string(),
        session_id: "s1".to_string(),
        created_at: "2024-01-01".to_string(),
        updated_at: "2024-01-02".to_string(),
    };
    assert_eq!(chat.id, "c1");
    let msg = ChatMessage { role: MessageRole::User, content: "hi".to_string() };
    assert_eq!(msg.role, MessageRole::User);
    assert_eq!(msg.content, "hi");
}

#[test]
fn sanitizer_keeps_unicode_letters_and_digits() {
    assert_eq!(sanitize_autoname("café 2"), "café-2");
}
