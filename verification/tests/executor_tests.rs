//! The local execution contract: argument normalization, command-line and
//! environment construction, and interpretation of the child's output.

use toolcall::calls::CallError;
use toolcall::executor::{
    apply_child_env, build_command_args, build_path_value, command_candidates, interpret_output,
    interpret_run, normalize_arguments,
};
use toolcall::json::JsonValue;

fn obj(fields: Vec<(&str, JsonValue)>) -> JsonValue {
    JsonValue::Object(fields.into_iter().map(|(k, v)| (k.to_string(), v)).collect())
}

#[test]
fn json_output_file_is_taken_exactly() {
    let out = interpret_output(Some("{\"x\":1}".to_string()));
    assert_eq!(out, obj(vec![("x", JsonValue::Number("1".to_string()))]));
}

#[test]
fn plain_text_output_is_wrapped() {
    let out = interpret_output(Some("hello".to_string()));
    assert_eq!(out, obj(vec![("output", JsonValue::Str("hello".to_string()))]));
}

#[test]
fn absent_output_file_yields_null() {
    assert_eq!(interpret_output(None), JsonValue::Null);
}

#[test]
fn empty_output_file_yields_null() {
    assert_eq!(interpret_output(Some(String::new())), JsonValue::Null);
}

#[test]
fn nested_output_survives_parsing() {
    let out = interpret_output(Some("{\"a\":[1,\"b\",null,true]}".to_string()));
    assert_eq!(
        out,
        obj(vec![(
            "a",
            JsonValue::Array(vec![
                JsonValue::Number("1".to_string()),
                JsonValue::Str("b".to_string()),
                JsonValue::Null,
                JsonValue::Bool(true),
            ]),
        )])
    );
}

#[test]
fn nonzero_exit_fails_with_both_streams() {
    let r = interpret_run(false, "so far".to_string(), "died".to_string(), None);
    match r {
        Err(CallError::ExecutionFailed { stdout, stderr }) => {
            assert_eq!(stdout, "so far");
            assert_eq!(stderr, "died");
        },
        other => panic!("expected ExecutionFailed, got {:?}", other),
    }
}

#[test]
fn successful_exit_interprets_the_output_file() {
    let r = interpret_run(true, String::new(), String::new(), Some("true".to_string()));
    assert_eq!(r.unwrap(), JsonValue::Bool(true));
}

#[test]
fn object_arguments_pass_through() {
    let args = obj(vec![("q", JsonValue::Str("foo".to_string()))]);
    let expected = obj(vec![("q", JsonValue::Str("foo".to_string()))]);
    assert_eq!(normalize_arguments("t", args).unwrap(), expected);
}

#[test]
fn string_arguments_are_parsed_as_json() {
    let args = JsonValue::Str("{\"q\":\"foo\"}".to_string());
    let expected = obj(vec![("q", JsonValue::Str("foo".to_string()))]);
    assert_eq!(normalize_arguments("t", args).unwrap(), expected);
}

#[test]
fn unparsable_string_arguments_are_invalid() {
    let args = JsonValue::Str("not json".to_string());
    match normalize_arguments("mytool", args) {
        Err(CallError::InvalidArguments { name, raw }) => {
            assert_eq!(name, "mytool");
            assert_eq!(raw, "not json");
        },
        other => panic!("expected InvalidArguments, got {:?}", other),
    }
}

#[test]
fn non_object_non_string_arguments_are_invalid() {
    let args = JsonValue::Number("5".to_string());
    match normalize_arguments("mytool", args) {
        Err(CallError::InvalidArguments { name, raw }) => {
            assert_eq!(name, "mytool");
            assert_eq!(raw, "5");
        },
        other => panic!("expected InvalidArguments, got {:?}", other),
    }
}

#[test]
fn serialized_arguments_become_the_last_command_argument() {
    let json_data = obj(vec![
        ("x", JsonValue::Number("1".to_string())),
        ("s", JsonValue::Str("a\"b".to_string())),
    ]);
    let args = build_command_args(vec!["lead".to_string()], &json_data);
    assert_eq!(args.len(), 2);
    assert_eq!(args[0], "lead");
    assert_eq!(args[1], "{\"x\":1,\"s\":\"a\\\"b\"}");
}

#[test]
fn path_value_prepends_every_directory_in_order() {
    let dirs = vec!["/agent/bin".to_string(), "/tools/bin".to_string()];
    let path = build_path_value(&dirs, ":", "/usr/bin:/bin");
    assert_eq!(path, "/agent/bin:/tools/bin:/usr/bin:/bin");
}

#[test]
fn path_value_with_no_directories_is_the_callers_path() {
    let path = build_path_value(&vec![], ":", "/usr/bin");
    assert_eq!(path, "/usr/bin");
}

#[test]
fn child_env_gets_path_and_output_file() {
    let mut envs = vec![("HOME".to_string(), "/home/u".to_string())];
    apply_child_env(
        &mut envs,
        "PATH".to_string(),
        "/tools/bin:/usr/bin".to_string(),
        "LLM_OUTPUT".to_string(),
        "/tmp/call-output.json".to_string(),
    );
    let lookup = |key: &str| {
        envs.iter().find(|(k, _)| k == key).map(|(_, v)| v.clone())
    };
    assert_eq!(lookup("PATH"), Some("/tools/bin:/usr/bin".to_string()));
    assert_eq!(lookup("LLM_OUTPUT"), Some("/tmp/call-output.json".to_string()));
    assert_eq!(lookup("HOME"), Some("/home/u".to_string()));
}

#[test]
fn child_env_replaces_an_existing_path() {
    let mut envs = vec![("PATH".to_string(), "/old".to_string())];
    apply_child_env(
        &mut envs,
        "PATH".to_string(),
        "/new".to_string(),
        "LLM_OUTPUT".to_string(),
        "/tmp/f".to_string(),
    );
    let paths: Vec<&String> =
        envs.iter().filter(|(k, _)| k == "PATH").map(|(_, v)| v).collect();
    assert_eq!(paths, vec!["/new"]);
}

#[test]
fn command_candidates_append_each_extension() {
    let exts = vec![".exe".to_string(), ".cmd".to_string()];
    let names = command_candidates("mytool", &exts);
    assert_eq!(names, vec!["mytool.exe".to_string(), "mytool.cmd".to_string()]);
}
