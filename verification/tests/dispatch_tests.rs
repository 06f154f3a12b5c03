//! The Dispatcher pipeline: deduplication, planning, ordered reassembly,
//! failure isolation, and the empty-batch policy.

use toolcall::calls::{CallError, ToolCall, ToolResult};
use toolcall::dispatch::{
    assemble_results, apply_empty_policy, finish_batch, plan_batch, BatchError, TaskOutcome,
};
use toolcall::json::JsonValue;
use toolcall::resolver::Agent;
use toolcall::schema::{FunctionDeclaration, Functions, JsonSchema};

fn schema() -> JsonSchema {
    JsonSchema {
        type_value: None,
        description: None,
        properties: None,
        items: None,
        any_of: None,
        enum_value: None,
        default: None,
        required: None,
    }
}

fn decl(name: &str, agent: bool, allow_concurrency: bool) -> FunctionDeclaration {
    FunctionDeclaration {
        name: name.to_string(),
        description: String::new(),
        parameters: schema(),
        agent,
        allow_concurrency,
    }
}

fn call(name: &str, id: Option<&str>) -> ToolCall {
    ToolCall {
        name: name.to_string(),
        arguments: JsonValue::Null,
        id: id.map(|s| s.to_string()),
    }
}

#[test]
fn dedup_keeps_last_occurrence_per_id() {
    let calls = vec![call("one", Some("A")), call("two", Some("B")), call("three", Some("A"))];
    let deduped = ToolCall::dedup(calls);
    assert_eq!(deduped.len(), 2);
    assert_eq!(deduped[0].name, "two");
    assert_eq!(deduped[0].id, Some("B".to_string()));
    assert_eq!(deduped[1].name, "three");
    assert_eq!(deduped[1].id, Some("A".to_string()));
}

#[test]
fn dedup_never_drops_calls_without_id() {
    let calls = vec![call("x", None), call("y", None), call("z", Some("A")), call("w", None)];
    let deduped = ToolCall::dedup(calls);
    assert_eq!(deduped.len(), 4);
    assert_eq!(deduped[0].name, "x");
    assert_eq!(deduped[1].name, "y");
    assert_eq!(deduped[2].name, "z");
    assert_eq!(deduped[3].name, "w");
}

#[test]
fn dedup_preserves_relative_order() {
    let calls = vec![
        call("a", Some("1")),
        call("b", Some("2")),
        call("c", Some("1")),
        call("d", None),
        call("e", Some("3")),
    ];
    let deduped = ToolCall::dedup(calls);
    let names: Vec<&str> = deduped.iter().map(|c| c.name.as_str()).collect();
    assert_eq!(names, vec!["b", "c", "d", "e"]);
}

#[test]
fn dedup_of_empty_list_is_empty() {
    let deduped = ToolCall::dedup(vec![]);
    assert!(deduped.is_empty());
}

#[test]
fn plan_batch_resolves_and_keeps_concurrency() {
    let functions = Functions::new(vec![decl("fast", false, true), decl("slow", false, false)]);
    let calls = vec![call("fast", None), call("slow", None), call("missing", None)];
    let plan = plan_batch(calls, &functions, &None::<Agent>).unwrap();
    assert_eq!(plan.calls.len(), 3);
    assert_eq!(plan.execs.len(), 3);
    let fast = plan.execs[0].as_ref().unwrap();
    assert_eq!(fast.cmd, "fast");
    assert!(fast.concurrent);
    let slow = plan.execs[1].as_ref().unwrap();
    assert!(!slow.concurrent);
    match plan.execs[2].as_ref().unwrap_err() {
        CallError::NotFound { name } => assert_eq!(name, "missing"),
        other => panic!("expected NotFound, got {:?}", other),
    }
}

#[test]
fn plan_batch_of_empty_input_is_empty() {
    let functions = Functions::new(vec![]);
    let plan = plan_batch(vec![], &functions, &None::<Agent>).unwrap();
    assert!(plan.calls.is_empty());
    assert!(plan.execs.is_empty());
}

fn obj(fields: Vec<(&str, JsonValue)>) -> JsonValue {
    JsonValue::Object(fields.into_iter().map(|(k, v)| (k.to_string(), v)).collect())
}

#[test]
fn failing_call_never_aborts_its_siblings() {
    let calls = vec![call("ok_tool", None), call("failing_tool", None), call("ok_tool2", None)];
    let outcomes = vec![
        TaskOutcome::Finished(Ok(JsonValue::Str("first".to_string()))),
        TaskOutcome::Finished(Err(CallError::RemoteCallFailed {
            message: "boom".to_string(),
        })),
        TaskOutcome::Finished(Ok(JsonValue::Str("third".to_string()))),
    ];
    let results = assemble_results(calls, outcomes).unwrap();
    assert_eq!(results.len(), 3);
    assert_eq!(results[0].call.name, "ok_tool");
    assert_eq!(results[0].output, JsonValue::Str("first".to_string()));
    assert_eq!(
        results[1].output,
        obj(vec![
            ("error", JsonValue::Bool(true)),
            ("message", JsonValue::Str("boom".to_string())),
        ])
    );
    assert_eq!(results[2].output, JsonValue::Str("third".to_string()));
}

#[test]
fn results_match_calls_position_by_position() {
    let calls = vec![call("a", Some("1")), call("b", None)];
    let outcomes = vec![
        TaskOutcome::Finished(Ok(JsonValue::Number("7".to_string()))),
        TaskOutcome::Finished(Ok(JsonValue::Str("out".to_string()))),
    ];
    let results = assemble_results(calls, outcomes).unwrap();
    assert_eq!(results.len(), 2);
    assert_eq!(results[0].call, call("a", Some("1")));
    assert_eq!(results[1].call, call("b", None));
}

#[test]
fn null_success_becomes_done_sentinel() {
    let results =
        assemble_results(vec![call("t", None)], vec![TaskOutcome::Finished(Ok(JsonValue::Null))])
            .unwrap();
    assert_eq!(results[0].output, JsonValue::Str("DONE".to_string()));
}

#[test]
fn all_null_outputs_collapse_to_empty_list() {
    let calls = vec![call("a", None), call("b", None)];
    let outcomes = vec![
        TaskOutcome::Finished(Ok(JsonValue::Null)),
        TaskOutcome::Finished(Ok(JsonValue::Null)),
    ];
    let results = finish_batch(calls, outcomes).unwrap();
    assert!(results.is_empty());
}

#[test]
fn done_sentinel_outputs_collapse_to_empty_list() {
    let calls = vec![call("a", None), call("b", None)];
    let outcomes = vec![
        TaskOutcome::Finished(Ok(JsonValue::Str("DONE".to_string()))),
        TaskOutcome::Finished(Ok(JsonValue::Null)),
    ];
    let results = finish_batch(calls, outcomes).unwrap();
    assert!(results.is_empty());
}

#[test]
fn one_real_output_keeps_the_whole_list() {
    let calls = vec![call("a", None), call("b", None)];
    let outcomes = vec![
        TaskOutcome::Finished(Ok(JsonValue::Null)),
        TaskOutcome::Finished(Ok(JsonValue::Str("real".to_string()))),
    ];
    let results = finish_batch(calls, outcomes).unwrap();
    assert_eq!(results.len(), 2);
    assert_eq!(results[0].output, JsonValue::Str("DONE".to_string()));
    assert_eq!(results[1].output, JsonValue::Str("real".to_string()));
}

#[test]
fn error_outputs_keep_the_whole_list() {
    let calls = vec![call("a", None)];
    let outcomes = vec![TaskOutcome::Finished(Err(CallError::NotFound {
        name: "a".to_string(),
    }))];
    let results = finish_batch(calls, outcomes).unwrap();
    assert_eq!(results.len(), 1);
    assert_eq!(
        results[0].output,
        obj(vec![
            ("error", JsonValue::Bool(true)),
            ("message", JsonValue::Str("Function not found: a".to_string())),
        ])
    );
}

#[test]
fn crashed_task_aborts_the_batch() {
    let calls = vec![call("a", None), call("b", None)];
    let outcomes = vec![
        TaskOutcome::Finished(Ok(JsonValue::Null)),
        TaskOutcome::Crashed { message: "task panicked".to_string() },
    ];
    match finish_batch(calls, outcomes) {
        Err(BatchError::BatchExecutionFailed { message }) => {
            assert_eq!(message, "task panicked")
        },
        other => panic!("expected BatchExecutionFailed, got {:?}", other),
    }
}

#[test]
fn mismatched_outcome_count_is_internal_error() {
    let calls = vec![call("a", None)];
    let outcomes: Vec<TaskOutcome> = vec![];
    match finish_batch(calls, outcomes) {
        Err(BatchError::InternalError) => {},
        other => panic!("expected InternalError, got {:?}", other),
    }
}

#[test]
fn empty_policy_keeps_mixed_results_unchanged() {
    let results = vec![
        ToolResult::new(call("a", None), JsonValue::Null),
        ToolResult::new(call("b", None), JsonValue::Bool(false)),
    ];
    let kept = apply_empty_policy(results);
    assert_eq!(kept.len(), 2);
    assert_eq!(kept[1].output, JsonValue::Bool(false));
}

#[test]
fn process_failure_carries_both_streams() {
    let calls = vec![call("a", None)];
    let outcomes = vec![TaskOutcome::Finished(Err(CallError::ExecutionFailed {
        stdout: "partial".to_string(),
        stderr: "oops".to_string(),
    }))];
    let results = finish_batch(calls, outcomes).unwrap();
    assert_eq!(
        results[0].output,
        obj(vec![
            ("error", JsonValue::Bool(true)),
            ("stdout", JsonValue::Str("partial".to_string())),
            ("stderr", JsonValue::Str("oops".to_string())),
        ])
    );
}

#[test]
fn empty_batch_finishes_empty() {
    let results = finish_batch(vec![], vec![]).unwrap();
    assert!(results.is_empty());
}

#[test]
fn a_tool_writing_the_sentinel_itself_collapses_too() {
    // A tool that writes the JSON string "DONE" to its output file reports
    // nothing, exactly like one that writes nothing at all.
    let output = toolcall::executor::interpret_output(Some("\"DONE\"".to_string()));
    assert_eq!(output, JsonValue::Str("DONE".to_string()));
    let calls = vec![call("a", None)];
    let outcomes = vec![TaskOutcome::Finished(Ok(output))];
    assert!(finish_batch(calls, outcomes).unwrap().is_empty());
}
