//! Batch orchestration: deduplication, per-call resolution, and ordered
//! reassembly of results, with per-call failures isolated from the batch.
//!
//! The outside world runs the planned calls (sequentially or as parallel
//! tasks, as each plan entry's concurrency flag says) and hands back one
//! outcome per planned call, in plan order; position tagging, not completion
//! order, fixes the output order.

use vstd::prelude::*;
use crate::calls::{output_matches, spec_dedup, CallError, ToolCall, ToolResult};
use crate::json::{is_done_sentinel, is_null_or_done, JsonValue};
use crate::resolver::{resolution_matches, Agent, ToolCallConfig};
use crate::schema::Functions;

verus! {

/// A batch-level failure. Unlike a per-call failure, it aborts the whole
/// tool-calling turn.
#[derive(Debug, PartialEq, Eq)]
pub enum BatchError {
    /// Deduplication collapsed a non-empty batch to nothing.
    LoopDetected,
    /// A concurrently spawned call task itself crashed, as distinct from the
    /// tool it ran reporting a failure.
    BatchExecutionFailed { message: String },
    /// The outcomes could not be matched up with the planned calls; an
    /// implementation fault, never expected.
    InternalError,
}

/// A planned batch: the surviving calls in order, and for each either its
/// resolved execution spec or the per-call error resolution produced.
#[derive(Debug, PartialEq, Eq)]
pub struct BatchPlan {
    pub calls: Vec<ToolCall>,
    pub execs: Vec<Result<ToolCallConfig, CallError>>,
}

/// What running one planned call came to.
#[derive(Debug, PartialEq, Eq)]
pub enum TaskOutcome {
    /// The call ran to completion, successfully or not.
    Finished(Result<JsonValue, CallError>),
    /// The task running the call crashed before producing an outcome.
    Crashed { message: String },
}

/// Deduplicates a batch and resolves every surviving call. Fails with
/// `LoopDetected` exactly when a non-empty batch deduplicated to nothing — a
/// state the deduplication rule cannot actually produce, since a call
/// without an id always survives; the guard is kept as a defensive check. A
/// call that resolves nowhere is planned as its per-call error, never as a
/// batch failure.
pub fn plan_batch(calls: Vec<ToolCall>, functions: &Functions, agent: &Option<Agent>) -> (r:
    Result<BatchPlan, BatchError>)
    ensures
        match r {
            Ok(plan) => {
                &&& (calls@.len() > 0 ==> spec_dedup(calls@).len() > 0)
                &&& plan.calls@ == spec_dedup(calls@)
                &&& plan.execs@.len() == plan.calls@.len()
                &&& forall|i: int|
                    0 <= i < plan.calls@.len() ==> resolution_matches(
                        #[trigger] plan.execs@[i],
                        *functions,
                        *agent,
                        plan.calls@[i].name@,
                    )
            },
            Err(e) => e == BatchError::LoopDetected && calls@.len() > 0 && spec_dedup(
                calls@,
            ).len() == 0,
        },
{
    let ghost orig = calls@;
    let was_empty = calls.len() == 0;
    let deduped = ToolCall::dedup(calls);
    if !was_empty && deduped.len() == 0 {
        return Err(BatchError::LoopDetected);
    }
    let mut execs: Vec<Result<ToolCallConfig, CallError>> = Vec::new();
    let mut i: usize = 0;
    while i < deduped.len()
        invariant
            0 <= i <= deduped@.len(),
            execs@.len() == i,
            forall|j: int|
                0 <= j < i ==> resolution_matches(
                    #[trigger] execs@[j],
                    *functions,
                    *agent,
                    deduped@[j].name@,
                ),
        decreases deduped@.len() - i,
    {
        let e = ToolCallConfig::extract(deduped[i].name.as_str(), functions, agent);
        execs.push(e);
        i = i + 1;
    }
    Ok(BatchPlan { calls: deduped, execs })
}

/// Reassembles one result per call, at the call's own position. A `Crashed`
/// outcome aborts the batch; a `Finished` outcome — even a failed one —
/// only shapes that call's own result, never its siblings'.
pub fn assemble_results(calls: Vec<ToolCall>, outcomes: Vec<TaskOutcome>) -> (r: Result<
    Vec<ToolResult>,
    BatchError,
>)
    ensures
        match r {
            Ok(results) => {
                &&& calls@.len() == outcomes@.len()
                &&& results@.len() == calls@.len()
                &&& forall|i: int|
                    0 <= i < results@.len() ==> ((#[trigger] results@[i]).call == calls@[i] && (
                    outcomes@[i] matches TaskOutcome::Finished(res) && output_matches(
                        res,
                        results@[i].output,
                    )))
            },
            Err(e) => match e {
                BatchError::InternalError => calls@.len() != outcomes@.len(),
                BatchError::BatchExecutionFailed { message } => calls@.len() == outcomes@.len()
                    && exists|i: int|
                    0 <= i < outcomes@.len() && (#[trigger] outcomes@[i] matches
                        TaskOutcome::Crashed { message: m } && m@ == message@),
                BatchError::LoopDetected => false,
            },
        },
{
    if calls.len() != outcomes.len() {
        return Err(BatchError::InternalError);
    }
    let ghost ocalls = calls@;
    let ghost oouts = outcomes@;
    let mut rem_calls = calls;
    let mut rem_outs = outcomes;
    let mut results: Vec<ToolResult> = Vec::new();
    proof {
        assert(rem_calls@ =~= ocalls.take(rem_calls@.len() as int));
        assert(rem_outs@ =~= oouts.take(rem_outs@.len() as int));
    }
    while rem_calls.len() > 0
        invariant
            ocalls == calls@,
            oouts == outcomes@,
            ocalls.len() == oouts.len(),
            rem_calls@.len() == rem_outs@.len(),
            rem_calls@.len() <= ocalls.len(),
            rem_calls@ == ocalls.take(rem_calls@.len() as int),
            rem_outs@ == oouts.take(rem_calls@.len() as int),
            results@.len() == ocalls.len() - rem_calls@.len(),
            forall|j: int|
                0 <= j < results@.len() ==> ((#[trigger] results@[j]).call == ocalls[rem_calls@.len()
                    + j] && (oouts[rem_calls@.len() + j] matches TaskOutcome::Finished(res)
                    && output_matches(res, results@[j].output))),
        decreases rem_calls@.len(),
    {
        let ghost n = rem_calls@.len() as int;
        let c = rem_calls.pop().unwrap();
        let o = rem_outs.pop().unwrap();
        proof {
            assert(rem_calls@ =~= ocalls.take(n - 1));
            assert(rem_outs@ =~= oouts.take(n - 1));
            assert(c == ocalls[n - 1]);
            assert(o == oouts[n - 1]);
        }
        match o {
            TaskOutcome::Crashed { message } => {
                return Err(BatchError::BatchExecutionFailed { message });
            },
            TaskOutcome::Finished(res) => {
                let tr = ToolResult::new_from_eval_result(c, res);
                let ghost before = results@;
                results.insert(0, tr);
                proof {
                    assert(results@ =~= seq![tr] + before);
                }
            },
        }
    }
    Ok(results)
}

/// Every result of the batch carries output the model has nothing to react
/// to: JSON null or the `"DONE"` sentinel.
pub open spec fn outcome_null_or_done(o: TaskOutcome) -> bool {
    o matches TaskOutcome::Finished(res) && res matches Ok(v) && (v is Null || is_done_sentinel(
        v,
    ))
}

/// Replaces the whole result list with an empty one exactly when every
/// result's output is JSON null or the `"DONE"` sentinel: such a batch has
/// nothing worth reporting back to the model.
pub fn apply_empty_policy(results: Vec<ToolResult>) -> (r: Vec<ToolResult>)
    ensures
        if forall|i: int| 0 <= i < results@.len() ==> is_null_or_done(
            (#[trigger] results@[i]).output,
        ) {
            r@.len() == 0
        } else {
            r@ == results@
        },
{
    let mut i: usize = 0;
    while i < results.len()
        invariant
            0 <= i <= results@.len(),
            forall|j: int| 0 <= j < i ==> is_null_or_done((#[trigger] results@[j]).output),
        decreases results@.len() - i,
    {
        if !results[i].output.is_null_or_done() {
            return results;
        }
        i = i + 1;
    }
    Vec::new()
}

/// Reassembles a batch's outcomes into its final result list: one result per
/// call in call order, then the empty-batch policy. The composed contract of
/// `assemble_results` and `apply_empty_policy`.
pub fn finish_batch(calls: Vec<ToolCall>, outcomes: Vec<TaskOutcome>) -> (r: Result<
    Vec<ToolResult>,
    BatchError,
>)
    ensures
        match r {
            Ok(results) => {
                &&& calls@.len() == outcomes@.len()
                &&& if forall|i: int| 0 <= i < outcomes@.len() ==> outcome_null_or_done(
                    #[trigger] outcomes@[i],
                ) {
                    results@.len() == 0
                } else {
                    &&& results@.len() == calls@.len()
                    &&& forall|i: int|
                        0 <= i < results@.len() ==> ((#[trigger] results@[i]).call == calls@[i]
                            && (outcomes@[i] matches TaskOutcome::Finished(res) && output_matches(
                            res,
                            results@[i].output,
                        )))
                }
            },
            Err(e) => match e {
                BatchError::InternalError => calls@.len() != outcomes@.len(),
                BatchError::BatchExecutionFailed { message } => calls@.len() == outcomes@.len()
                    && exists|i: int|
                    0 <= i < outcomes@.len() && (#[trigger] outcomes@[i] matches
                        TaskOutcome::Crashed { message: m } && m@ == message@),
                BatchError::LoopDetected => false,
            },
        },
{
    let ghost oouts = outcomes@;
    let assembled = match assemble_results(calls, outcomes) {
        Ok(v) => v,
        Err(e) => {
            return Err(e);
        },
    };
    proof {
        if forall|i: int| 0 <= i < oouts.len() ==> outcome_null_or_done(#[trigger] oouts[i]) {
            assert forall|i: int| 0 <= i < assembled@.len() implies is_null_or_done(
                (#[trigger] assembled@[i]).output,
            ) by {
                assert(outcome_null_or_done(oouts[i]));
                lemma_output_null_or_done(oouts[i], assembled@[i].output);
            }
        } else {
            let i = choose|i: int|
                0 <= i < oouts.len() && !outcome_null_or_done(#[trigger] oouts[i]);
            lemma_output_null_or_done(oouts[i], assembled@[i].output);
            assert(!is_null_or_done(assembled@[i].output));
            assert(!forall|j: int|
                0 <= j < assembled@.len() ==> is_null_or_done(
                    (#[trigger] assembled@[j]).output,
                ));
        }
    }
    Ok(apply_empty_policy(assembled))
}

/// An outcome's recorded output says nothing to the model exactly when the
/// outcome was a success whose value was null or the `"DONE"` sentinel.
proof fn lemma_output_null_or_done(o: TaskOutcome, out: JsonValue)
    requires
        o matches TaskOutcome::Finished(res) && output_matches(res, out),
    ensures
        is_null_or_done(out) == outcome_null_or_done(o),
{
    match o {
        TaskOutcome::Finished(res) => {
            match res {
                Ok(v) => {
                    if v is Null {
                        assert(is_done_sentinel(out));
                    } else {
                        assert(out == v);
                    }
                },
                Err(e) => {
                    assert(out is Object);
                },
            }
        },
        TaskOutcome::Crashed { .. } => {},
    }
}

} // verus!
