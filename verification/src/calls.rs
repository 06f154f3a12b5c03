//! Tool-call requests and results, and deduplication of a batch by
//! correlation id.

use vstd::prelude::*;
use vstd::string::StringExecFns;
use crate::json::{
    JsonValue, is_done_sentinel, is_error_message_object, is_process_failure_object,
    error_message_object, process_failure_object,
};

verus! {

/// One requested tool invocation: a tool name, a JSON arguments value, and
/// the optional correlation id the model provider attached.
#[derive(Debug, PartialEq, Eq)]
pub struct ToolCall {
    pub name: String,
    pub arguments: JsonValue,
    pub id: Option<String>,
}

/// The outcome of one call, paired with the call it answers.
#[derive(Debug, PartialEq, Eq)]
pub struct ToolResult {
    pub call: ToolCall,
    pub output: JsonValue,
}

/// A per-call failure. Every variant is turned into structured JSON data in
/// that call's result; none of them aborts the batch.
#[derive(Debug, PartialEq, Eq)]
pub enum CallError {
    /// No declaration, agent-scoped or global, matches the requested name.
    NotFound { name: String },
    /// The call's arguments were neither a JSON object nor a string holding
    /// a JSON document; `raw` carries the offending text for diagnostics.
    InvalidArguments { name: String, raw: String },
    /// The tool process exited with non-zero status.
    ExecutionFailed { stdout: String, stderr: String },
    /// The remote server reported a failure for the forwarded call.
    RemoteCallFailed { message: String },
}

/// The correlation id of a call, as a character sequence.
pub open spec fn id_of(c: ToolCall) -> Option<Seq<char>> {
    match c.id {
        Some(s) => Some(s@),
        None => None,
    }
}

/// Some call in `s` carries the id `id`.
pub open spec fn id_occurs(s: Seq<ToolCall>, id: Seq<char>) -> bool {
    exists|j: int| 0 <= j < s.len() && id_of(s[j]) == Some(id)
}

/// The first call of `s` survives deduplication: it has no id, or no later
/// call shares its id.
pub open spec fn keep_first(s: Seq<ToolCall>) -> bool
    recommends
        s.len() > 0,
{
    match id_of(s[0]) {
        None => true,
        Some(id) => !id_occurs(s.drop_first(), id),
    }
}

/// Deduplication by id: of the calls sharing an id only the last survives;
/// calls without an id always survive; surviving calls keep their order.
pub open spec fn spec_dedup(s: Seq<ToolCall>) -> Seq<ToolCall>
    decreases s.len(),
{
    if s.len() == 0 {
        Seq::empty()
    } else if keep_first(s) {
        seq![s[0]] + spec_dedup(s.drop_first())
    } else {
        spec_dedup(s.drop_first())
    }
}

/// `id` is among the strings of `seen`.
pub open spec fn seen_has(seen: Seq<String>, id: Seq<char>) -> bool {
    exists|k: int| 0 <= k < seen.len() && seen[k]@ == id
}

/// The call at position `i` survives deduplication: it has no id, or no call
/// after position `i` shares its id.
pub open spec fn kept_at(s: Seq<ToolCall>, i: int) -> bool
    recommends
        0 <= i < s.len(),
{
    match id_of(s[i]) {
        None => true,
        Some(id) => !id_occurs(s.skip(i + 1), id),
    }
}

/// The original positions of the calls that survive deduplication, in the
/// order in which `spec_dedup` keeps them.
pub open spec fn spec_dedup_positions(s: Seq<ToolCall>) -> Seq<int>
    decreases s.len(),
{
    if s.len() == 0 {
        Seq::empty()
    } else if keep_first(s) {
        seq![0int] + spec_dedup_positions(s.drop_first()).map_values(|p: int| p + 1)
    } else {
        spec_dedup_positions(s.drop_first()).map_values(|p: int| p + 1)
    }
}

proof fn lemma_contains_shift(pt: Seq<int>, i: int)
    ensures
        pt.map_values(|p: int| p + 1).contains(i) <==> pt.contains(i - 1),
{
    let mapped = pt.map_values(|p: int| p + 1);
    if mapped.contains(i) {
        let k = choose|k: int| 0 <= k < mapped.len() && mapped[k] == i;
        assert(pt[k] == i - 1);
    }
    if pt.contains(i - 1) {
        let k = choose|k: int| 0 <= k < pt.len() && pt[k] == i - 1;
        assert(mapped[k] == i);
    }
}

proof fn lemma_contains_cons(h: int, rest: Seq<int>, i: int)
    ensures
        (seq![h] + rest).contains(i) <==> (i == h || rest.contains(i)),
{
    let s = seq![h] + rest;
    if s.contains(i) {
        let k = choose|k: int| 0 <= k < s.len() && s[k] == i;
        if k != 0 {
            assert(rest[k - 1] == i);
            assert(rest.contains(i));
        }
    }
    if rest.contains(i) {
        let k = choose|k: int| 0 <= k < rest.len() && rest[k] == i;
        assert(s[k + 1] == i);
        assert(s.contains(i));
    }
    if i == h {
        assert(s[0] == i);
        assert(s.contains(i));
    }
}

/// Deduplication preserves the relative order of surviving calls: the
/// deduplicated list consists exactly of the calls standing at a strictly
/// increasing sequence of original positions.
pub proof fn lemma_dedup_order(s: Seq<ToolCall>)
    ensures
        spec_dedup_positions(s).len() == spec_dedup(s).len(),
        forall|k: int|
            0 <= k < spec_dedup(s).len() ==> 0 <= #[trigger] spec_dedup_positions(s)[k]
                < s.len(),
        forall|k: int|
            0 <= k < spec_dedup(s).len() ==> spec_dedup(s)[k] == s[#[trigger] spec_dedup_positions(
                s,
            )[k]],
        forall|k1: int, k2: int|
            0 <= k1 < k2 < spec_dedup(s).len() ==> #[trigger] spec_dedup_positions(s)[k1]
                < #[trigger] spec_dedup_positions(s)[k2],
    decreases s.len(),
{
    if s.len() == 0 {
    } else {
        let t = s.drop_first();
        lemma_dedup_order(t);
        let pt = spec_dedup_positions(t);
        let mapped = pt.map_values(|p: int| p + 1);
        assert(forall|k: int| 0 <= k < mapped.len() ==> #[trigger] mapped[k] == pt[k] + 1);
        assert(forall|k: int|
            0 <= k < pt.len() ==> t[#[trigger] pt[k]] == s[pt[k] + 1]);
        if keep_first(s) {
            assert(spec_dedup(s) == seq![s[0]] + spec_dedup(t));
            assert(spec_dedup_positions(s) == seq![0int] + mapped);
            assert(forall|k: int|
                0 <= k < spec_dedup(s).len() ==> spec_dedup(s)[k] == s[#[trigger]
                    spec_dedup_positions(s)[k]]);
        } else {
            assert(spec_dedup(s) == spec_dedup(t));
            assert(spec_dedup_positions(s) == mapped);
        }
    }
}

/// Of the calls sharing an id, exactly the one at the highest original index
/// survives deduplication; calls without an id always survive. Position `i`
/// is among the surviving positions if and only if the call at `i` has no id
/// or no later call shares its id.
pub proof fn lemma_dedup_survivors(s: Seq<ToolCall>)
    ensures
        forall|i: int|
            0 <= i < s.len() ==> (#[trigger] spec_dedup_positions(s).contains(i) <==> kept_at(
                s,
                i,
            )),
    decreases s.len(),
{
    if s.len() == 0 {
    } else {
        let t = s.drop_first();
        lemma_dedup_survivors(t);
        lemma_dedup_order(t);
        let pt = spec_dedup_positions(t);
        let mapped = pt.map_values(|p: int| p + 1);
        assert(s.skip(1) =~= t);
        assert(kept_at(s, 0) == keep_first(s));
        assert forall|i: int| 1 <= i < s.len() implies (kept_at(s, i) <==> kept_at(
            t,
            i - 1,
        )) by {
            assert(s.skip(i + 1) =~= t.skip(i));
            assert(s[i] == t[i - 1]);
        }
        assert forall|i: int| 0 <= i < s.len() implies (#[trigger] spec_dedup_positions(
            s,
        ).contains(i) <==> kept_at(s, i)) by {
            lemma_contains_shift(pt, i);
            if keep_first(s) {
                lemma_contains_cons(0, mapped, i);
            }
            if i == 0 && !keep_first(s) {
                if mapped.contains(0) {
                    lemma_contains_shift(pt, 0);
                    let k = choose|k: int| 0 <= k < pt.len() && pt[k] == -1;
                    assert(0 <= pt[k]);
                }
            }
        }
    }
}

proof fn lemma_seen_push(prev: Seq<String>, s: String, x: Seq<char>)
    ensures
        seen_has(prev.push(s), x) <==> (seen_has(prev, x) || s@ == x),
{
    if seen_has(prev.push(s), x) {
        let k = choose|k: int| 0 <= k < prev.push(s).len() && prev.push(s)[k]@ == x;
        if k < prev.len() {
            assert(prev[k]@ == x);
        } else {
            assert(prev.push(s)[k] == s);
        }
    }
    if seen_has(prev, x) {
        let k = choose|k: int| 0 <= k < prev.len() && prev[k]@ == x;
        assert(prev.push(s)[k]@ == x);
    }
    if s@ == x {
        assert(prev.push(s)[prev.len() as int]@ == x);
    }
}

proof fn lemma_id_occurs_cons(s: Seq<ToolCall>, x: Seq<char>)
    requires
        s.len() > 0,
    ensures
        id_occurs(s, x) <==> (id_of(s[0]) == Some(x) || id_occurs(s.drop_first(), x)),
{
    if id_occurs(s, x) {
        let j = choose|j: int| 0 <= j < s.len() && id_of(s[j]) == Some(x);
        if j != 0 {
            assert(s.drop_first()[j - 1] == s[j]);
            assert(id_occurs(s.drop_first(), x));
        }
    }
    if id_occurs(s.drop_first(), x) {
        let j = choose|j: int|
            0 <= j < s.drop_first().len() && id_of(s.drop_first()[j]) == Some(x);
        assert(s[j + 1] == s.drop_first()[j]);
        assert(id_occurs(s, x));
    }
    if id_of(s[0]) == Some(x) {
        assert(id_occurs(s, x));
    }
}

fn contains_string(seen: &Vec<String>, id: &String) -> (b: bool)
    ensures
        b == seen_has(seen@, id@),
{
    let mut k: usize = 0;
    while k < seen.len()
        invariant
            0 <= k <= seen@.len(),
            forall|j: int| 0 <= j < k ==> seen@[j]@ != id@,
        decreases seen@.len() - k,
    {
        if seen[k] == *id {
            assert(seen_has(seen@, id@));
            return true;
        }
        k = k + 1;
    }
    false
}

impl ToolCall {
    pub fn new(name: String, arguments: JsonValue, id: Option<String>) -> (r: Self)
        ensures
            r.name == name,
            r.arguments == arguments,
            r.id == id,
    {
        ToolCall { name, arguments, id }
    }

    /// Drops every call whose id reappears later in the list, so that for
    /// each id only the last occurrence survives; calls without an id are
    /// never dropped. The surviving calls keep their relative order.
    pub fn dedup(calls: Vec<ToolCall>) -> (r: Vec<ToolCall>)
        ensures
            r@ == spec_dedup(calls@),
    {
        let ghost orig: Seq<ToolCall> = calls@;
        let mut calls = calls;
        let mut seen: Vec<String> = Vec::new();
        let mut kept: Vec<ToolCall> = Vec::new();
        proof {
            assert(calls@ =~= orig.take(calls@.len() as int));
            assert(orig.skip(orig.len() as int) =~= Seq::<ToolCall>::empty());
        }
        while calls.len() > 0
            invariant
                calls@.len() <= orig.len(),
                calls@ == orig.take(calls@.len() as int),
                forall|id: Seq<char>| #[trigger] seen_has(seen@, id) <==> id_occurs(
                    orig.skip(calls@.len() as int),
                    id,
                ),
                kept@ == spec_dedup(orig.skip(calls@.len() as int)),
            decreases calls@.len(),
        {
            let ghost n = calls@.len() as int;
            let ghost suffix_old = orig.skip(n);
            let call = calls.pop().unwrap();
            let ghost suffix_new = orig.skip(n - 1);
            proof {
                assert(calls@ =~= orig.take(n - 1));
                assert(call == orig[n - 1]);
                assert(suffix_new =~= seq![call] + suffix_old);
                assert(suffix_new[0] == call);
                assert(suffix_new.drop_first() =~= suffix_old);
            }
            let keep: bool = match &call.id {
                None => {
                    proof {
                        assert forall|x: Seq<char>| #[trigger] seen_has(seen@, x) <==> id_occurs(
                            suffix_new,
                            x,
                        ) by {
                            lemma_id_occurs_cons(suffix_new, x);
                        }
                        assert(keep_first(suffix_new));
                    }
                    true
                },
                Some(id) => {
                    if contains_string(&seen, id) {
                        proof {
                            assert(id_occurs(suffix_old, id@));
                            assert(!keep_first(suffix_new));
                            assert forall|x: Seq<char>| #[trigger] seen_has(seen@, x)
                                <==> id_occurs(suffix_new, x) by {
                                lemma_id_occurs_cons(suffix_new, x);
                            }
                        }
                        false
                    } else {
                        let ghost prev_seen = seen@;
                        proof {
                            assert(!id_occurs(suffix_old, id@));
                            assert(keep_first(suffix_new));
                        }
                        seen.push(id.clone());
                        proof {
                            let pushed = seen@.last();
                            assert(seen@ == prev_seen.push(pushed));
                            assert(pushed@ == id@);
                            assert forall|x: Seq<char>| #[trigger] seen_has(seen@, x)
                                <==> id_occurs(suffix_new, x) by {
                                lemma_seen_push(prev_seen, pushed, x);
                                lemma_id_occurs_cons(suffix_new, x);
                            }
                        }
                        true
                    }
                },
            };
            if keep {
                kept.insert(0, call);
                proof {
                    assert(kept@ =~= seq![call] + kept@.drop_first());
                    assert(kept@ =~= seq![suffix_new[0]] + spec_dedup(suffix_old));
                    assert(kept@ == spec_dedup(suffix_new));
                }
            } else {
                proof {
                    assert(kept@ == spec_dedup(suffix_new));
                }
            }
        }
        proof {
            assert(orig.skip(0) =~= orig);
            assert(calls@.len() == 0);
        }
        kept
    }
}

/// The human-readable description of a per-call failure.
pub open spec fn spec_message(e: CallError) -> Seq<char> {
    match e {
        CallError::NotFound { name } => "Function not found: "@ + name@,
        CallError::InvalidArguments { name, raw } => "The call '"@ + name@
            + "' has invalid arguments: "@ + raw@,
        CallError::ExecutionFailed { stdout, stderr } => "Tool call failed: "@ + stderr@,
        CallError::RemoteCallFailed { message } => message@,
    }
}

/// The structured JSON data a per-call failure is reported as: a process
/// failure carries the child's streams, every other failure its description.
pub open spec fn error_output_matches(e: CallError, out: JsonValue) -> bool {
    match e {
        CallError::ExecutionFailed { stdout, stderr } => is_process_failure_object(
            out,
            stdout@,
            stderr@,
        ),
        _ => is_error_message_object(out, spec_message(e)),
    }
}

impl CallError {
    /// A human-readable description of the failure.
    pub fn message(&self) -> (r: String)
        ensures
            r@ == spec_message(*self),
    {
        match self {
            CallError::NotFound { name } => {
                let mut s: String = "Function not found: ".to_owned();
                s.append(name.as_str());
                s
            },
            CallError::InvalidArguments { name, raw } => {
                let mut s: String = "The call '".to_owned();
                s.append(name.as_str());
                s.append("' has invalid arguments: ");
                s.append(raw.as_str());
                s
            },
            CallError::ExecutionFailed { stdout: _, stderr } => {
                let mut s: String = "Tool call failed: ".to_owned();
                s.append(stderr.as_str());
                s
            },
            CallError::RemoteCallFailed { message } => message.clone(),
        }
    }
}

/// Turns a per-call failure into the structured JSON data carried by that
/// call's result: `{"error": true, "stdout": ..., "stderr": ...}` for a
/// process failure, `{"error": true, "message": ...}` for every other kind.
pub fn error_output(e: CallError) -> (r: JsonValue)
    ensures
        error_output_matches(e, r),
{
    match e {
        CallError::ExecutionFailed { stdout, stderr } => process_failure_object(stdout, stderr),
        other => {
            let m = other.message();
            error_message_object(m)
        },
    }
}

/// How the output recorded for a call relates to its evaluation outcome:
/// a null success becomes the `"DONE"` sentinel, any other success is kept
/// as-is, and a failure becomes its structured JSON form.
pub open spec fn output_matches(ev: Result<JsonValue, CallError>, out: JsonValue) -> bool {
    match ev {
        Ok(v) => if v is Null {
            is_done_sentinel(out)
        } else {
            out == v
        },
        Err(e) => error_output_matches(e, out),
    }
}

impl ToolResult {
    pub fn new(call: ToolCall, output: JsonValue) -> (r: Self)
        ensures
            r.call == call,
            r.output == output,
    {
        ToolResult { call, output }
    }

    /// Records one call's evaluation outcome. A failure is captured as data,
    /// never propagated: it must not abort the sibling calls of the batch.
    pub fn new_from_eval_result(call: ToolCall, eval_result: Result<JsonValue, CallError>) -> (r:
        Self)
        ensures
            r.call == call,
            output_matches(eval_result, r.output),
    {
        let output = match eval_result {
            Ok(v) => {
                if v.is_null() {
                    JsonValue::Str("DONE".to_owned())
                } else {
                    v
                }
            },
            Err(e) => error_output(e),
        };
        ToolResult { call, output }
    }
}

} // verus!
