//! The computational half of local tool execution: argument normalization,
//! command-line and environment construction, and interpretation of what the
//! child process left behind. Spawning the process itself is I/O and lives
//! outside the library; it hands plain values in and out of these functions.

use vstd::prelude::*;
use vstd::string::StringExecFns;
use crate::calls::CallError;
use crate::env::{env_lookup, set_env};
use crate::json::{
    is_output_wrapper, json_text, output_wrapper_object, parse_json, parsed_json, to_json_string,
    JsonValue,
};

verus! {

/// How a call's raw arguments value normalizes to the JSON object handed to
/// the tool: an object is accepted as-is, a string must itself parse as a
/// JSON document, and any other shape is invalid.
pub open spec fn normalized_arguments_match(
    arguments: JsonValue,
    name: Seq<char>,
    r: Result<JsonValue, CallError>,
) -> bool {
    match arguments {
        JsonValue::Object(_) => r == Ok::<JsonValue, CallError>(arguments),
        JsonValue::Str(s) => match parsed_json(s@) {
            Some(v) => r == Ok::<JsonValue, CallError>(v),
            None => r matches Err(e) && e matches CallError::InvalidArguments {
                name: n,
                raw,
            } && n@ == name && raw@ == s@,
        },
        _ => r matches Err(e) && e matches CallError::InvalidArguments { name: n, raw } && n@
            == name && raw@ == json_text(arguments),
    }
}

/// Normalizes a call's arguments to the JSON value handed to the tool;
/// rejects with `InvalidArguments` exactly when the arguments are neither an
/// object nor a string holding a JSON document.
pub fn normalize_arguments(call_name: &str, arguments: JsonValue) -> (r: Result<
    JsonValue,
    CallError,
>)
    ensures
        normalized_arguments_match(arguments, call_name@, r),
{
    match arguments {
        JsonValue::Object(fields) => Ok(JsonValue::Object(fields)),
        JsonValue::Str(s) => match parse_json(s.as_str()) {
            Some(v) => Ok(v),
            None => Err(CallError::InvalidArguments { name: call_name.to_owned(), raw: s }),
        },
        other => {
            let raw = to_json_string(&other);
            Err(CallError::InvalidArguments { name: call_name.to_owned(), raw })
        },
    }
}

/// Appends the serialized argument object as the final command-line
/// argument.
pub fn build_command_args(args: Vec<String>, json_data: &JsonValue) -> (r: Vec<String>)
    ensures
        r@.len() == args@.len() + 1,
        forall|i: int| 0 <= i < args@.len() ==> r@[i] == args@[i],
        r@[args@.len() as int]@ == json_text(*json_data),
{
    let mut r = args;
    r.push(to_json_string(json_data));
    r
}

/// The PATH value for a tool child: each directory followed by the
/// separator, in order, prepended to the caller's existing PATH.
pub open spec fn spec_prepended_path(
    dirs: Seq<Seq<char>>,
    sep: Seq<char>,
    current: Seq<char>,
) -> Seq<char>
    decreases dirs.len(),
{
    if dirs.len() == 0 {
        current
    } else {
        dirs[0] + sep + spec_prepended_path(dirs.drop_first(), sep, current)
    }
}

/// Builds the child's PATH value by prepending every tool-binaries directory
/// to the caller's existing PATH; the caller's own environment is never
/// touched.
pub fn build_path_value(bin_dirs: &Vec<String>, separator: &str, current_path: &str) -> (r: String)
    ensures
        r@ == spec_prepended_path(
            bin_dirs@.map_values(|d: String| d@),
            separator@,
            current_path@,
        ),
{
    let ghost dirs = bin_dirs@.map_values(|d: String| d@);
    let mut r: String = current_path.to_owned();
    let mut i: usize = bin_dirs.len();
    proof {
        assert(dirs.skip(i as int) =~= Seq::<Seq<char>>::empty());
    }
    while i > 0
        invariant
            0 <= i <= dirs.len(),
            dirs == bin_dirs@.map_values(|d: String| d@),
            r@ == spec_prepended_path(dirs.skip(i as int), separator@, current_path@),
        decreases i,
    {
        i = i - 1;
        let mut t: String = bin_dirs[i].clone();
        t.append(separator);
        t.append(r.as_str());
        r = t;
        proof {
            assert(dirs.skip(i as int)[0] == dirs[i as int]);
            assert(dirs.skip(i as int).drop_first() =~= dirs.skip(i as int + 1));
        }
    }
    proof {
        assert(dirs.skip(0) =~= dirs);
    }
    r
}

/// Sets the two bindings a tool child is owed on top of the resolved spec's
/// environment: the augmented PATH, and the dedicated variable naming the
/// file the child should write its structured output to.
pub fn apply_child_env(
    envs: &mut Vec<(String, String)>,
    path_key: String,
    path_value: String,
    output_key: String,
    output_file: String,
)
    requires
        path_key@ != output_key@,
    ensures
        env_lookup(final(envs)@, path_key@) == Some(path_value@),
        env_lookup(final(envs)@, output_key@) == Some(output_file@),
        forall|k: Seq<char>| k != path_key@ && k != output_key@ ==> env_lookup(final(envs)@, k)
            == env_lookup(old(envs)@, k),
{
    let ghost pk = path_key@;
    set_env(envs, path_key, path_value);
    set_env(envs, output_key, output_file);
}

/// What the contents of the child's designated output file yield: nothing
/// (or an empty file) is JSON null; a JSON document is taken as-is; any
/// other text is wrapped as `{"output": <text>}`.
pub open spec fn interpreted_output_matches(contents: Option<String>, r: JsonValue) -> bool {
    match contents {
        None => r is Null,
        Some(text) => if text@.len() == 0 {
            r is Null
        } else {
            match parsed_json(text@) {
                Some(v) => r == v,
                None => is_output_wrapper(r, text@),
            }
        },
    }
}

/// Interprets the structured-output file a tool child left behind.
pub fn interpret_output(contents: Option<String>) -> (r: JsonValue)
    ensures
        interpreted_output_matches(contents, r),
{
    match contents {
        None => JsonValue::Null,
        Some(text) => {
            if text.as_str().is_empty() {
                return JsonValue::Null;
            }
            match parse_json(text.as_str()) {
                Some(v) => v,
                None => output_wrapper_object(text),
            }
        },
    }
}

/// What a finished child process yields: a non-zero exit is an
/// `ExecutionFailed` carrying both captured streams; a successful exit
/// yields the interpretation of the output file.
pub open spec fn run_outcome_matches(
    success: bool,
    stdout: Seq<char>,
    stderr: Seq<char>,
    contents: Option<String>,
    r: Result<JsonValue, CallError>,
) -> bool {
    if success {
        r matches Ok(v) && interpreted_output_matches(contents, v)
    } else {
        r matches Err(e) && e matches CallError::ExecutionFailed { stdout: o, stderr: e2 } && o@
            == stdout && e2@ == stderr
    }
}

/// Judges a finished child process: its exit status, captured streams, and
/// the contents of its designated output file.
pub fn interpret_run(success: bool, stdout: String, stderr: String, contents: Option<String>) -> (r:
    Result<JsonValue, CallError>)
    ensures
        run_outcome_matches(success, stdout@, stderr@, contents, r),
{
    if !success {
        return Err(CallError::ExecutionFailed { stdout, stderr });
    }
    Ok(interpret_output(contents))
}

/// The candidate command names tried on platforms that resolve executables
/// by extension: the bare name concatenated with each recognized extension,
/// in order.
pub fn command_candidates(cmd_name: &str, extensions: &Vec<String>) -> (r: Vec<String>)
    ensures
        r@.len() == extensions@.len(),
        forall|i: int| 0 <= i < r@.len() ==> #[trigger] r@[i]@ == cmd_name@ + extensions@[i]@,
{
    let mut r: Vec<String> = Vec::new();
    let mut i: usize = 0;
    while i < extensions.len()
        invariant
            0 <= i <= extensions@.len(),
            r@.len() == i,
            forall|j: int| 0 <= j < i ==> #[trigger] r@[j]@ == cmd_name@ + extensions@[j]@,
        decreases extensions@.len() - i,
    {
        let mut name: String = cmd_name.to_owned();
        name.append(extensions[i].as_str());
        r.push(name);
        i = i + 1;
    }
    r
}

} // verus!
