//! Resolution of a requested tool name into a concrete execution spec:
//! command, arguments, environment and concurrency eligibility, honouring an
//! active agent's own scope before the global declaration store.

use vstd::prelude::*;
use vstd::string::StringExecFns;
use crate::calls::CallError;
use crate::env::{clone_envs, env_views};
use crate::schema::{spec_find, FunctionDeclaration, Functions};

verus! {

/// An agent whose own executable serves its agent-scoped tools. The
/// environment derived from its variables is handed to every such call.
#[derive(Debug, PartialEq, Eq)]
pub struct Agent {
    pub name: String,
    pub variables_env: Vec<(String, String)>,
    pub functions: Functions,
}

/// The concrete execution spec of one resolved call. Ephemeral: produced by
/// resolution, consumed by one execution.
#[derive(Debug, PartialEq, Eq)]
pub struct ToolCallConfig {
    pub name: String,
    pub cmd: String,
    pub args: Vec<String>,
    pub envs: Vec<(String, String)>,
    pub concurrent: bool,
}

/// `c` invokes an executable named after the declared tool directly, with no
/// extra arguments and no extra environment.
pub open spec fn is_declaration_config(c: ToolCallConfig, d: FunctionDeclaration) -> bool {
    &&& c.name@ == d.name@
    &&& c.cmd@ == d.name@
    &&& c.args@.len() == 0
    &&& c.envs@.len() == 0
    &&& c.concurrent == d.allow_concurrency
}

/// `c` invokes the agent's own executable with the function name as leading
/// argument and the agent's variable-derived environment.
pub open spec fn is_agent_config(c: ToolCallConfig, d: FunctionDeclaration, a: Agent) -> bool {
    &&& c.name@ == a.name@ + "-"@ + d.name@
    &&& c.cmd@ == a.name@
    &&& c.args@.len() == 1 && c.args@[0]@ == d.name@
    &&& env_views(c.envs@) == env_views(a.variables_env@)
    &&& c.concurrent == d.allow_concurrency
}

/// The agent-scoped declaration serving `name`, if the active agent declares
/// a function of that name flagged as agent-scoped.
pub open spec fn agent_scoped(agent: Option<Agent>, name: Seq<char>) -> Option<
    FunctionDeclaration,
> {
    match agent {
        Some(a) => match spec_find(a.functions.spec_declarations(), name) {
            Some(d) => if d.agent {
                Some(d)
            } else {
                None
            },
            None => None,
        },
        None => None,
    }
}

/// What resolving `name` must produce: the agent-scoped spec when the active
/// agent declares it, else the global declaration's spec, else `NotFound`.
pub open spec fn resolution_matches(
    r: Result<ToolCallConfig, CallError>,
    functions: Functions,
    agent: Option<Agent>,
    name: Seq<char>,
) -> bool {
    match agent_scoped(agent, name) {
        Some(d) => r matches Ok(c) && is_agent_config(c, d, agent->Some_0),
        None => match spec_find(functions.spec_declarations(), name) {
            Some(d) => r matches Ok(c) && is_declaration_config(c, d),
            None => r matches Err(e) && e matches CallError::NotFound { name: n } && n@ == name,
        },
    }
}

impl ToolCallConfig {
    /// The spec invoking a globally declared tool: an executable named after
    /// the tool, no extra arguments, no extra environment.
    pub fn from_declaration(function: &FunctionDeclaration) -> (r: Self)
        ensures
            is_declaration_config(r, *function),
    {
        ToolCallConfig {
            name: function.name.clone(),
            cmd: function.name.clone(),
            args: Vec::new(),
            envs: Vec::new(),
            concurrent: function.allow_concurrency,
        }
    }

    /// The spec delegating an agent-scoped tool through the agent's own
    /// executable; `None` when the declaration is not agent-scoped.
    pub fn from_agent(function: &FunctionDeclaration, agent: &Agent) -> (r: Option<Self>)
        ensures
            match r {
                Some(c) => function.agent && is_agent_config(c, *function, *agent),
                None => !function.agent,
            },
    {
        if !function.agent {
            return None;
        }
        let mut display_name: String = agent.name.clone();
        display_name.append("-");
        display_name.append(function.name.as_str());
        let mut args: Vec<String> = Vec::new();
        args.push(function.name.clone());
        Some(
            ToolCallConfig {
                name: display_name,
                cmd: agent.name.clone(),
                args,
                envs: clone_envs(&agent.variables_env),
                concurrent: function.allow_concurrency,
            },
        )
    }

    /// Resolves a requested tool name against the active agent's scope first
    /// and the global declaration store second; fails with `NotFound` when
    /// the name resolves in neither.
    pub fn extract(function_name: &str, functions: &Functions, agent: &Option<Agent>) -> (r:
        Result<Self, CallError>)
        ensures
            resolution_matches(r, *functions, *agent, function_name@),
    {
        if let Some(a) = agent {
            if let Some(function) = a.functions.find(function_name) {
                if function.agent {
                    if let Some(config) = Self::from_agent(function, a) {
                        return Ok(config);
                    }
                }
            }
        }
        match functions.find(function_name) {
            Some(function) => Ok(Self::from_declaration(function)),
            None => Err(CallError::NotFound { name: function_name.to_owned() }),
        }
    }
}

} // verus!
