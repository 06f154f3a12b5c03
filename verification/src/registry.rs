//! The remote protocol tool layer: server configuration, the connection
//! lifecycle, remote tools adapted behind the local call interface, and the
//! flattened name-keyed registry.
//!
//! Transport I/O (spawning a server child process, the streaming
//! connection, the protocol exchange itself) lives outside the library; it
//! hands the discovered tools in and carries prepared calls out.

use vstd::prelude::*;
use crate::calls::CallError;
use crate::json::JsonValue;

verus! {

/// Configuration of one remote protocol server: a child process speaking
/// over its standard pipes, or a streaming connection to a URL.
#[derive(Debug, PartialEq, Eq)]
pub enum McpServerConfig {
    Sse { url: String },
    Stdio { command: String, args: Vec<String>, env: Vec<(String, String)> },
}

/// The remote-server configuration: named servers, in configuration order.
/// Initialization connects to every server in this order; one failure
/// aborts the whole startup.
#[derive(Debug, PartialEq, Eq)]
pub struct Config {
    pub servers: Vec<(String, McpServerConfig)>,
}

impl Config {
    pub fn new(servers: Vec<(String, McpServerConfig)>) -> (r: Self)
        ensures
            r.servers@ == servers@,
    {
        Config { servers }
    }
}

/// The lifecycle of one server connection. There is no automatic
/// reconnect: once closed, a session stays closed until the owning adapter
/// explicitly builds a new one.
#[derive(Debug, PartialEq, Eq, Clone, Copy)]
pub enum SessionState {
    Disconnected,
    Connecting,
    Connected,
    Closed,
}

/// What happens to a server connection.
#[derive(Debug, PartialEq, Eq, Clone, Copy)]
pub enum SessionEvent {
    ConnectRequested,
    ConnectSucceeded,
    ConnectFailed,
    Shutdown,
}

/// The connection lifecycle's transition table.
pub open spec fn spec_session_transition(state: SessionState, event: SessionEvent) -> SessionState {
    match (state, event) {
        (_, SessionEvent::Shutdown) => SessionState::Closed,
        (SessionState::Closed, _) => SessionState::Closed,
        (SessionState::Disconnected, SessionEvent::ConnectRequested) => SessionState::Connecting,
        (SessionState::Connecting, SessionEvent::ConnectSucceeded) => SessionState::Connected,
        (SessionState::Connecting, SessionEvent::ConnectFailed) => SessionState::Closed,
        _ => state,
    }
}

/// Advances a server connection's lifecycle. A closed session never leaves
/// the closed state: reinitialization means building a new session.
pub fn session_transition(state: SessionState, event: SessionEvent) -> (r: SessionState)
    ensures
        r == spec_session_transition(state, event),
        state is Closed ==> r is Closed,
{
    match (state, event) {
        (_, SessionEvent::Shutdown) => SessionState::Closed,
        (SessionState::Closed, _) => SessionState::Closed,
        (SessionState::Disconnected, SessionEvent::ConnectRequested) => SessionState::Connecting,
        (SessionState::Connecting, SessionEvent::ConnectSucceeded) => SessionState::Connected,
        (SessionState::Connecting, SessionEvent::ConnectFailed) => SessionState::Closed,
        (s, _) => s,
    }
}

/// The optional behavioural hints a remote tool is published with.
#[derive(Debug, PartialEq, Eq)]
pub struct ToolAnnotations {
    pub title: Option<String>,
    pub read_only_hint: Option<bool>,
    pub destructive_hint: Option<bool>,
    pub idempotent_hint: Option<bool>,
    pub open_world_hint: Option<bool>,
}

/// One tool as a remote server exposes it.
#[derive(Debug, PartialEq, Eq)]
pub struct RemoteTool {
    pub name: String,
    pub description: Option<String>,
    pub input_schema: JsonValue,
    pub annotations: Option<ToolAnnotations>,
}

/// A remote tool adapted behind the local call interface: the tool plus the
/// handle (index) of its owning server connection.
#[derive(Debug, PartialEq, Eq)]
pub struct McpToolAdapter {
    pub tool: RemoteTool,
    pub server: usize,
}

/// A prepared remote call: the tool's name and its named arguments; `None`
/// forwards the call with no arguments at all.
#[derive(Debug, PartialEq, Eq)]
pub struct RemoteCallRequest {
    pub name: String,
    pub arguments: Option<Vec<(String, JsonValue)>>,
}

impl McpToolAdapter {
    pub fn new(tool: RemoteTool, server: usize) -> (r: Self)
        ensures
            r.tool == tool,
            r.server == server,
    {
        McpToolAdapter { tool, server }
    }

    /// The tool's name.
    pub fn name(&self) -> (r: &String)
        ensures
            r@ == self.tool.name@,
    {
        &self.tool.name
    }

    /// The tool's description; a tool published without one describes
    /// itself with the empty string.
    pub fn description(&self) -> (r: &str)
        ensures
            match self.tool.description {
                Some(d) => r@ == d@,
                None => r@.len() == 0,
            },
    {
        match &self.tool.description {
            Some(d) => d.as_str(),
            None => {
                let empty = "";
                proof {
                    reveal_strlit("");
                    assert(empty@.len() == 0);
                }
                empty
            },
        }
    }

    /// The tool's parameter schema, as it is exposed to the model.
    pub fn parameters(&self) -> (r: &JsonValue)
        ensures
            *r == self.tool.input_schema,
    {
        &self.tool.input_schema
    }

    /// The tool's behavioural hints; a tool published without any carries
    /// all-empty hints.
    pub fn annotations(&self) -> (r: ToolAnnotations)
        ensures
            match self.tool.annotations {
                Some(a) => {
                    &&& (match (r.title, a.title) {
                        (Some(rt), Some(at)) => rt@ == at@,
                        (None, None) => true,
                        _ => false,
                    })
                    &&& r.read_only_hint == a.read_only_hint
                    &&& r.destructive_hint == a.destructive_hint
                    &&& r.idempotent_hint == a.idempotent_hint
                    &&& r.open_world_hint == a.open_world_hint
                },
                None => r == (ToolAnnotations {
                    title: None,
                    read_only_hint: None,
                    destructive_hint: None,
                    idempotent_hint: None,
                    open_world_hint: None,
                }),
            },
    {
        match &self.tool.annotations {
            Some(a) => ToolAnnotations {
                title: match &a.title {
                    Some(t) => Some(t.clone()),
                    None => None,
                },
                read_only_hint: a.read_only_hint,
                destructive_hint: a.destructive_hint,
                idempotent_hint: a.idempotent_hint,
                open_world_hint: a.open_world_hint,
            },
            None => ToolAnnotations {
                title: None,
                read_only_hint: None,
                destructive_hint: None,
                idempotent_hint: None,
                open_world_hint: None,
            },
        }
    }

    /// Shapes the JSON value handed to a registry tool into the remote
    /// call: a JSON object forwards its fields as the call's named
    /// arguments, under the tool's own name; any other value forwards an
    /// empty-argument call. The remote result is returned to the caller
    /// unchanged.
    pub fn prepare_call(&self, args: JsonValue) -> (r: RemoteCallRequest)
        ensures
            r.name@ == self.tool.name@,
            args matches JsonValue::Object(fields) ==> r.arguments == Some(fields),
            !(args is Object) ==> r.arguments is None,
    {
        let arguments = match args {
            JsonValue::Object(fields) => Some(fields),
            _ => None,
        };
        RemoteCallRequest { name: self.tool.name.clone(), arguments }
    }
}

/// The first adapter named `name`, scanning from the front. Because `add`
/// replaces in place, a name occurs at most once and the first match is the
/// binding.
pub open spec fn spec_lookup(tools: Seq<McpToolAdapter>, name: Seq<char>) -> Option<McpToolAdapter>
    decreases tools.len(),
{
    if tools.len() == 0 {
        None
    } else if tools[0].tool.name@ == name {
        Some(tools[0])
    } else {
        spec_lookup(tools.drop_first(), name)
    }
}

/// The last adapter named `name`, scanning from the back: the
/// last-registration-wins binding of a batch.
pub open spec fn last_named(s: Seq<McpToolAdapter>, name: Seq<char>) -> Option<McpToolAdapter>
    decreases s.len(),
{
    if s.len() == 0 {
        None
    } else if s.last().tool.name@ == name {
        Some(s.last())
    } else {
        last_named(s.drop_last(), name)
    }
}

/// The flattened, name-keyed table of every registered tool. Built once at
/// adapter initialization and never mutated afterwards; the last
/// registration of a name wins.
#[derive(Debug, PartialEq, Eq)]
pub struct ToolSet {
    tools: Vec<McpToolAdapter>,
}

impl ToolSet {
    pub closed spec fn spec_tools(&self) -> Seq<McpToolAdapter> {
        self.tools@
    }

    /// The empty registry.
    pub fn new() -> (r: Self)
        ensures
            r.spec_tools().len() == 0,
    {
        ToolSet { tools: Vec::new() }
    }

    /// Every registered adapter.
    pub fn tools(&self) -> (r: &Vec<McpToolAdapter>)
        ensures
            r@ == self.spec_tools(),
    {
        &self.tools
    }

    /// The tool `name` is bound to, if any.
    pub fn get(&self, name: &str) -> (r: Option<&McpToolAdapter>)
        ensures
            match r {
                Some(t) => spec_lookup(self.spec_tools(), name@) == Some(*t),
                None => spec_lookup(self.spec_tools(), name@) is None,
            },
    {
        let ghost tools = self.tools@;
        let name_owned: String = name.to_owned();
        let mut i: usize = 0;
        proof {
            assert(tools.skip(0) =~= tools);
        }
        while i < self.tools.len()
            invariant
                0 <= i <= tools.len(),
                tools == self.tools@,
                name_owned@ == name@,
                spec_lookup(tools, name@) == spec_lookup(tools.skip(i as int), name@),
            decreases tools.len() - i,
        {
            let ghost rest = tools.skip(i as int);
            proof {
                assert(rest[0] == tools[i as int]);
                assert(rest.drop_first() =~= tools.skip(i as int + 1));
            }
            if self.tools[i].tool.name == name_owned {
                return Some(&self.tools[i]);
            }
            i = i + 1;
        }
        proof {
            assert(tools.skip(tools.len() as int) =~= Seq::<McpToolAdapter>::empty());
        }
        None
    }

    /// Registers one adapter: the binding of its name is replaced if
    /// present, else appended; every other name keeps its binding.
    fn upsert(&mut self, t: McpToolAdapter)
        ensures
            spec_lookup(final(self).spec_tools(), t.tool.name@) == Some(t),
            forall|n: Seq<char>| n != t.tool.name@ ==> spec_lookup(final(self).spec_tools(), n)
                == spec_lookup(old(self).spec_tools(), n),
    {
        let ghost orig = self.tools@;
        let ghost key = t.tool.name@;
        let mut i: usize = 0;
        while i < self.tools.len()
            invariant
                0 <= i <= orig.len(),
                orig == old(self).tools@,
                self.tools@ == orig,
                key == t.tool.name@,
                forall|j: int| 0 <= j < i ==> #[trigger] orig[j].tool.name@ != key,
            decreases orig.len() - i,
        {
            if self.tools[i].tool.name == t.tool.name {
                let _replaced = self.tools.remove(i);
                self.tools.insert(i, t);
                proof {
                    assert(self.tools@ =~= orig.update(i as int, self.tools@[i as int]));
                    assert(self.tools@[i as int] == t);
                    lemma_lookup_at(self.tools@, i as int, key);
                    assert forall|n: Seq<char>| n != key implies spec_lookup(self.tools@, n)
                        == spec_lookup(orig, n) by {
                        lemma_lookup_update(orig, i as int, t, n);
                    }
                }
                return ;
            }
            i = i + 1;
        }
        self.tools.push(t);
        proof {
            assert(self.tools@.last() == t);
            assert(self.tools@.drop_last() =~= orig);
            lemma_lookup_none(orig, key);
            assert forall|n: Seq<char>| true implies spec_lookup(self.tools@, n) == match
                spec_lookup(orig, n) {
                Some(v) => Some(v),
                None => if key == n {
                    Some(t)
                } else {
                    None
                },
            } by {
                lemma_lookup_push(orig, t, n);
            }
        }
    }

    /// Registers a batch of adapters in order: for every name, the last
    /// adapter of the batch carrying it wins; a name the batch does not
    /// carry keeps its old binding.
    pub fn add(&mut self, tools: Vec<McpToolAdapter>)
        ensures
            forall|n: Seq<char>| #[trigger] spec_lookup(final(self).spec_tools(), n) == match
                last_named(tools@, n) {
                Some(t) => Some(t),
                None => spec_lookup(old(self).spec_tools(), n),
            },
    {
        let ghost orig_tools = tools@;
        let mut tools = tools;
        let ghost mut i: int = 0;
        proof {
            assert(orig_tools.take(0) =~= Seq::<McpToolAdapter>::empty());
        }
        while tools.len() > 0
            invariant
                0 <= i <= orig_tools.len(),
                i + tools@.len() == orig_tools.len(),
                tools@ == orig_tools.skip(i),
                forall|n: Seq<char>| #[trigger] spec_lookup(self.spec_tools(), n) == match
                    last_named(orig_tools.take(i), n) {
                    Some(t) => Some(t),
                    None => spec_lookup(old(self).spec_tools(), n),
                },
            decreases tools@.len(),
        {
            let t = tools.remove(0);
            proof {
                assert(t == orig_tools[i]);
                assert(tools@ =~= orig_tools.skip(i + 1));
            }
            self.upsert(t);
            proof {
                let taken = orig_tools.take(i + 1);
                assert(taken.last() == t);
                assert(taken.drop_last() =~= orig_tools.take(i));
                assert forall|n: Seq<char>| true implies #[trigger] spec_lookup(
                    self.spec_tools(),
                    n,
                ) == match last_named(taken, n) {
                    Some(t2) => Some(t2),
                    None => spec_lookup(old(self).spec_tools(), n),
                } by {
                    if n == t.tool.name@ {
                        assert(last_named(taken, n) == Some(t));
                    } else {
                        assert(last_named(taken, n) == last_named(orig_tools.take(i), n));
                    }
                }
                i = i + 1;
            }
        }
        proof {
            assert(orig_tools.take(orig_tools.len() as int) =~= orig_tools);
        }
    }

    /// Looks `name` up and shapes `args` into the remote call its adapter
    /// would issue; fails with `NotFound` exactly when the registry holds no
    /// binding for `name`.
    pub fn prepare(&self, name: &str, args: JsonValue) -> (r: Result<
        (usize, RemoteCallRequest),
        CallError,
    >)
        ensures
            match spec_lookup(self.spec_tools(), name@) {
                Some(t) => r matches Ok((server, req)) && server == t.server && req.name@
                    == t.tool.name@ && (match args {
                    JsonValue::Object(fields) => req.arguments == Some(fields),
                    _ => req.arguments is None,
                }),
                None => r matches Err(e) && (e matches CallError::NotFound { name: n } && n@
                    == name@),
            },
    {
        match self.get(name) {
            Some(adapter) => {
                let server = adapter.server;
                Ok((server, adapter.prepare_call(args)))
            },
            None => Err(CallError::NotFound { name: name.to_owned() }),
        }
    }
}

proof fn lemma_lookup_update(s: Seq<McpToolAdapter>, i: int, t: McpToolAdapter, n: Seq<char>)
    requires
        0 <= i < s.len(),
        s[i].tool.name@ == t.tool.name@,
        n != t.tool.name@,
    ensures
        spec_lookup(s.update(i, t), n) == spec_lookup(s, n),
    decreases i,
{
    let u = s.update(i, t);
    if i == 0 {
        assert(u[0] == t);
        assert(u.drop_first() =~= s.drop_first());
    } else {
        assert(u[0] == s[0]);
        if s[0].tool.name@ == n {
        } else {
            assert(u.drop_first() =~= s.drop_first().update(i - 1, t));
            lemma_lookup_update(s.drop_first(), i - 1, t, n);
        }
    }
}

proof fn lemma_lookup_at(s: Seq<McpToolAdapter>, i: int, n: Seq<char>)
    requires
        0 <= i < s.len(),
        s[i].tool.name@ == n,
        forall|j: int| 0 <= j < i ==> #[trigger] s[j].tool.name@ != n,
    ensures
        spec_lookup(s, n) == Some(s[i]),
    decreases i,
{
    if i == 0 {
    } else {
        assert(s.drop_first()[i - 1] == s[i]);
        assert(forall|j: int| 0 <= j < i - 1 ==> #[trigger] s.drop_first()[j].tool.name@ != n
            && s.drop_first()[j] == s[j + 1]);
        lemma_lookup_at(s.drop_first(), i - 1, n);
    }
}

proof fn lemma_lookup_push(s: Seq<McpToolAdapter>, t: McpToolAdapter, n: Seq<char>)
    ensures
        spec_lookup(s.push(t), n) == match spec_lookup(s, n) {
            Some(v) => Some(v),
            None => if t.tool.name@ == n {
                Some(t)
            } else {
                None
            },
        },
    decreases s.len(),
{
    let u = s.push(t);
    if s.len() == 0 {
        assert(u[0] == t);
        assert(u.drop_first() =~= Seq::<McpToolAdapter>::empty());
    } else {
        assert(u[0] == s[0]);
        assert(u.drop_first() =~= s.drop_first().push(t));
        lemma_lookup_push(s.drop_first(), t, n);
    }
}

proof fn lemma_lookup_none(s: Seq<McpToolAdapter>, n: Seq<char>)
    requires
        forall|j: int| 0 <= j < s.len() ==> #[trigger] s[j].tool.name@ != n,
    ensures
        spec_lookup(s, n) is None,
    decreases s.len(),
{
    if s.len() > 0 {
        assert(forall|j: int| 0 <= j < s.drop_first().len() ==> #[trigger] s.drop_first()[j]
            == s[j + 1]);
        lemma_lookup_none(s.drop_first(), n);
    }
}

/// Builds the adapters binding each of one server's tools to that server's
/// connection handle.
pub fn make_adapters(tools: Vec<RemoteTool>, server: usize) -> (r: Vec<McpToolAdapter>)
    ensures
        r@ == tools@.map_values(|t: RemoteTool| McpToolAdapter { tool: t, server }),
{
    let ghost orig = tools@;
    let mut rest = tools;
    let mut r: Vec<McpToolAdapter> = Vec::new();
    proof {
        assert(rest@ =~= orig.skip(0));
    }
    while rest.len() > 0
        invariant
            orig == tools@,
            r@.len() + rest@.len() == orig.len(),
            rest@ == orig.skip(r@.len() as int),
            forall|j: int| 0 <= j < r@.len() ==> #[trigger] r@[j] == (McpToolAdapter {
                tool: orig[j],
                server,
            }),
        decreases rest@.len(),
    {
        let ghost k = r@.len() as int;
        let t = rest.remove(0);
        proof {
            assert(t == orig[k]);
            assert(rest@ =~= orig.skip(k + 1));
        }
        r.push(McpToolAdapter { tool: t, server });
    }
    proof {
        assert(r@ =~= orig.map_values(|t: RemoteTool| McpToolAdapter { tool: t, server }));
    }
    r
}

/// The adapters of every server's discovered tools, flattened in
/// configuration order; server `i`'s tools are bound to connection handle
/// `i`.
pub open spec fn spec_all_adapters(discovered: Seq<Seq<RemoteTool>>) -> Seq<McpToolAdapter>
    decreases discovered.len(),
{
    if discovered.len() == 0 {
        Seq::empty()
    } else {
        spec_all_adapters(discovered.drop_last()) + discovered.last().map_values(
            |t: RemoteTool|
                McpToolAdapter { tool: t, server: (discovered.len() - 1) as usize },
        )
    }
}

/// Flattens the tools discovered on every configured server, in
/// configuration order, into one name-keyed registry: every discovered tool
/// is registered, and a name exposed by several servers is bound to the
/// tool of the server processed last.
pub fn assemble_registry(discovered: Vec<Vec<RemoteTool>>) -> (r: ToolSet)
    ensures
        forall|n: Seq<char>| #[trigger] spec_lookup(r.spec_tools(), n) == last_named(
            spec_all_adapters(discovered@.map_values(|v: Vec<RemoteTool>| v@)),
            n,
        ),
{
    let ghost all = discovered@.map_values(|v: Vec<RemoteTool>| v@);
    let mut pending = discovered;
    let mut registry = ToolSet::new();
    let mut server: usize = 0;
    proof {
        assert(pending.len() == pending@.len());
        assert(all.len() == pending@.len());
        assert(spec_all_adapters(all.take(0)) =~= Seq::<McpToolAdapter>::empty());
        assert forall|n: Seq<char>| true implies #[trigger] spec_lookup(
            registry.spec_tools(),
            n,
        ) == last_named(spec_all_adapters(all.take(0)), n) by {
            assert(registry.spec_tools().len() == 0);
        }
    }
    while pending.len() > 0
        invariant
            all == discovered@.map_values(|v: Vec<RemoteTool>| v@),
            all.len() <= usize::MAX,
            server + pending@.len() == all.len(),
            pending@.map_values(|v: Vec<RemoteTool>| v@) == all.skip(server as int),
            forall|n: Seq<char>| #[trigger] spec_lookup(registry.spec_tools(), n) == last_named(
                spec_all_adapters(all.take(server as int)),
                n,
            ),
        decreases pending@.len(),
    {
        let ghost k = server as int;
        let ghost pend0 = pending@;
        let batch = pending.remove(0);
        proof {
            assert(batch == pend0[0]);
            assert(pend0.map_values(|v: Vec<RemoteTool>| v@)[0] == batch@);
            assert(all.skip(k)[0] == all[k]);
            assert(batch@ == all[k]);
            assert forall|j: int| 0 <= j < pending@.len() implies pending@.map_values(
                |v: Vec<RemoteTool>| v@,
            )[j] == #[trigger] all.skip(k + 1)[j] by {
                assert(pending@[j] == pend0[j + 1]);
                assert(pend0.map_values(|v: Vec<RemoteTool>| v@)[j + 1] == pend0[j + 1]@);
                assert(all.skip(k)[j + 1] == all[k + 1 + j]);
            }
            assert(pending@.map_values(|v: Vec<RemoteTool>| v@) =~= all.skip(k + 1));
        }
        let adapters = make_adapters(batch, server);
        let ghost batch_adapters = adapters@;
        registry.add(adapters);
        proof {
            let taken = all.take(k + 1);
            assert(taken.drop_last() =~= all.take(k));
            assert(taken.last() == all[k]);
            assert(spec_all_adapters(taken) == spec_all_adapters(all.take(k))
                + batch_adapters);
            assert forall|n: Seq<char>| true implies #[trigger] spec_lookup(
                registry.spec_tools(),
                n,
            ) == last_named(spec_all_adapters(taken), n) by {
                lemma_last_named_concat(spec_all_adapters(all.take(k)), batch_adapters, n);
            }
        }
        server = server + 1;
    }
    proof {
        assert(all.take(all.len() as int) =~= all);
    }
    registry
}

proof fn lemma_last_named_concat(a: Seq<McpToolAdapter>, b: Seq<McpToolAdapter>, n: Seq<char>)
    ensures
        last_named(a + b, n) == match last_named(b, n) {
            Some(t) => Some(t),
            None => last_named(a, n),
        },
    decreases b.len(),
{
    if b.len() == 0 {
        assert(a + b =~= a);
    } else {
        assert((a + b).last() == b.last());
        assert((a + b).drop_last() =~= a + b.drop_last());
        lemma_last_named_concat(a, b.drop_last(), n);
    }
}

/// One content item of a protocol tool result.
#[derive(Debug, PartialEq, Eq)]
pub struct Content {
    pub content_type: String,
    pub body: String,
}

impl Content {
    /// A plain-text content item.
    pub fn text(content: String) -> (r: Self)
        ensures
            r.content_type@ == "text/plain"@,
            r.body@ == content@,
    {
        Content { content_type: "text/plain".to_owned(), body: content }
    }
}

/// A protocol tool result: whether the call succeeded, and its contents.
#[derive(Debug, PartialEq, Eq)]
pub struct ToolResult {
    pub success: bool,
    pub contents: Vec<Content>,
}

/// Wraps an already-serialized JSON response as a protocol tool result: one
/// JSON content item, tagged with whether the response was a success or a
/// failure.
pub fn into_call_tool_result(response: Result<String, String>) -> (r: ToolResult)
    ensures
        r.success == (response is Ok),
        r.contents@.len() == 1,
        r.contents@[0].content_type@ == "application/json"@,
        r.contents@[0].body@ == (match response {
            Ok(b) => b@,
            Err(b) => b@,
        }),
{
    let (success, body) = match response {
        Ok(b) => (true, b),
        Err(b) => (false, b),
    };
    let mut contents: Vec<Content> = Vec::new();
    contents.push(Content { content_type: "application/json".to_owned(), body });
    ToolResult { success, contents }
}

} // verus!
