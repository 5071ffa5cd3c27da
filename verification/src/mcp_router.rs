//! The MCP front end: the JSON-RPC method table, gated by the lifecycle
//! state machine, dispatching into the plexus.
//!
//! `initialize` is the only method admitted before the lifecycle starts;
//! `notifications/initialized` completes it; every other method requires
//! the `Ready` state and fails with a server-not-initialized error before
//! that.

use vstd::prelude::*;
use vstd::string::*;

use crate::jsonval::clone_value;
use crate::mcp_error::McpError;
use crate::mcp_state::{McpState, McpStateError, McpStateMachine};
use crate::mcp_types::{
    is_supported_version, version_supported, InitializeResult, McpPrompt, McpResource, McpTool,
    PromptsListResult, ResourcesListResult, ServerCapabilities, ServerInfo, ToolView,
    ToolsCapability, ToolsListResult,
};
use crate::router::{plexus_self_schema, Plexus, RouteTarget, SchemaView};
use crate::strutil::str_eq;

verus! {

/// What the method table does with a request, by method name and in table
/// order. Methods the table does not know are rejected.
pub enum McpMethodKind {
    Initialize,
    Initialized,
    Ping,
    ToolsList,
    ToolsCall,
    ResourcesList,
    ResourcesRead,
    PromptsList,
    PromptsGet,
    Cancelled,
    Unknown,
}

/// The method table: each wire name to its kind, anything else unknown.
pub open spec fn method_kind(m: Seq<char>) -> McpMethodKind {
    if m == "initialize"@ {
        McpMethodKind::Initialize
    } else if m == "notifications/initialized"@ {
        McpMethodKind::Initialized
    } else if m == "ping"@ {
        McpMethodKind::Ping
    } else if m == "tools/list"@ {
        McpMethodKind::ToolsList
    } else if m == "tools/call"@ {
        McpMethodKind::ToolsCall
    } else if m == "resources/list"@ {
        McpMethodKind::ResourcesList
    } else if m == "resources/read"@ {
        McpMethodKind::ResourcesRead
    } else if m == "prompts/list"@ {
        McpMethodKind::PromptsList
    } else if m == "prompts/get"@ {
        McpMethodKind::PromptsGet
    } else if m == "notifications/cancelled"@ {
        McpMethodKind::Cancelled
    } else {
        McpMethodKind::Unknown
    }
}

/// A fully handled request, or the activation call the transport must now
/// drive.
#[derive(Debug)]
pub enum McpOutcome {
    /// The `initialize` result.
    Initialize(InitializeResult),
    /// The `notifications/initialized` notification was accepted.
    InitializedAck,
    /// The liveness probe answer.
    Pong,
    /// The tool catalog.
    ToolsList(ToolsListResult),
    /// A tool call resolved to an activation method; the transport drives
    /// the call and folds the stream into the tool result.
    ToolCall { target: RouteTarget, arguments: serde_json::Value },
    /// The (empty) resource catalog.
    ResourcesList(ResourcesListResult),
    /// The (empty) prompt catalog.
    PromptsList(PromptsListResult),
    /// The cancellation notice was accepted.
    CancelledAck,
}

/// Relies on `serde_json::Value::get` and `Value::as_str`: the named field
/// of a JSON object when it holds a string, copied out. Nothing can be said
/// of the opaque value; the caller handles both outcomes.
#[verifier::external_body]
fn get_string_field(v: &serde_json::Value, key: &str) -> (r: Option<String>)
{
    v.get(key).and_then(|x| x.as_str()).map(|s| s.to_string())
}

/// Relies on `serde_json::Value::get`: the named field of a JSON object,
/// cloned, when present. Nothing can be said of the opaque value.
#[verifier::external_body]
fn get_value_field(v: &serde_json::Value, key: &str) -> (r: Option<serde_json::Value>)
{
    v.get(key).cloned()
}

/// The tool entries of one activation descriptor: one per method, named
/// `namespace.method`, an empty description left out, the input schema
/// present exactly where the method declared one.
pub open spec fn activation_tools(e: SchemaView) -> Seq<ToolView> {
    Seq::new(
        e.methods.len(),
        |i: int|
            ToolView {
                name: e.namespace + seq!['.'] + e.methods[i].name,
                description: if e.methods[i].description.len() == 0 {
                    None
                } else {
                    Some(e.methods[i].description)
                },
                has_input_schema: e.methods[i].has_params,
            },
    )
}

/// All tool entries of a descriptor list, in order.
pub open spec fn tools_of(schemas: Seq<SchemaView>) -> Seq<ToolView>
    decreases schemas.len(),
{
    if schemas.len() == 0 {
        Seq::empty()
    } else {
        activation_tools(schemas[0]) + tools_of(schemas.drop_first())
    }
}

proof fn lemma_tools_of_push(schemas: Seq<SchemaView>, e: SchemaView)
    ensures
        tools_of(schemas.push(e)) == tools_of(schemas) + activation_tools(e),
    decreases schemas.len(),
{
    if schemas.len() == 0 {
        assert(tools_of(Seq::<SchemaView>::empty()) =~~= Seq::<ToolView>::empty());
        assert(schemas.push(e)[0] == e);
        assert(schemas.push(e).drop_first() =~~= Seq::<SchemaView>::empty());
        assert(schemas =~~= Seq::<SchemaView>::empty());
        assert(tools_of(schemas.push(e)) =~~= tools_of(schemas) + activation_tools(e));
    } else {
        lemma_tools_of_push(schemas.drop_first(), e);
        assert(schemas.push(e)[0] == schemas[0]);
        assert(schemas.push(e).drop_first() =~~= schemas.drop_first().push(e));
        assert(tools_of(schemas.push(e)) =~~= tools_of(schemas) + activation_tools(e));
    }
}

/// Turns activation schemas into the MCP tool catalog: one tool per method
/// of every activation, named `namespace.method`, in declared order.
pub fn schemas_to_mcp_tools(schemas: &Vec<crate::router::ActivationFullSchema>) -> (r: Vec<
    McpTool,
>)
    ensures
        r.deep_view() == tools_of(schemas.deep_view()),
{
    let mut out: Vec<McpTool> = Vec::new();
    proof {
        assert(schemas.deep_view().take(0) =~~= Seq::<SchemaView>::empty());
        assert(out.deep_view() =~~= tools_of(schemas.deep_view().take(0)));
    }
    let mut k: usize = 0;
    while k < schemas.len()
        invariant
            0 <= k <= schemas.len(),
            schemas.deep_view().len() == schemas.len(),
            out.deep_view() == tools_of(schemas.deep_view().take(k as int)),
        decreases schemas.len() - k,
    {
        let e = &schemas[k];
        let ghost entry = schemas.deep_view()[k as int];
        let ghost head = out.deep_view();
        let mut j: usize = 0;
        while j < e.methods.len()
            invariant
                0 <= j <= e.methods.len(),
                e@ == entry,
                out.deep_view() == head + activation_tools(entry).take(j as int),
            decreases e.methods.len() - j,
        {
            let m = &e.methods[j];
            let mut name = e.namespace.clone();
            crate::strutil::push_char(&mut name, '.');
            name.append(m.name.as_str());
            let description: Option<String> = if m.description.as_str().unicode_len() == 0 {
                None
            } else {
                Some(m.description.clone())
            };
            let input_schema: Option<serde_json::Value> = match &m.params {
                Some(v) => Some(clone_value(v)),
                None => None,
            };
            let tool = McpTool { name, description, input_schema };
            let ghost dvb = out.deep_view();
            proof {
                assert(m@ == entry.methods[j as int]);
                assert(tool@ =~~= activation_tools(entry)[j as int]);
            }
            out.push(tool);
            proof {
                assert(out.deep_view() =~~= dvb.push(activation_tools(entry)[j as int]));
                assert(head + activation_tools(entry).take(j + 1) =~~= dvb.push(
                    activation_tools(entry)[j as int],
                ));
            }
            j = j + 1;
        }
        proof {
            assert(activation_tools(entry).take(entry.methods.len() as int)
                =~~= activation_tools(entry));
            lemma_tools_of_push(schemas.deep_view().take(k as int), entry);
            assert(schemas.deep_view().take(k as int).push(entry) =~~= schemas.deep_view().take(
                k + 1,
            ));
            assert(out.deep_view() =~~= tools_of(schemas.deep_view().take(k + 1)));
        }
        k = k + 1;
    }
    proof {
        assert(schemas.deep_view().take(schemas.len() as int) =~~= schemas.deep_view());
    }
    out
}

/// The MCP interface: the plexus, the lifecycle state, and the server
/// identity.
#[derive(Debug)]
pub struct McpInterface {
    plexus: Plexus,
    state: McpStateMachine,
    server_info: ServerInfo,
}

impl McpInterface {
    /// A fresh interface around a plexus, uninitialized, announcing itself
    /// as `substrate`.
    pub fn new(plexus: Plexus) -> (r: Self)
        ensures
            r.state_view() == McpState::Uninitialized,
            r.server_info_name() == "substrate"@,
            r.plexus_view() == plexus@,
    {
        McpInterface {
            plexus,
            state: McpStateMachine::new(),
            server_info: ServerInfo { name: "substrate".to_owned(), version: "0.1.0".to_owned() },
        }
    }

    /// The registered descriptors behind this interface.
    pub closed spec fn plexus_view(&self) -> Seq<SchemaView> {
        self.plexus@
    }

    /// The lifecycle state of this interface.
    pub closed spec fn state_view(&self) -> McpState {
        self.state@
    }

    /// The announced server name.
    pub closed spec fn server_info_name(&self) -> Seq<char> {
        self.server_info.name@
    }

    /// The plexus this interface routes into.
    pub fn plexus(&self) -> (r: &Plexus)
        ensures
            r@ == self.plexus_view(),
    {
        &self.plexus
    }

    /// The lifecycle state machine.
    pub fn state(&self) -> (r: &McpStateMachine)
        ensures
            r@ == self.state_view(),
    {
        &self.state
    }

    /// The announced server identity.
    pub fn server_info(&self) -> (r: &ServerInfo)
        ensures
            r.name@ == self.server_info_name(),
    {
        &self.server_info
    }

    /// Handles `initialize` once the protocol version is in hand: an
    /// unsupported version is rejected without touching the state; a
    /// supported one moves the lifecycle to `Initializing` and returns the
    /// negotiated version, the tools capability, and the server identity —
    /// unless the lifecycle had already left `Uninitialized`.
    pub fn initialize_with_version(&mut self, version: &str) -> (r: Result<
        InitializeResult,
        McpError,
    >)
        ensures
            final(self).plexus_view() == old(self).plexus_view(),
            final(self).server_info_name() == old(self).server_info_name(),
            !version_supported(version@) ==> {
                &&& (r matches Err(McpError::UnsupportedVersion(v)) && v@ == version@)
                &&& final(self).state_view() == old(self).state_view()
            },
            version_supported(version@) && old(self).state_view() != McpState::Uninitialized ==> {
                &&& r matches Err(McpError::State(_))
                &&& final(self).state_view() == old(self).state_view()
            },
            version_supported(version@) && old(self).state_view() == McpState::Uninitialized ==> {
                &&& final(self).state_view() == McpState::Initializing
                &&& r matches Ok(out) && out.protocol_version@ == version@
                    && out.server_info.name@ == old(self).server_info_name()
                    && (out.capabilities.tools matches Some(t) && !t.list_changed)
                    && out.capabilities.resources is None && out.capabilities.prompts is None
                    && out.capabilities.logging is None
            },
    {
        if !is_supported_version(version) {
            return Err(McpError::UnsupportedVersion(version.to_owned()));
        }
        match self.state.transition(McpState::Initializing) {
            Ok(_) => (),
            Err(e) => {
                return Err(McpError::State(e));
            },
        }
        Ok(
            InitializeResult {
                protocol_version: version.to_owned(),
                capabilities: ServerCapabilities {
                    tools: Some(ToolsCapability { list_changed: false }),
                    resources: None,
                    prompts: None,
                    logging: None,
                },
                server_info: self.server_info.clone(),
            },
        )
    }

    /// The tool catalog for `tools/list`, owed whenever the server is
    /// `Ready`: every method of every activation, including the router's
    /// own, as `namespace.method` tools.
    pub fn tools_list(&self) -> (r: Result<ToolsListResult, McpError>)
        ensures
            self.state_view() != McpState::Ready ==> (r matches Err(McpError::State(e))
                && e matches McpStateError::NotReady { .. }),
            self.state_view() == McpState::Ready ==> (r matches Ok(out) && {
                &&& out.tools.deep_view() == tools_of(full_catalog(self.plexus_view()))
                &&& out.next_cursor is None
            }),
    {
        match self.state.require_ready() {
            Ok(_) => (),
            Err(e) => {
                return Err(McpError::State(e));
            },
        }
        let schemas = self.plexus.list_full_schemas();
        let tools = schemas_to_mcp_tools(&schemas);
        proof {
            assert(schemas.deep_view()[0] == plexus_self_schema());
            assert forall|i: int|
                0 <= i < self.plexus_view().len() implies schemas.deep_view()[i + 1]
                == self.plexus_view()[i] by {
                assert(schemas@[i + 1]@ == self.plexus_view()[i]);
            }
            assert(schemas.deep_view() =~~= full_catalog(self.plexus_view()));
        }
        Ok(ToolsListResult { tools, next_cursor: None })
    }

    /// Routes an MCP request: gates it by the lifecycle state and
    /// dispatches it by the method table. Requests other than `initialize`
    /// and `notifications/initialized` are owed an answer exactly when the
    /// server is `Ready`; before that they fail with the
    /// server-not-initialized error.
    pub fn handle(&mut self, method: &str, params: &serde_json::Value) -> (r: Result<
        McpOutcome,
        McpError,
    >)
        ensures
            final(self).plexus_view() == old(self).plexus_view(),
            final(self).server_info_name() == old(self).server_info_name(),
            (method_kind(method@) matches McpMethodKind::Unknown) ==> (r matches Err(
                McpError::MethodNotFound(m),
            ) && m@ == method@ && final(self).state_view() == old(self).state_view()),
            requires_ready(method_kind(method@)) && old(self).state_view() != McpState::Ready ==> (
            r matches Err(McpError::State(e)) && e matches McpStateError::NotReady { .. }
                && final(self).state_view() == old(self).state_view()),
            requires_ready(method_kind(method@)) ==> final(self).state_view()
                == old(self).state_view(),
            (method_kind(method@) matches McpMethodKind::ToolsList) && old(self).state_view()
                == McpState::Ready ==> (r matches Ok(out) && out matches McpOutcome::ToolsList(t)
                && t.tools.deep_view() == tools_of(full_catalog(old(self).plexus_view()))),
            (method_kind(method@) matches McpMethodKind::Initialized) ==> {
                &&& old(self).state_view() == McpState::Initializing <==> (r matches Ok(out)
                    && out matches McpOutcome::InitializedAck)
                &&& (r is Ok ==> final(self).state_view() == McpState::Ready)
                &&& (r is Err ==> final(self).state_view() == old(self).state_view())
            },
            (method_kind(method@) matches McpMethodKind::Ping) && old(self).state_view()
                == McpState::Ready ==> (r matches Ok(out) && out matches McpOutcome::Pong),
    {
        if str_eq(method, "initialize") {
            let version = match get_string_field(params, "protocolVersion") {
                Some(v) => v,
                None => {
                    return Err(
                        McpError::InvalidParams("missing protocolVersion".to_owned()),
                    );
                },
            };
            match self.initialize_with_version(version.as_str()) {
                Ok(out) => Ok(McpOutcome::Initialize(out)),
                Err(e) => Err(e),
            }
        } else if str_eq(method, "notifications/initialized") {
            match self.state.transition(McpState::Ready) {
                Ok(_) => Ok(McpOutcome::InitializedAck),
                Err(e) => Err(McpError::State(e)),
            }
        } else if str_eq(method, "ping") {
            match self.state.require_ready() {
                Ok(_) => Ok(McpOutcome::Pong),
                Err(e) => Err(McpError::State(e)),
            }
        } else if str_eq(method, "tools/list") {
            match self.tools_list() {
                Ok(out) => Ok(McpOutcome::ToolsList(out)),
                Err(e) => Err(e),
            }
        } else if str_eq(method, "tools/call") {
            match self.state.require_ready() {
                Ok(_) => (),
                Err(e) => {
                    return Err(McpError::State(e));
                },
            }
            let name = match get_string_field(params, "name") {
                Some(n) => n,
                None => {
                    return Err(McpError::InvalidParams("missing tool name".to_owned()));
                },
            };
            let arguments = match get_value_field(params, "arguments") {
                Some(a) => a,
                None => crate::jsonval::null_value(),
            };
            match self.plexus.route_target(name.as_str()) {
                Ok(target) => Ok(McpOutcome::ToolCall { target, arguments }),
                Err(_) => Err(McpError::ToolNotFound(name)),
            }
        } else if str_eq(method, "resources/list") {
            match self.state.require_ready() {
                Ok(_) => (),
                Err(e) => {
                    return Err(McpError::State(e));
                },
            }
            let resources: Vec<McpResource> = Vec::new();
            Ok(McpOutcome::ResourcesList(ResourcesListResult { resources, next_cursor: None }))
        } else if str_eq(method, "resources/read") {
            match self.state.require_ready() {
                Ok(_) => (),
                Err(e) => {
                    return Err(McpError::State(e));
                },
            }
            let uri = match get_string_field(params, "uri") {
                Some(u) => u,
                None => {
                    return Err(McpError::InvalidParams("missing uri".to_owned()));
                },
            };
            Err(McpError::ResourceNotFound(uri))
        } else if str_eq(method, "prompts/list") {
            match self.state.require_ready() {
                Ok(_) => (),
                Err(e) => {
                    return Err(McpError::State(e));
                },
            }
            let prompts: Vec<McpPrompt> = Vec::new();
            Ok(McpOutcome::PromptsList(PromptsListResult { prompts, next_cursor: None }))
        } else if str_eq(method, "prompts/get") {
            match self.state.require_ready() {
                Ok(_) => (),
                Err(e) => {
                    return Err(McpError::State(e));
                },
            }
            let name = match get_string_field(params, "name") {
                Some(n) => n,
                None => {
                    return Err(McpError::InvalidParams("missing prompt name".to_owned()));
                },
            };
            Err(McpError::PromptNotFound(name))
        } else if str_eq(method, "notifications/cancelled") {
            match self.state.require_ready() {
                Ok(_) => Ok(McpOutcome::CancelledAck),
                Err(e) => Err(McpError::State(e)),
            }
        } else {
            Err(McpError::MethodNotFound(method.to_owned()))
        }
    }
}

/// Which methods are gated on the `Ready` state: every table entry except
/// the two lifecycle steps.
pub open spec fn requires_ready(k: McpMethodKind) -> bool {
    match k {
        McpMethodKind::Initialize => false,
        McpMethodKind::Initialized => false,
        McpMethodKind::Unknown => false,
        _ => true,
    }
}

/// The full catalog behind `tools/list`: the router's own descriptor first,
/// then the registered ones.
pub open spec fn full_catalog(entries: Seq<SchemaView>) -> Seq<SchemaView> {
    seq![plexus_self_schema()] + entries
}

} // verus!
