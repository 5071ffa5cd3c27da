//! Wire types of the Model Context Protocol dialect: capabilities, tools,
//! resources, prompts, and the JSON-RPC 2.0 frames.

use std::collections::HashMap;
use vstd::prelude::*;
use vstd::string::*;

use crate::mcp_error::JsonRpcError;

verus! {

/// Server identity returned by `initialize`.
#[derive(Debug, PartialEq, Eq)]
pub struct ServerInfo {
    pub name: String,
    pub version: String,
}

impl Clone for ServerInfo {
    fn clone(&self) -> (r: Self)
        ensures
            r.name@ == self.name@,
            r.version@ == self.version@,
    {
        ServerInfo { name: self.name.clone(), version: self.version.clone() }
    }
}

/// Client identity sent with `initialize`.
#[derive(Debug, Clone, PartialEq, Eq)]
pub struct ClientInfo {
    pub name: String,
    pub version: String,
}

/// Client roots capability.
#[derive(Debug, Clone, PartialEq, Eq)]
pub struct RootsCapability {
    pub list_changed: bool,
}

/// Client sampling capability.
#[derive(Debug, Clone, PartialEq, Eq)]
pub struct SamplingCapability {}

/// Server capabilities returned by `initialize`.
#[derive(Debug, Clone, PartialEq, Eq)]
pub struct ServerCapabilities {
    pub tools: Option<ToolsCapability>,
    pub resources: Option<ResourcesCapability>,
    pub prompts: Option<PromptsCapability>,
    pub logging: Option<LoggingCapability>,
}

/// Tools capability.
#[derive(Debug, Clone, PartialEq, Eq)]
pub struct ToolsCapability {
    pub list_changed: bool,
}

/// Resources capability.
#[derive(Debug, Clone, PartialEq, Eq)]
pub struct ResourcesCapability {
    pub subscribe: bool,
    pub list_changed: bool,
}

/// Prompts capability.
#[derive(Debug, Clone, PartialEq, Eq)]
pub struct PromptsCapability {
    pub list_changed: bool,
}

/// Logging capability.
#[derive(Debug, Clone, PartialEq, Eq)]
pub struct LoggingCapability {}

/// The result of `initialize`.
#[derive(Debug, Clone, PartialEq, Eq)]
pub struct InitializeResult {
    pub protocol_version: String,
    pub capabilities: ServerCapabilities,
    pub server_info: ServerInfo,
}

/// One MCP tool: an activation method under the name `namespace.method`.
/// A missing `input_schema` stands for the empty-object schema.
#[derive(Debug)]
pub struct McpTool {
    pub name: String,
    pub description: Option<String>,
    pub input_schema: Option<serde_json::Value>,
}

/// The mathematical content of a tool entry.
#[verifier::ext_equal]
pub struct ToolView {
    pub name: Seq<char>,
    pub description: Option<Seq<char>>,
    pub has_input_schema: bool,
}

impl View for McpTool {
    type V = ToolView;

    open spec fn view(&self) -> ToolView {
        ToolView {
            name: self.name@,
            description: self.description.deep_view(),
            has_input_schema: self.input_schema is Some,
        }
    }
}

impl DeepView for McpTool {
    type V = ToolView;

    open spec fn deep_view(&self) -> ToolView {
        self.view()
    }
}

/// Parameters of `tools/list`.
#[derive(Debug, Clone, PartialEq, Eq)]
pub struct ToolsListParams {
    pub cursor: Option<String>,
}

/// The result of `tools/list`.
#[derive(Debug)]
pub struct ToolsListResult {
    pub tools: Vec<McpTool>,
    pub next_cursor: Option<String>,
}

/// Parameters of `tools/call`.
#[derive(Debug)]
pub struct ToolsCallParams {
    pub name: String,
    pub arguments: serde_json::Value,
}

/// One content item of a tool call result.
#[derive(Debug, Clone, PartialEq, Eq)]
pub enum ToolContent {
    Text { text: String },
    Image { data: String, mime_type: String },
    Resource { resource: ResourceContent },
}

/// The result of `tools/call`.
#[derive(Debug, Clone, PartialEq, Eq)]
pub struct ToolsCallResult {
    pub content: Vec<ToolContent>,
    pub is_error: bool,
}

/// One MCP resource.
#[derive(Debug, Clone, PartialEq, Eq)]
pub struct McpResource {
    pub uri: String,
    pub name: String,
    pub mime_type: Option<String>,
    pub description: Option<String>,
}

/// Resource content returned by `resources/read`.
#[derive(Debug, Clone, PartialEq, Eq)]
pub struct ResourceContent {
    pub uri: String,
    pub mime_type: Option<String>,
    pub text: Option<String>,
    pub blob: Option<String>,
}

/// The result of `resources/list`.
#[derive(Debug, Clone, PartialEq, Eq)]
pub struct ResourcesListResult {
    pub resources: Vec<McpResource>,
    pub next_cursor: Option<String>,
}

/// Parameters of `resources/read`.
#[derive(Debug, Clone, PartialEq, Eq)]
pub struct ResourcesReadParams {
    pub uri: String,
}

/// The result of `resources/read`.
#[derive(Debug, Clone, PartialEq, Eq)]
pub struct ResourcesReadResult {
    pub contents: Vec<ResourceContent>,
}

/// One MCP prompt.
#[derive(Debug, Clone, PartialEq, Eq)]
pub struct McpPrompt {
    pub name: String,
    pub description: Option<String>,
    pub arguments: Option<Vec<PromptArgument>>,
}

/// One declared prompt argument.
#[derive(Debug, Clone, PartialEq, Eq)]
pub struct PromptArgument {
    pub name: String,
    pub description: Option<String>,
    pub required: bool,
}

/// The result of `prompts/list`.
#[derive(Debug, Clone, PartialEq, Eq)]
pub struct PromptsListResult {
    pub prompts: Vec<McpPrompt>,
    pub next_cursor: Option<String>,
}

/// Parameters of `prompts/get`.
#[derive(Debug, Clone)]
pub struct PromptsGetParams {
    pub name: String,
    pub arguments: HashMap<String, String>,
}

/// One message content item of a prompt.
#[derive(Debug, Clone, PartialEq, Eq)]
pub enum MessageContent {
    Text { text: String },
    Image { data: String, mime_type: String },
    Resource { resource: ResourceContent },
}

/// One prompt message.
#[derive(Debug, Clone, PartialEq, Eq)]
pub struct PromptMessage {
    pub role: String,
    pub content: MessageContent,
}

/// The result of `prompts/get`.
#[derive(Debug, Clone, PartialEq, Eq)]
pub struct PromptsGetResult {
    pub description: Option<String>,
    pub messages: Vec<PromptMessage>,
}

/// Parameters of `notifications/cancelled`.
#[derive(Debug)]
pub struct CancelledParams {
    pub request_id: serde_json::Value,
    pub reason: Option<String>,
}

/// Progress notification parameters.
#[derive(Debug, Clone, PartialEq, Eq)]
pub struct ProgressParams {
    pub progress_token: String,
    pub progress: usize,
    pub total: Option<usize>,
    pub message: Option<String>,
}

/// A JSON-RPC 2.0 request; notifications carry no id.
#[derive(Debug)]
pub struct JsonRpcRequest {
    pub jsonrpc: String,
    pub id: Option<serde_json::Value>,
    pub method: String,
    pub params: serde_json::Value,
}

impl JsonRpcRequest {
    /// Whether this request is a notification: it has no id, so no response
    /// is owed.
    pub fn is_notification(&self) -> (r: bool)
        ensures
            r <==> self.id is None,
    {
        self.id.is_none()
    }
}

/// A JSON-RPC 2.0 response: exactly one of `result` and `error`.
#[derive(Debug)]
pub struct JsonRpcResponse {
    pub jsonrpc: String,
    pub id: serde_json::Value,
    pub result: Option<serde_json::Value>,
    pub error: Option<JsonRpcError>,
}

impl JsonRpcResponse {
    /// A success response carrying `result`.
    pub fn success(id: serde_json::Value, result: serde_json::Value) -> (r: Self)
        ensures
            r.jsonrpc@ == "2.0"@,
            r.id == id,
            r.result == Some(result),
            r.error is None,
    {
        JsonRpcResponse { jsonrpc: "2.0".to_owned(), id, result: Some(result), error: None }
    }

    /// An error response carrying `error`.
    pub fn error(id: serde_json::Value, error: JsonRpcError) -> (r: Self)
        ensures
            r.jsonrpc@ == "2.0"@,
            r.id == id,
            r.result is None,
            (r.error matches Some(e) && e.code == error.code && e.message@ == error.message@),
    {
        JsonRpcResponse { jsonrpc: "2.0".to_owned(), id, result: None, error: Some(error) }
    }
}

/// A JSON-RPC 2.0 notification: a method and parameters, no id.
#[derive(Debug)]
pub struct JsonRpcNotification {
    pub jsonrpc: String,
    pub method: String,
    pub params: serde_json::Value,
}

impl JsonRpcNotification {
    /// A notification for `method` with the given parameters.
    pub fn new(method: &str, params: serde_json::Value) -> (r: Self)
        ensures
            r.jsonrpc@ == "2.0"@,
            r.method@ == method@,
            r.params == params,
    {
        JsonRpcNotification { jsonrpc: "2.0".to_owned(), method: method.to_owned(), params }
    }
}

/// The protocol versions this server speaks.
pub open spec fn version_supported(v: Seq<char>) -> bool {
    v == "2024-11-05"@ || v == "2025-03-26"@
}

/// Whether the server speaks protocol version `v`.
pub fn is_supported_version(v: &str) -> (r: bool)
    ensures
        r == version_supported(v@),
{
    crate::strutil::str_eq(v, "2024-11-05") || crate::strutil::str_eq(v, "2025-03-26")
}

} // verus!
