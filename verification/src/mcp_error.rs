//! MCP-layer errors with their fixed JSON-RPC 2.0 codes.

use vstd::prelude::*;
use vstd::string::*;

use crate::jsonval;
use crate::mcp_state::McpStateError;

verus! {

/// The standard JSON-RPC 2.0 error codes used by this server.
#[derive(Debug, Clone, Copy, PartialEq, Eq, Structural)]
pub enum ErrorCode {
    /// Invalid JSON was received: -32700.
    ParseError,
    /// The payload is not a valid request object: -32600.
    InvalidRequest,
    /// The method does not exist: -32601.
    MethodNotFound,
    /// Invalid method parameters: -32602.
    InvalidParams,
    /// Internal error: -32603.
    InternalError,
    /// Server not initialized: -32002.
    ServerNotInitialized,
    /// Request cancelled: -32800.
    RequestCancelled,
}

/// The integer value of an error code.
pub open spec fn error_code_value(c: ErrorCode) -> int {
    match c {
        ErrorCode::ParseError => -32700,
        ErrorCode::InvalidRequest => -32600,
        ErrorCode::MethodNotFound => -32601,
        ErrorCode::InvalidParams => -32602,
        ErrorCode::InternalError => -32603,
        ErrorCode::ServerNotInitialized => -32002,
        ErrorCode::RequestCancelled => -32800,
    }
}

impl ErrorCode {
    /// The integer carried on the wire for this code.
    pub fn value(&self) -> (r: i32)
        ensures
            r as int == error_code_value(*self),
    {
        match self {
            ErrorCode::ParseError => -32700,
            ErrorCode::InvalidRequest => -32600,
            ErrorCode::MethodNotFound => -32601,
            ErrorCode::InvalidParams => -32602,
            ErrorCode::InternalError => -32603,
            ErrorCode::ServerNotInitialized => -32002,
            ErrorCode::RequestCancelled => -32800,
        }
    }
}

/// The MCP error catalog.
#[derive(Debug, Clone, PartialEq, Eq)]
pub enum McpError {
    /// No handler for the method name.
    MethodNotFound(String),
    /// The parameters are malformed or missing.
    InvalidParams(String),
    /// A lifecycle violation.
    State(McpStateError),
    /// The client asked for a protocol version this server does not speak.
    UnsupportedVersion(String),
    /// No tool under that name.
    ToolNotFound(String),
    /// No resource under that URI.
    ResourceNotFound(String),
    /// No prompt under that name.
    PromptNotFound(String),
    /// An unexpected internal failure.
    Internal(String),
    /// The method exists but is not implemented.
    NotImplemented(String),
    /// A payload could not be serialized or deserialized.
    Serialization(String),
}

/// The mathematical content of an MCP error.
#[verifier::ext_equal]
pub enum McpErrorView {
    MethodNotFound { method: Seq<char> },
    InvalidParams { message: Seq<char> },
    State { error: McpStateError },
    UnsupportedVersion { version: Seq<char> },
    ToolNotFound { name: Seq<char> },
    ResourceNotFound { uri: Seq<char> },
    PromptNotFound { name: Seq<char> },
    Internal { message: Seq<char> },
    NotImplemented { method: Seq<char> },
    Serialization { message: Seq<char> },
}

impl View for McpError {
    type V = McpErrorView;

    open spec fn view(&self) -> McpErrorView {
        match self {
            McpError::MethodNotFound(m) => McpErrorView::MethodNotFound { method: m@ },
            McpError::InvalidParams(m) => McpErrorView::InvalidParams { message: m@ },
            McpError::State(e) => McpErrorView::State { error: *e },
            McpError::UnsupportedVersion(v) => McpErrorView::UnsupportedVersion { version: v@ },
            McpError::ToolNotFound(n) => McpErrorView::ToolNotFound { name: n@ },
            McpError::ResourceNotFound(u) => McpErrorView::ResourceNotFound { uri: u@ },
            McpError::PromptNotFound(n) => McpErrorView::PromptNotFound { name: n@ },
            McpError::Internal(m) => McpErrorView::Internal { message: m@ },
            McpError::NotImplemented(m) => McpErrorView::NotImplemented { method: m@ },
            McpError::Serialization(m) => McpErrorView::Serialization { message: m@ },
        }
    }
}

/// The JSON-RPC code of an MCP error: dispatch and lookup failures are
/// invalid-params, lifecycle violations are server-not-initialized when the
/// server is not ready and invalid-request otherwise.
pub open spec fn mcp_error_code(e: McpErrorView) -> int {
    match e {
        McpErrorView::MethodNotFound { .. } => error_code_value(ErrorCode::MethodNotFound),
        McpErrorView::InvalidParams { .. } => error_code_value(ErrorCode::InvalidParams),
        McpErrorView::State { error } => match error {
            McpStateError::NotReady { .. } => error_code_value(ErrorCode::ServerNotInitialized),
            _ => error_code_value(ErrorCode::InvalidRequest),
        },
        McpErrorView::UnsupportedVersion { .. } => error_code_value(ErrorCode::InvalidParams),
        McpErrorView::ToolNotFound { .. } => error_code_value(ErrorCode::InvalidParams),
        McpErrorView::ResourceNotFound { .. } => error_code_value(ErrorCode::InvalidParams),
        McpErrorView::PromptNotFound { .. } => error_code_value(ErrorCode::InvalidParams),
        McpErrorView::Internal { .. } => error_code_value(ErrorCode::InternalError),
        McpErrorView::NotImplemented { .. } => error_code_value(ErrorCode::MethodNotFound),
        McpErrorView::Serialization { .. } => error_code_value(ErrorCode::ParseError),
    }
}

/// The state-machine error messages, rendered without the state names.
pub open spec fn mcp_state_error_text(e: McpStateError) -> Seq<char> {
    match e {
        McpStateError::InvalidTransition { .. } => "Invalid state transition"@,
        McpStateError::WrongState { .. } => "Wrong state for this operation"@,
        McpStateError::NotReady { .. } => "Server not ready"@,
    }
}

/// The rendered message of an MCP error.
pub open spec fn mcp_error_text(e: McpErrorView) -> Seq<char> {
    match e {
        McpErrorView::MethodNotFound { method } => "Method not found: "@ + method,
        McpErrorView::InvalidParams { message } => "Invalid params: "@ + message,
        McpErrorView::State { error } => "State error: "@ + mcp_state_error_text(error),
        McpErrorView::UnsupportedVersion { version } => "Unsupported protocol version: "@
            + version,
        McpErrorView::ToolNotFound { name } => "Tool not found: "@ + name,
        McpErrorView::ResourceNotFound { uri } => "Resource not found: "@ + uri,
        McpErrorView::PromptNotFound { name } => "Prompt not found: "@ + name,
        McpErrorView::Internal { message } => "Internal error: "@ + message,
        McpErrorView::NotImplemented { method } => "Not implemented: "@ + method,
        McpErrorView::Serialization { message } => "Serialization error: "@ + message,
    }
}

impl McpError {
    /// The JSON-RPC error code of this error.
    pub fn code(&self) -> (r: i32)
        ensures
            r as int == mcp_error_code(self@),
    {
        match self {
            McpError::MethodNotFound(_) => ErrorCode::MethodNotFound.value(),
            McpError::InvalidParams(_) => ErrorCode::InvalidParams.value(),
            McpError::State(e) => match e {
                McpStateError::NotReady { .. } => ErrorCode::ServerNotInitialized.value(),
                _ => ErrorCode::InvalidRequest.value(),
            },
            McpError::UnsupportedVersion(_) => ErrorCode::InvalidParams.value(),
            McpError::ToolNotFound(_) => ErrorCode::InvalidParams.value(),
            McpError::ResourceNotFound(_) => ErrorCode::InvalidParams.value(),
            McpError::PromptNotFound(_) => ErrorCode::InvalidParams.value(),
            McpError::Internal(_) => ErrorCode::InternalError.value(),
            McpError::NotImplemented(_) => ErrorCode::MethodNotFound.value(),
            McpError::Serialization(_) => ErrorCode::ParseError.value(),
        }
    }

    /// The human-readable message of this error.
    pub fn message(&self) -> (r: String)
        ensures
            r@ == mcp_error_text(self@),
    {
        match self {
            McpError::MethodNotFound(m) => prefixed("Method not found: ", m),
            McpError::InvalidParams(m) => prefixed("Invalid params: ", m),
            McpError::State(e) => {
                let mut out = String::new();
                out.append("State error: ");
                match e {
                    McpStateError::InvalidTransition { .. } => {
                        out.append("Invalid state transition")
                    },
                    McpStateError::WrongState { .. } => out.append(
                        "Wrong state for this operation",
                    ),
                    McpStateError::NotReady { .. } => out.append("Server not ready"),
                }
                proof {
                    assert(out@ =~= mcp_error_text(self@));
                }
                out
            },
            McpError::UnsupportedVersion(v) => prefixed("Unsupported protocol version: ", v),
            McpError::ToolNotFound(n) => prefixed("Tool not found: ", n),
            McpError::ResourceNotFound(u) => prefixed("Resource not found: ", u),
            McpError::PromptNotFound(n) => prefixed("Prompt not found: ", n),
            McpError::Internal(m) => prefixed("Internal error: ", m),
            McpError::NotImplemented(m) => prefixed("Not implemented: ", m),
            McpError::Serialization(m) => prefixed("Serialization error: ", m),
        }
    }

    /// The JSON-RPC error object for this error: its code, its message, no
    /// data.
    pub fn to_json_rpc_error(&self) -> (r: JsonRpcError)
        ensures
            r.code as int == mcp_error_code(self@),
            r.message@ == mcp_error_text(self@),
            r.data is None,
    {
        JsonRpcError { code: self.code(), message: self.message(), data: None }
    }
}

/// A prefix literal followed by the payload.
fn prefixed(prefix: &str, payload: &String) -> (r: String)
    ensures
        r@ == prefix@ + payload@,
{
    let mut out = String::new();
    out.append(prefix);
    out.append(payload.as_str());
    out
}

/// A JSON-RPC 2.0 error object.
#[derive(Debug)]
pub struct JsonRpcError {
    pub code: i32,
    pub message: String,
    pub data: Option<serde_json::Value>,
}

impl Clone for JsonRpcError {
    fn clone(&self) -> (r: Self)
        ensures
            r.code == self.code,
            r.message@ == self.message@,
            r.data is Some <==> self.data is Some,
    {
        JsonRpcError {
            code: self.code,
            message: self.message.clone(),
            data: match &self.data {
                Some(v) => Some(jsonval::clone_value(v)),
                None => None,
            },
        }
    }
}

} // verus!
