//! A streaming RPC hub: a registry of named activations reached through a
//! uniform streaming call protocol, with provenance-carrying stream envelopes,
//! a bidirectional request channel, and a Model Context Protocol front end.

pub mod bash_types;
pub mod bidir;
pub mod codec;
pub mod context;
pub mod envelope;
pub mod handle;
pub mod hash64;
pub mod interactive;
pub mod jsontext;
pub mod jsonval;
pub mod mcp_error;
pub mod mcp_router;
pub mod mcp_state;
pub mod mcp_types;
pub mod middleware;
pub mod order;
pub mod router;
pub mod streaming;
pub mod strutil;
