//! The decision logic of an MCP gateway runtime.
use vstd::prelude::*;

pub mod claim_key;
pub mod clock;
pub mod context;
pub mod handlers;
pub mod idempotency;
pub mod idempotency_ops;
pub mod identity;
pub mod identity_plugin;
pub mod inspector_identity;
pub mod invocation;
pub mod json;
pub mod jwt;
pub mod message_dispatcher;
pub mod notes;
pub mod order;
pub mod outside;
pub mod ping_driver;
pub mod policy;
pub mod policy_eval;
pub mod policy_gate;
pub mod protocol;
pub mod quota_gate;
pub mod runtime;
pub mod table;
pub mod text;
pub mod token_text;

verus! {

} // verus!
