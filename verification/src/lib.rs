//! A Layer 7 guard for Model Context Protocol traffic: the policy engine,
//! the JSON-RPC message model, the approval flow and the proxy decisions.
pub mod json;
pub mod pattern;
pub mod policy;
pub mod rpc;
pub mod hitl;
pub mod audit;
pub mod proxy;
pub mod text;
pub mod cli;
