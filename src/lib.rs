//! Decoding of JSON-RPC 2.0 request payloads into a typed request model.
//!
//! The input is an already-parsed JSON value tree ([`JsonValue`]). A call
//! object is classified by its shape alone: a notification, a method call,
//! or an invalid call. A top-level array is a batch of calls.
pub mod json;
pub mod request;
pub mod laws;

pub use json::{Id, JsonValue, Params, Version};
pub use request::{Call, MethodCall, Notification, Request};
