//! A verified tool registry and call router.
//!
//! Tools are named capabilities with a declared input shape. A
//! [`router::ToolRouter`] maps tool names to routes, remembers which names
//! were registered at run time, and leads an incoming call to the handler that
//! serves it. What the router does is stated over [`registry::RouterView`],
//! the mathematical model of a registry, where the laws of the registry are
//! proved as well.
//!
//! A handler only starts a call: it hands back a pending result, whose type is
//! chosen by the caller and completed by the caller. Nothing in this crate
//! waits.

pub mod adapter;
mod entries;
pub mod handler;
pub mod json;
pub mod model;
pub mod registry;
pub mod route;
pub mod router;
mod text;
