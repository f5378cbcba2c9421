//! Context dispatcher of a proxy-side Wasm plugin runtime.
//!
//! The host drives the plugin through numbered contexts: a parentless root
//! context per plugin configuration, and stream or HTTP child contexts under
//! a root.  This crate keeps the registry that maps each live context id to
//! the handler that owns it, decides which kind of handler a newly created
//! context receives, routes host events to the owning handler, and
//! correlates asynchronous callout tokens back to the context that issued
//! them.

pub mod bytestring;
pub mod codec;
pub mod correlator;
pub mod dispatcher;
pub mod error;
pub mod traits;
pub mod types;
