use vstd::prelude::*;

use crate::types::{Action, ContextType, PeerType};

verus! {

/// Operations shared by every handler role: lifecycle notifications and the
/// response to an asynchronous outbound call.  Every operation defaults to a
/// no-op so an implementor overrides only what it needs.
pub trait Context {
    /// The host asks whether this context may be destroyed.
    fn on_done(&mut self) -> bool {
        true
    }

    /// The host delivers the final log event of this context.
    fn on_log(&mut self) {
    }

    /// The response to an outbound call this context issued has arrived.
    fn on_http_call_response(
        &mut self,
        token_id: u32,
        num_headers: usize,
        body_size: usize,
        num_trailers: usize,
    ) {
    }
}

/// Handler of a root (parentless) context: plugin-level configuration and
/// lifecycle, plus the ad-hoc synthesis of child handlers.
pub trait RootContext<S: StreamContext, H: HttpContext>: Context {
    /// The Wasm virtual machine holding this plugin has started.
    fn on_vm_start(&mut self, vm_configuration_size: usize) -> bool {
        true
    }

    /// A plugin configuration has been delivered.
    fn on_configure(&mut self, plugin_configuration_size: usize) -> bool {
        true
    }

    /// The periodic timer of this root fired.
    fn on_tick(&mut self) {
    }

    /// A shared queue this root registered has data ready.
    fn on_queue_ready(&mut self, queue_id: u32) {
    }

    /// Synthesize the handler for a new HTTP child context, or decline.
    fn create_http_context(&mut self, context_id: u32) -> Option<H> {
        None
    }

    /// Synthesize the handler for a new stream child context, or decline.
    fn create_stream_context(&mut self, context_id: u32) -> Option<S> {
        None
    }

    /// The kind of child context this root expects to parent, if it
    /// announces one.
    fn get_type(&self) -> Option<ContextType> {
        None
    }
}

/// Handler of a network-stream child context.
pub trait StreamContext: Context {
    /// A new downstream connection was accepted.
    fn on_new_connection(&mut self) -> Action {
        Action::Continue
    }

    /// Data arrived from the downstream peer.
    fn on_downstream_data(&mut self, data_size: usize, end_of_stream: bool) -> Action {
        Action::Continue
    }

    /// The downstream side of the connection closed.
    fn on_downstream_close(&mut self, peer_type: PeerType) {
    }

    /// Data arrived from the upstream peer.
    fn on_upstream_data(&mut self, data_size: usize, end_of_stream: bool) -> Action {
        Action::Continue
    }

    /// The upstream side of the connection closed.
    fn on_upstream_close(&mut self, peer_type: PeerType) {
    }
}

/// Handler of an HTTP-stream child context.
pub trait HttpContext: Context {
    /// Request headers arrived from the client.
    fn on_http_request_headers(&mut self, num_headers: usize, end_of_stream: bool) -> Action {
        Action::Continue
    }

    /// A chunk of the request body arrived.
    fn on_http_request_body(&mut self, body_size: usize, end_of_stream: bool) -> Action {
        Action::Continue
    }

    /// Request trailers arrived.
    fn on_http_request_trailers(&mut self, num_trailers: usize) -> Action {
        Action::Continue
    }

    /// Response headers arrived from the upstream.
    fn on_http_response_headers(&mut self, num_headers: usize, end_of_stream: bool) -> Action {
        Action::Continue
    }

    /// A chunk of the response body arrived.
    fn on_http_response_body(&mut self, body_size: usize, end_of_stream: bool) -> Action {
        Action::Continue
    }

    /// Response trailers arrived.
    fn on_http_response_trailers(&mut self, num_trailers: usize) -> Action {
        Action::Continue
    }
}

/// Produces the root handler for each newly created root context.
pub trait RootFactory<R> {
    /// Called once per new root context, with the id the host assigned.
    fn new_root_context(&mut self, context_id: u32) -> R;
}

/// Produces the stream handler for each newly created stream child context.
pub trait StreamFactory<S> {
    /// Called once per new stream child, with the child id and its parent
    /// root id.
    fn new_stream_context(&mut self, context_id: u32, root_context_id: u32) -> S;
}

/// Produces the HTTP handler for each newly created HTTP child context.
pub trait HttpFactory<H> {
    /// Called once per new HTTP child, with the child id and its parent
    /// root id.
    fn new_http_context(&mut self, context_id: u32, root_context_id: u32) -> H;
}

} // verus!
