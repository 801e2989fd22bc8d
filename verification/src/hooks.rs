//! Hooks: observers invoked at fixed points of request processing, and the
//! verdict each of them returns.

use vstd::prelude::*;

verus! {

/// Trait for hooks that are invoked when a request is received.
///
/// Implementors define their own `Request` and `HookResult` types. Nothing
/// is assumed of what an implementation returns.
pub trait OnRequestReceived: Send + Sync {
    /// The type representing a request.
    type Request: Send + Sync;

    /// The type representing the result of the hook execution.
    type HookResult: Send + Sync;

    /// Invoked when a request is received; the result says how to proceed.
    fn on_request_received(&self, request: &Self::Request) -> Self::HookResult;
}

/// Trait for hooks that are invoked when a request has been executed.
pub trait OnRequestExecuted: Send + Sync {
    type Request: Send + Sync;

    type Response: Send + Sync;

    type HookResult;

    /// Invoked with the request and the response it produced.
    fn on_request_executed(
        &self,
        request: &Self::Request,
        response: &Self::Response,
    ) -> Self::HookResult;
}

/// Trait for hooks that are invoked before a response is sent.
pub trait BeforeResponseSend: Send + Sync {
    type Response: Send + Sync;

    type HookResult;

    fn before_response_send(&self, response: &mut Self::Response) -> Self::HookResult;
}

/// Trait for hooks that are invoked after a response was sent.
pub trait AfterResponseSend: Send + Sync {
    type Response: Send + Sync;

    type HookResult;

    fn after_response_send(&self, response: &Self::Response) -> Self::HookResult;
}

/// A base hook result type that can be used by hook implementations.
pub enum BaseHookResult<Req: Send + Sync, Resp: Send + Sync, E> {
    /// Continue with normal processing.
    Continue,
    /// Stop further processing.
    StopProcessing,
    /// Replace the current request with a modified one.
    ModifyRequest(Req),
    /// Replace the current response with a modified one.
    ModifyResponse(Resp),
    /// An error occurred during hook execution.
    Error(E),
}

} // verus!
