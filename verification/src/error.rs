use vstd::prelude::*;

use crate::types::Status;

verus! {

/// A violation of the identifier-lifecycle contract between the host and
/// the plugin.  Every variant identifies the offending id or token.  These
/// are not recoverable: the caller is expected to abort the execution unit
/// after reporting the diagnostic.
#[derive(Clone, Copy, Debug, PartialEq, Eq, Structural)]
pub enum FatalError {
    /// A context was created under an id that is still live in one of the
    /// three handler tables.
    DuplicateContextId { context_id: u32 },
    /// A child context referenced a parent id that is not a registered root.
    InvalidRootContextId { root_context_id: u32 },
    /// An event was routed to an id that is live in none of the tables.
    InvalidContextId { context_id: u32 },
    /// No construction strategy applied and the parent root reported no
    /// expected child kind.
    MissingContextType { root_context_id: u32 },
    /// The parent root announced an HTTP child kind but then declined to
    /// synthesize the handler.
    HttpChildDeclined { context_id: u32 },
    /// The parent root announced a stream child kind but then declined to
    /// synthesize the handler.
    StreamChildDeclined { context_id: u32 },
    /// A callout token was registered while still outstanding.
    DuplicateToken { token_id: u32 },
    /// A callout response arrived for a token that was never registered or
    /// was already consumed.
    UnknownToken { token_id: u32 },
}

/// Failure to decode a payload that the host handed back from a capability
/// call.
#[derive(Clone, Copy, Debug, PartialEq, Eq, Structural)]
pub enum DecodeError {
    /// The payload ended before the structure it announces.
    Truncated,
}

/// An outbound host capability call returned a non-success status.
#[derive(Debug)]
pub struct HostCallError<'a> {
    pub function: &'a str,
    pub status: Status,
}

impl<'a> HostCallError<'a> {
    /// Records that the host ABI function `function` failed with `status`.
    pub fn new(function: &'a str, status: Status) -> (e: Self)
        ensures
            e.function@ == function@,
            e.status == status,
    {
        HostCallError { function, status }
    }

    /// The Wasm module that hosts every ABI import.
    pub fn module(&self) -> (m: &'a str)
        ensures
            m@ == "env"@,
    {
        "env"
    }

    /// The name of the host ABI function that failed.
    pub fn function(&self) -> (f: &'a str)
        ensures
            f@ == self.function@,
    {
        self.function
    }

    /// The status code the host returned.
    pub fn status(&self) -> (s: Status)
        ensures
            s == self.status,
    {
        self.status
    }
}

/// A host capability call succeeded, but its payload could not be decoded.
#[derive(Debug)]
pub struct HostResponseError<'a> {
    pub function: &'a str,
    pub error: DecodeError,
}

impl<'a> HostResponseError<'a> {
    /// Records that the payload returned by the host ABI function
    /// `function` failed to decode with `error`.
    pub fn new(function: &'a str, error: DecodeError) -> (e: Self)
        ensures
            e.function@ == function@,
            e.error == error,
    {
        HostResponseError { function, error }
    }

    /// The Wasm module that hosts every ABI import.
    pub fn module(&self) -> (m: &'a str)
        ensures
            m@ == "env"@,
    {
        "env"
    }

    /// The name of the host ABI function whose payload failed to decode.
    pub fn function(&self) -> (f: &'a str)
        ensures
            f@ == self.function@,
    {
        self.function
    }

    /// The decoding failure itself.
    pub fn error(&self) -> (e: DecodeError)
        ensures
            e == self.error,
    {
        self.error
    }
}

} // verus!
