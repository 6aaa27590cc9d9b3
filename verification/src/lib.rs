//! A verified process-bridge library: structured requests for external worker
//! programs, a JSON envelope codec, and decoding of worker results.

use vstd::prelude::*;

pub mod encode;
pub mod envelope;
pub mod invoke;
pub mod lex;
pub mod ops;
pub mod parse;
pub mod requests;
pub mod resolver;
pub mod value;

verus! {

/// Errors a bridge call can surface to its caller. Each failure kind stays
/// distinct so callers can tell a worker-reported failure (`Application`)
/// from a fault in the bridge or the worker process itself.
#[derive(Debug, Clone, PartialEq, Eq)]
pub enum BridgeError {
    /// The resolver could not locate the worker artifact; carries the path tried.
    NotFound(Vec<u8>),
    /// The worker process could not be started; carries diagnostic text.
    SpawnError(Vec<u8>),
    /// Reading or writing a worker channel failed; carries diagnostic text.
    IoError(Vec<u8>),
    /// The worker exceeded the configured bound; carries the bound in milliseconds.
    Timeout(u64),
    /// The worker exited with a non-zero status; carries exit code and captured
    /// error-channel bytes.
    ExecutionError(i32, Vec<u8>),
    /// The worker exited zero but its output is not a valid envelope.
    MalformedResponse(Vec<u8>),
    /// The worker ran to completion and reported `success = false`; carries the
    /// reported message bytes.
    Application(Vec<u8>),
}

} // verus!
