//! The process invoker's decision layer.
//!
//! The bridge owns one worker process per call: spawn, feed the request,
//! await exit under a bound, interpret what came back. The spawning and
//! waiting are operating-system work done by the surrounding program; every
//! decision along the way — when to attach an input channel, when a wait
//! has become a timeout that must kill the child, and what a completed
//! invocation means — is made and proved here.

use vstd::prelude::*;
use vstd::string::StringSliceAdditionalSpecFns;

use crate::encode::enc;
use crate::envelope::{
    envelope_data, envelope_error_message, envelope_result, envelope_shape_ok, envelope_success,
};
use crate::parse::decode_value;
use crate::value::{str_bytes, wf, Json, Jv};
use crate::BridgeError;

verus! {

/// Everything the operating-system layer needs to run one invocation.
pub struct InvocationPlan {
    /// The interpreter to launch.
    pub program: Vec<u8>,
    /// The resolved worker artifact, handed to the interpreter.
    pub script_path: Vec<u8>,
    /// The serialized request, if the operation has one.
    pub input: Option<Vec<u8>>,
    /// Greatest wait for the whole invocation, in milliseconds.
    pub timeout_ms: u64,
}

impl InvocationPlan {
    /// The worker's input channel is attached exactly when a request body
    /// exists: a worker that reads nothing must not be handed a channel it
    /// never drains, and a worker that reads to end-of-input must see the
    /// channel closed after the one write.
    pub open spec fn attaches_stdin(self) -> bool {
        self.input is Some
    }
}

/// Plan one invocation of the worker at `script_path`.
pub fn plan_invocation(script_path: Vec<u8>, input: Option<Vec<u8>>, timeout_ms: u64) -> (p:
    InvocationPlan)
    ensures
        p.program@ == "python3".spec_bytes(),
        p.script_path == script_path,
        p.input == input,
        p.timeout_ms == timeout_ms,
        p.attaches_stdin() <==> input is Some,
{
    InvocationPlan { program: str_bytes("python3"), script_path, input, timeout_ms }
}


/// A cap on simultaneously live worker invocations: callers admit one
/// invocation before spawning and release it when the process is gone, so
/// that the number of live children never grows past the cap; excess calls
/// are queued by the caller instead.
pub struct InvocationBudget {
    /// Invocations admitted and not yet released.
    pub live: u64,
    /// The greatest number of invocations admitted at once.
    pub cap: u64,
}

impl InvocationBudget {
    /// The budget never counts more live invocations than its cap.
    pub open spec fn wf(self) -> bool {
        self.live <= self.cap
    }

    pub fn new(cap: u64) -> (r: InvocationBudget)
        ensures
            r.wf(),
            r.live == 0,
            r.cap == cap,
    {
        InvocationBudget { live: 0, cap }
    }

    /// Admit one invocation if the cap allows it.
    pub fn try_admit(&mut self) -> (admitted: bool)
        requires
            old(self).wf(),
        ensures
            final(self).wf(),
            final(self).cap == old(self).cap,
            admitted == (old(self).live < old(self).cap),
            admitted ==> final(self).live == old(self).live + 1,
            !admitted ==> final(self).live == old(self).live,
    {
        if self.live < self.cap {
            self.live = self.live + 1;
            true
        } else {
            false
        }
    }

    /// Release one admitted invocation; on an empty budget nothing moves.
    pub fn release(&mut self)
        requires
            old(self).wf(),
        ensures
            final(self).wf(),
            final(self).cap == old(self).cap,
            final(self).live == if old(self).live > 0 {
                old(self).live - 1
            } else {
                0
            },
    {
        if self.live > 0 {
            self.live = self.live - 1;
        }
    }
}

/// What the bounded wait does next.
#[derive(Debug, PartialEq, Eq)]
pub enum WaitStep {
    /// The worker exited with this status; collect its output.
    Finished(i32),
    /// The bound has passed: kill the child now and report a timeout, so
    /// that no worker process outlives its call.
    KillAndTimeout,
    /// Keep waiting.
    KeepWaiting,
}

/// Decide one step of the bounded wait on a running worker.
pub fn wait_step(timeout_ms: u64, elapsed_ms: u64, exit: Option<i32>) -> (r: WaitStep)
    ensures
        exit matches Some(c) ==> r == WaitStep::Finished(c),
        exit is None && elapsed_ms >= timeout_ms ==> r == WaitStep::KillAndTimeout,
        exit is None && elapsed_ms < timeout_ms ==> r == WaitStep::KeepWaiting,
{
    match exit {
        Option::Some(c) => WaitStep::Finished(c),
        Option::None => {
            if elapsed_ms >= timeout_ms {
                WaitStep::KillAndTimeout
            } else {
                WaitStep::KeepWaiting
            }
        },
    }
}

/// The failure that a timed-out invocation reports.
pub fn timeout_error(timeout_ms: u64) -> (r: BridgeError)
    ensures
        r == BridgeError::Timeout(timeout_ms),
{
    BridgeError::Timeout(timeout_ms)
}

/// Interpret a completed invocation.
///
/// A non-zero exit is an execution fault carrying the captured error
/// channel; its standard output is never decoded, since a crashed worker's
/// output is not trustworthy. On a zero exit the output is decoded and held
/// to the envelope contract; the quantified clause pins the result on every
/// canonically encoded answer.
pub fn interpret_output(exit_code: i32, stdout: Vec<u8>, stderr: Vec<u8>) -> (r: Result<
    Json,
    BridgeError,
>)
    ensures
        exit_code != 0 ==> r == Err::<Json, BridgeError>(
            BridgeError::ExecutionError(exit_code, stderr),
        ),
        exit_code == 0 ==> (r matches Ok(d) ==> wf(d@)),
        exit_code == 0 ==> (r matches Err(e) ==> (e is MalformedResponse || e is Application)),
        forall|v0: Jv|
            exit_code == 0 && wf(v0) && stdout@ == #[trigger] enc(v0) ==> ((!envelope_shape_ok(v0)
                ==> (r matches Err(e) && e is MalformedResponse)) && (envelope_shape_ok(v0)
                && envelope_success(v0) ==> (r matches Ok(d) && d@ == envelope_data(v0))) && (
            envelope_shape_ok(v0) && !envelope_success(v0) ==> (r matches Err(e) && e matches
                BridgeError::Application(m) && m@ == envelope_error_message(v0)))),
{
    if exit_code != 0 {
        return Err(BridgeError::ExecutionError(exit_code, stderr));
    }
    let parsed = decode_value(&stdout);
    envelope_result(parsed, stdout)
}

} // verus!
