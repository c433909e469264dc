//! Invocation requests and the events that listeners receive.

use vstd::prelude::*;
use vstd::string::*;

verus! {

/// What accompanies the payload of an invocation.
#[derive(Clone, Debug, PartialEq, Eq)]
pub struct RequestMetadata {
    /// Point in time, in milliseconds since the epoch, by which the caller
    /// wants an answer.
    pub deadline_ms: u64,
    /// Identifier that correlates the invocation with traces of it.
    pub trace_id: String,
}

/// One pending invocation of a function. `R` is the channel on which the
/// caller awaits the response; the scheduling core carries it along and
/// never looks inside.
#[derive(Debug, PartialEq, Eq)]
pub struct InvokeRequest<R> {
    /// Name of the function to invoke.
    pub function_name: String,
    /// The body to hand to the function.
    pub payload: Vec<u8>,
    pub metadata: RequestMetadata,
    /// Where the response goes.
    pub responder: R,
}

/// An event delivered to the listeners of a function.
#[derive(Clone, Debug, PartialEq, Eq)]
pub enum NextEvent {
    /// An invocation is on its way to the function.
    Invoke(RequestMetadata),
    /// The function is going away, for the reason given.
    Shutdown(String),
}

/// The text that follows the function's name in the reason for a shutdown.
pub open spec fn shutdown_suffix() -> Seq<char> {
    " function shutting down"@
}

/// The reason given to listeners when the function `name` goes away.
pub open spec fn shutdown_reason(name: Seq<char>) -> Seq<char> {
    name + shutdown_suffix()
}

impl RequestMetadata {
    /// A copy of this metadata.
    pub fn duplicate(&self) -> (copy: RequestMetadata)
        ensures
            copy == *self,
    {
        RequestMetadata { deadline_ms: self.deadline_ms, trace_id: self.trace_id.clone() }
    }
}

impl NextEvent {
    /// The event that announces a shutdown for the given reason.
    pub fn shutdown(reason: &str) -> (event: NextEvent)
        ensures
            event matches NextEvent::Shutdown(r) && r@ == reason@,
    {
        NextEvent::Shutdown(reason.to_owned())
    }

    /// The event that announces that the function `name` is shutting down.
    pub fn function_shutdown(name: &str) -> (event: NextEvent)
        ensures
            event matches NextEvent::Shutdown(r) && r@ == shutdown_reason(name@),
    {
        let reason: String = name.to_owned().concat(" function shutting down");
        NextEvent::Shutdown(reason)
    }

    /// A copy of this event.
    pub fn duplicate(&self) -> (copy: NextEvent)
        ensures
            copy == *self,
    {
        match self {
            NextEvent::Invoke(metadata) => NextEvent::Invoke(metadata.duplicate()),
            NextEvent::Shutdown(reason) => NextEvent::Shutdown(reason.clone()),
        }
    }
}

} // verus!
