//! What the signal handler does with each item of the signal stream.

use vstd::prelude::*;

verus! {

/// The signals the handler registers for.
#[derive(Debug, Clone, Copy, PartialEq, Eq, Structural)]
pub enum Signal {
    Term,
    Int,
}

/// The next item of the signal stream.
#[derive(Debug, Clone, Copy, PartialEq, Eq, Structural)]
pub enum SignalEvent {
    /// A signal arrived.
    Received(Signal),
    /// The stream reported an error.
    Failed,
    /// The stream ended.
    Closed,
}

/// What the handler does next.
#[derive(Debug, Clone, Copy, PartialEq, Eq, Structural)]
pub enum SignalAction {
    /// Tell the main task to stop, and end the handler.
    Stop,
    /// Wait for the next item.
    Wait,
    /// End the handler without telling the main task.
    End,
}

/// The handler stops on `SIGINT` or `SIGTERM`, ignores errors of the
/// stream, and ends silently when the stream ends.
pub fn on_signal_event(event: SignalEvent) -> (r: SignalAction)
    ensures
        r == match event {
            SignalEvent::Received(Signal::Int) | SignalEvent::Received(Signal::Term) => SignalAction::Stop,
            SignalEvent::Failed => SignalAction::Wait,
            SignalEvent::Closed => SignalAction::End,
        },
{
    match event {
        SignalEvent::Received(Signal::Int) | SignalEvent::Received(Signal::Term) => SignalAction::Stop,
        SignalEvent::Failed => SignalAction::Wait,
        SignalEvent::Closed => SignalAction::End,
    }
}

} // verus!
