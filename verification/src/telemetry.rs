//! The closed event vocabulary of the train/merge telemetry protocol.
use vstd::prelude::*;

verus! {

#[derive(Debug, Clone, Copy, PartialEq, Eq, Structural)]
pub enum EventName {
    Starting,
    Epoch,
    Checkpoint,
    Eval,
    Stage,
    Done,
    Error,
}

impl EventName {
    /// `Done` and `Error` end an operation.
    pub fn is_terminal(&self) -> (b: bool)
        ensures
            b == (*self == EventName::Done || *self == EventName::Error),
    {
        matches!(self, EventName::Done | EventName::Error)
    }
}

} // verus!
