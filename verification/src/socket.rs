//! What the server loop does with the outcome of one request.

use vstd::prelude::*;

verus! {

/// The largest message that one datagram carries, in bytes.
pub const MAX_UDP_PACKET_SIZE: usize = 65_535;

/// What the server does once a request has been handled.
#[derive(Clone, Debug)]
pub enum ServerAction<T> {
    /// Send the answer and wait for the next request.
    Respond(T),
    /// Send the answer, then end.
    StopRespond(T),
    /// End without an answer.
    Stop,
    /// Wait for the next request without an answer.
    Continue,
}

impl<T> ServerAction<T> {
    /// The answer to send, where there is one.
    pub open spec fn answer(self) -> Option<T> {
        match self {
            ServerAction::Respond(answer) => Some(answer),
            ServerAction::StopRespond(answer) => Some(answer),
            ServerAction::Stop => None,
            ServerAction::Continue => None,
        }
    }

    /// Whether the server ends after this action.
    pub open spec fn ends(self) -> bool {
        self is StopRespond || self is Stop
    }

    /// The answer to send, where there is one.
    pub fn response(&self) -> (r: Option<&T>)
        ensures
            match self.answer() {
                Some(answer) => r == Some(&answer),
                None => r is None,
            },
    {
        match self {
            ServerAction::Respond(answer) => Some(answer),
            ServerAction::StopRespond(answer) => Some(answer),
            ServerAction::Stop => None,
            ServerAction::Continue => None,
        }
    }

    /// Whether the server ends after this action.
    pub fn stops(&self) -> (r: bool)
        ensures
            r == self.ends(),
    {
        match self {
            ServerAction::StopRespond(_) => true,
            ServerAction::Stop => true,
            _ => false,
        }
    }
}

} // verus!
