//! One turn of the server: from a message that came in to the message that
//! goes back.

use vstd::prelude::*;
use crate::codec::{
    decode_request, decoded_request, encode_response, lemma_request_round_trip, request_bytes,
    response_bytes, CodecError, Message,
};
use crate::pomodoro_clock::{PomodoroClock, Request, Response, StateError};
use crate::socket::ServerAction;
use crate::time::Instant;

verus! {

/// Why a message got no answer.
#[derive(Clone, Copy, Debug, PartialEq, Eq, Structural)]
pub enum ServerError {
    /// The message is no request. The server drops it and goes on.
    Codec(CodecError),
    /// The timer has no cycle, or holds spans that no longer fit.
    NotReady,
    /// The request could not be carried out.
    State(StateError),
}

/// What the server does after a request: the message to send back, where
/// there is one, and whether to end.
#[derive(Debug, PartialEq, Eq)]
pub struct Turn {
    pub reply: Option<Vec<u8>>,
    pub stop: bool,
}

/// The turn that carries out `action`: its answer as a message, and its word
/// on whether the server ends.
pub open spec fn carries_out(turn: Turn, action: ServerAction<Response>) -> bool {
    &&& turn.stop == action.ends()
    &&& match action.answer() {
        Some(answer) => turn.reply matches Some(bytes) && bytes@ == response_bytes(answer@),
        None => turn.reply is None,
    }
}

/// What one message at `now` makes of the timer, and what comes back. A
/// message that is no request, and a request for which the timer is not
/// ready, change nothing.
pub open spec fn handled(
    before: PomodoroClock,
    message: Seq<u8>,
    now: Instant,
    after: PomodoroClock,
    r: Result<Turn, ServerError>,
) -> bool {
    match decoded_request(message) {
        Err(error) => after == before && r == Err::<Turn, ServerError>(ServerError::Codec(error)),
        Ok(request) => if !before.accepts(request, now) {
            after == before && r == Err::<Turn, ServerError>(ServerError::NotReady)
        } else {
            exists|outcome: Result<ServerAction<Response>, StateError>| #[trigger]
                before.updated(request, now, after, outcome) && match outcome {
                    Ok(action) => r matches Ok(turn) && carries_out(turn, action),
                    Err(error) => r == Err::<Turn, ServerError>(ServerError::State(error)),
                }
        },
    }
}

/// Reads one message as a request, carries it out on the timer at `now`, and
/// writes the answer.
pub fn handle_message(timer: &mut PomodoroClock, message: &[u8], now: Instant) -> (r: Result<
    Turn,
    ServerError,
>)
    ensures
        handled(*old(timer), message@, now, *final(timer), r),
{
    let request = match decode_request(message) {
        Ok(request) => request,
        Err(error) => { return Err(ServerError::Codec(error)); },
    };
    if !timer.ready_for(&request, now) {
        return Err(ServerError::NotReady);
    }
    let ghost before = *timer;
    let outcome = timer.update(&request, now);
    assert(before.updated(request, now, *timer, outcome));
    match outcome {
        Ok(action) => {
            let stop = action.stops();
            let reply = match action.response() {
                Some(response) => match encode_response(response) {
                    Ok(bytes) => Some(bytes),
                    Err(error) => { return Err(ServerError::Codec(error)); },
                },
                None => None,
            };
            Ok(Turn { reply, stop })
        },
        Err(error) => Err(ServerError::State(error)),
    }
}

/// A `Stop` that comes in is confirmed, ends the server, and leaves the
/// clock as it was.
pub proof fn lemma_stop_is_confirmed_and_ends(
    before: PomodoroClock,
    now: Instant,
    after: PomodoroClock,
    r: Result<Turn, ServerError>,
)
    requires
        handled(before, request_bytes(Request::Stop), now, after, r),
    ensures
        r matches Ok(turn) && turn.stop && (turn.reply matches Some(bytes) && bytes@
            == response_bytes(Message::Confirmed)),
        after.clock == before.clock,
{
    lemma_request_round_trip(Request::Stop);
}

/// Every request but `Stop` that is carried out is answered and lets the
/// server go on.
pub proof fn lemma_other_requests_go_on(
    before: PomodoroClock,
    request: Request,
    now: Instant,
    after: PomodoroClock,
    r: Result<Turn, ServerError>,
)
    requires
        request != Request::Stop,
        handled(before, request_bytes(request), now, after, r),
        r is Ok,
    ensures
        r matches Ok(turn) && !turn.stop && turn.reply is Some,
{
    lemma_request_round_trip(request);
}

} // verus!
