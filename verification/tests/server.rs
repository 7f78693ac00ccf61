use pomidoro::clock::Clock;
use pomidoro::codec::{decode_response, encode_request, CodecError};
use pomidoro::config::Session;
use pomidoro::pomodoro_clock::{PomodoroClock, PomodoroState, Request, Response, StateError};
use pomidoro::server::{handle_message, ServerError, Turn};
use pomidoro::time::{Duration, Instant};

fn two_sessions() -> Vec<Session> {
    vec![
        Session { name: "work".into(), duration: Duration::from_secs(1500), time_format: None },
        Session { name: "rest".into(), duration: Duration::from_secs(300), time_format: Some("%S s".into()) },
    ]
}

fn at_secs(secs: u64) -> Instant {
    Instant::after_origin(Duration::from_secs(secs))
}

#[test]
fn stop_is_confirmed_and_ends_the_server() {
    let sessions = two_sessions();
    let mut timer = PomodoroClock::paused(sessions.iter().collect(), "%M:%S");
    let message = encode_request(&Request::Stop).unwrap();
    let turn = handle_message(&mut timer, &message, at_secs(1)).unwrap();
    assert_eq!(turn, Turn { reply: Some(vec![1, 0, 0, 0, 0, 0, 0, 0]), stop: true });
    assert_eq!(decode_response(&turn.reply.unwrap()), Ok(Response::Confirmation(Ok(()))));
    assert_eq!(timer.clock, Clock::Paused { elapsed: Duration::zero() });
}

#[test]
fn a_session_is_served_message_by_message() {
    let sessions = two_sessions();
    let mut timer = PomodoroClock::paused(sessions.iter().collect(), "%M:%S");
    let confirmed = Turn { reply: Some(vec![1, 0, 0, 0, 0, 0, 0, 0]), stop: false };

    let toggle = encode_request(&Request::Toggle).unwrap();
    assert_eq!(handle_message(&mut timer, &toggle, at_secs(10)), Ok(confirmed));

    let fetch = encode_request(&Request::Fetch).unwrap();
    let turn = handle_message(&mut timer, &fetch, at_secs(385)).unwrap();
    assert!(!turn.stop);
    assert_eq!(
        decode_response(&turn.reply.unwrap()),
        Ok(Response::State(PomodoroState {
            is_paused: false,
            time: "18:45".into(),
            session_name: "work".into(),
            session_duration: "25:00".into(),
            percent: 25,
        })),
    );

    let skip = encode_request(&Request::Skip).unwrap();
    let turn = handle_message(&mut timer, &skip, at_secs(385)).unwrap();
    assert!(!turn.stop);
    let turn = handle_message(&mut timer, &fetch, at_secs(400)).unwrap();
    assert_eq!(
        decode_response(&turn.reply.unwrap()),
        Ok(Response::State(PomodoroState {
            is_paused: false,
            time: "45 s".into(),
            session_name: "rest".into(),
            session_duration: "00 s".into(),
            percent: 5,
        })),
    );

    let reset = encode_request(&Request::Reset).unwrap();
    let turn = handle_message(&mut timer, &reset, at_secs(500)).unwrap();
    assert!(!turn.stop);
    assert_eq!(timer.clock, Clock::Paused { elapsed: Duration::zero() });
}

#[test]
fn a_message_that_is_no_request_changes_nothing() {
    let sessions = two_sessions();
    let mut timer = PomodoroClock::paused(sessions.iter().collect(), "%M:%S");
    assert_eq!(
        handle_message(&mut timer, &[1, 0], at_secs(1)),
        Err(ServerError::Codec(CodecError::Malformed)),
    );
    assert_eq!(
        handle_message(&mut timer, &[9, 0, 0, 0], at_secs(1)),
        Err(ServerError::Codec(CodecError::UnknownRequest(9))),
    );
    assert_eq!(timer.clock, Clock::Paused { elapsed: Duration::zero() });
}

#[test]
fn a_timer_without_sessions_is_not_ready() {
    let mut timer = PomodoroClock::paused(Vec::new(), "%M:%S");
    let fetch = encode_request(&Request::Fetch).unwrap();
    assert_eq!(handle_message(&mut timer, &fetch, at_secs(1)), Err(ServerError::NotReady));
    let skip = encode_request(&Request::Skip).unwrap();
    assert_eq!(handle_message(&mut timer, &skip, at_secs(1)), Err(ServerError::NotReady));
}

#[test]
fn a_clock_that_runs_backwards_fails_the_request() {
    let sessions = two_sessions();
    let mut timer = PomodoroClock {
        clock: Clock::Running { resumed: at_secs(10), offset: Duration::zero() },
        default_time_format: "%Y",
        sessions: sessions.iter().collect(),
    };
    let toggle = encode_request(&Request::Toggle).unwrap();
    assert_eq!(
        handle_message(&mut timer, &toggle, at_secs(9)),
        Err(ServerError::State(StateError::Clock)),
    );
    let fetch = encode_request(&Request::Fetch).unwrap();
    assert_eq!(
        handle_message(&mut timer, &fetch, at_secs(11)),
        Err(ServerError::State(StateError::Format)),
    );
    assert_eq!(timer.clock, Clock::Running { resumed: at_secs(10), offset: Duration::zero() });
}
