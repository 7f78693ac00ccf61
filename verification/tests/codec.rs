use pomidoro::codec::{decode_request, decode_response, encode_request, encode_response, CodecError};
use pomidoro::pomodoro_clock::{PomodoroState, Request, Response};
use pomidoro::socket::MAX_UDP_PACKET_SIZE;

fn sample_state() -> PomodoroState {
    PomodoroState {
        is_paused: true,
        time: "03:20".into(),
        session_name: "long rest \u{1F345}".into(),
        session_duration: "02:30".into(),
        percent: 42,
    }
}

#[test]
fn every_request_comes_back() {
    for request in [Request::Fetch, Request::Toggle, Request::Skip, Request::Reset, Request::Stop] {
        let bytes = encode_request(&request).unwrap();
        assert_eq!(bytes.len(), 4);
        assert_eq!(decode_request(&bytes), Ok(request));
    }
}

#[test]
fn request_bytes_are_the_variant_number() {
    assert_eq!(encode_request(&Request::Fetch), Ok(vec![0, 0, 0, 0]));
    assert_eq!(encode_request(&Request::Toggle), Ok(vec![1, 0, 0, 0]));
    assert_eq!(encode_request(&Request::Skip), Ok(vec![2, 0, 0, 0]));
    assert_eq!(encode_request(&Request::Reset), Ok(vec![3, 0, 0, 0]));
    assert_eq!(encode_request(&Request::Stop), Ok(vec![4, 0, 0, 0]));
    assert_eq!(Request::Stop.tag(), 4);
    assert_eq!(Request::from_tag(2), Some(Request::Skip));
    assert_eq!(Request::from_tag(5), None);
}

#[test]
fn bad_requests_are_rejected() {
    assert_eq!(decode_request(&[]), Err(CodecError::Malformed));
    assert_eq!(decode_request(&[1, 0, 0]), Err(CodecError::Malformed));
    assert_eq!(decode_request(&[5, 0, 0, 0]), Err(CodecError::UnknownRequest(5)));
    assert_eq!(decode_request(&[0, 1, 0, 0]), Err(CodecError::UnknownRequest(256)));
    assert_eq!(decode_request(&[4, 0, 0, 0, 9, 9]), Ok(Request::Stop));
}

#[test]
fn every_response_comes_back() {
    let responses = [
        Response::State(sample_state()),
        Response::Confirmation(Ok(())),
        Response::Confirmation(Err("no".into())),
        Response::Confirmation(Err(String::new())),
    ];
    for response in responses {
        let bytes = encode_response(&response).unwrap();
        assert!(bytes.len() <= MAX_UDP_PACKET_SIZE);
        assert_eq!(decode_response(&bytes), Ok(response));
    }
}

#[test]
fn response_bytes_are_laid_out_field_by_field() {
    assert_eq!(encode_response(&Response::Confirmation(Ok(()))), Ok(vec![1, 0, 0, 0, 0, 0, 0, 0]));
    assert_eq!(
        encode_response(&Response::Confirmation(Err("no".into()))),
        Ok(vec![1, 0, 0, 0, 1, 0, 0, 0, 2, 0, 0, 0, 0, 0, 0, 0, b'n', b'o']),
    );
    let state = PomodoroState {
        is_paused: true,
        time: "a".into(),
        session_name: "".into(),
        session_duration: "bc".into(),
        percent: 258,
    };
    let mut expected: Vec<u8> = vec![0, 0, 0, 0, 1];
    expected.extend([1, 0, 0, 0, 0, 0, 0, 0, b'a']);
    expected.extend([0, 0, 0, 0, 0, 0, 0, 0]);
    expected.extend([2, 0, 0, 0, 0, 0, 0, 0, b'b', b'c']);
    expected.extend([2, 1, 0, 0]);
    assert_eq!(encode_response(&Response::State(state)), Ok(expected));
}

#[test]
fn response_bytes_match_whole_value_encoding() {
    let state = sample_state();
    let whole = bincode::serialize(&(
        0u32,
        state.is_paused,
        &state.time,
        &state.session_name,
        &state.session_duration,
        state.percent,
    ))
    .unwrap();
    assert_eq!(encode_response(&Response::State(state)), Ok(whole));
    let refused: Result<(), String> = Err("why".into());
    let whole = bincode::serialize(&(1u32, &refused)).unwrap();
    assert_eq!(encode_response(&Response::Confirmation(refused)), Ok(whole));
}

#[test]
fn bad_responses_are_rejected() {
    assert_eq!(decode_response(&[]), Err(CodecError::Malformed));
    assert_eq!(decode_response(&[2, 0, 0, 0]), Err(CodecError::Malformed));
    assert_eq!(decode_response(&[1, 0, 0, 0, 2, 0, 0, 0]), Err(CodecError::Malformed));
    assert_eq!(decode_response(&[1, 0, 0, 0, 1, 0, 0, 0, 3, 0, 0, 0, 0, 0, 0, 0, b'n', b'o']), Err(CodecError::Malformed));
    assert_eq!(decode_response(&[1, 0, 0, 0, 1, 0, 0, 0, 1, 0, 0, 0, 0, 0, 0, 0, 0xff]), Err(CodecError::Malformed));
    let mut bytes = encode_response(&Response::State(sample_state())).unwrap();
    bytes[4] = 2;
    assert_eq!(decode_response(&bytes), Err(CodecError::Malformed));
    let bytes = encode_response(&Response::State(sample_state())).unwrap();
    assert_eq!(decode_response(&bytes[..bytes.len() - 1]), Err(CodecError::Malformed));
}

#[test]
fn trailing_bytes_are_ignored() {
    let mut bytes = encode_response(&Response::State(sample_state())).unwrap();
    bytes.extend([7, 7, 7]);
    assert_eq!(decode_response(&bytes), Ok(Response::State(sample_state())));
}
