//! The bytes that requests and responses travel as. A message is a row of
//! fields, each written by bincode: a variant's number first, then what the
//! variant holds, in the order of its declaration.

use vstd::prelude::*;
use vstd::bytes::{
    lemma_auto_spec_u32_to_from_le_bytes, lemma_auto_spec_u64_to_from_le_bytes,
    spec_u32_from_le_bytes, spec_u32_to_le_bytes, spec_u64_from_le_bytes, spec_u64_to_le_bytes,
};
use vstd::slice::slice_subrange;
use vstd::utf8::{
    decode_utf8, decode_utf8_encode_utf8, encode_utf8, encode_utf8_decode_utf8,
    encode_utf8_valid_utf8, valid_utf8,
};
use crate::pomodoro_clock::{PomodoroState, Request, Response};

verus! {

/// bincode's error, carried through unread.
#[verifier::external_type_specification]
#[verifier::external_body]
pub struct ExErrorKind(bincode::ErrorKind);

/// Why a message was not taken for a request.
#[derive(Clone, Copy, Debug, PartialEq, Eq, Structural)]
pub enum CodecError {
    /// The message ends too early, or holds a field that cannot be read.
    Malformed,
    /// The number is that of no request.
    UnknownRequest(u32),
}

/// Calls `bincode::serialize` on a `u32`. Not proved: that it succeeds and
/// writes the integer as four bytes, lowest first, which is bincode's fixed
/// width little-endian form.
#[verifier::external_body]
fn serialize_u32(value: u32) -> (r: Result<Vec<u8>, bincode::Error>)
    ensures
        match r {
            Ok(bytes) => bytes@ == spec_u32_to_le_bytes(value),
            Err(_) => false,
        },
{
    bincode::serialize(&value)
}

/// Calls `bincode::deserialize` for a `u32`. Not proved: that it reads the
/// first four bytes, lowest first, whatever follows them, and fails exactly
/// where there are fewer than four.
#[verifier::external_body]
fn deserialize_u32(bytes: &[u8]) -> (r: Result<u32, bincode::Error>)
    ensures
        match r {
            Ok(value) => bytes@.len() >= 4 && value == spec_u32_from_le_bytes(bytes@.subrange(0, 4)),
            Err(_) => bytes@.len() < 4,
        },
{
    bincode::deserialize(bytes)
}

impl Request {
    /// The variant's number on the wire: its place in the declaration.
    pub open spec fn spec_tag(self) -> u32 {
        match self {
            Request::Fetch => 0,
            Request::Toggle => 1,
            Request::Skip => 2,
            Request::Reset => 3,
            Request::Stop => 4,
        }
    }

    /// The request with the number `tag`, where there is one.
    pub open spec fn spec_from_tag(tag: u32) -> Option<Request> {
        if tag == 0 {
            Some(Request::Fetch)
        } else if tag == 1 {
            Some(Request::Toggle)
        } else if tag == 2 {
            Some(Request::Skip)
        } else if tag == 3 {
            Some(Request::Reset)
        } else if tag == 4 {
            Some(Request::Stop)
        } else {
            None
        }
    }

    /// The variant's number on the wire.
    pub fn tag(&self) -> (r: u32)
        ensures
            r == self.spec_tag(),
    {
        match self {
            Request::Fetch => 0,
            Request::Toggle => 1,
            Request::Skip => 2,
            Request::Reset => 3,
            Request::Stop => 4,
        }
    }

    /// The request with the number `tag`; `None` for any other number.
    pub fn from_tag(tag: u32) -> (r: Option<Request>)
        ensures
            r == Request::spec_from_tag(tag),
    {
        if tag == 0 {
            Some(Request::Fetch)
        } else if tag == 1 {
            Some(Request::Toggle)
        } else if tag == 2 {
            Some(Request::Skip)
        } else if tag == 3 {
            Some(Request::Reset)
        } else if tag == 4 {
            Some(Request::Stop)
        } else {
            None
        }
    }
}

/// The message for a request: its number in four bytes, lowest first.
pub open spec fn request_bytes(request: Request) -> Seq<u8> {
    spec_u32_to_le_bytes(request.spec_tag())
}

/// What a message is taken for: the request whose number its first four
/// bytes hold. What follows them is not looked at.
pub open spec fn decoded_request(bytes: Seq<u8>) -> Result<Request, CodecError> {
    if bytes.len() < 4 {
        Err(CodecError::Malformed)
    } else {
        let tag = spec_u32_from_le_bytes(bytes.subrange(0, 4));
        match Request::spec_from_tag(tag) {
            Some(request) => Ok(request),
            None => Err(CodecError::UnknownRequest(tag)),
        }
    }
}

/// Writes a request as a message of four bytes.
pub fn encode_request(request: &Request) -> (r: Result<Vec<u8>, CodecError>)
    ensures
        r matches Ok(bytes) && bytes@ == request_bytes(*request),
{
    match serialize_u32(request.tag()) {
        Ok(bytes) => Ok(bytes),
        Err(_) => Err(CodecError::Malformed),
    }
}

/// Reads a request from a message. A message of fewer than four bytes is
/// `Malformed`; a number that no request has is handed back in
/// `UnknownRequest`.
pub fn decode_request(bytes: &[u8]) -> (r: Result<Request, CodecError>)
    ensures
        r == decoded_request(bytes@),
{
    match deserialize_u32(bytes) {
        Ok(tag) => match Request::from_tag(tag) {
            Some(request) => Ok(request),
            None => Err(CodecError::UnknownRequest(tag)),
        },
        Err(_) => Err(CodecError::Malformed),
    }
}

/// A request that is written and read again is the same request.
pub proof fn lemma_request_round_trip(request: Request)
    ensures
        request_bytes(request).len() == 4,
        decoded_request(request_bytes(request)) == Ok::<Request, CodecError>(request),
{
    lemma_auto_spec_u32_to_from_le_bytes();
    let bytes = request_bytes(request);
    assert(bytes.subrange(0, 4) =~= bytes);
}

/// A truth value on the wire: one byte, 1 or 0.
pub open spec fn bool_bytes(value: bool) -> Seq<u8> {
    seq![if value { 1u8 } else { 0u8 }]
}

/// A text on the wire: the length of its UTF-8 form in eight bytes, lowest
/// first, then that form.
pub open spec fn text_bytes(text: Seq<char>) -> Seq<u8> {
    spec_u64_to_le_bytes(encode_utf8(text).len() as u64) + encode_utf8(text)
}

/// The integer at the head of `bytes`, and what follows it.
pub open spec fn read_u32(bytes: Seq<u8>) -> Option<(u32, Seq<u8>)> {
    if bytes.len() < 4 {
        None
    } else {
        Some((spec_u32_from_le_bytes(bytes.subrange(0, 4)), bytes.skip(4)))
    }
}

/// The truth value at the head of `bytes`, and what follows it. A byte
/// other than 0 and 1 is none.
pub open spec fn read_bool(bytes: Seq<u8>) -> Option<(bool, Seq<u8>)> {
    if bytes.len() < 1 || bytes[0] > 1 {
        None
    } else {
        Some((bytes[0] == 1, bytes.skip(1)))
    }
}

/// The text at the head of `bytes`, and what follows it: there is one where
/// the announced length is there and holds well-formed UTF-8.
pub open spec fn read_text(bytes: Seq<u8>) -> Option<(Seq<char>, Seq<u8>)> {
    if bytes.len() < 8 {
        None
    } else {
        let len = spec_u64_from_le_bytes(bytes.subrange(0, 8)) as int;
        if bytes.len() - 8 < len {
            None
        } else if !valid_utf8(bytes.subrange(8, 8 + len)) {
            None
        } else {
            Some((decode_utf8(bytes.subrange(8, 8 + len)), bytes.skip(8 + len)))
        }
    }
}

/// Calls `bincode::serialize` on a `bool`. Not proved: that it succeeds and
/// writes the single byte 1 or 0.
#[verifier::external_body]
fn serialize_bool(value: bool) -> (r: Result<Vec<u8>, bincode::Error>)
    ensures
        match r {
            Ok(bytes) => bytes@ == bool_bytes(value),
            Err(_) => false,
        },
{
    bincode::serialize(&value)
}

/// Calls `bincode::deserialize` for a `bool`. Not proved: that it reads the
/// first byte, takes 1 and 0 for true and false, and fails on any other
/// byte and on an empty message.
#[verifier::external_body]
fn deserialize_bool(bytes: &[u8]) -> (r: Result<bool, bincode::Error>)
    ensures
        match r {
            Ok(value) => read_bool(bytes@) == Some((value, bytes@.skip(1))),
            Err(_) => read_bool(bytes@) is None,
        },
{
    bincode::deserialize(bytes)
}

/// Calls `bincode::serialize` on a `str`. Not proved: that it succeeds and
/// writes the byte length as a 64-bit integer, lowest byte first, followed
/// by the text's UTF-8 bytes.
#[verifier::external_body]
fn serialize_str(value: &str) -> (r: Result<Vec<u8>, bincode::Error>)
    ensures
        match r {
            Ok(bytes) => bytes@ == text_bytes(value@),
            Err(_) => false,
        },
{
    bincode::serialize(value)
}

/// Calls `bincode::deserialize` for a `String`. Not proved: that it reads a
/// 64-bit length, lowest byte first, then as many bytes, and fails exactly
/// where the message is shorter than that or those bytes are not UTF-8.
#[verifier::external_body]
fn deserialize_string(bytes: &[u8]) -> (r: Result<String, bincode::Error>)
    ensures
        match r {
            Ok(text) => match read_text(bytes@) {
                Some(pair) => pair.0 == text@,
                None => false,
            },
            Err(_) => read_text(bytes@) is None,
        },
{
    bincode::deserialize(bytes)
}

/// What a response says, with its texts as sequences of characters.
pub enum Message {
    State {
        is_paused: bool,
        time: Seq<char>,
        session_name: Seq<char>,
        session_duration: Seq<char>,
        percent: u32,
    },
    /// The confirmation that a request was carried out.
    Confirmed,
    /// The confirmation that it was not, with the reason.
    Refused(Seq<char>),
}

impl View for Response {
    type V = Message;

    open spec fn view(&self) -> Message {
        match *self {
            Response::State(state) => Message::State {
                is_paused: state.is_paused,
                time: state.time@,
                session_name: state.session_name@,
                session_duration: state.session_duration@,
                percent: state.percent,
            },
            Response::Confirmation(Ok(_)) => Message::Confirmed,
            Response::Confirmation(Err(reason)) => Message::Refused(reason@),
        }
    }
}

/// The UTF-8 form of `text` is short enough for its length to be written.
pub open spec fn text_fits(text: Seq<char>) -> bool {
    encode_utf8(text).len() <= u64::MAX
}

impl Message {
    /// Every text of the message can be written.
    pub open spec fn fits(self) -> bool {
        match self {
            Message::State { time, session_name, session_duration, .. } => text_fits(time)
                && text_fits(session_name) && text_fits(session_duration),
            Message::Confirmed => true,
            Message::Refused(reason) => text_fits(reason),
        }
    }
}

/// The message for a response: the variant's number, then its fields.
pub open spec fn response_bytes(message: Message) -> Seq<u8> {
    match message {
        Message::State { is_paused, time, session_name, session_duration, percent } =>
            spec_u32_to_le_bytes(0) + (bool_bytes(is_paused) + (text_bytes(time) + (text_bytes(
                session_name,
            ) + (text_bytes(session_duration) + spec_u32_to_le_bytes(percent))))),
        Message::Confirmed => spec_u32_to_le_bytes(1) + spec_u32_to_le_bytes(0),
        Message::Refused(reason) => spec_u32_to_le_bytes(1) + (spec_u32_to_le_bytes(1)
            + text_bytes(reason)),
    }
}

/// The five fields of a state at the head of `bytes`.
pub open spec fn decoded_state(bytes: Seq<u8>) -> Option<Message> {
    match read_bool(bytes) {
        Some((is_paused, rest)) => match read_text(rest) {
            Some((time, rest)) => match read_text(rest) {
                Some((session_name, rest)) => match read_text(rest) {
                    Some((session_duration, rest)) => match read_u32(rest) {
                        Some((percent, _)) => Some(
                            Message::State { is_paused, time, session_name, session_duration, percent },
                        ),
                        None => None,
                    },
                    None => None,
                },
                None => None,
            },
            None => None,
        },
        None => None,
    }
}

/// The outcome of a confirmation at the head of `bytes`.
pub open spec fn decoded_confirmation(bytes: Seq<u8>) -> Option<Message> {
    match read_u32(bytes) {
        Some((kind, rest)) => if kind == 0 {
            Some(Message::Confirmed)
        } else if kind == 1 {
            match read_text(rest) {
                Some((reason, _)) => Some(Message::Refused(reason)),
                None => None,
            }
        } else {
            None
        },
        None => None,
    }
}

/// What a message is taken for as a response; `None` where a field is
/// missing or cannot be read, or a number is that of no variant. What
/// follows the last field is not looked at.
pub open spec fn decoded_response(bytes: Seq<u8>) -> Option<Message> {
    match read_u32(bytes) {
        Some((tag, rest)) => if tag == 0 {
            decoded_state(rest)
        } else if tag == 1 {
            decoded_confirmation(rest)
        } else {
            None
        },
        None => None,
    }
}

fn take_u32(bytes: &[u8]) -> (r: Option<(u32, &[u8])>)
    ensures
        match read_u32(bytes@) {
            Some((value, rest)) => r matches Some(pair) && pair.0 == value && pair.1@ == rest,
            None => r is None,
        },
{
    match deserialize_u32(bytes) {
        Ok(value) => Some((value, slice_subrange(bytes, 4, bytes.len()))),
        Err(_) => None,
    }
}

fn take_bool(bytes: &[u8]) -> (r: Option<(bool, &[u8])>)
    ensures
        match read_bool(bytes@) {
            Some((value, rest)) => r matches Some(pair) && pair.0 == value && pair.1@ == rest,
            None => r is None,
        },
{
    match deserialize_bool(bytes) {
        Ok(value) => Some((value, slice_subrange(bytes, 1, bytes.len()))),
        Err(_) => None,
    }
}

fn take_text(bytes: &[u8]) -> (r: Option<(String, &[u8])>)
    ensures
        match read_text(bytes@) {
            Some((text, rest)) => r matches Some(pair) && pair.0@ == text && pair.1@ == rest,
            None => r is None,
        },
{
    match deserialize_string(bytes) {
        Ok(text) => {
            proof {
                assert(read_text(bytes@) is Some);
                let len = spec_u64_from_le_bytes(bytes@.subrange(0, 8)) as int;
                decode_utf8_encode_utf8(bytes@.subrange(8, 8 + len));
            }
            let total: usize = bytes.len();
            let used: usize = 8 + text.as_str().len();
            Some((text, slice_subrange(bytes, used, total)))
        },
        Err(_) => None,
    }
}

/// Writes a response as a message.
pub fn encode_response(response: &Response) -> (r: Result<Vec<u8>, CodecError>)
    ensures
        r matches Ok(bytes) && bytes@ == response_bytes(response@),
{
    match response {
        Response::State(state) => {
            let mut bytes = match serialize_u32(0) {
                Ok(bytes) => bytes,
                Err(_) => { return Err(CodecError::Malformed); },
            };
            let mut is_paused = match serialize_bool(state.is_paused) {
                Ok(bytes) => bytes,
                Err(_) => { return Err(CodecError::Malformed); },
            };
            let mut time = match serialize_str(state.time.as_str()) {
                Ok(bytes) => bytes,
                Err(_) => { return Err(CodecError::Malformed); },
            };
            let mut session_name = match serialize_str(state.session_name.as_str()) {
                Ok(bytes) => bytes,
                Err(_) => { return Err(CodecError::Malformed); },
            };
            let mut session_duration = match serialize_str(state.session_duration.as_str()) {
                Ok(bytes) => bytes,
                Err(_) => { return Err(CodecError::Malformed); },
            };
            let mut percent = match serialize_u32(state.percent) {
                Ok(bytes) => bytes,
                Err(_) => { return Err(CodecError::Malformed); },
            };
            bytes.append(&mut is_paused);
            bytes.append(&mut time);
            bytes.append(&mut session_name);
            bytes.append(&mut session_duration);
            bytes.append(&mut percent);
            proof {
                assert(bytes@ =~= response_bytes(response@));
            }
            Ok(bytes)
        },
        Response::Confirmation(outcome) => {
            let mut bytes = match serialize_u32(1) {
                Ok(bytes) => bytes,
                Err(_) => { return Err(CodecError::Malformed); },
            };
            match outcome {
                Ok(()) => {
                    let mut kind = match serialize_u32(0) {
                        Ok(bytes) => bytes,
                        Err(_) => { return Err(CodecError::Malformed); },
                    };
                    bytes.append(&mut kind);
                },
                Err(reason) => {
                    let mut kind = match serialize_u32(1) {
                        Ok(bytes) => bytes,
                        Err(_) => { return Err(CodecError::Malformed); },
                    };
                    let mut text = match serialize_str(reason.as_str()) {
                        Ok(bytes) => bytes,
                        Err(_) => { return Err(CodecError::Malformed); },
                    };
                    bytes.append(&mut kind);
                    bytes.append(&mut text);
                },
            }
            proof {
                assert(bytes@ =~= response_bytes(response@));
            }
            Ok(bytes)
        },
    }
}

fn decode_state(bytes: &[u8]) -> (r: Option<Response>)
    ensures
        match decoded_state(bytes@) {
            Some(message) => r matches Some(response) && response@ == message,
            None => r is None,
        },
{
    let (is_paused, rest) = match take_bool(bytes) {
        Some(pair) => pair,
        None => { return None; },
    };
    let (time, rest) = match take_text(rest) {
        Some(pair) => pair,
        None => { return None; },
    };
    let (session_name, rest) = match take_text(rest) {
        Some(pair) => pair,
        None => { return None; },
    };
    let (session_duration, rest) = match take_text(rest) {
        Some(pair) => pair,
        None => { return None; },
    };
    let (percent, _) = match take_u32(rest) {
        Some(pair) => pair,
        None => { return None; },
    };
    Some(Response::State(PomodoroState { is_paused, time, session_name, session_duration, percent }))
}

fn decode_confirmation(bytes: &[u8]) -> (r: Option<Response>)
    ensures
        match decoded_confirmation(bytes@) {
            Some(message) => r matches Some(response) && response@ == message,
            None => r is None,
        },
{
    let (kind, rest) = match take_u32(bytes) {
        Some(pair) => pair,
        None => { return None; },
    };
    if kind == 0 {
        Some(Response::Confirmation(Ok(())))
    } else if kind == 1 {
        match take_text(rest) {
            Some((reason, _)) => Some(Response::Confirmation(Err(reason))),
            None => None,
        }
    } else {
        None
    }
}

/// Reads a response from a message; `Malformed` where the message is not
/// one.
pub fn decode_response(bytes: &[u8]) -> (r: Result<Response, CodecError>)
    ensures
        match decoded_response(bytes@) {
            Some(message) => r matches Ok(response) && response@ == message,
            None => r == Err::<Response, CodecError>(CodecError::Malformed),
        },
{
    let (tag, rest) = match take_u32(bytes) {
        Some(pair) => pair,
        None => { return Err(CodecError::Malformed); },
    };
    let decoded = if tag == 0 {
        decode_state(rest)
    } else if tag == 1 {
        decode_confirmation(rest)
    } else {
        None
    };
    match decoded {
        Some(response) => Ok(response),
        None => Err(CodecError::Malformed),
    }
}

/// An integer that was written is read back, and the rest is left over.
pub proof fn lemma_read_u32_back(value: u32, rest: Seq<u8>)
    ensures
        read_u32(spec_u32_to_le_bytes(value) + rest) == Some((value, rest)),
{
    lemma_auto_spec_u32_to_from_le_bytes();
    let bytes = spec_u32_to_le_bytes(value) + rest;
    assert(bytes.subrange(0, 4) =~= spec_u32_to_le_bytes(value));
    assert(bytes.skip(4) =~= rest);
}

/// A truth value that was written is read back, and the rest is left over.
pub proof fn lemma_read_bool_back(value: bool, rest: Seq<u8>)
    ensures
        read_bool(bool_bytes(value) + rest) == Some((value, rest)),
{
    let bytes = bool_bytes(value) + rest;
    assert(bytes.skip(1) =~= rest);
}

/// A text that was written is read back, and the rest is left over.
pub proof fn lemma_read_text_back(text: Seq<char>, rest: Seq<u8>)
    requires
        text_fits(text),
    ensures
        read_text(text_bytes(text) + rest) == Some((text, rest)),
{
    lemma_auto_spec_u64_to_from_le_bytes();
    encode_utf8_valid_utf8(text);
    encode_utf8_decode_utf8(text);
    let body = encode_utf8(text);
    let head = spec_u64_to_le_bytes(body.len() as u64);
    let bytes = text_bytes(text) + rest;
    assert(bytes.subrange(0, 8) =~= head);
    assert(bytes.subrange(8, 8 + body.len() as int) =~= body);
    assert(bytes.skip(8 + body.len() as int) =~= rest);
}

/// A response that is written and read again says what it said.
pub proof fn lemma_response_round_trip(message: Message)
    requires
        message.fits(),
    ensures
        decoded_response(response_bytes(message)) == Some(message),
{
    match message {
        Message::State { is_paused, time, session_name, session_duration, percent } => {
            let e = spec_u32_to_le_bytes(percent);
            let d = text_bytes(session_duration) + e;
            let c = text_bytes(session_name) + d;
            let b = text_bytes(time) + c;
            let a = bool_bytes(is_paused) + b;
            lemma_read_u32_back(0, a);
            lemma_read_bool_back(is_paused, b);
            lemma_read_text_back(time, c);
            lemma_read_text_back(session_name, d);
            lemma_read_text_back(session_duration, e);
            lemma_read_u32_back(percent, Seq::empty());
            assert(e + Seq::<u8>::empty() =~= e);
            assert(decoded_state(a) == Some(message));
        },
        Message::Confirmed => {
            lemma_read_u32_back(1, spec_u32_to_le_bytes(0));
            lemma_read_u32_back(0, Seq::empty());
            assert(spec_u32_to_le_bytes(0) + Seq::<u8>::empty() =~= spec_u32_to_le_bytes(0));
        },
        Message::Refused(reason) => {
            lemma_read_u32_back(1, spec_u32_to_le_bytes(1) + text_bytes(reason));
            lemma_read_u32_back(1, text_bytes(reason));
            lemma_read_text_back(reason, Seq::empty());
            assert(text_bytes(reason) + Seq::<u8>::empty() =~= text_bytes(reason));
        },
    }
}

} // verus!
