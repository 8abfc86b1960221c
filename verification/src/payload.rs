//! Socket event payloads as the host reads them.

use vstd::prelude::*;
use vstd::string::*;
use vstd::utf8::encode_utf8;
use crate::term::{decimal, decimal_text};

verus! {

/// One argument of a socket event: a JSON string, or any other JSON value.
pub enum ArgValue {
    Str(String),
    NonString,
}

/// The payload of a socket event: a list of JSON arguments, or a payload of
/// another kind (binary data).
pub enum EventPayload {
    Text(Vec<ArgValue>),
    NonText,
}

/// Why a payload was ignored.
#[derive(PartialEq, Eq, Structural, Clone, Copy, Debug)]
pub enum PayloadError {
    /// The payload is not a list of JSON arguments.
    NotText,
    /// The payload holds this many arguments, not exactly one.
    WrongCount(usize),
    /// The single argument is not a JSON string.
    NotString,
    /// A room name of this many bytes, outside `MIN_ROOM_LEN..=MAX_ROOM_LEN`.
    RoomLength(usize),
}

/// Fewest bytes in a room name.
pub const MIN_ROOM_LEN: usize = 5;

/// Most bytes in a room name.
pub const MAX_ROOM_LEN: usize = 30;

/// Number of bytes of the UTF-8 encoding of `s`, as `str::len` reports it.
pub open spec fn utf8_len(s: Seq<char>) -> usize {
    encode_utf8(s).len() as usize
}

/// The single string that an event carries.
pub open spec fn payload_text(p: EventPayload) -> Result<Seq<char>, PayloadError> {
    match p {
        EventPayload::NonText => Err(PayloadError::NotText),
        EventPayload::Text(args) => {
            if args@.len() != 1 {
                Err(PayloadError::WrongCount(args@.len() as usize))
            } else {
                match args@[0] {
                    ArgValue::Str(s) => Ok(s@),
                    ArgValue::NonString => Err(PayloadError::NotString),
                }
            }
        },
    }
}

/// The room name that a `room` event sets.
pub open spec fn room_name_of(p: EventPayload) -> Result<Seq<char>, PayloadError> {
    match payload_text(p) {
        Ok(s) => if MIN_ROOM_LEN <= utf8_len(s) <= MAX_ROOM_LEN {
            Ok(s)
        } else {
            Err(PayloadError::RoomLength(utf8_len(s)))
        },
        Err(e) => Err(e),
    }
}

/// A `Result` over strings, taken by the strings' views.
pub open spec fn text_result(r: Result<String, PayloadError>) -> Result<Seq<char>, PayloadError> {
    match r {
        Ok(s) => Ok(s@),
        Err(e) => Err(e),
    }
}

/// The single string argument of an event.
pub fn single_string(payload: &EventPayload) -> (r: Result<String, PayloadError>)
    ensures
        text_result(r) == payload_text(*payload),
{
    match payload {
        EventPayload::NonText => Err(PayloadError::NotText),
        EventPayload::Text(args) => {
            let n = args.len();
            if n != 1 {
                return Err(PayloadError::WrongCount(n));
            }
            match &args[0] {
                ArgValue::Str(s) => Ok(s.clone()),
                ArgValue::NonString => Err(PayloadError::NotString),
            }
        },
    }
}

/// The room name carried by a `room` event: a single string of
/// `MIN_ROOM_LEN` to `MAX_ROOM_LEN` bytes.
pub fn room_name(payload: &EventPayload) -> (r: Result<String, PayloadError>)
    ensures
        text_result(r) == room_name_of(*payload),
{
    let s = match single_string(payload) {
        Ok(s) => s,
        Err(e) => return Err(e),
    };
    let len = s.as_str().len();
    if len < MIN_ROOM_LEN || len > MAX_ROOM_LEN {
        return Err(PayloadError::RoomLength(len));
    }
    Ok(s)
}

/// The warning for a payload that was ignored; `shown` is how the offending
/// payload (for `NotText`) or argument (for `NotString`) prints.
pub open spec fn error_message(e: PayloadError, shown: Seq<char>) -> Seq<char> {
    match e {
        PayloadError::NotText => "expected String(s), got "@ + shown,
        PayloadError::WrongCount(n) => "expected vec of 1 item, got "@ + decimal(n as nat) + " item(s)"@,
        PayloadError::NotString => "expected String, got "@ + shown,
        PayloadError::RoomLength(n) => "expected string length between 5 and 30, got len "@ + decimal(n as nat),
    }
}

impl PayloadError {
    /// The warning that the host prints for this error.
    pub fn message(&self, shown: &str) -> (r: String)
        ensures
            r@ == error_message(*self, shown@),
    {
        match self {
            PayloadError::NotText => {
                let mut s = String::from_str("expected String(s), got ");
                s.append(shown);
                s
            },
            PayloadError::WrongCount(n) => {
                let mut s = String::from_str("expected vec of 1 item, got ");
                let count = decimal_text(*n);
                s.append(count.as_str());
                s.append(" item(s)");
                s
            },
            PayloadError::NotString => {
                let mut s = String::from_str("expected String, got ");
                s.append(shown);
                s
            },
            PayloadError::RoomLength(n) => {
                let mut s = String::from_str("expected string length between 5 and 30, got len ");
                let len = decimal_text(*n);
                s.append(len.as_str());
                s
            },
        }
    }
}

} // verus!
