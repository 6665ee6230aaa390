//! The errors of talking to mpv.
use vstd::prelude::*;
use vstd::string::to_string_from_display_ensures;

use crate::text::{decimal, push_decimal};

verus! {

/// The error of an I/O operation, carried opaquely.
#[verifier::external_type_specification]
#[verifier::external_body]
pub struct ExIoError(std::io::Error);

/// The error of a JSON encode or decode, carried opaquely.
#[verifier::external_type_specification]
#[verifier::external_body]
pub struct ExJsonError(serde_json::Error);

/// The error of decoding bytes as UTF-8, carried opaquely.
#[verifier::external_type_specification]
#[verifier::external_body]
pub struct ExFromUtf8Error(std::string::FromUtf8Error);

/// Errors that can occur when interacting with the mpv IPC interface.
#[derive(Debug)]
pub enum MrcError {
    /// Connection to the mpv socket could not be established.
    ConnectionError(std::io::Error),
    /// A JSON message could not be encoded or decoded.
    ParseError(serde_json::Error),
    /// A socket operation timed out after the given number of seconds.
    SocketTimeout(u64),
    /// mpv answered with an error.
    MpvError(String),
    /// A property does not exist.
    PropertyNotFound(String),
    /// The socket response is not valid UTF-8.
    InvalidUtf8(std::string::FromUtf8Error),
    /// A network operation failed.
    NetworkError(String),
    /// The connection was lost or broken.
    ConnectionLost(String),
    /// The communication protocol was violated.
    ProtocolError(String),
    /// Invalid input was provided.
    InvalidInput(String),
    /// A TLS operation failed.
    TlsError(String),
}

/// The result type of the library's operations.
pub type Result<T> = std::result::Result<T, MrcError>;

/// The text before the detail in an error's message.
pub open spec fn message_prefix(e: MrcError) -> Seq<char> {
    match e {
        MrcError::ConnectionError(_) => "failed to connect to MPV socket: "@,
        MrcError::ParseError(_) => "failed to parse JSON response: "@,
        MrcError::SocketTimeout(_) => "socket operation timed out after "@,
        MrcError::MpvError(_) => "MPV error: "@,
        MrcError::PropertyNotFound(_) => "property '"@,
        MrcError::InvalidUtf8(_) => "invalid UTF-8 in socket response: "@,
        MrcError::NetworkError(_) => "network error: "@,
        MrcError::ConnectionLost(_) => "server connection lost: "@,
        MrcError::ProtocolError(_) => "protocol error: "@,
        MrcError::InvalidInput(_) => "invalid input: "@,
        MrcError::TlsError(_) => "TLS error: "@,
    }
}

/// The text after the detail in an error's message.
pub open spec fn message_suffix(e: MrcError) -> Seq<char> {
    match e {
        MrcError::SocketTimeout(_) => " seconds"@,
        MrcError::PropertyNotFound(_) => "' not found"@,
        _ => Seq::empty(),
    }
}

/// The detail of an error whose detail the library holds as text or a number;
/// `None` for the errors that carry an outside error.
pub open spec fn message_detail(e: MrcError) -> Option<Seq<char>> {
    match e {
        MrcError::ConnectionError(_) => None,
        MrcError::ParseError(_) => None,
        MrcError::InvalidUtf8(_) => None,
        MrcError::SocketTimeout(n) => Some(decimal(n as nat)),
        MrcError::MpvError(m) => Some(m@),
        MrcError::PropertyNotFound(m) => Some(m@),
        MrcError::NetworkError(m) => Some(m@),
        MrcError::ConnectionLost(m) => Some(m@),
        MrcError::ProtocolError(m) => Some(m@),
        MrcError::InvalidInput(m) => Some(m@),
        MrcError::TlsError(m) => Some(m@),
    }
}

/// `text` is the message of `e`: its prefix, its detail and its suffix, where
/// the detail of an error that carries an outside error is that error's own
/// text as its `Display` writes it.
pub open spec fn is_message(e: MrcError, text: Seq<char>) -> bool {
    match message_detail(e) {
        Some(d) => text == message_prefix(e) + d + message_suffix(e),
        None => exists|d: String|
            {
                &&& text == message_prefix(e) + d@
                &&& match e {
                    MrcError::ConnectionError(x) => to_string_from_display_ensures::<std::io::Error>(
                        &x,
                        d,
                    ),
                    MrcError::ParseError(x) => to_string_from_display_ensures::<serde_json::Error>(
                        &x,
                        d,
                    ),
                    MrcError::InvalidUtf8(x) => to_string_from_display_ensures::<
                        std::string::FromUtf8Error,
                    >(&x, d),
                    _ => false,
                }
            },
    }
}

/// The cause of an error that wraps an outside error.
pub enum ErrorSource<'a> {
    /// An I/O error.
    Io(&'a std::io::Error),
    /// A JSON error.
    Json(&'a serde_json::Error),
    /// A UTF-8 decoding error.
    Utf8(&'a std::string::FromUtf8Error),
}

impl MrcError {
    /// The error's message.
    ///
    /// An error that carries an outside error ends its message with that
    /// error's own text, which std or serde_json writes.
    pub fn to_string(&self) -> (s: String)
        ensures
            is_message(*self, s@),
    {
        match self {
            MrcError::ConnectionError(e) => {
                let d = e.to_string();
                let mut s = String::from_str("failed to connect to MPV socket: ");
                s.append(d.as_str());
                s
            },
            MrcError::ParseError(e) => {
                let d = e.to_string();
                let mut s = String::from_str("failed to parse JSON response: ");
                s.append(d.as_str());
                s
            },
            MrcError::InvalidUtf8(e) => {
                let d = e.to_string();
                let mut s = String::from_str("invalid UTF-8 in socket response: ");
                s.append(d.as_str());
                s
            },
            MrcError::SocketTimeout(n) => {
                let mut s = String::from_str("socket operation timed out after ");
                push_decimal(&mut s, *n);
                s.append(" seconds");
                s
            },
            MrcError::MpvError(m) => {
                let mut s = String::from_str("MPV error: ");
                s.append(m.as_str());
                s
            },
            MrcError::PropertyNotFound(m) => {
                let mut s = String::from_str("property '");
                s.append(m.as_str());
                s.append("' not found");
                s
            },
            MrcError::NetworkError(m) => {
                let mut s = String::from_str("network error: ");
                s.append(m.as_str());
                s
            },
            MrcError::ConnectionLost(m) => {
                let mut s = String::from_str("server connection lost: ");
                s.append(m.as_str());
                s
            },
            MrcError::ProtocolError(m) => {
                let mut s = String::from_str("protocol error: ");
                s.append(m.as_str());
                s
            },
            MrcError::InvalidInput(m) => {
                let mut s = String::from_str("invalid input: ");
                s.append(m.as_str());
                s
            },
            MrcError::TlsError(m) => {
                let mut s = String::from_str("TLS error: ");
                s.append(m.as_str());
                s
            },
        }
    }

    /// The outside error this error wraps, if any.
    pub fn source(&self) -> (r: Option<ErrorSource<'_>>)
        ensures
            match self {
                MrcError::ConnectionError(e) => r == Some(ErrorSource::Io(e)),
                MrcError::ParseError(e) => r == Some(ErrorSource::Json(e)),
                MrcError::InvalidUtf8(e) => r == Some(ErrorSource::Utf8(e)),
                _ => r is None,
            },
    {
        match self {
            MrcError::ConnectionError(e) => Some(ErrorSource::Io(e)),
            MrcError::ParseError(e) => Some(ErrorSource::Json(e)),
            MrcError::InvalidUtf8(e) => Some(ErrorSource::Utf8(e)),
            _ => None,
        }
    }
}

impl From<std::io::Error> for MrcError {
    fn from(e: std::io::Error) -> (r: Self) {
        MrcError::ConnectionError(e)
    }
}

impl vstd::std_specs::convert::FromSpecImpl<std::io::Error> for MrcError {
    open spec fn obeys_from_spec() -> bool {
        true
    }

    open spec fn from_spec(e: std::io::Error) -> Self {
        MrcError::ConnectionError(e)
    }
}

impl From<serde_json::Error> for MrcError {
    fn from(e: serde_json::Error) -> (r: Self) {
        MrcError::ParseError(e)
    }
}

impl vstd::std_specs::convert::FromSpecImpl<serde_json::Error> for MrcError {
    open spec fn obeys_from_spec() -> bool {
        true
    }

    open spec fn from_spec(e: serde_json::Error) -> Self {
        MrcError::ParseError(e)
    }
}

impl From<std::string::FromUtf8Error> for MrcError {
    fn from(e: std::string::FromUtf8Error) -> (r: Self) {
        MrcError::InvalidUtf8(e)
    }
}

impl vstd::std_specs::convert::FromSpecImpl<std::string::FromUtf8Error> for MrcError {
    open spec fn obeys_from_spec() -> bool {
        true
    }

    open spec fn from_spec(e: std::string::FromUtf8Error) -> Self {
        MrcError::InvalidUtf8(e)
    }
}

/// The message of each error that holds its detail as text or a number is
/// that detail between the error's fixed words; an error that wraps an outside
/// error says what failed and then that error's own text.
pub proof fn error_messages(m: String, n: u64, t: Seq<char>)
    ensures
        is_message(MrcError::MpvError(m), t) <==> t == "MPV error: "@ + m@,
        is_message(MrcError::PropertyNotFound(m), t) <==> t == "property '"@ + m@ + "' not found"@,
        is_message(MrcError::NetworkError(m), t) <==> t == "network error: "@ + m@,
        is_message(MrcError::ConnectionLost(m), t) <==> t == "server connection lost: "@ + m@,
        is_message(MrcError::ProtocolError(m), t) <==> t == "protocol error: "@ + m@,
        is_message(MrcError::InvalidInput(m), t) <==> t == "invalid input: "@ + m@,
        is_message(MrcError::TlsError(m), t) <==> t == "TLS error: "@ + m@,
        is_message(MrcError::SocketTimeout(n), t) <==> t == "socket operation timed out after "@
            + decimal(n as nat) + " seconds"@,
        forall|x: std::io::Error|
            is_message(MrcError::ConnectionError(x), t) ==> exists|d: String|
                t == "failed to connect to MPV socket: "@ + d@
                    && #[trigger] to_string_from_display_ensures::<std::io::Error>(&x, d),
        forall|x: serde_json::Error|
            is_message(MrcError::ParseError(x), t) ==> exists|d: String|
                t == "failed to parse JSON response: "@ + d@
                    && #[trigger] to_string_from_display_ensures::<serde_json::Error>(&x, d),
{
    reveal_strlit("");
    assert(Seq::<char>::empty() =~= ""@);
    assert(m@ + Seq::<char>::empty() =~= m@);
    assert(forall|p: Seq<char>, q: Seq<char>| #![auto] p + q + Seq::<char>::empty() =~= p + q);
}

} // verus!
