//! Error kinds with their HTTP status, and the framed bytes of a response.

use crate::text::{ascii, ascii_bytes, ascii_text, decimal, decimal_text};
use crate::wire::{canonical_reason, http_reason};
use vstd::prelude::*;
use vstd::string::*;

verus! {

/// What went wrong while serving a request.
#[derive(Debug, Copy, Clone, PartialEq, Eq, Structural)]
pub enum ErrorKind {
    /// A response head or body could not be serialized.
    EncodeFault,
    /// A request head is malformed, or its version is not supported.
    DecodeFault,
    /// Anything else: an unwind that was caught, a queue that overflowed.
    ServerFault,
    /// A web socket handshake or frame failed.
    WSFault,
    /// The peer closed the web socket. An internal signal, never sent.
    WSClosed,
    /// The request did not arrive before its deadline.
    TimedOut,
    /// The request is larger than the configured maximum.
    PayloadTooLarge,
    /// A task could not be spawned.
    ExecError,
    /// An outbound call failed.
    HttpClientError,
    /// An outbound call ran past its timeout.
    HttpClientTimedOut,
}

impl ErrorKind {
    /// The HTTP status that answers an error of this kind.
    pub open spec fn status(self) -> u16 {
        match self {
            ErrorKind::EncodeFault => 500,
            ErrorKind::DecodeFault => 500,
            ErrorKind::ServerFault => 500,
            ErrorKind::WSFault => 400,
            ErrorKind::WSClosed => 226,
            ErrorKind::TimedOut => 408,
            ErrorKind::PayloadTooLarge => 413,
            ErrorKind::ExecError => 502,
            ErrorKind::HttpClientError => 502,
            ErrorKind::HttpClientTimedOut => 504,
        }
    }

    /// The kind's name as it appears in logs.
    pub open spec fn label(self) -> Seq<char> {
        match self {
            ErrorKind::EncodeFault => "EncodeFault"@,
            ErrorKind::DecodeFault => "DecodeFault"@,
            ErrorKind::ServerFault => "ServerFault"@,
            ErrorKind::WSFault => "WSFault"@,
            ErrorKind::WSClosed => "WSClosed"@,
            ErrorKind::TimedOut => "TimedOut"@,
            ErrorKind::PayloadTooLarge => "PayloadTooLarge"@,
            ErrorKind::ExecError => "ExecError"@,
            ErrorKind::HttpClientError => "HttpClientError"@,
            ErrorKind::HttpClientTimedOut => "HttpClientTimedOut"@,
        }
    }

    pub fn name(&self) -> (r: &'static str)
        ensures
            r@ == self.label(),
    {
        match self {
            ErrorKind::EncodeFault => "EncodeFault",
            ErrorKind::DecodeFault => "DecodeFault",
            ErrorKind::ServerFault => "ServerFault",
            ErrorKind::WSFault => "WSFault",
            ErrorKind::WSClosed => "WSClosed",
            ErrorKind::TimedOut => "TimedOut",
            ErrorKind::PayloadTooLarge => "PayloadTooLarge",
            ErrorKind::ExecError => "ExecError",
            ErrorKind::HttpClientError => "HttpClientError",
            ErrorKind::HttpClientTimedOut => "HttpClientTimedOut",
        }
    }
}

/// An error: its kind and a message for the log.
#[derive(Debug)]
pub struct Error {
    message: String,
    kind: ErrorKind,
}

/// What an [`Error`] holds.
pub ghost struct ErrorView {
    pub kind: ErrorKind,
    pub message: Seq<char>,
}

impl View for Error {
    type V = ErrorView;

    closed spec fn view(&self) -> ErrorView {
        ErrorView { kind: self.kind, message: self.message@ }
    }
}

impl Error {
    /// A server fault with the given message.
    pub fn new(message: String) -> (r: Self)
        ensures
            r@ == (ErrorView { kind: ErrorKind::ServerFault, message: message@ }),
    {
        Self::new_with_kind(ErrorKind::ServerFault, message)
    }

    pub fn new_with_kind(kind: ErrorKind, message: String) -> (r: Self)
        ensures
            r@ == (ErrorView { kind, message: message@ }),
    {
        Self { kind, message }
    }

    /// The signal that the peer closed the web socket; its message is empty.
    pub fn new_ws_closed() -> (r: Self)
        ensures
            r@ == (ErrorView { kind: ErrorKind::WSClosed, message: Seq::empty() }),
    {
        Self { kind: ErrorKind::WSClosed, message: String::new() }
    }

    /// The HTTP status that answers this error.
    pub fn http_status(&self) -> (r: u16)
        ensures
            r == self@.kind.status(),
    {
        match self.kind {
            ErrorKind::EncodeFault => 500,
            ErrorKind::DecodeFault => 500,
            ErrorKind::ServerFault => 500,
            ErrorKind::WSFault => 400,
            ErrorKind::WSClosed => 226,
            ErrorKind::TimedOut => 408,
            ErrorKind::PayloadTooLarge => 413,
            ErrorKind::ExecError => 502,
            ErrorKind::HttpClientError => 502,
            ErrorKind::HttpClientTimedOut => 504,
        }
    }

    pub fn kind(&self) -> (r: ErrorKind)
        ensures
            r == self@.kind,
    {
        self.kind
    }

    pub fn message(&self) -> (r: &str)
        ensures
            r@ == self@.message,
    {
        self.message.as_str()
    }

    /// The error in one line: its kind, its status in brackets, and its
    /// message.
    pub fn describe(&self) -> (r: String)
        ensures
            r@ == described(self@),
    {
        let status = self.http_status();
        let mut out = String::from_str(self.kind.name());
        out.append("[");
        out.append(decimal_text(status as u64).as_str());
        out.append(" ");
        match canonical_reason(status) {
            Some(reason) => out.append(reason.as_str()),
            None => out.append("<unknown status code>"),
        }
        out.append("]: ");
        out.append(self.message.as_str());
        out
    }
}

/// An error in one line.
pub open spec fn described(e: ErrorView) -> Seq<char> {
    e.kind.label() + "["@ + ascii_text(decimal(e.kind.status() as nat)) + " "@ + (match http_reason(
        e.kind.status(),
    ) {
        Some(reason) => reason,
        None => "<unknown status code>"@,
    }) + "]: "@ + e.message
}

/// The error of a handler of the first kind: a message.
#[derive(Debug)]
pub struct ApiError {
    message: String,
}

impl View for ApiError {
    type V = Seq<char>;

    closed spec fn view(&self) -> Seq<char> {
        self.message@
    }
}

impl ApiError {
    pub fn new(message: String) -> (r: Self)
        ensures
            r@ == message@,
    {
        Self { message }
    }

    pub fn message(&self) -> (r: &str)
        ensures
            r@ == self@,
    {
        self.message.as_str()
    }
}

/// The message of the error for a request of `bytes` bytes where at most
/// `max_bytes` are accepted.
pub open spec fn too_many_bytes_message(bytes: nat, max_bytes: nat) -> Seq<char> {
    "too many bytes sent ("@ + ascii_text(decimal(bytes)) + " > "@ + ascii_text(
        decimal(max_bytes),
    ) + ")"@
}

/// The error for a request that is larger than the configured maximum.
pub fn too_many_bytes_err(bytes: usize, max_bytes: usize) -> (r: Error)
    ensures
        r@ == (ErrorView {
            kind: ErrorKind::PayloadTooLarge,
            message: too_many_bytes_message(bytes as nat, max_bytes as nat),
        }),
{
    let mut message = String::from_str("too many bytes sent (");
    message.append(decimal_text(bytes as u64).as_str());
    message.append(" > ");
    message.append(decimal_text(max_bytes as u64).as_str());
    message.append(")");
    Error::new_with_kind(ErrorKind::PayloadTooLarge, message)
}

/// The text of what an unwind carried: the payload, if it is text.
pub open spec fn caught_text(payload: Option<Seq<char>>) -> Seq<char> {
    match payload {
        Some(text) => text,
        None => "**UNKNOWN**"@,
    }
}

/// The text of what an unwind carried; `payload` is what it carried, if
/// that is text.
pub fn caught_err_to_str(payload: Option<&str>) -> (r: String)
    ensures
        r@ == caught_text(
            match payload {
                Some(text) => Some(text@),
                None => None,
            },
        ),
{
    match payload {
        Some(text) => String::from_str(text),
        None => String::from_str("**UNKNOWN**"),
    }
}

/// What the chain behind the recovery did.
#[derive(Debug)]
pub enum Caught {
    /// It returned.
    Returned(Result<(), Error>),
    /// It unwound; the payload is given if it is text.
    Unwound(Option<String>),
}

/// The recovery: what the chain returned passes through, and an unwind
/// becomes a server fault that carries the payload's text.
pub fn middleware_recovery(next: Caught) -> (r: Result<(), Error>)
    ensures
        match next {
            Caught::Returned(Ok(())) => r is Ok,
            Caught::Returned(Err(e)) => r matches Err(out) && out@ == e@,
            Caught::Unwound(payload) => r matches Err(out) && out@ == (ErrorView {
                kind: ErrorKind::ServerFault,
                message: recovered_message(
                    caught_text(
                        match payload {
                            Some(text) => Some(text@),
                            None => None,
                        },
                    ),
                ),
            }),
        },
{
    match next {
        Caught::Returned(r) => r,
        Caught::Unwound(payload) => {
            let text = match &payload {
                Some(text) => caught_err_to_str(Some(text.as_str())),
                None => caught_err_to_str(None),
            };
            Err(recovered_err(text.as_str()))
        },
    }
}

/// The message of the error that stands for a caught unwind.
pub open spec fn recovered_message(payload: Seq<char>) -> Seq<char> {
    "recovered from panic during request: "@ + payload
}

/// The error that stands for an unwind caught while a request was handled;
/// `payload` is the text that the unwind carried.
pub fn recovered_err(payload: &str) -> (r: Error)
    ensures
        r@ == (ErrorView { kind: ErrorKind::ServerFault, message: recovered_message(payload@) }),
{
    let mut message = String::from_str("recovered from panic during request: ");
    message.append(payload);
    Error::new_with_kind(ErrorKind::ServerFault, message)
}

/// The framed bytes of a response, and whether the connection closes after
/// they are written.
#[derive(Clone, Debug)]
pub struct ResponseBody {
    body: Vec<u8>,
    close: bool,
}

/// What a [`ResponseBody`] holds.
pub ghost struct ResponseBodyView {
    pub body: Seq<u8>,
    pub close: bool,
}

impl View for ResponseBody {
    type V = ResponseBodyView;

    closed spec fn view(&self) -> ResponseBodyView {
        ResponseBodyView { body: self.body@, close: self.close }
    }
}

/// The text of the fixed response that [`ResponseBody::dummy`] holds.
pub open spec fn dummy_text() -> Seq<char> {
    "HTTP/1.1 200 OK\r\nServer: index.teggle.io/v1beta1\r\nContent-Length: 18\r\nDate: TODO\r\ncontent-type: application/json\r\n\r\n{\"message\":\"PONG\"}"@
}

impl ResponseBody {
    /// Framed bytes after which the connection stays open.
    pub fn new(body: Vec<u8>) -> (r: Self)
        ensures
            r@ == (ResponseBodyView { body: body@, close: false }),
    {
        Self { body, close: false }
    }

    /// A fixed response, for trials without a handler: `PONG`, then close.
    pub fn dummy() -> (r: Self)
        ensures
            r@ == (ResponseBodyView { body: ascii(dummy_text()), close: true }),
    {
        proof {
            reveal_strlit(
                "HTTP/1.1 200 OK\r\nServer: index.teggle.io/v1beta1\r\nContent-Length: 18\r\nDate: TODO\r\ncontent-type: application/json\r\n\r\n{\"message\":\"PONG\"}",
            );
        }
        let body = ascii_bytes(
            "HTTP/1.1 200 OK\r\nServer: index.teggle.io/v1beta1\r\nContent-Length: 18\r\nDate: TODO\r\ncontent-type: application/json\r\n\r\n{\"message\":\"PONG\"}",
        );
        Self { body, close: true }
    }

    pub fn new_with_close(body: Vec<u8>, close: bool) -> (r: Self)
        ensures
            r@ == (ResponseBodyView { body: body@, close }),
    {
        Self { body, close }
    }

    pub fn body(&self) -> (r: &Vec<u8>)
        ensures
            r@ == self@.body,
    {
        &self.body
    }

    pub fn close(&self) -> (r: bool)
        ensures
            r == self@.close,
    {
        self.close
    }
}

} // verus!
