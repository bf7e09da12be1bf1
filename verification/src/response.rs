//! Responses: status, headers and body, the helpers for JSON answers and
//! errors, and the framing into the bytes that go on the wire.

use crate::buffer::{buffer_as_slice, buffer_new};
use crate::codec::{framed_head, is_value, check_value, HttpCodec, Now};
use crate::request::{keeps_alive, Request};
use crate::results::{Error, ErrorKind, ErrorView, ResponseBody, ResponseBodyView};
use crate::text::{ascii, ascii_bytes, copy_bytes, decimal, decimal_bytes, push_bytes};
use crate::wire::{
    canonical_header_name,
    canonical_reason,
    http_header_name,
    http_reason,
    json_quote,
    json_string,
    pairs,
    Handshake,
    Version,
};
use vstd::prelude::*;
use vstd::string::*;

verus! {

/// A response in the making.
#[derive(Debug)]
pub struct Response {
    status: u16,
    version: Version,
    headers: Vec<(Vec<u8>, Vec<u8>)>,
    body_bytes: Option<Vec<u8>>,
    close: bool,
}

/// What a [`Response`] holds.
pub ghost struct ResponseView {
    pub status: u16,
    pub version: Version,
    pub headers: Seq<(Seq<u8>, Seq<u8>)>,
    pub body: Option<Seq<u8>>,
    /// Whether the connection closes behind the response.
    pub close: bool,
}

impl View for Response {
    type V = ResponseView;

    closed spec fn view(&self) -> ResponseView {
        ResponseView {
            status: self.status,
            version: self.version,
            headers: pairs(self.headers@),
            body: match self.body_bytes {
                Some(b) => Some(b@),
                None => None,
            },
            close: self.close,
        }
    }
}

/// Whether `code` is a status code: a number of three digits.
pub open spec fn is_status(code: u16) -> bool {
    100 <= code <= 999
}

/// The name of the header that says what the body is.
pub open spec fn content_type() -> Seq<u8> {
    ascii("content-type"@)
}

/// The `Content-Type` of a JSON body.
pub open spec fn application_json() -> Seq<u8> {
    ascii("application/json"@)
}

/// The JSON body that carries a message.
pub open spec fn message_body(quoted: Seq<u8>) -> Seq<u8> {
    ascii("{\"message\":"@) + quoted + ascii("}"@)
}

/// The JSON body that carries a status and a message.
pub open spec fn error_body(status: u16, quoted: Seq<u8>) -> Seq<u8> {
    ascii("{\"status\":"@) + decimal(status as nat) + ascii(",\"message\":"@) + quoted + ascii(
        "}"@,
    )
}

/// The message of the error for encoding a response that has no body.
pub open spec fn no_body_message() -> Seq<char> {
    "encode called on response with no body"@
}

/// A response with a JSON body: the content type is added behind the
/// headers, and the body replaced.
pub open spec fn with_json(before: ResponseView, body: Seq<u8>) -> ResponseView {
    ResponseView {
        headers: before.headers.push((content_type(), application_json())),
        body: Some(body),
        ..before
    }
}

/// The message that an error response of the given status carries: a
/// server fault for 500, otherwise the canonical reason of the status.
pub open spec fn fault_text(status: u16) -> Seq<char> {
    if status == 500 {
        "Server Fault"@
    } else {
        match http_reason(status) {
            Some(reason) => reason,
            None => "General Fault"@,
        }
    }
}

/// The JSON body of the response that answers an error of the given
/// status.
pub open spec fn fault_body(status: u16) -> Seq<u8> {
    error_body(status, json_string(fault_text(status)))
}

/// The response that answers an error of the given status: it closes the
/// connection, and carries the status and its message as JSON.
pub open spec fn error_response(status: u16) -> ResponseView {
    ResponseView {
        status,
        version: Version::Http10,
        headers: seq![(content_type(), application_json())],
        body: Some(fault_body(status)),
        close: true,
    }
}

/// The bytes of a response on the wire: its head, framed for the length of
/// the body, and the body.
pub open spec fn framed(
    server: Seq<u8>,
    response: ResponseView,
    body: Seq<u8>,
    date: Seq<u8>,
) -> Seq<u8> {
    framed_head(server, response.version, response.status, response.headers, body.len(), date)
        + body
}

impl Response {
    /// An empty answer: 200 under HTTP/1.0, no headers, no body; the
    /// connection closes behind it.
    pub fn new() -> (r: Self)
        ensures
            r@ == (ResponseView {
                status: 200,
                version: Version::Http10,
                headers: Seq::empty(),
                body: None,
                close: true,
            }),
    {
        let r = Self {
            status: 200,
            version: Version::Http10,
            headers: Vec::new(),
            body_bytes: None,
            close: true,
        };
        assert(pairs(r.headers@) =~= Seq::empty());
        r
    }

    /// The answer to `req` in the making: in the request's version; the
    /// connection closes behind it unless the request keeps it alive.
    pub fn from_request(req: &Request) -> (r: Self)
        ensures
            r@ == (ResponseView {
                status: 200,
                version: req@.head.version,
                headers: Seq::empty(),
                body: None,
                close: !keeps_alive(req@.head),
            }),
    {
        let mut res = Self::new();
        res.version(req.version());
        res.close = !req.should_keep_alive();
        res
    }

    /// The answer to `req` with the status and the headers that accept its
    /// handshake.
    pub fn from_request_and_parts(req: &Request, parts: Handshake) -> (r: Self)
        ensures
            r@ == (ResponseView {
                status: parts@.status,
                version: req@.head.version,
                headers: parts@.headers,
                body: None,
                close: !keeps_alive(req@.head),
            }),
    {
        Self {
            status: parts.status,
            version: req.version(),
            headers: parts.headers,
            body_bytes: None,
            close: !req.should_keep_alive(),
        }
    }

    /// The answer to an error: see [`error_response`].
    pub fn from_error(err: &Error) -> (r: Self)
        ensures
            r@ == error_response(err@.kind.status()),
    {
        let mut res = Self::new();
        let status = err.http_status();
        res.status(status);
        let text = if status == 500 {
            String::from_str("Server Fault")
        } else {
            match canonical_reason(status) {
                Some(reason) => reason,
                None => String::from_str("General Fault"),
            }
        };
        let _answered = res.error(status, text.as_str());
        assert(res@.headers =~= seq![(content_type(), application_json())]);
        res
    }

    pub fn status(&mut self, status: u16)
        requires
            is_status(status),
        ensures
            final(self)@ == (ResponseView { status, ..old(self)@ }),
    {
        self.status = status;
    }

    pub fn version(&mut self, version: Version)
        ensures
            final(self)@ == (ResponseView { version, ..old(self)@ }),
    {
        self.version = version;
    }

    /// Adds a header behind those that are there, if `key` is a header
    /// name and `value` may be a header value; says whether it did. The
    /// name is kept in its canonical form.
    pub fn header(&mut self, key: &[u8], value: &[u8]) -> (r: bool)
        ensures
            r == (http_header_name(key@) is Some && is_value(value@)),
            final(self)@ == if r {
                ResponseView {
                    headers: old(self)@.headers.push((http_header_name(key@)->0, value@)),
                    ..old(self)@
                }
            } else {
                old(self)@
            },
    {
        if !check_value(value) {
            return false;
        }
        match canonical_header_name(key) {
            Some(name) => {
                self.append_header(name, copy_bytes(value));
                true
            },
            None => false,
        }
    }

    /// Adds the header of the canonical name `name` behind those that are
    /// there.
    pub fn append_header(&mut self, name: Vec<u8>, value: Vec<u8>)
        ensures
            final(self)@ == (ResponseView {
                headers: old(self)@.headers.push((name@, value@)),
                ..old(self)@
            }),
    {
        let ghost before = self.headers@;
        self.headers.push((name, value));
        assert(pairs(self.headers@) =~= pairs(before).push((name@, value@)));
    }

    pub fn body(&mut self, body: Vec<u8>)
        ensures
            final(self)@ == (ResponseView { body: Some(body@), ..old(self)@ }),
    {
        self.body_bytes = Some(body);
    }

    pub fn has_body(&self) -> (r: bool)
        ensures
            r == self@.body is Some,
    {
        self.body_bytes.is_some()
    }

    /// Makes `data`, which is JSON, the body, and says so in a
    /// `Content-Type` header.
    pub fn json(&mut self, data: Vec<u8>)
        ensures
            final(self)@ == with_json(old(self)@, data@),
    {
        proof {
            reveal_strlit("content-type");
            reveal_strlit("application/json");
        }
        self.append_header(ascii_bytes("content-type"), ascii_bytes("application/json"));
        self.body(data);
    }

    /// Answers 200 with the message whose JSON string is `quoted`.
    pub fn json_message(&mut self, quoted: Vec<u8>)
        ensures
            final(self)@ == (ResponseView {
                status: 200,
                ..with_json(old(self)@, message_body(quoted@))
            }),
    {
        proof {
            reveal_strlit("{\"message\":");
            reveal_strlit("}");
        }
        let mut body = ascii_bytes("{\"message\":");
        push_bytes(&mut body, quoted.as_slice());
        push_bytes(&mut body, ascii_bytes("}").as_slice());
        self.json(body);
        self.status(200);
    }

    /// Answers `status` with the status and the message whose JSON string
    /// is `quoted`.
    pub fn json_error(&mut self, status: u16, quoted: Vec<u8>)
        requires
            is_status(status),
        ensures
            final(self)@ == (ResponseView {
                status,
                ..with_json(old(self)@, error_body(status, quoted@))
            }),
    {
        proof {
            reveal_strlit("{\"status\":");
            reveal_strlit(",\"message\":");
            reveal_strlit("}");
        }
        let mut body = ascii_bytes("{\"status\":");
        push_bytes(&mut body, decimal_bytes(status as u64).as_slice());
        push_bytes(&mut body, ascii_bytes(",\"message\":").as_slice());
        push_bytes(&mut body, quoted.as_slice());
        push_bytes(&mut body, ascii_bytes("}").as_slice());
        self.json(body);
        self.status(status);
    }

    /// Answers 200 with the message `msg` as JSON.
    pub fn ok(&mut self, msg: &str) -> (r: Result<(), Error>)
        ensures
            r is Ok,
            final(self)@ == (ResponseView {
                status: 200,
                ..with_json(old(self)@, message_body(json_string(msg@)))
            }),
    {
        let quoted = json_quote(msg);
        self.json_message(quoted);
        Ok(())
    }

    /// Answers `status` with the status and the message `msg` as JSON.
    pub fn error(&mut self, status: u16, msg: &str) -> (r: Result<(), Error>)
        requires
            is_status(status),
        ensures
            r is Ok,
            final(self)@ == (ResponseView {
                status,
                ..with_json(old(self)@, error_body(status, json_string(msg@)))
            }),
    {
        let quoted = json_quote(msg);
        self.json_error(status, quoted);
        Ok(())
    }

    /// Answers 500 with the message of a server fault.
    pub fn fault(&mut self) -> (r: Result<(), Error>)
        ensures
            r is Ok,
            final(self)@ == (ResponseView {
                status: 500,
                ..with_json(old(self)@, error_body(500, json_string("Server Fault"@)))
            }),
    {
        self.error(500, "Server Fault")
    }

    /// Frames the response: the head, with the length of the body, and the
    /// body. A response without a body cannot be framed.
    pub fn encode(self, codec: &mut HttpCodec, now: Now) -> (r: Result<ResponseBody, Error>)
        ensures
            final(codec).server() == old(codec).server(),
            match (r, self@.body) {
                (Ok(res), Some(body)) => res@ == (ResponseBodyView {
                    body: framed(old(codec).server(), self@, body, now.text()),
                    close: self@.close,
                }),
                (Err(e), None) => e@ == (ErrorView {
                    kind: ErrorKind::ServerFault,
                    message: no_body_message(),
                }),
                _ => false,
            },
    {
        match self.body_bytes {
            Some(body) => {
                let mut encoded = buffer_new();
                codec.encode(self.version, self.status, &self.headers, &mut encoded, body.len(), now);
                let mut bytes = copy_bytes(buffer_as_slice(&encoded));
                push_bytes(&mut bytes, body.as_slice());
                assert(Seq::<u8>::empty() + framed_head(
                    old(codec).server(),
                    self.version,
                    self.status,
                    pairs(self.headers@),
                    body@.len(),
                    now.text(),
                ) =~= framed_head(
                    old(codec).server(),
                    self.version,
                    self.status,
                    pairs(self.headers@),
                    body@.len(),
                    now.text(),
                ));
                Ok(ResponseBody::new_with_close(bytes, self.close))
            },
            None => Err(Error::new(String::from_str("encode called on response with no body"))),
        }
    }
}

} // verus!
