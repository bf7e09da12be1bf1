//! The processing of a request that is whole: what is made of it before
//! the route's chain runs, the routing, and what is left in the inbox of
//! the connection when the chain has run.

use crate::codec::{HttpCodec, Now};
use crate::connection::{Deferred, DeferredView};
use crate::request::{asks_websocket, keeps_alive, RawRequest, Request, RequestView};
use crate::response::{error_body, framed, no_body_message, with_json, Response, ResponseView};
use crate::results::{Error, ErrorKind, ErrorView, ResponseBodyView};
use crate::router::{captured, first_match, segments, trimmed, RouteHandler, RouteTable};
use crate::wire::{handshake_response, json_string, ws_handshake};
use vstd::prelude::*;
use vstd::string::*;

verus! {

/// The message of the error for a request that cannot be taken out of the
/// accumulator.
pub open spec fn not_extracted_message() -> Seq<char> {
    "failed to extract request from raw request"@
}

/// The message of the fault for a web socket request whose handshake is
/// refused; `why` is the reason of the refusal.
pub open spec fn handshake_refused_message(why: Seq<char>) -> Seq<char> {
    "failed to extract ws request - "@ + why
}

/// The response that the chain of a request begins with: an empty answer
/// in the request's version, or the head that accepts the handshake of a
/// web socket request; a web socket fault where the handshake is refused.
pub open spec fn first_response(req: RequestView) -> Result<ResponseView, ErrorView> {
    let plain = ResponseView {
        status: 200,
        version: req.head.version,
        headers: Seq::empty(),
        body: None,
        close: !keeps_alive(req.head),
    };
    if !req.websocket {
        Ok(plain)
    } else {
        match ws_handshake(req.head.method, req.head.target, req.head.version, req.head.headers) {
            Ok(parts) => Ok(ResponseView { status: parts.status, headers: parts.headers, ..plain }),
            Err(why) => Err(
                ErrorView { kind: ErrorKind::WSFault, message: handshake_refused_message(why) },
            ),
        }
    }
}

/// Begins the response to `req`: see [`first_response`].
pub fn begin_response(req: &Request) -> (r: Result<Response, Error>)
    ensures
        match (r, first_response(req@)) {
            (Ok(res), Ok(view)) => res@ == view,
            (Err(e), Err(view)) => e@ == view,
            _ => false,
        },
{
    if req.is_websocket() {
        match handshake_response(
            req.method().as_slice(),
            req.uri().as_slice(),
            req.version(),
            req.headers(),
        ) {
            Ok(parts) => Ok(Response::from_request_and_parts(req, parts)),
            Err(why) => {
                let mut message = String::from_str("failed to extract ws request - ");
                message.append(why.as_str());
                Err(Error::new_with_kind(ErrorKind::WSFault, message))
            },
        }
    } else {
        Ok(Response::from_request(req))
    }
}

/// Takes a request that is whole out of its accumulator and begins the
/// response to it. Fails with a server fault where the head was refused,
/// and with a web socket fault where the handshake is.
pub fn process_raw_request(raw_req: RawRequest) -> (r: Result<(Request, Response), Error>)
    requires
        raw_req.wf(),
        raw_req.is_ready(),
    ensures
        match raw_req@.usable() {
            None => r matches Err(e) && e@ == (ErrorView {
                kind: ErrorKind::ServerFault,
                message: not_extracted_message(),
            }),
            Some(head) => {
                let req = RequestView {
                    head,
                    body: raw_req@.data,
                    vars: None,
                    websocket: asks_websocket(Some(head)),
                };
                match (r, first_response(req)) {
                    (Ok(pair), Ok(view)) => pair.0@ == req && pair.1@ == view,
                    (Err(e), Err(view)) => e@ == view,
                    _ => false,
                }
            },
        },
{
    match raw_req.extract() {
        Some(req) => {
            match begin_response(&req) {
                Ok(res) => Ok((req, res)),
                Err(e) => Err(e),
            }
        },
        None => Err(
            Error::new_with_kind(
                ErrorKind::ServerFault,
                String::from_str("failed to extract request from raw request"),
            ),
        ),
    }
}

/// The response to a request that no route answers.
pub open spec fn not_found(before: ResponseView) -> ResponseView {
    ResponseView { status: 404, ..with_json(before, error_body(404, json_string("Not Found"@))) }
}

/// Finds the route of a request. Where there is one, the request gets what
/// the route captures from its path, and the route is returned for its
/// chain to run. Where there is none, the response becomes "not found".
pub fn route_request<'a, H, M: Copy>(
    table: &'a RouteTable<H, M>,
    req: &mut Request,
    res: &mut Response,
) -> (r: Option<&'a RouteHandler<H, M>>)
    ensures
        match (r, first_match(table@, old(req)@.head.method, segments(trimmed(old(req)@.head.path)))) {
            (Some(route), Some(i)) => {
                &&& route@ == table@[i]
                &&& final(res)@ == old(res)@
                &&& final(req)@ == (RequestView {
                    vars: Some(
                        captured(table@[i].tokens, segments(trimmed(old(req)@.head.path))),
                    ),
                    ..old(req)@
                })
            },
            (None, None) => final(req)@ == old(req)@ && final(res)@ == not_found(old(res)@),
            _ => false,
        },
{
    match table.find(req.method().as_slice(), req.path().as_slice()) {
        Some((route, captures)) => {
            req.vars(captures);
            Some(route)
        },
        None => {
            let _answered = res.error(404, "Not Found");
            None
        },
    }
}

/// What is left in the inbox of the connection when the chain of a request
/// has run: the error, if the chain failed; otherwise the framed response,
/// which also begins the web socket if the request is for one. A response
/// without a body cannot be framed, except that of a web socket request,
/// which is framed with an empty body.
pub open spec fn outcome(
    result: Result<(), ErrorView>,
    res: ResponseView,
    websocket: bool,
    server: Seq<u8>,
    date: Seq<u8>,
) -> DeferredView {
    match result {
        Err(e) => DeferredView::Fail(e),
        Ok(()) => if websocket {
            let body = match res.body {
                Some(b) => b,
                None => Seq::empty(),
            };
            DeferredView::Upgrade(
                ResponseBodyView {
                    body: framed(server, ResponseView { body: Some(body), ..res }, body, date),
                    close: res.close,
                },
            )
        } else {
            match res.body {
                Some(body) => DeferredView::Respond(
                    ResponseBodyView { body: framed(server, res, body, date), close: res.close },
                ),
                None => DeferredView::Fail(
                    ErrorView { kind: ErrorKind::ServerFault, message: no_body_message() },
                ),
            }
        },
    }
}

/// Makes of the result of a request's chain what is to be left in the
/// inbox of its connection: see [`outcome`].
pub fn complete_request(
    result: Result<(), Error>,
    res: Response,
    websocket: bool,
    codec: &mut HttpCodec,
    now: Now,
) -> (r: Deferred)
    ensures
        final(codec).server() == old(codec).server(),
        r@ == outcome(
            match result {
                Ok(()) => Ok(()),
                Err(e) => Err(e@),
            },
            res@,
            websocket,
            old(codec).server(),
            now.text(),
        ),
{
    match result {
        Err(e) => Deferred::Fail(e),
        Ok(()) => {
            if websocket {
                let mut res = res;
                if !res.has_body() {
                    res.body(Vec::new());
                }
                match res.encode(codec, now) {
                    Ok(body) => Deferred::Upgrade(body),
                    Err(e) => Deferred::Fail(e),
                }
            } else {
                match res.encode(codec, now) {
                    Ok(body) => Deferred::Respond(body),
                    Err(e) => Deferred::Fail(e),
                }
            }
        },
    }
}

} // verus!
