//! What the server answers on each of its routes, followed from the
//! decoded head of a request to what its connection writes. Each law
//! composes the contracts of the steps between: the first response, the
//! routing, the handler, the framing and the run of the deferral.

use crate::connection::{lemma_error_closes, lemma_http11_keeps, ConnView, DeferredView, EffectView};
use crate::handler::{first_response, handshake_refused_message, outcome};
use crate::request::{asks_websocket, HeadView, RequestView};
use crate::response::{
    error_body, error_response, fault_body, framed, message_body, ResponseView,
};
use crate::results::{recovered_message, ErrorKind, ErrorView, ResponseBodyView};
use crate::router::{captured, first_match, is_segment, segments, stage_at, trimmed, Stage};
use crate::routes::{
    answered, greets, hello_message, lemma_server_finds, lemma_server_greets,
    lemma_server_sums, server_table, sum_message, sums, Endpoint, Guard,
};
use crate::text::{ascii, parsed_decimal};
use crate::wire::{json_string, ws_handshake, Version};
use vstd::prelude::*;
use vstd::string::*;
use vstd::utf8::{decode_utf8, valid_utf8};

verus! {

/// The request that is taken out of the accumulator for a head and the
/// body that came with it.
pub open spec fn request_of(head: HeadView, body: Seq<u8>) -> RequestView {
    RequestView { head, body, vars: None, websocket: asks_websocket(Some(head)) }
}

/// The request once the route in place `at` of the server's table has
/// captured from its path.
pub open spec fn routed(req: RequestView, at: int) -> RequestView {
    RequestView {
        vars: Some(captured(server_table(8)[at].tokens, segments(trimmed(req.head.path)))),
        ..req
    }
}

/// What the connection has to do once the chain of a plain request has
/// left `res`: the deferral of the response, run.
pub open spec fn delivered(conn: ConnView, res: ResponseView, server: Seq<u8>, date: Seq<u8>) -> ConnView {
    conn.ran(outcome(Ok(()), res, false, server, date), server, date)
}

/// A plain request under HTTP/1.1 that a handler answers 200 with a
/// message: one response is deferred, with the message as its JSON body,
/// and an open connection writes it and stays open.
pub proof fn lemma_message_delivered(
    head: HeadView,
    body: Seq<u8>,
    msg: Seq<char>,
    conn: ConnView,
    server: Seq<u8>,
    date: Seq<u8>,
)
    requires
        head.version == Version::Http11,
        !asks_websocket(Some(head)),
        !conn.closed,
    ensures
        ({
            let begun = first_response(request_of(head, body));
            let res = answered(begun->Ok_0, msg);
            let bytes = framed(server, res, message_body(json_string(msg)), date);
            &&& begun is Ok
            &&& res.status == 200
            &&& res.version == Version::Http11
            &&& !res.close
            &&& res.body == Some(message_body(json_string(msg)))
            &&& outcome(Ok(()), res, false, server, date) == DeferredView::Respond(
                ResponseBodyView { body: bytes, close: false },
            )
            &&& delivered(conn, res, server, date) == conn.with_effect(EffectView::Write(bytes))
        }),
{
    lemma_http11_keeps(head);
}

/// `GET /ping` under HTTP/1.1 is answered by the ping route, 200 with the
/// message `PONG`, in one response behind which the connection stays
/// open.
pub proof fn lemma_ping_answered(
    head: HeadView,
    body: Seq<u8>,
    conn: ConnView,
    server: Seq<u8>,
    date: Seq<u8>,
)
    requires
        head.method == ascii("GET"@),
        segments(trimmed(head.path)) == seq![ascii("ping"@)],
        head.version == Version::Http11,
        !asks_websocket(Some(head)),
        !conn.closed,
    ensures
        ({
            let res = answered(first_response(request_of(head, body))->Ok_0, "PONG"@);
            let bytes = framed(server, res, message_body(json_string("PONG"@)), date);
            &&& first_match(server_table(8), head.method, segments(trimmed(head.path))) == Some(
                4int,
            )
            &&& server_table(8)[4].handler == Endpoint::Ping
            &&& res.status == 200 && !res.close
            &&& delivered(conn, res, server, date) == conn.with_effect(EffectView::Write(bytes))
        }),
{
    lemma_server_finds(4);
    lemma_message_delivered(head, body, "PONG"@, conn, server, date);
}

/// `GET /hello/<name>` under HTTP/1.1, for every name that is a segment
/// and text: the greeting route captures the name, its handler answers
/// 200 with `Hello <name>` and nothing else, and the connection writes
/// that one response and stays open.
pub proof fn lemma_hello_answered(
    head: HeadView,
    body: Seq<u8>,
    name: Seq<u8>,
    conn: ConnView,
    server: Seq<u8>,
    date: Seq<u8>,
)
    requires
        head.method == ascii("GET"@),
        segments(trimmed(head.path)) == seq![ascii("hello"@), name],
        is_segment(name),
        valid_utf8(name),
        head.version == Version::Http11,
        !asks_websocket(Some(head)),
        !conn.closed,
    ensures
        ({
            let req = request_of(head, body);
            let begun = first_response(req)->Ok_0;
            let msg = hello_message(decode_utf8(name));
            let res = answered(begun, msg);
            let bytes = framed(server, res, message_body(json_string(msg)), date);
            &&& first_match(server_table(8), head.method, segments(trimmed(head.path))) == Some(
                5int,
            )
            &&& server_table(8)[5].handler == Endpoint::Hello
            &&& routed(req, 5).vars == Some(
                Map::<Seq<u8>, Seq<u8>>::empty().insert(ascii("name"@), name),
            )
            &&& forall|r: Result<(), ErrorKind>, after: ResponseView|
                greets(routed(req, 5), begun, r, after) <==> r is Ok && after == res
            &&& res.status == 200 && !res.close
            &&& delivered(conn, res, server, date) == conn.with_effect(EffectView::Write(bytes))
        }),
{
    lemma_server_greets(name);
    lemma_message_delivered(head, body, hello_message(decode_utf8(name)), conn, server, date);
}

/// `GET /calc/<a>/<b>` under HTTP/1.1, for all `a` and `b` that are
/// written in decimal and whose sum fits 32 bits: the sum route captures
/// both, its handler answers 200 with `Sum ` and the sum of the two
/// numbers, and the connection writes that one response and stays open.
pub proof fn lemma_calc_answered(
    head: HeadView,
    body: Seq<u8>,
    a: Seq<u8>,
    b: Seq<u8>,
    conn: ConnView,
    server: Seq<u8>,
    date: Seq<u8>,
)
    requires
        head.method == ascii("GET"@),
        segments(trimmed(head.path)) == seq![ascii("calc"@), a, b],
        is_segment(a),
        is_segment(b),
        parsed_decimal(a, u32::MAX as nat) is Some,
        parsed_decimal(b, u32::MAX as nat) is Some,
        parsed_decimal(a, u32::MAX as nat)->0 + parsed_decimal(b, u32::MAX as nat)->0 <= u32::MAX,
        head.version == Version::Http11,
        !asks_websocket(Some(head)),
        !conn.closed,
    ensures
        ({
            let req = request_of(head, body);
            let begun = first_response(req)->Ok_0;
            let sum = parsed_decimal(a, u32::MAX as nat)->0 + parsed_decimal(
                b,
                u32::MAX as nat,
            )->0;
            let res = answered(begun, sum_message(sum));
            let bytes = framed(server, res, message_body(json_string(sum_message(sum))), date);
            &&& first_match(server_table(8), head.method, segments(trimmed(head.path))) == Some(
                6int,
            )
            &&& server_table(8)[6].handler == Endpoint::Calc
            &&& forall|r: Result<(), ErrorKind>, after: ResponseView|
                sums(routed(req, 6), begun, r, after) <==> r is Ok && after == res
            &&& res.status == 200 && !res.close
            &&& delivered(conn, res, server, date) == conn.with_effect(EffectView::Write(bytes))
        }),
{
    reveal_strlit("a");
    reveal_strlit("b");
    lemma_server_sums(a, b);
    assert(ascii("a"@)[0] != ascii("b"@)[0]);
    let sum = (parsed_decimal(a, u32::MAX as nat)->0 + parsed_decimal(b, u32::MAX as nat)->0) as nat;
    lemma_message_delivered(head, body, sum_message(sum), conn, server, date);
}

/// `POST /test/post` under HTTP/1.1: the route runs behind the recovery
/// and then the marker of the routes under `/test`, and once its handler
/// has read the payload and answered `Ok`, the connection writes that one
/// response, 200, and stays open.
pub proof fn lemma_post_answered(
    head: HeadView,
    body: Seq<u8>,
    conn: ConnView,
    server: Seq<u8>,
    date: Seq<u8>,
)
    requires
        head.method == ascii("POST"@),
        segments(trimmed(head.path)) == seq![ascii("test"@), ascii("post"@)],
        head.version == Version::Http11,
        !asks_websocket(Some(head)),
        !conn.closed,
    ensures
        ({
            let res = answered(first_response(request_of(head, body))->Ok_0, "Ok"@);
            let bytes = framed(server, res, message_body(json_string("Ok"@)), date);
            let route = server_table(8)[2];
            &&& first_match(server_table(8), head.method, segments(trimmed(head.path))) == Some(
                2int,
            )
            &&& route.handler == Endpoint::TestPost
            &&& stage_at(route, 0) == Stage::Middleware(Guard::Recovery)
            &&& stage_at(route, 1) == Stage::Middleware(Guard::TestMarker)
            &&& stage_at(route, 2) == Stage::<Guard>::Handler
            &&& res.status == 200 && !res.close
            &&& delivered(conn, res, server, date) == conn.with_effect(EffectView::Write(bytes))
        }),
{
    lemma_server_finds(2);
    lemma_message_delivered(head, body, "Ok"@, conn, server, date);
}

/// `GET /test/panic`: the route runs behind the recovery, which makes a
/// server fault of the unwind whatever it carried. The fault is deferred
/// in place of a response, and a connection that is open and no web socket
/// answers it with one response, 500 with the message `Server Fault`, and
/// the close notification behind it.
pub proof fn lemma_panic_answered(
    head: HeadView,
    payload: Seq<char>,
    res: ResponseView,
    conn: ConnView,
    server: Seq<u8>,
    date: Seq<u8>,
)
    requires
        head.method == ascii("GET"@),
        segments(trimmed(head.path)) == seq![ascii("test"@), ascii("panic"@)],
        !conn.closed,
        !conn.websocket,
        !conn.close_notify_sent,
    ensures
        ({
            let fault = ErrorView {
                kind: ErrorKind::ServerFault,
                message: recovered_message(payload),
            };
            let deferred = outcome(Err(fault), res, false, server, date);
            let answer = error_response(500);
            let bytes = framed(server, answer, fault_body(500), date);
            let route = server_table(8)[1];
            &&& first_match(server_table(8), head.method, segments(trimmed(head.path))) == Some(
                1int,
            )
            &&& route.handler == Endpoint::TestPanic
            &&& stage_at(route, 0) == Stage::Middleware(Guard::Recovery)
            &&& deferred == DeferredView::Fail(fault)
            &&& answer.status == 500 && answer.close
            &&& answer.body == Some(fault_body(500))
            &&& fault_body(500) == error_body(500, json_string("Server Fault"@))
            &&& conn.ran(deferred, server, date) == (ConnView {
                effects: conn.effects.push(EffectView::Write(bytes)).push(EffectView::CloseNotify),
                close_notify_sent: true,
                ..conn
            })
        }),
{
    lemma_server_finds(1);
    lemma_error_closes(conn, ErrorKind::ServerFault, server, date);
}

/// `GET /ws` that asks for a web socket under HTTP/1.1. Where the
/// handshake is accepted, the response has the status and the headers of
/// the handshake and is framed with an empty body; an open connection
/// writes it, then activates the web socket, and is a web socket from
/// then on. Where the handshake is refused, the request fails with a web
/// socket fault, whose status is 400.
pub proof fn lemma_ws_answered(
    head: HeadView,
    body: Seq<u8>,
    conn: ConnView,
    server: Seq<u8>,
    date: Seq<u8>,
)
    requires
        head.method == ascii("GET"@),
        segments(trimmed(head.path)) == seq![ascii("ws"@)],
        head.version == Version::Http11,
        asks_websocket(Some(head)),
        !conn.closed,
    ensures
        first_match(server_table(8), head.method, segments(trimmed(head.path))) == Some(7int),
        server_table(8)[7].handler == Endpoint::Ws,
        match ws_handshake(head.method, head.target, head.version, head.headers) {
            Ok(parts) => {
                let res = ResponseView {
                    status: parts.status,
                    version: Version::Http11,
                    headers: parts.headers,
                    body: None,
                    close: false,
                };
                let empty = Seq::<u8>::empty();
                let bytes = framed(server, ResponseView { body: Some(empty), ..res }, empty, date);
                let deferred = outcome(Ok(()), res, true, server, date);
                &&& first_response(request_of(head, body)) == Ok::<ResponseView, ErrorView>(res)
                &&& deferred == DeferredView::Upgrade(
                    ResponseBodyView { body: bytes, close: false },
                )
                &&& conn.ran(deferred, server, date) == (ConnView {
                    websocket: true,
                    effects: conn.effects.push(EffectView::Write(bytes)).push(
                        EffectView::Activate,
                    ),
                    ..conn
                })
            },
            Err(why) => {
                let fault = ErrorView {
                    kind: ErrorKind::WSFault,
                    message: handshake_refused_message(why),
                };
                &&& first_response(request_of(head, body)) == Err::<ResponseView, ErrorView>(
                    fault,
                )
                &&& fault.kind.status() == 400
            },
        },
{
    lemma_server_finds(7);
    lemma_http11_keeps(head);
}

} // verus!
