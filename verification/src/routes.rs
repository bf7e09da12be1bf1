//! The routes that the server answers, and what their handlers respond.

use crate::request::{Request, RequestView};
use crate::response::{message_body, with_json, Response, ResponseView};
use crate::results::{recovered_err, Error, ErrorKind};
use crate::router::{
    captured, first_match, fits_scope, has_key, is_segment, joined, key_segment,
    lemma_first_match_is_first, lemma_key_of_joined, lemma_segments_of_joined, registered,
    route_key, route_matches, scoped_path, segments, token_of, tokens_match, tokens_of, trimmed,
    Route, RouteTable, Router, Scope, Token,
};
use crate::text::{ascii, ascii_bytes, ascii_text, decimal, decimal_text, parse_decimal, parsed_decimal, text_of};
use crate::websocket::{messages, Message, MessageView};
use crate::wire::json_string;
use vstd::prelude::*;
use vstd::string::*;
use vstd::utf8::{decode_utf8, valid_utf8};

verus! {

/// What answers a route.
#[derive(Debug, Clone, Copy, PartialEq, Eq, Structural)]
pub enum Endpoint {
    /// `GET /test/ping`: answers `PONG`.
    TestPing,
    /// `GET /test/panic`: unwinds.
    TestPanic,
    /// `POST /test/post`: reads a JSON payload and answers `Ok`.
    TestPost,
    /// `GET /test/fetch`: answers what an outbound call brings.
    TestFetch,
    /// `GET /ping`: answers `PONG`.
    Ping,
    /// `GET /hello/:name`: greets the name.
    Hello,
    /// `GET /calc/:a/:b`: answers the sum of the two numbers.
    Calc,
    /// `GET /ws`: subscribes to the messages of the web socket.
    Ws,
}

/// What runs before a handler.
#[derive(Debug, Clone, Copy, PartialEq, Eq, Structural)]
pub enum Guard {
    /// Turns an unwinding chain into a server fault.
    Recovery,
    /// Sets the attribute `test`, for the routes under `/test`.
    TestMarker,
}

/// The routes after one more is registered, if nothing was refused so far
/// and this one is not.
pub open spec fn then(
    routes: Option<Seq<Route<Endpoint, Guard>>>,
    scope: Scope<Guard>,
    method: Seq<u8>,
    path: Seq<u8>,
    handler: Endpoint,
) -> Option<Seq<Route<Endpoint, Guard>>> {
    match routes {
        Some(r) => registered(r, scope, method, path, handler),
        None => None,
    }
}

/// The routes of the server in the order of their registration: those under
/// `/test` behind the recovery and the marker, the others behind the
/// recovery. None if one of them is refused.
pub open spec fn server_routes() -> Option<Seq<Route<Endpoint, Guard>>> {
    let top = Scope { path: None, middleware: seq![Guard::Recovery] };
    let test = Scope {
        path: Some(ascii("/test"@)),
        middleware: seq![Guard::Recovery, Guard::TestMarker],
    };
    let get = ascii("GET"@);
    let post = ascii("POST"@);
    let r = Some(Seq::<Route<Endpoint, Guard>>::empty());
    let r = then(r, test, get, ascii("/ping"@), Endpoint::TestPing);
    let r = then(r, test, get, ascii("/panic"@), Endpoint::TestPanic);
    let r = then(r, test, post, ascii("/post"@), Endpoint::TestPost);
    let r = then(r, test, get, ascii("/fetch"@), Endpoint::TestFetch);
    let r = then(r, top, get, ascii("/ping"@), Endpoint::Ping);
    let r = then(r, top, get, ascii("/hello/:name"@), Endpoint::Hello);
    let r = then(r, top, get, ascii("/calc/:a/:b"@), Endpoint::Calc);
    then(r, top, get, ascii("/ws"@), Endpoint::Ws)
}

/// The key of the `i`-th of the server's routes.
pub open spec fn server_key(i: int) -> Seq<u8> {
    if i == 0 {
        ascii("GET/test/ping"@)
    } else if i == 1 {
        ascii("GET/test/panic"@)
    } else if i == 2 {
        ascii("POST/test/post"@)
    } else if i == 3 {
        ascii("GET/test/fetch"@)
    } else if i == 4 {
        ascii("GET/ping"@)
    } else if i == 5 {
        ascii("GET/hello/*CAPTURE*"@)
    } else if i == 6 {
        ascii("GET/calc/*CAPTURE*/*CAPTURE*"@)
    } else {
        ascii("GET/ws"@)
    }
}

/// The tokens of the `i`-th of the server's routes.
pub open spec fn server_tokens(i: int) -> Seq<Token> {
    if i == 0 {
        seq![Token::Path { value: ascii("test"@) }, Token::Path { value: ascii("ping"@) }]
    } else if i == 1 {
        seq![Token::Path { value: ascii("test"@) }, Token::Path { value: ascii("panic"@) }]
    } else if i == 2 {
        seq![Token::Path { value: ascii("test"@) }, Token::Path { value: ascii("post"@) }]
    } else if i == 3 {
        seq![Token::Path { value: ascii("test"@) }, Token::Path { value: ascii("fetch"@) }]
    } else if i == 4 {
        seq![Token::Path { value: ascii("ping"@) }]
    } else if i == 5 {
        seq![Token::Path { value: ascii("hello"@) }, Token::Capture { name: ascii("name"@) }]
    } else if i == 6 {
        seq![Token::Path { value: ascii("calc"@) }, Token::Capture { name: ascii("a"@) }, Token::Capture { name: ascii("b"@) }]
    } else {
        seq![Token::Path { value: ascii("ws"@) }]
    }
}

/// The scope under which the `i`-th of the server's routes is registered:
/// the first four under `/test`, behind the recovery and the marker; the
/// others at the top, behind the recovery.
pub open spec fn server_scope(i: int) -> Scope<Guard> {
    if i < 4 {
        Scope { path: Some(ascii("/test"@)), middleware: seq![Guard::Recovery, Guard::TestMarker] }
    } else {
        Scope { path: None, middleware: seq![Guard::Recovery] }
    }
}

/// The method of the `i`-th of the server's routes.
pub open spec fn server_method(i: int) -> Seq<u8> {
    if i == 2 {
        ascii("POST"@)
    } else {
        ascii("GET"@)
    }
}

/// The template, within its scope, of the `i`-th of the server's routes.
pub open spec fn server_path(i: int) -> Seq<u8> {
    if i == 0 {
        ascii("/ping"@)
    } else if i == 1 {
        ascii("/panic"@)
    } else if i == 2 {
        ascii("/post"@)
    } else if i == 3 {
        ascii("/fetch"@)
    } else if i == 4 {
        ascii("/ping"@)
    } else if i == 5 {
        ascii("/hello/:name"@)
    } else if i == 6 {
        ascii("/calc/:a/:b"@)
    } else {
        ascii("/ws"@)
    }
}

/// What answers the `i`-th of the server's routes.
pub open spec fn server_handler(i: int) -> Endpoint {
    if i == 0 {
        Endpoint::TestPing
    } else if i == 1 {
        Endpoint::TestPanic
    } else if i == 2 {
        Endpoint::TestPost
    } else if i == 3 {
        Endpoint::TestFetch
    } else if i == 4 {
        Endpoint::Ping
    } else if i == 5 {
        Endpoint::Hello
    } else if i == 6 {
        Endpoint::Calc
    } else {
        Endpoint::Ws
    }
}

/// The `i`-th of the server's routes.
pub open spec fn server_route(i: int) -> Route<Endpoint, Guard> {
    Route {
        unique: server_key(i),
        method: server_method(i),
        tokens: server_tokens(i),
        handler: server_handler(i),
        middleware: server_scope(i).middleware,
    }
}

/// The segments of the whole template of the `i`-th of the server's routes.
pub open spec fn server_parts(i: int) -> Seq<Seq<u8>> {
    if i == 0 {
        seq![ascii("test"@), ascii("ping"@)]
    } else if i == 1 {
        seq![ascii("test"@), ascii("panic"@)]
    } else if i == 2 {
        seq![ascii("test"@), ascii("post"@)]
    } else if i == 3 {
        seq![ascii("test"@), ascii("fetch"@)]
    } else if i == 4 {
        seq![ascii("ping"@)]
    } else if i == 5 {
        seq![ascii("hello"@), ascii(":name"@)]
    } else if i == 6 {
        seq![ascii("calc"@), ascii(":a"@), ascii(":b"@)]
    } else {
        seq![ascii("ws"@)]
    }
}

/// The template of each of the server's routes fits its scope and has the
/// route's tokens, and the route's key is the key of its method and tokens.
proof fn lemma_server_route(i: int)
    requires
        0 <= i < 8,
    ensures
        fits_scope(server_scope(i).path, server_path(i)),
        tokens_of(scoped_path(server_scope(i).path, server_path(i))) == server_tokens(i),
        route_key(server_method(i), server_tokens(i)) == server_key(i),
{
    reveal_strlit("*CAPTURE*");
    reveal_strlit("GET");
    reveal_strlit("POST");
    reveal_strlit("/test");
    reveal_strlit("/ping");
    reveal_strlit("/panic");
    reveal_strlit("/post");
    reveal_strlit("/fetch");
    reveal_strlit("/hello/:name");
    reveal_strlit("/calc/:a/:b");
    reveal_strlit("/ws");
    reveal_strlit("test");
    reveal_strlit("ping");
    reveal_strlit("panic");
    reveal_strlit("post");
    reveal_strlit("fetch");
    reveal_strlit("hello");
    reveal_strlit("calc");
    reveal_strlit("ws");
    reveal_strlit(":name");
    reveal_strlit(":a");
    reveal_strlit(":b");
    reveal_strlit("name");
    reveal_strlit("a");
    reveal_strlit("b");
    reveal_strlit("GET/test/ping");
    reveal_strlit("GET/test/panic");
    reveal_strlit("POST/test/post");
    reveal_strlit("GET/test/fetch");
    reveal_strlit("GET/ping");
    reveal_strlit("GET/hello/*CAPTURE*");
    reveal_strlit("GET/calc/*CAPTURE*/*CAPTURE*");
    reveal_strlit("GET/ws");
    let parts = server_parts(i);
    let path = scoped_path(server_scope(i).path, server_path(i));
    reveal_with_fuel(joined, 5);
    assert(path =~= joined(parts));
    assert forall|k: int| 0 <= k < parts.len() implies is_segment(#[trigger] parts[k]) by {
    }
    lemma_key_of_joined(server_method(i), parts);
    assert(ascii(":name"@).skip(1) =~= ascii("name"@));
    assert(ascii(":a"@).skip(1) =~= ascii("a"@));
    assert(ascii(":b"@).skip(1) =~= ascii("b"@));
    assert(parts.map_values(|s: Seq<u8>| token_of(s)) =~= server_tokens(i));
    let keyed = parts.map_values(|s: Seq<u8>| key_segment(s));
    assert(server_method(i) + joined(keyed) =~= server_key(i));
}

/// No two of the server's routes have the same key.
proof fn lemma_server_keys_differ(i: int, j: int)
    requires
        0 <= i < j < 8,
    ensures
        server_key(i) != server_key(j),
{
    reveal_strlit("GET/calc/*CAPTURE*/*CAPTURE*");
    reveal_strlit("GET/hello/*CAPTURE*");
    reveal_strlit("GET/ping");
    reveal_strlit("GET/test/fetch");
    reveal_strlit("GET/test/panic");
    reveal_strlit("GET/test/ping");
    reveal_strlit("GET/ws");
    reveal_strlit("POST/test/post");
    // Three of the keys have one length: the method or the tenth byte
    // tells them apart.
    if server_key(i).len() == server_key(j).len() {
        assert(server_key(i)[0] != server_key(j)[0] || server_key(i)[9] != server_key(j)[9]);
    }
}

/// The first `n` of the server's routes.
pub open spec fn server_table(n: int) -> Seq<Route<Endpoint, Guard>> {
    Seq::new(n as nat, |i: int| server_route(i))
}

/// The routes after the first `n` of the server's routes are registered.
spec fn registered_first(n: nat) -> Option<Seq<Route<Endpoint, Guard>>>
    decreases n,
{
    if n == 0 {
        Some(Seq::empty())
    } else {
        let i = n - 1;
        then(
            registered_first(i as nat),
            server_scope(i),
            server_method(i),
            server_path(i),
            server_handler(i),
        )
    }
}

proof fn lemma_registered_first(n: nat)
    requires
        n <= 8,
    ensures
        registered_first(n) == Some(server_table(n as int)),
    decreases n,
{
    if n == 0 {
        assert(server_table(0) =~= Seq::<Route<Endpoint, Guard>>::empty());
    } else {
        let i = n - 1;
        lemma_registered_first(i as nat);
        lemma_server_route(i);
        assert(!has_key(server_table(i), server_key(i))) by {
            assert forall|k: int| 0 <= k < i implies (#[trigger] server_table(i)[k]).unique
                != server_key(i) by {
                lemma_server_keys_differ(k, i);
            }
        }
        assert(registered_first(n)->0 =~= server_table(n as int));
    }
}

/// None of the server's routes is refused: they are the eight of
/// [`server_route`], in their order.
pub proof fn lemma_server_routes()
    ensures
        server_routes() == Some(server_table(8)),
{
    lemma_registered_first(8);
    reveal_with_fuel(registered_first, 9);
    assert(server_routes() == registered_first(8));
}

/// Every route of the server runs behind the recovery, which comes before
/// any other middleware of the route.
pub proof fn lemma_recovery_first(i: int)
    requires
        0 <= i < 8,
    ensures
        server_table(8)[i].middleware.len() > 0,
        server_table(8)[i].middleware[0] == Guard::Recovery,
{
}

/// The server answers `GET /hello/<name>`, for every name that can be a
/// segment, with the greeting, and binds the name under `name` and nothing
/// else.
pub proof fn lemma_server_greets(name: Seq<u8>)
    requires
        is_segment(name),
    ensures
        ({
            let segs = segments(trimmed(joined(seq![ascii("hello"@), name])));
            &&& segs == seq![ascii("hello"@), name]
            &&& first_match(server_table(8), ascii("GET"@), segs) == Some(5int)
            &&& server_table(8)[5].handler == Endpoint::Hello
            &&& captured(server_table(8)[5].tokens, segs) == Map::<Seq<u8>, Seq<u8>>::empty().insert(
                ascii("name"@),
                name,
            )
        }),
{
    reveal_strlit("hello");
    reveal_strlit("test");
    reveal_strlit("GET");
    reveal_strlit("POST");
    let segs = seq![ascii("hello"@), name];
    assert forall|k: int| 0 <= k < segs.len() implies is_segment(#[trigger] segs[k]) by {
    }
    lemma_segments_of_joined(segs);
    let tokens = server_tokens(5);
    assert(tokens_match(tokens, segs));
    assert forall|j: int| 0 <= j < 5 implies !route_matches(
        #[trigger] server_table(8)[j],
        ascii("GET"@),
        segs,
    ) by {
        let route = server_table(8)[j];
        if j < 4 {
            assert(route.tokens[0] == Token::Path { value: ascii("test"@) });
            assert(ascii("test"@).len() != ascii("hello"@).len());
        } else {
            assert(route.tokens.len() == 1);
        }
    }
    lemma_first_match_is_first(server_table(8), ascii("GET"@), segs, 5);
    let t1 = tokens.drop_last();
    let s1 = segs.drop_last();
    assert(t1.drop_last() =~= Seq::<Token>::empty());
    assert(captured(t1.drop_last(), s1.drop_last()) == Map::<Seq<u8>, Seq<u8>>::empty());
    assert(t1.last() == Token::Path { value: ascii("hello"@) });
    assert(captured(t1, s1) == Map::<Seq<u8>, Seq<u8>>::empty());
    assert(tokens.last() == Token::Capture { name: ascii("name"@) });
    assert(segs.last() == name);
}

/// The server answers `GET /calc/<a>/<b>`, for all `a` and `b` that can be
/// segments, with the sum, and binds them under `a` and `b`.
pub proof fn lemma_server_sums(a: Seq<u8>, b: Seq<u8>)
    requires
        is_segment(a),
        is_segment(b),
    ensures
        ({
            let segs = segments(trimmed(joined(seq![ascii("calc"@), a, b])));
            &&& segs == seq![ascii("calc"@), a, b]
            &&& first_match(server_table(8), ascii("GET"@), segs) == Some(6int)
            &&& server_table(8)[6].handler == Endpoint::Calc
            &&& captured(server_table(8)[6].tokens, segs) == Map::<Seq<u8>, Seq<u8>>::empty().insert(
                ascii("a"@),
                a,
            ).insert(ascii("b"@), b)
        }),
{
    reveal_strlit("calc");
    reveal_strlit("GET");
    let segs = seq![ascii("calc"@), a, b];
    assert forall|k: int| 0 <= k < segs.len() implies is_segment(#[trigger] segs[k]) by {
    }
    lemma_segments_of_joined(segs);
    let tokens = server_tokens(6);
    assert(tokens_match(tokens, segs));
    assert forall|j: int| 0 <= j < 6 implies !route_matches(
        #[trigger] server_table(8)[j],
        ascii("GET"@),
        segs,
    ) by {
        assert(server_table(8)[j].tokens.len() < 3);
    }
    lemma_first_match_is_first(server_table(8), ascii("GET"@), segs, 6);
    let t2 = tokens.drop_last();
    let s2 = segs.drop_last();
    let t1 = t2.drop_last();
    let s1 = s2.drop_last();
    assert(t1.drop_last() =~= Seq::<Token>::empty());
    assert(captured(t1.drop_last(), s1.drop_last()) == Map::<Seq<u8>, Seq<u8>>::empty());
    assert(t1.last() == Token::Path { value: ascii("calc"@) });
    assert(captured(t1, s1) == Map::<Seq<u8>, Seq<u8>>::empty());
    assert(t2.last() == Token::Capture { name: ascii("a"@) });
    assert(s2.last() == a);
    assert(captured(t2, s2) == Map::<Seq<u8>, Seq<u8>>::empty().insert(ascii("a"@), a));
    assert(tokens.last() == Token::Capture { name: ascii("b"@) });
    assert(segs.last() == b);
}

/// Each of the server's routes without a capture answers, for its method,
/// the path that is written like its template: no route registered before
/// it matches, and nothing is bound.
pub proof fn lemma_server_finds(i: int)
    requires
        0 <= i < 8,
        i != 5,
        i != 6,
    ensures
        ({
            let segs = segments(trimmed(joined(server_parts(i))));
            &&& segs == server_parts(i)
            &&& first_match(server_table(8), server_method(i), segs) == Some(i)
            &&& captured(server_table(8)[i].tokens, segs) == Map::<Seq<u8>, Seq<u8>>::empty()
        }),
{
    reveal_strlit("GET");
    reveal_strlit("POST");
    reveal_strlit("test");
    reveal_strlit("ping");
    reveal_strlit("panic");
    reveal_strlit("post");
    reveal_strlit("fetch");
    reveal_strlit("ws");
    let segs = server_parts(i);
    let method = server_method(i);
    assert forall|k: int| 0 <= k < segs.len() implies is_segment(#[trigger] segs[k]) by {
    }
    lemma_segments_of_joined(segs);
    assert(tokens_match(server_tokens(i), segs));
    assert forall|j: int| 0 <= j < i implies !route_matches(
        #[trigger] server_table(8)[j],
        method,
        segs,
    ) by {
        let route = server_table(8)[j];
        assert(ascii("GET"@).len() != ascii("POST"@).len());
        if route.method == method && route.tokens.len() == segs.len() {
            // Two routes with as many segments and one method: the last
            // segments differ, in length or in the first byte.
            let theirs = server_parts(j);
            let last = segs.len() - 1;
            assert(route.tokens[last] == Token::Path { value: theirs[last] });
            assert(theirs[last].len() != segs[last].len() || theirs[last][0] != segs[last][0]);
        }
    }
    lemma_first_match_is_first(server_table(8), method, segs, i);
    reveal_with_fuel(captured, 3);
}

fn lit(text: &str) -> (r: Vec<u8>)
    requires
        vstd::string::is_ascii(text),
    ensures
        r@ == ascii(text@),
{
    ascii_bytes(text)
}

/// Builds the table of the server's routes: the eight of
/// [`server_route`], in their order.
pub fn build_routes() -> (r: RouteTable<Endpoint, Guard>)
    ensures
        r@ == server_table(8),
        r.wf(),
        server_routes() == Some(server_table(8)),
{
    proof {
        lemma_server_routes();
        reveal_strlit("GET");
        reveal_strlit("POST");
        reveal_strlit("/test");
        reveal_strlit("/ping");
        reveal_strlit("/panic");
        reveal_strlit("/post");
        reveal_strlit("/fetch");
        reveal_strlit("/hello/:name");
        reveal_strlit("/calc/:a/:b");
        reveal_strlit("/ws");
    }
    let get = lit("GET");
    let post = lit("POST");
    let mut table: RouteTable<Endpoint, Guard> = RouteTable::new();
    let mut r: Router<Guard> = Router::new();
    r.require(Guard::Recovery);
    assert(r@.middleware =~= seq![Guard::Recovery]);
    let mut test = r.route(lit("/test").as_slice());
    test.require(Guard::TestMarker);
    assert(test@.middleware =~= seq![Guard::Recovery, Guard::TestMarker]);
    let ghost top = r@;
    let ghost under = test@;
    let ghost r1 = then(Some(Seq::empty()), under, get@, ascii("/ping"@), Endpoint::TestPing);
    let ghost r2 = then(r1, under, get@, ascii("/panic"@), Endpoint::TestPanic);
    let ghost r3 = then(r2, under, post@, ascii("/post"@), Endpoint::TestPost);
    let ghost r4 = then(r3, under, get@, ascii("/fetch"@), Endpoint::TestFetch);
    let ghost r5 = then(r4, top, get@, ascii("/ping"@), Endpoint::Ping);
    let ghost r6 = then(r5, top, get@, ascii("/hello/:name"@), Endpoint::Hello);
    let ghost r7 = then(r6, top, get@, ascii("/calc/:a/:b"@), Endpoint::Calc);
    let ghost r8 = then(r7, top, get@, ascii("/ws"@), Endpoint::Ws);
    assert(r8 == server_routes());
    assert(r1 is Some && r2 is Some && r3 is Some && r4 is Some && r5 is Some && r6 is Some && r7 is Some);
    test.try_handle(&mut table, get.as_slice(), lit("/ping").as_slice(), Endpoint::TestPing);
    test.try_handle(&mut table, get.as_slice(), lit("/panic").as_slice(), Endpoint::TestPanic);
    test.try_handle(&mut table, post.as_slice(), lit("/post").as_slice(), Endpoint::TestPost);
    test.try_handle(&mut table, get.as_slice(), lit("/fetch").as_slice(), Endpoint::TestFetch);
    r.try_handle(&mut table, get.as_slice(), lit("/ping").as_slice(), Endpoint::Ping);
    r.try_handle(&mut table, get.as_slice(), lit("/hello/:name").as_slice(), Endpoint::Hello);
    r.try_handle(&mut table, get.as_slice(), lit("/calc/:a/:b").as_slice(), Endpoint::Calc);
    r.try_handle(&mut table, get.as_slice(), lit("/ws").as_slice(), Endpoint::Ws);
    table
}

/// What becomes of a response that answers 200 with `msg`: the message as
/// JSON.
pub open spec fn answered(before: ResponseView, msg: Seq<char>) -> ResponseView {
    ResponseView { status: 200, ..with_json(before, message_body(json_string(msg))) }
}

/// The greeting for a name.
pub open spec fn hello_message(name: Seq<char>) -> Seq<char> {
    "Hello "@ + name
}

/// The text of a sum.
pub open spec fn sum_message(sum: nat) -> Seq<char> {
    "Sum "@ + ascii_text(decimal(sum))
}

/// The variable `key` of a routed request.
pub open spec fn var_of(req: RequestView, key: Seq<u8>) -> Option<Seq<u8>> {
    match req.vars {
        Some(vars) => if vars.contains_key(key) {
            Some(vars[key])
        } else {
            None
        },
        None => None,
    }
}

/// The number in the variable `key` of a routed request, if it is one that
/// fits 32 bits.
pub open spec fn number_of(req: RequestView, key: Seq<u8>) -> Option<nat> {
    match var_of(req, key) {
        Some(v) => parsed_decimal(v, u32::MAX as nat),
        None => None,
    }
}

/// The outcome of a handler, as far as contracts speak of it.
pub open spec fn shown(r: Result<(), Error>) -> Result<(), ErrorKind> {
    match r {
        Ok(()) => Ok(()),
        Err(e) => Err(e@.kind),
    }
}

/// Whether a handler that answers 200 with `msg` gave `r` and made `after`
/// of `before`.
pub open spec fn answers(
    before: ResponseView,
    msg: Seq<char>,
    r: Result<(), ErrorKind>,
    after: ResponseView,
) -> bool {
    r is Ok && after == answered(before, msg)
}

/// Whether a handler that cannot answer gave `r` and left the response as
/// it was: a server fault.
pub open spec fn faults(before: ResponseView, r: Result<(), ErrorKind>, after: ResponseView) -> bool {
    r == Err::<(), ErrorKind>(ErrorKind::ServerFault) && after == before
}

/// What the greeting does: see [`hello`].
pub open spec fn greets(
    req: RequestView,
    before: ResponseView,
    r: Result<(), ErrorKind>,
    after: ResponseView,
) -> bool {
    match var_of(req, ascii("name"@)) {
        Some(name) => if valid_utf8(name) {
            answers(before, hello_message(decode_utf8(name)), r, after)
        } else {
            faults(before, r, after)
        },
        None => faults(before, r, after),
    }
}

/// What the sum does: see [`calc`].
pub open spec fn sums(
    req: RequestView,
    before: ResponseView,
    r: Result<(), ErrorKind>,
    after: ResponseView,
) -> bool {
    match (number_of(req, ascii("a"@)), number_of(req, ascii("b"@))) {
        (Some(a), Some(b)) => if a + b <= u32::MAX {
            answers(before, sum_message(a + b), r, after)
        } else {
            faults(before, r, after)
        },
        _ => faults(before, r, after),
    }
}

/// Answers `PONG`.
pub fn ping(res: &mut Response) -> (r: Result<(), Error>)
    ensures
        answers(old(res)@, "PONG"@, shown(r), final(res)@),
{
    res.ok("PONG")
}

/// Greets the name that the route captured. A request without the name, or
/// with a name that is no text, is a server fault.
pub fn hello(req: &Request, res: &mut Response) -> (r: Result<(), Error>)
    ensures
        greets(req@, old(res)@, shown(r), final(res)@),
{
    proof {
        reveal_strlit("name");
    }
    let key = lit("name");
    let name = match req.var(key.as_slice()) {
        Some(name) => text_of(name.as_slice()),
        None => None,
    };
    match name {
        Some(name) => {
            proof {
                vstd::utf8::encode_utf8_decode_utf8(name@);
                vstd::utf8::encode_utf8_valid_utf8(name@);
            }
            let mut msg = String::from_str("Hello ");
            msg.append(name.as_str());
            res.ok(msg.as_str())
        },
        None => Err(recovered_err("called `Option::unwrap()` on a `None` value")),
    }
}

/// Answers the sum of the two numbers that the route captured. A request
/// without two numbers of 32 bits, or with a sum beyond 32 bits, is a
/// server fault.
pub fn calc(req: &Request, res: &mut Response) -> (r: Result<(), Error>)
    ensures
        sums(req@, old(res)@, shown(r), final(res)@),
{
    proof {
        reveal_strlit("a");
        reveal_strlit("b");
    }
    let a = match req.var(lit("a").as_slice()) {
        Some(v) => parse_decimal(v.as_slice(), 0xffff_ffff),
        None => None,
    };
    let b = match req.var(lit("b").as_slice()) {
        Some(v) => parse_decimal(v.as_slice(), 0xffff_ffff),
        None => None,
    };
    match (a, b) {
        (Some(a), Some(b)) => {
            let sum = a + b;
            if sum > 0xffff_ffff {
                return Err(recovered_err("attempt to add with overflow"));
            }
            let mut msg = String::from_str("Sum ");
            msg.append(decimal_text(sum).as_str());
            res.ok(msg.as_str())
        },
        _ => Err(recovered_err("called `Option::unwrap()` on a `None` value")),
    }
}

/// What `POST /test/post` answers once its payload is read: `Ok`.
pub fn post_answer(res: &mut Response) -> (r: Result<(), Error>)
    ensures
        answers(old(res)@, "Ok"@, shown(r), final(res)@),
{
    res.ok("Ok")
}

/// What `GET /test/fetch` answers with what the outbound call brought: the
/// body as it came, as JSON, under the status that the response has; or
/// `No results` where the call brought nothing.
pub fn fetch_answer(res: &mut Response, fetched: Option<Vec<u8>>) -> (r: Result<(), Error>)
    ensures
        r is Ok,
        final(res)@ == match fetched {
            Some(body) => with_json(old(res)@, body@),
            None => answered(old(res)@, "No results"@),
        },
{
    match fetched {
        Some(body) => {
            res.json(body);
            Ok(())
        },
        None => res.ok("No results"),
    }
}

/// The message that `GET /ws` sends when the handshake is accepted. It is
/// sent before the socket is activated, so that it waits and follows the
/// answer to the handshake.
pub fn ws_greeting() -> (r: Message)
    ensures
        r@ == MessageView::Binary(ascii("Welcome"@)),
{
    proof {
        reveal_strlit("Welcome");
    }
    Message::Binary(lit("Welcome"))
}

/// What the subscription of `GET /ws` sends for a message of the peer: a
/// greeting and a ping for a text, nothing for anything else.
pub fn ws_replies(message: &Message) -> (r: Vec<Message>)
    ensures
        messages(r@) == if message@ is Text {
            seq![MessageView::Binary(ascii("Hello, World"@)), MessageView::Ping(ascii("PING"@))]
        } else {
            Seq::empty()
        },
{
    let mut replies: Vec<Message> = Vec::new();
    match message {
        Message::Text(_) => {
            proof {
                reveal_strlit("Hello, World");
                reveal_strlit("PING");
            }
            replies.push(Message::Binary(lit("Hello, World")));
            replies.push(Message::Ping(lit("PING")));
        },
        _ => {},
    }
    assert(messages(replies@) =~= if message@ is Text {
        seq![MessageView::Binary(ascii("Hello, World"@)), MessageView::Ping(ascii("PING"@))]
    } else {
        Seq::empty()
    });
    replies
}

/// What the caller is to do for an endpoint that the library does not
/// answer by itself.
#[derive(Debug)]
pub enum Served {
    /// The endpoint has answered, or failed.
    Done(Result<(), Error>),
    /// Unwind, so that the recovery shows.
    Unwind,
    /// Read the payload, then answer as [`post_answer`] does.
    ReadPayload,
    /// Fetch, then answer as [`fetch_answer`] does.
    Fetch,
    /// Send [`ws_greeting`], and subscribe to the messages of the web
    /// socket with [`ws_replies`].
    Subscribe,
}

/// Runs the handler of `endpoint` as far as it needs nothing from outside.
pub fn serve(endpoint: Endpoint, req: &Request, res: &mut Response) -> (r: Served)
    ensures
        match endpoint {
            Endpoint::TestPing | Endpoint::Ping => r matches Served::Done(result) && answers(
                old(res)@,
                "PONG"@,
                shown(result),
                final(res)@,
            ),
            Endpoint::Hello => r matches Served::Done(result) && greets(
                req@,
                old(res)@,
                shown(result),
                final(res)@,
            ),
            Endpoint::Calc => r matches Served::Done(result) && sums(
                req@,
                old(res)@,
                shown(result),
                final(res)@,
            ),
            Endpoint::TestPanic => r is Unwind && final(res)@ == old(res)@,
            Endpoint::TestPost => r is ReadPayload && final(res)@ == old(res)@,
            Endpoint::TestFetch => r is Fetch && final(res)@ == old(res)@,
            Endpoint::Ws => r is Subscribe && final(res)@ == old(res)@,
        },
{
    match endpoint {
        Endpoint::TestPing => Served::Done(ping(res)),
        Endpoint::Ping => Served::Done(ping(res)),
        Endpoint::Hello => Served::Done(hello(req, res)),
        Endpoint::Calc => Served::Done(calc(req, res)),
        Endpoint::TestPanic => Served::Unwind,
        Endpoint::TestPost => Served::ReadPayload,
        Endpoint::TestFetch => Served::Fetch,
        Endpoint::Ws => Served::Subscribe,
    }
}

} // verus!
