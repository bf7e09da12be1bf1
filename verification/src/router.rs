//! The router: path templates with capture segments, the table of routes,
//! and the handle through which routes are registered under a scope.

use crate::text::{ascii, ascii_bytes, bytes_eq, copy_bytes, push_bytes};
use crate::vars::Vars;
use vstd::prelude::*;

verus! {

/// The byte `/`, which separates the segments of a path.
pub const SLASH: u8 = 47;

/// The byte `:`, which opens a capture segment of a template.
pub const COLON: u8 = 58;

/// What stands in a route's key in place of a capture segment.
pub open spec fn capture_placeholder() -> Seq<u8> {
    ascii("*CAPTURE*"@)
}

fn capture_placeholder_bytes() -> (r: Vec<u8>)
    ensures
        r@ == capture_placeholder(),
{
    proof {
        reveal_strlit("*CAPTURE*");
    }
    ascii_bytes("*CAPTURE*")
}

/// A path without its leading `/`, if it has one.
pub open spec fn trimmed(path: Seq<u8>) -> Seq<u8> {
    if path.len() > 0 && path[0] == SLASH {
        path.skip(1)
    } else {
        path
    }
}

/// Drops one leading `/` from a path.
pub fn path_into_trimmed_string(path: &[u8]) -> (r: Vec<u8>)
    ensures
        r@ == trimmed(path@),
{
    if path.len() > 0 && path[0] == SLASH {
        let mut r: Vec<u8> = Vec::new();
        let mut i: usize = 1;
        while i < path.len()
            invariant
                1 <= i <= path@.len(),
                r@ == path@.subrange(1, i as int),
            decreases path@.len() - i,
        {
            r.push(path[i]);
            i += 1;
        }
        assert(path@.subrange(1, i as int) =~= path@.skip(1));
        r
    } else {
        copy_bytes(path)
    }
}

/// `cur` as a sequence of segments: itself if it holds a byte, nothing if
/// it is empty.
pub open spec fn closed_segment(cur: Seq<u8>) -> Seq<Seq<u8>> {
    if cur.len() > 0 {
        seq![cur]
    } else {
        Seq::empty()
    }
}

/// The segments of `rest`, read after the bytes `cur` of a segment that is
/// still open.
pub open spec fn segments_after(rest: Seq<u8>, cur: Seq<u8>) -> Seq<Seq<u8>>
    decreases rest.len(),
{
    if rest.len() == 0 {
        closed_segment(cur)
    } else if rest[0] == SLASH {
        closed_segment(cur) + segments_after(rest.skip(1), Seq::empty())
    } else {
        segments_after(rest.skip(1), cur.push(rest[0]))
    }
}

/// The segments of a path: its maximal runs of bytes other than `/`, in
/// order. None of them is empty.
pub open spec fn segments(path: Seq<u8>) -> Seq<Seq<u8>> {
    segments_after(path, Seq::empty())
}

/// The byte strings that a vector of byte vectors holds.
pub open spec fn strings(v: Seq<Vec<u8>>) -> Seq<Seq<u8>> {
    v.map_values(|s: Vec<u8>| s@)
}

/// Splits a path at `/` and drops the empty pieces.
pub fn split_segments(path: &[u8]) -> (r: Vec<Vec<u8>>)
    ensures
        strings(r@) == segments(path@),
{
    let mut done: Vec<Vec<u8>> = Vec::new();
    let mut cur: Vec<u8> = Vec::new();
    let mut i: usize = 0;
    assert(path@.skip(0) =~= path@);
    assert(strings(done@) =~= Seq::<Seq<u8>>::empty());
    while i < path.len()
        invariant
            i <= path@.len(),
            strings(done@) + segments_after(path@.skip(i as int), cur@) == segments(path@),
        decreases path@.len() - i,
    {
        let b = path[i];
        let ghost rest = path@.skip(i as int);
        assert(rest[0] == b);
        assert(rest.skip(1) =~= path@.skip(i + 1));
        let ghost tail = segments_after(rest.skip(1), Seq::empty());
        if b == SLASH {
            if cur.len() > 0 {
                let ghost before = done@;
                let ghost closed = closed_segment(cur@);
                done.push(cur);
                assert(strings(done@) =~= strings(before) + closed);
                assert((strings(before) + closed) + tail =~= strings(before) + (closed + tail));
                cur = Vec::new();
            } else {
                assert(closed_segment(cur@) + tail =~= tail);
            }
            assert(cur@ =~= Seq::<u8>::empty());
        } else {
            cur.push(b);
        }
        i += 1;
    }
    assert(path@.skip(i as int) =~= Seq::<u8>::empty());
    if cur.len() > 0 {
        let ghost before = done@;
        done.push(cur);
        assert(strings(done@) =~= strings(before) + closed_segment(cur@));
    } else {
        assert(strings(done@) + closed_segment(cur@) =~= strings(done@));
    }
    done
}

/// One segment of a path template.
#[derive(Debug)]
pub enum RouteHandlerToken {
    /// A segment that a path must hold as it stands.
    Path { value: Vec<u8> },
    /// A segment that matches any segment and binds it under `name`.
    Capture { name: Vec<u8> },
}

/// What a [`RouteHandlerToken`] holds.
pub ghost enum Token {
    Path { value: Seq<u8> },
    Capture { name: Seq<u8> },
}

impl View for RouteHandlerToken {
    type V = Token;

    open spec fn view(&self) -> Token {
        match self {
            RouteHandlerToken::Path { value } => Token::Path { value: value@ },
            RouteHandlerToken::Capture { name } => Token::Capture { name: name@ },
        }
    }
}

/// The tokens that a vector of tokens holds.
pub open spec fn tokens_view(v: Seq<RouteHandlerToken>) -> Seq<Token> {
    v.map_values(|t: RouteHandlerToken| t@)
}

/// The token that a segment of a template stands for: a capture if it
/// begins with `:`, the segment itself otherwise.
pub open spec fn token_of(segment: Seq<u8>) -> Token {
    if segment.len() > 0 && segment[0] == COLON {
        Token::Capture { name: segment.skip(1) }
    } else {
        Token::Path { value: segment }
    }
}

/// The tokens of a path template.
pub open spec fn tokens_of(path: Seq<u8>) -> Seq<Token> {
    segments(trimmed(path)).map_values(|s: Seq<u8>| token_of(s))
}

/// What a token contributes to a route's key.
pub open spec fn key_part(token: Token) -> Seq<u8> {
    match token {
        Token::Path { value } => value,
        Token::Capture { .. } => capture_placeholder(),
    }
}

/// The key's part after the method: each token's part behind a `/`.
pub open spec fn key_tail(tokens: Seq<Token>) -> Seq<u8>
    decreases tokens.len(),
{
    if tokens.len() == 0 {
        Seq::empty()
    } else {
        key_tail(tokens.drop_last()) + seq![SLASH] + key_part(tokens.last())
    }
}

/// The key under which a route is known: two routes with one key are
/// duplicates.
pub open spec fn route_key(method: Seq<u8>, tokens: Seq<Token>) -> Seq<u8> {
    method + key_tail(tokens)
}

/// The key and the tokens of the route for `method` and the template `path`.
pub fn extract_route_handler_tokens(method: &[u8], path: &[u8]) -> (r: (
    Vec<u8>,
    Vec<RouteHandlerToken>,
))
    ensures
        tokens_view(r.1@) == tokens_of(path@),
        r.0@ == route_key(method@, tokens_of(path@)),
{
    let path = path_into_trimmed_string(path);
    let parts = split_segments(path.as_slice());
    let mut tokens: Vec<RouteHandlerToken> = Vec::new();
    let mut key: Vec<u8> = copy_bytes(method);
    let ghost segs = segments(path@);
    let ghost all = segs.map_values(|s: Seq<u8>| token_of(s));
    proof {
        assert(tokens_view(tokens@) =~= all.subrange(0, 0));
        assert(key_tail(all.subrange(0, 0)) =~= Seq::<u8>::empty());
        assert(key@ =~= method@ + key_tail(all.subrange(0, 0)));
    }
    let mut i: usize = 0;
    while i < parts.len()
        invariant
            i <= parts@.len(),
            strings(parts@) == segs,
            all == segs.map_values(|s: Seq<u8>| token_of(s)),
            tokens_view(tokens@) == all.subrange(0, i as int),
            key@ == method@ + key_tail(all.subrange(0, i as int)),
        decreases parts@.len() - i,
    {
        let part = &parts[i];
        assert(strings(parts@)[i as int] == part@);
        let ghost before = tokens@;
        let ghost prefix = all.subrange(0, i + 1);
        assert(prefix.drop_last() =~= all.subrange(0, i as int));
        assert(prefix.last() == token_of(part@));
        key.push(SLASH);
        if part.len() > 0 && part[0] == COLON {
            let mut name: Vec<u8> = Vec::new();
            let mut k: usize = 1;
            while k < part.len()
                invariant
                    1 <= k <= part@.len(),
                    name@ == part@.subrange(1, k as int),
                decreases part@.len() - k,
            {
                name.push(part[k]);
                k += 1;
            }
            assert(part@.subrange(1, k as int) =~= part@.skip(1));
            let placeholder = capture_placeholder_bytes();
            push_bytes(&mut key, placeholder.as_slice());
            tokens.push(RouteHandlerToken::Capture { name });
        } else {
            push_bytes(&mut key, part.as_slice());
            tokens.push(RouteHandlerToken::Path { value: copy_bytes(part.as_slice()) });
        }
        assert(tokens_view(tokens@) =~= tokens_view(before).push(token_of(part@)));
        assert(tokens_view(tokens@) =~= prefix);
        assert(key@ =~= method@ + key_tail(prefix));
        i += 1;
    }
    assert(all.subrange(0, i as int) =~= all);
    (key, tokens)
}

/// Whether a path with the segments `segs` fits the template `tokens`:
/// as many segments as tokens, and each path token equal to its segment.
pub open spec fn tokens_match(tokens: Seq<Token>, segs: Seq<Seq<u8>>) -> bool {
    &&& tokens.len() == segs.len()
    &&& forall|i: int|
        0 <= i < tokens.len() ==> (#[trigger] tokens[i] matches Token::Path { value } ==> value
            == segs[i])
}

/// What the capture tokens of a template bind when it is matched against
/// `segs`: each capture's name to the segment in its place. Where a name
/// occurs twice, the later segment stays.
pub open spec fn captured(tokens: Seq<Token>, segs: Seq<Seq<u8>>) -> Map<Seq<u8>, Seq<u8>>
    decreases tokens.len(),
{
    if tokens.len() == 0 {
        Map::empty()
    } else {
        let before = captured(tokens.drop_last(), segs.drop_last());
        match tokens.last() {
            Token::Capture { name } => before.insert(name, segs.last()),
            Token::Path { .. } => before,
        }
    }
}

/// Matches the segments of a path against a template.
fn match_tokens(tokens: &Vec<RouteHandlerToken>, parts: &Vec<Vec<u8>>) -> (r: Option<Vars>)
    ensures
        match r {
            Some(vars) => tokens_match(tokens_view(tokens@), strings(parts@)) && vars@ == captured(
                tokens_view(tokens@),
                strings(parts@),
            ),
            None => !tokens_match(tokens_view(tokens@), strings(parts@)),
        },
{
    if tokens.len() != parts.len() {
        return None;
    }
    let ghost tv = tokens_view(tokens@);
    let ghost sv = strings(parts@);
    let mut vars = Vars::new();
    let mut i: usize = 0;
    assert(tv.subrange(0, 0) =~= Seq::<Token>::empty());
    while i < tokens.len()
        invariant
            i <= tokens@.len(),
            tokens@.len() == parts@.len(),
            tv == tokens_view(tokens@),
            sv == strings(parts@),
            forall|k: int|
                0 <= k < i ==> (#[trigger] tv[k] matches Token::Path { value } ==> value == sv[k]),
            vars@ == captured(tv.subrange(0, i as int), sv.subrange(0, i as int)),
        decreases tokens@.len() - i,
    {
        let ghost tp = tv.subrange(0, i + 1);
        let ghost sp = sv.subrange(0, i + 1);
        assert(tp.drop_last() =~= tv.subrange(0, i as int));
        assert(sp.drop_last() =~= sv.subrange(0, i as int));
        assert(tp.last() == tokens@[i as int]@);
        assert(sp.last() == parts@[i as int]@);
        match &tokens[i] {
            RouteHandlerToken::Path { value } => {
                if !bytes_eq(value.as_slice(), parts[i].as_slice()) {
                    assert(tv[i as int] == Token::Path { value: value@ });
                    return None;
                }
            },
            RouteHandlerToken::Capture { name } => {
                vars.insert(copy_bytes(name.as_slice()), copy_bytes(parts[i].as_slice()));
            },
        }
        i += 1;
    }
    assert(tv.subrange(0, i as int) =~= tv);
    assert(sv.subrange(0, i as int) =~= sv);
    Some(vars)
}

/// A registered route: its key, method and template, the handler, and the
/// middleware that runs before the handler, outermost first.
#[derive(Debug)]
pub struct RouteHandler<H, M> {
    unique: Vec<u8>,
    method: Vec<u8>,
    tokens: Vec<RouteHandlerToken>,
    handler: H,
    middleware: Vec<M>,
}

/// What a [`RouteHandler`] holds.
pub ghost struct Route<H, M> {
    pub unique: Seq<u8>,
    pub method: Seq<u8>,
    pub tokens: Seq<Token>,
    pub handler: H,
    pub middleware: Seq<M>,
}

impl<H, M> View for RouteHandler<H, M> {
    type V = Route<H, M>;

    closed spec fn view(&self) -> Route<H, M> {
        Route {
            unique: self.unique@,
            method: self.method@,
            tokens: tokens_view(self.tokens@),
            handler: self.handler,
            middleware: self.middleware@,
        }
    }
}

/// One step of a route's chain: a middleware, or the handler at its end.
#[derive(Debug, Clone, Copy, PartialEq, Eq)]
pub enum Stage<M> {
    Middleware(M),
    Handler,
}

/// The stage at `level` of a route's chain: the middleware in order, then
/// the handler.
pub open spec fn stage_at<H, M>(route: Route<H, M>, level: int) -> Stage<M> {
    if 0 <= level < route.middleware.len() {
        Stage::Middleware(route.middleware[level])
    } else {
        Stage::Handler
    }
}

impl<H, M: Copy> RouteHandler<H, M> {
    /// The route for `method` and the template `path`.
    pub fn new(method: &[u8], path: &[u8], handler: H, middleware: Vec<M>) -> (r: Self)
        ensures
            r@ == (Route {
                unique: route_key(method@, tokens_of(path@)),
                method: method@,
                tokens: tokens_of(path@),
                handler,
                middleware: middleware@,
            }),
    {
        let (unique, tokens) = extract_route_handler_tokens(method, path);
        Self { unique, method: copy_bytes(method), tokens, handler, middleware }
    }

    pub fn unique(&self) -> (r: &Vec<u8>)
        ensures
            r@ == self@.unique,
    {
        &self.unique
    }

    pub fn method(&self) -> (r: &Vec<u8>)
        ensures
            r@ == self@.method,
    {
        &self.method
    }

    pub fn tokens(&self) -> (r: &Vec<RouteHandlerToken>)
        ensures
            tokens_view(r@) == self@.tokens,
    {
        &self.tokens
    }

    pub fn handler(&self) -> (r: &H)
        ensures
            *r == self@.handler,
    {
        &self.handler
    }

    pub fn middleware(&self) -> (r: &Vec<M>)
        ensures
            r@ == self@.middleware,
    {
        &self.middleware
    }

    /// The stage that runs at `level` of the chain, and the level that its
    /// `next` leads to: none behind the handler, which ends the chain.
    pub fn route_step(&self, level: usize) -> (r: (Stage<M>, Option<usize>))
        requires
            level <= self@.middleware.len(),
        ensures
            r.0 == stage_at(self@, level as int),
            r.1 == if level < self@.middleware.len() {
                Some((level + 1) as usize)
            } else {
                None
            },
    {
        if level < self.middleware.len() {
            (Stage::Middleware(self.middleware[level]), Some(level + 1))
        } else {
            (Stage::Handler, None)
        }
    }
}

/// Whether `route` serves `method` on a path with the segments `segs`.
pub open spec fn route_matches<H, M>(route: Route<H, M>, method: Seq<u8>, segs: Seq<Seq<u8>>) -> bool {
    route.method == method && tokens_match(route.tokens, segs)
}

/// The first route at or after `from` that serves `method` on `segs`.
pub open spec fn first_match_from<H, M>(
    routes: Seq<Route<H, M>>,
    method: Seq<u8>,
    segs: Seq<Seq<u8>>,
    from: int,
) -> Option<int>
    decreases routes.len() - from,
{
    if from < 0 || from >= routes.len() {
        None
    } else if route_matches(routes[from], method, segs) {
        Some(from)
    } else {
        first_match_from(routes, method, segs, from + 1)
    }
}

/// The route that answers `method` on a path with the segments `segs`: the
/// one registered first among those that match.
pub open spec fn first_match<H, M>(routes: Seq<Route<H, M>>, method: Seq<u8>, segs: Seq<Seq<u8>>) -> Option<
    int,
> {
    first_match_from(routes, method, segs, 0)
}

/// The routes that a vector of routes holds.
pub open spec fn routes_view<H, M>(v: Seq<RouteHandler<H, M>>) -> Seq<Route<H, M>> {
    v.map_values(|r: RouteHandler<H, M>| r@)
}

/// Whether one of `routes` has the key `key`.
pub open spec fn has_key<H, M>(routes: Seq<Route<H, M>>, key: Seq<u8>) -> bool {
    exists|i: int| 0 <= i < routes.len() && #[trigger] routes[i].unique == key
}

/// The table of routes, in the order of their registration.
#[derive(Debug)]
pub struct RouteTable<H, M> {
    routes: Vec<RouteHandler<H, M>>,
}

impl<H, M> View for RouteTable<H, M> {
    type V = Seq<Route<H, M>>;

    closed spec fn view(&self) -> Seq<Route<H, M>> {
        routes_view(self.routes@)
    }
}

impl<H, M: Copy> RouteTable<H, M> {
    /// Every route's key is the key of its method and tokens, and no two
    /// routes share a key.
    pub open spec fn wf(&self) -> bool {
        &&& forall|i: int|
            0 <= i < self@.len() ==> (#[trigger] self@[i]).unique == route_key(
                self@[i].method,
                self@[i].tokens,
            )
        &&& forall|i: int, j: int|
            0 <= i < j < self@.len() ==> (#[trigger] self@[i]).unique != (#[trigger] self@[j]).unique
    }

    pub fn new() -> (r: Self)
        ensures
            r@ == Seq::<Route<H, M>>::empty(),
            r.wf(),
    {
        let r = RouteTable { routes: Vec::new() };
        assert(r@ =~= Seq::<Route<H, M>>::empty());
        r
    }

    pub fn len(&self) -> (r: usize)
        ensures
            r == self@.len(),
    {
        self.routes.len()
    }

    /// The route that was registered as the `i`-th.
    pub fn get(&self, i: usize) -> (r: &RouteHandler<H, M>)
        requires
            i < self@.len(),
        ensures
            r@ == self@[i as int],
    {
        &self.routes[i]
    }

    /// Whether a route is registered under `key`.
    pub fn contains_key(&self, key: &[u8]) -> (r: bool)
        ensures
            r == has_key(self@, key@),
    {
        let mut i: usize = 0;
        while i < self.routes.len()
            invariant
                i <= self.routes@.len(),
                forall|k: int| 0 <= k < i ==> (#[trigger] self@[k]).unique != key@,
            decreases self.routes@.len() - i,
        {
            if bytes_eq(self.routes[i].unique.as_slice(), key) {
                assert(self@[i as int].unique == key@);
                return true;
            }
            i += 1;
        }
        false
    }

    /// Whether the route for `method` and the template `path` can still be
    /// registered: no route has its key yet.
    pub fn is_free(&self, method: &[u8], path: &[u8]) -> (r: bool)
        ensures
            r == !has_key(self@, route_key(method@, tokens_of(path@))),
    {
        let (key, _tokens) = extract_route_handler_tokens(method, path);
        !self.contains_key(key.as_slice())
    }

    /// Registers the route for `method` and the template `path`, behind the
    /// routes that are there. A second route under one key is refused by
    /// the precondition: [`RouteTable::is_free`] tests it.
    pub fn add_route_from_top(&mut self, method: &[u8], path: &[u8], handler: H, middleware: Vec<M>)
        requires
            old(self).wf(),
            !has_key(old(self)@, route_key(method@, tokens_of(path@))),
        ensures
            final(self).wf(),
            final(self)@ == old(self)@.push(
                Route {
                    unique: route_key(method@, tokens_of(path@)),
                    method: method@,
                    tokens: tokens_of(path@),
                    handler,
                    middleware: middleware@,
                },
            ),
    {
        let route = RouteHandler::new(method, path, handler, middleware);
        let ghost before = self@;
        self.routes.push(route);
        assert(self@ =~= before.push(route@));
    }

    /// The route that answers `method` on `path`, with what its captures
    /// bind: the first registered route of that method whose template the
    /// path's segments fit.
    pub fn find(&self, method: &[u8], path: &[u8]) -> (r: Option<(&RouteHandler<H, M>, Vars)>)
        ensures
            match (r, first_match(self@, method@, segments(trimmed(path@)))) {
                (Some((route, vars)), Some(i)) => route@ == self@[i] && vars@ == captured(
                    self@[i].tokens,
                    segments(trimmed(path@)),
                ),
                (None, None) => true,
                _ => false,
            },
    {
        let short = path_into_trimmed_string(path);
        let parts = split_segments(short.as_slice());
        let ghost segs = segments(trimmed(path@));
        let mut i: usize = 0;
        while i < self.routes.len()
            invariant
                i <= self.routes@.len(),
                segs == segments(trimmed(path@)),
                segs == strings(parts@),
                first_match(self@, method@, segs) == first_match_from(self@, method@, segs, i as int),
            decreases self.routes@.len() - i,
        {
            let cur = &self.routes[i];
            assert(self@[i as int] == cur@);
            if bytes_eq(cur.method.as_slice(), method) {
                match match_tokens(&cur.tokens, &parts) {
                    Some(vars) => {
                        return Some((cur, vars));
                    },
                    None => {},
                }
            }
            i += 1;
        }
        None
    }
}

/// The path of a template that is registered under a scope: the scope's
/// path, if it has one, before the template.
pub open spec fn scoped_path(scope: Option<Seq<u8>>, path: Seq<u8>) -> Seq<u8> {
    match scope {
        Some(prefix) => prefix + path,
        None => path,
    }
}

/// Whether `path` can be registered under `scope`: under a scope with a
/// path, a template begins with `/`.
pub open spec fn fits_scope(scope: Option<Seq<u8>>, path: Seq<u8>) -> bool {
    scope is Some ==> path.len() > 0 && path[0] == SLASH
}

/// The routes after `handler` is registered for `method` on the template
/// `path` of `scope`; none where the template does not fit the scope or a
/// route has its key already.
pub open spec fn registered<H, M>(
    routes: Seq<Route<H, M>>,
    scope: Scope<M>,
    method: Seq<u8>,
    path: Seq<u8>,
    handler: H,
) -> Option<Seq<Route<H, M>>> {
    let tokens = tokens_of(scoped_path(scope.path, path));
    if fits_scope(scope.path, path) && !has_key(routes, route_key(method, tokens)) {
        Some(
            routes.push(
                Route {
                    unique: route_key(method, tokens),
                    method,
                    tokens,
                    handler,
                    middleware: scope.middleware,
                },
            ),
        )
    } else {
        None
    }
}

/// A handle for registering routes: the path of its scope and the
/// middleware that its routes run behind. The routes themselves are held by
/// a [`RouteTable`], which every handle of one router is used with.
#[derive(Debug)]
pub struct Router<M> {
    path: Option<Vec<u8>>,
    middleware: Vec<M>,
}

/// What a [`Router`] holds.
pub ghost struct Scope<M> {
    pub path: Option<Seq<u8>>,
    pub middleware: Seq<M>,
}

impl<M> View for Router<M> {
    type V = Scope<M>;

    closed spec fn view(&self) -> Scope<M> {
        Scope {
            path: match self.path {
                Some(p) => Some(p@),
                None => None,
            },
            middleware: self.middleware@,
        }
    }
}

fn copy_all<M: Copy>(v: &Vec<M>) -> (r: Vec<M>)
    ensures
        r@ == v@,
{
    let mut r: Vec<M> = Vec::new();
    let mut i: usize = 0;
    while i < v.len()
        invariant
            i <= v@.len(),
            r@ == v@.subrange(0, i as int),
        decreases v@.len() - i,
    {
        r.push(v[i]);
        i += 1;
    }
    assert(v@.subrange(0, i as int) =~= v@);
    r
}

fn method_bytes(name: &str) -> (r: Vec<u8>)
    requires
        vstd::string::is_ascii(name),
    ensures
        r@ == ascii(name@),
{
    ascii_bytes(name)
}

impl<M: Copy> Router<M> {
    /// The handle of the outermost scope: no path, no middleware.
    pub fn new() -> (r: Self)
        ensures
            r@ == (Scope { path: None, middleware: Seq::<M>::empty() }),
    {
        Router { path: None, middleware: Vec::new() }
    }

    /// The path under which `path` is registered through this handle.
    pub fn push_path(&self, path: &[u8]) -> (r: Vec<u8>)
        requires
            fits_scope(self@.path, path@),
        ensures
            r@ == scoped_path(self@.path, path@),
    {
        match &self.path {
            Some(prefix) => {
                let mut r = copy_bytes(prefix.as_slice());
                push_bytes(&mut r, path);
                r
            },
            None => copy_bytes(path),
        }
    }

    /// The handle of the scope `path` inside this one, with the middleware
    /// that this handle has now.
    pub fn route(&self, path: &[u8]) -> (r: Router<M>)
        requires
            fits_scope(self@.path, path@),
        ensures
            r@ == (Scope {
                path: Some(scoped_path(self@.path, path@)),
                middleware: self@.middleware,
            }),
    {
        Router { path: Some(self.push_path(path)), middleware: copy_all(&self.middleware) }
    }

    /// Adds a middleware behind those of this handle. Routes that were
    /// registered before keep the chain they have.
    pub fn require(&mut self, middleware: M)
        ensures
            final(self)@ == (Scope {
                path: old(self)@.path,
                middleware: old(self)@.middleware.push(middleware),
            }),
    {
        self.middleware.push(middleware);
    }

    /// Whether [`Router::handle`] accepts `method` and `path`: the template
    /// fits the scope and no route has its key yet.
    pub fn can_handle<H>(&self, table: &RouteTable<H, M>, method: &[u8], path: &[u8]) -> (r: bool)
        ensures
            r == (fits_scope(self@.path, path@) && !has_key(
                table@,
                route_key(method@, tokens_of(scoped_path(self@.path, path@))),
            )),
    {
        if self.path.is_some() && !(path.len() > 0 && path[0] == SLASH) {
            return false;
        }
        let full = self.push_path(path);
        table.is_free(method, full.as_slice())
    }

    /// Registers `handler` for `method` on the template `path` of this
    /// scope, behind the middleware that this handle has now.
    pub fn handle<H>(&self, table: &mut RouteTable<H, M>, method: &[u8], path: &[u8], handler: H)
        requires
            old(table).wf(),
            fits_scope(self@.path, path@),
            !has_key(old(table)@, route_key(method@, tokens_of(scoped_path(self@.path, path@)))),
        ensures
            final(table).wf(),
            final(table)@ == old(table)@.push(
                Route {
                    unique: route_key(method@, tokens_of(scoped_path(self@.path, path@))),
                    method: method@,
                    tokens: tokens_of(scoped_path(self@.path, path@)),
                    handler,
                    middleware: self@.middleware,
                },
            ),
    {
        let full = self.push_path(path);
        table.add_route_from_top(method, full.as_slice(), handler, copy_all(&self.middleware));
    }

    /// Registers as [`Router::handle`] does, unless the template does not
    /// fit the scope or a route has its key already; says whether it did.
    pub fn try_handle<H>(
        &self,
        table: &mut RouteTable<H, M>,
        method: &[u8],
        path: &[u8],
        handler: H,
    ) -> (r: bool)
        requires
            old(table).wf(),
        ensures
            final(table).wf(),
            match registered(old(table)@, self@, method@, path@, handler) {
                Some(routes) => r && final(table)@ == routes,
                None => !r && final(table)@ == old(table)@,
            },
    {
        if self.can_handle(table, method, path) {
            self.handle(table, method, path, handler);
            true
        } else {
            false
        }
    }

    /// [`Router::handle`] for the method `GET`.
    pub fn get<H>(&self, table: &mut RouteTable<H, M>, path: &[u8], handler: H)
        requires
            old(table).wf(),
            fits_scope(self@.path, path@),
            !has_key(
                old(table)@,
                route_key(ascii("GET"@), tokens_of(scoped_path(self@.path, path@))),
            ),
        ensures
            final(table).wf(),
            final(table)@ == old(table)@.push(
                Route {
                    unique: route_key(ascii("GET"@), tokens_of(scoped_path(self@.path, path@))),
                    method: ascii("GET"@),
                    tokens: tokens_of(scoped_path(self@.path, path@)),
                    handler,
                    middleware: self@.middleware,
                },
            ),
    {
        proof {
            reveal_strlit("GET");
        }
        let method = method_bytes("GET");
        self.handle(table, method.as_slice(), path, handler);
    }

    /// [`Router::handle`] for the method `PUT`.
    pub fn put<H>(&self, table: &mut RouteTable<H, M>, path: &[u8], handler: H)
        requires
            old(table).wf(),
            fits_scope(self@.path, path@),
            !has_key(
                old(table)@,
                route_key(ascii("PUT"@), tokens_of(scoped_path(self@.path, path@))),
            ),
        ensures
            final(table).wf(),
            final(table)@ == old(table)@.push(
                Route {
                    unique: route_key(ascii("PUT"@), tokens_of(scoped_path(self@.path, path@))),
                    method: ascii("PUT"@),
                    tokens: tokens_of(scoped_path(self@.path, path@)),
                    handler,
                    middleware: self@.middleware,
                },
            ),
    {
        proof {
            reveal_strlit("PUT");
        }
        let method = method_bytes("PUT");
        self.handle(table, method.as_slice(), path, handler);
    }

    /// [`Router::handle`] for the method `POST`.
    pub fn post<H>(&self, table: &mut RouteTable<H, M>, path: &[u8], handler: H)
        requires
            old(table).wf(),
            fits_scope(self@.path, path@),
            !has_key(
                old(table)@,
                route_key(ascii("POST"@), tokens_of(scoped_path(self@.path, path@))),
            ),
        ensures
            final(table).wf(),
            final(table)@ == old(table)@.push(
                Route {
                    unique: route_key(ascii("POST"@), tokens_of(scoped_path(self@.path, path@))),
                    method: ascii("POST"@),
                    tokens: tokens_of(scoped_path(self@.path, path@)),
                    handler,
                    middleware: self@.middleware,
                },
            ),
    {
        proof {
            reveal_strlit("POST");
        }
        let method = method_bytes("POST");
        self.handle(table, method.as_slice(), path, handler);
    }

    /// [`Router::handle`] for the method `DELETE`.
    pub fn delete<H>(&self, table: &mut RouteTable<H, M>, path: &[u8], handler: H)
        requires
            old(table).wf(),
            fits_scope(self@.path, path@),
            !has_key(
                old(table)@,
                route_key(ascii("DELETE"@), tokens_of(scoped_path(self@.path, path@))),
            ),
        ensures
            final(table).wf(),
            final(table)@ == old(table)@.push(
                Route {
                    unique: route_key(ascii("DELETE"@), tokens_of(scoped_path(self@.path, path@))),
                    method: ascii("DELETE"@),
                    tokens: tokens_of(scoped_path(self@.path, path@)),
                    handler,
                    middleware: self@.middleware,
                },
            ),
    {
        proof {
            reveal_strlit("DELETE");
        }
        let method = method_bytes("DELETE");
        self.handle(table, method.as_slice(), path, handler);
    }

    /// [`Router::handle`] for the method `PATCH`.
    pub fn patch<H>(&self, table: &mut RouteTable<H, M>, path: &[u8], handler: H)
        requires
            old(table).wf(),
            fits_scope(self@.path, path@),
            !has_key(
                old(table)@,
                route_key(ascii("PATCH"@), tokens_of(scoped_path(self@.path, path@))),
            ),
        ensures
            final(table).wf(),
            final(table)@ == old(table)@.push(
                Route {
                    unique: route_key(ascii("PATCH"@), tokens_of(scoped_path(self@.path, path@))),
                    method: ascii("PATCH"@),
                    tokens: tokens_of(scoped_path(self@.path, path@)),
                    handler,
                    middleware: self@.middleware,
                },
            ),
    {
        proof {
            reveal_strlit("PATCH");
        }
        let method = method_bytes("PATCH");
        self.handle(table, method.as_slice(), path, handler);
    }

    /// [`Router::handle`] for the method `HEAD`.
    pub fn head<H>(&self, table: &mut RouteTable<H, M>, path: &[u8], handler: H)
        requires
            old(table).wf(),
            fits_scope(self@.path, path@),
            !has_key(
                old(table)@,
                route_key(ascii("HEAD"@), tokens_of(scoped_path(self@.path, path@))),
            ),
        ensures
            final(table).wf(),
            final(table)@ == old(table)@.push(
                Route {
                    unique: route_key(ascii("HEAD"@), tokens_of(scoped_path(self@.path, path@))),
                    method: ascii("HEAD"@),
                    tokens: tokens_of(scoped_path(self@.path, path@)),
                    handler,
                    middleware: self@.middleware,
                },
            ),
    {
        proof {
            reveal_strlit("HEAD");
        }
        let method = method_bytes("HEAD");
        self.handle(table, method.as_slice(), path, handler);
    }

    /// The route of `table` that answers `method` on `path`: see
    /// [`RouteTable::find`].
    pub fn find<'a, H>(&self, table: &'a RouteTable<H, M>, method: &[u8], path: &[u8]) -> (r: Option<
        (&'a RouteHandler<H, M>, Vars),
    >)
        ensures
            match (r, first_match(table@, method@, segments(trimmed(path@)))) {
                (Some((route, vars)), Some(i)) => route@ == table@[i] && vars@ == captured(
                    table@[i].tokens,
                    segments(trimmed(path@)),
                ),
                (None, None) => true,
                _ => false,
            },
    {
        table.find(method, path)
    }
}

/// Whether `segment` can stand between two `/` of a path: it holds a byte,
/// and none of its bytes is `/`.
pub open spec fn is_segment(segment: Seq<u8>) -> bool {
    segment.len() > 0 && forall|i: int| 0 <= i < segment.len() ==> segment[i] != SLASH
}

/// The path made of `parts`, each behind a `/`.
pub open spec fn joined(parts: Seq<Seq<u8>>) -> Seq<u8>
    decreases parts.len(),
{
    if parts.len() == 0 {
        Seq::empty()
    } else {
        seq![SLASH] + parts[0] + joined(parts.skip(1))
    }
}

/// Bytes other than `/` in front of `rest` go to the segment that is open.
proof fn lemma_run_extends(run: Seq<u8>, rest: Seq<u8>, cur: Seq<u8>)
    requires
        forall|i: int| 0 <= i < run.len() ==> run[i] != SLASH,
    ensures
        segments_after(run + rest, cur) == segments_after(rest, cur + run),
    decreases run.len(),
{
    if run.len() == 0 {
        assert(run + rest =~= rest);
        assert(cur + run =~= cur);
    } else {
        let whole = run + rest;
        assert(whole[0] == run[0]);
        assert(whole.skip(1) =~= run.skip(1) + rest);
        lemma_run_extends(run.skip(1), rest, cur.push(run[0]));
        assert(cur.push(run[0]) + run.skip(1) =~= cur + run);
    }
}

proof fn lemma_segments_after_joined(parts: Seq<Seq<u8>>, cur: Seq<u8>)
    requires
        forall|i: int| 0 <= i < parts.len() ==> is_segment(#[trigger] parts[i]),
    ensures
        segments_after(joined(parts), cur) == closed_segment(cur) + parts,
    decreases parts.len(),
{
    if parts.len() == 0 {
        assert(closed_segment(cur) + parts =~= closed_segment(cur));
    } else {
        let first = parts[0];
        let others = parts.skip(1);
        let path = joined(parts);
        assert(is_segment(first));
        assert(path[0] == SLASH);
        assert(path.skip(1) =~= first + joined(others));
        lemma_run_extends(first, joined(others), Seq::empty());
        assert(Seq::<u8>::empty() + first =~= first);
        assert forall|i: int| 0 <= i < others.len() implies is_segment(#[trigger] others[i]) by {
            assert(others[i] == parts[i + 1]);
        }
        lemma_segments_after_joined(others, first);
        assert(closed_segment(first) + others =~= parts);
    }
}

/// Splitting undoes joining: the segments of the path made of `parts` are
/// `parts`.
pub proof fn lemma_segments_of_joined(parts: Seq<Seq<u8>>)
    requires
        forall|i: int| 0 <= i < parts.len() ==> is_segment(#[trigger] parts[i]),
    ensures
        segments(joined(parts)) == parts,
        segments(trimmed(joined(parts))) == parts,
{
    lemma_segments_after_joined(parts, Seq::empty());
    assert(closed_segment(Seq::<u8>::empty()) + parts =~= parts);
    lemma_trim_keeps_segments(joined(parts));
}

/// A leading `/` adds no segment.
pub proof fn lemma_trim_keeps_segments(path: Seq<u8>)
    ensures
        segments(trimmed(path)) == segments(path),
{
    if path.len() > 0 && path[0] == SLASH {
        let tail = segments_after(path.skip(1), Seq::empty());
        assert(closed_segment(Seq::<u8>::empty()) + tail =~= tail);
    }
}

/// A template matches the path that is written like it: every path token
/// is its own segment.
pub proof fn lemma_template_matches_itself(path: Seq<u8>)
    ensures
        tokens_match(tokens_of(path), segments(trimmed(path))),
{
}

/// A template without capture tokens binds nothing.
pub proof fn lemma_no_capture_binds_nothing(tokens: Seq<Token>, segs: Seq<Seq<u8>>)
    requires
        forall|i: int| 0 <= i < tokens.len() ==> #[trigger] tokens[i] is Path,
    ensures
        captured(tokens, segs) == Map::<Seq<u8>, Seq<u8>>::empty(),
    decreases tokens.len(),
{
    if tokens.len() > 0 {
        assert(tokens.last() is Path);
        assert forall|i: int| 0 <= i < tokens.drop_last().len() implies #[trigger] tokens.drop_last()[i] is Path by {
            assert(tokens.drop_last()[i] == tokens[i]);
        }
        lemma_no_capture_binds_nothing(tokens.drop_last(), segs.drop_last());
    }
}

proof fn lemma_first_match_skips<H, M>(
    routes: Seq<Route<H, M>>,
    method: Seq<u8>,
    segs: Seq<Seq<u8>>,
    from: int,
    at: int,
)
    requires
        0 <= from <= at < routes.len(),
        forall|j: int| from <= j < at ==> !route_matches(#[trigger] routes[j], method, segs),
        route_matches(routes[at], method, segs),
    ensures
        first_match_from(routes, method, segs, from) == Some(at),
    decreases at - from,
{
    if from < at {
        assert(!route_matches(routes[from], method, segs));
        lemma_first_match_skips(routes, method, segs, from + 1, at);
    }
}

proof fn lemma_no_match_from<H, M>(
    routes: Seq<Route<H, M>>,
    method: Seq<u8>,
    segs: Seq<Seq<u8>>,
    from: int,
)
    requires
        0 <= from <= routes.len(),
        first_match_from(routes, method, segs, from) is None,
    ensures
        forall|j: int| from <= j < routes.len() ==> !route_matches(#[trigger] routes[j], method, segs),
    decreases routes.len() - from,
{
    if from < routes.len() {
        lemma_no_match_from(routes, method, segs, from + 1);
    }
}

/// The route that answers is the first that matches: none before it does.
pub proof fn lemma_first_match_is_first<H, M>(
    routes: Seq<Route<H, M>>,
    method: Seq<u8>,
    segs: Seq<Seq<u8>>,
    at: int,
)
    requires
        0 <= at < routes.len(),
        forall|j: int| 0 <= j < at ==> !route_matches(#[trigger] routes[j], method, segs),
        route_matches(routes[at], method, segs),
    ensures
        first_match(routes, method, segs) == Some(at),
{
    lemma_first_match_skips(routes, method, segs, 0, at);
}

/// A route that is registered answers the path that is written like its
/// template, unless a route registered before it does: `find` on that path
/// then gives the new route. Where the template has no capture segment,
/// nothing is bound.
pub proof fn lemma_find_registered<H, M>(
    before: Seq<Route<H, M>>,
    method: Seq<u8>,
    path: Seq<u8>,
    handler: H,
    middleware: Seq<M>,
)
    requires
        first_match(before, method, segments(trimmed(path))) is None,
    ensures
        ({
            let route = Route {
                unique: route_key(method, tokens_of(path)),
                method,
                tokens: tokens_of(path),
                handler,
                middleware,
            };
            let segs = segments(trimmed(path));
            &&& first_match(before.push(route), method, segs) == Some(before.len() as int)
            &&& before.push(route)[before.len() as int].handler == handler
            &&& (forall|i: int| 0 <= i < segs.len() ==> token_of(#[trigger] segs[i]) is Path)
                ==> captured(tokens_of(path), segs) == Map::<Seq<u8>, Seq<u8>>::empty()
        }),
{
    let route = Route {
        unique: route_key(method, tokens_of(path)),
        method,
        tokens: tokens_of(path),
        handler,
        middleware,
    };
    let segs = segments(trimmed(path));
    let after = before.push(route);
    lemma_no_match_from(before, method, segs, 0);
    assert forall|j: int| 0 <= j < before.len() implies !route_matches(
        #[trigger] after[j],
        method,
        segs,
    ) by {
        assert(after[j] == before[j]);
    }
    lemma_template_matches_itself(path);
    lemma_first_match_is_first(after, method, segs, before.len() as int);
    if forall|i: int| 0 <= i < segs.len() ==> token_of(#[trigger] segs[i]) is Path {
        lemma_no_capture_binds_nothing(tokens_of(path), segs);
    }
}

/// The template `/a/:x/b`, for any segments `a` and `b` and any name `x`.
pub open spec fn capture_template(a: Seq<u8>, x: Seq<u8>, b: Seq<u8>) -> Seq<u8> {
    joined(seq![a, seq![COLON] + x, b])
}

/// A route registered for the template `/a/:x/b` answers `/a/v/b` for
/// every segment `v`, and binds `x` to `v` and nothing else, unless a route
/// registered before it answers that path.
pub proof fn lemma_capture_binds<H, M>(
    routes: Seq<Route<H, M>>,
    at: int,
    method: Seq<u8>,
    a: Seq<u8>,
    x: Seq<u8>,
    b: Seq<u8>,
    v: Seq<u8>,
)
    requires
        0 <= at < routes.len(),
        routes[at].method == method,
        routes[at].tokens == tokens_of(capture_template(a, x, b)),
        is_segment(a) && a[0] != COLON,
        is_segment(b) && b[0] != COLON,
        forall|i: int| 0 <= i < x.len() ==> x[i] != SLASH,
        is_segment(v),
        forall|j: int|
            0 <= j < at ==> !route_matches(#[trigger] routes[j], method, seq![a, v, b]),
    ensures
        segments(trimmed(joined(seq![a, v, b]))) == seq![a, v, b],
        first_match(routes, method, seq![a, v, b]) == Some(at),
        captured(routes[at].tokens, seq![a, v, b]) == Map::<Seq<u8>, Seq<u8>>::empty().insert(x, v),
{
    let capture = seq![COLON] + x;
    let shape = seq![a, capture, b];
    let segs = seq![a, v, b];
    assert(is_segment(capture));
    lemma_segments_of_joined(shape);
    lemma_segments_of_joined(segs);
    let tokens = tokens_of(capture_template(a, x, b));
    assert(capture.skip(1) =~= x);
    assert(tokens =~= seq![
        Token::Path { value: a },
        Token::Capture { name: x },
        Token::Path { value: b },
    ]);
    assert(tokens_match(tokens, segs));
    lemma_first_match_is_first(routes, method, segs, at);
    // What the three tokens bind, one by one.
    let t2 = tokens.drop_last();
    let s2 = segs.drop_last();
    let t1 = t2.drop_last();
    let s1 = s2.drop_last();
    assert(t1.drop_last() =~= Seq::<Token>::empty());
    assert(captured(t1.drop_last(), s1.drop_last()) == Map::<Seq<u8>, Seq<u8>>::empty());
    assert(t1.last() == Token::Path { value: a });
    assert(captured(t1, s1) == Map::<Seq<u8>, Seq<u8>>::empty());
    assert(t2.last() == Token::Capture { name: x });
    assert(s2.last() == v);
    assert(captured(t2, s2) == Map::<Seq<u8>, Seq<u8>>::empty().insert(x, v));
    assert(tokens.last() == Token::Path { value: b });
}

/// What a segment of a template contributes to a route's key.
pub open spec fn key_segment(segment: Seq<u8>) -> Seq<u8> {
    key_part(token_of(segment))
}

proof fn lemma_key_tail_of_tokens(parts: Seq<Seq<u8>>)
    ensures
        key_tail(parts.map_values(|s: Seq<u8>| token_of(s))) == joined(
            parts.map_values(|s: Seq<u8>| key_segment(s)),
        ),
    decreases parts.len(),
{
    let tokens = parts.map_values(|s: Seq<u8>| token_of(s));
    let keyed = parts.map_values(|s: Seq<u8>| key_segment(s));
    if parts.len() > 0 {
        let init = parts.drop_last();
        assert(tokens.drop_last() =~= init.map_values(|s: Seq<u8>| token_of(s)));
        assert(keyed.drop_last() =~= init.map_values(|s: Seq<u8>| key_segment(s)));
        lemma_key_tail_of_tokens(init);
        lemma_joined_push(keyed.drop_last(), keyed.last());
        assert(keyed.drop_last().push(keyed.last()) =~= keyed);
    }
}

/// Joining one more part appends a `/` and the part.
pub proof fn lemma_joined_push(parts: Seq<Seq<u8>>, last: Seq<u8>)
    ensures
        joined(parts.push(last)) == joined(parts) + seq![SLASH] + last,
    decreases parts.len(),
{
    let all = parts.push(last);
    if parts.len() == 0 {
        assert(all.skip(1) =~= Seq::<Seq<u8>>::empty());
        assert(joined(all.skip(1)) =~= Seq::<u8>::empty());
        assert(joined(all) =~= seq![SLASH] + last);
        assert(joined(parts) + seq![SLASH] + last =~= seq![SLASH] + last);
    } else {
        assert(all.skip(1) =~= parts.skip(1).push(last));
        assert(all[0] == parts[0]);
        lemma_joined_push(parts.skip(1), last);
        assert(seq![SLASH] + parts[0] + (joined(parts.skip(1)) + seq![SLASH] + last) =~= (seq![
            SLASH,
        ] + parts[0] + joined(parts.skip(1))) + seq![SLASH] + last);
    }
}

/// The key of the route for `method` on the template made of `parts`: the
/// method, then each part behind a `/`, a capture as the placeholder.
pub proof fn lemma_key_of_joined(method: Seq<u8>, parts: Seq<Seq<u8>>)
    requires
        forall|i: int| 0 <= i < parts.len() ==> is_segment(#[trigger] parts[i]),
    ensures
        tokens_of(joined(parts)) == parts.map_values(|s: Seq<u8>| token_of(s)),
        route_key(method, tokens_of(joined(parts))) == method + joined(
            parts.map_values(|s: Seq<u8>| key_segment(s)),
        ),
{
    lemma_segments_of_joined(parts);
    lemma_key_tail_of_tokens(parts);
}

} // verus!
