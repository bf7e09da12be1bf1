use index_enclave::router::{
    extract_route_handler_tokens, path_into_trimmed_string, split_segments, RouteHandlerToken,
    RouteTable, Router, Stage,
};

#[derive(Debug, Clone, Copy, PartialEq, Eq)]
enum Endpoint {
    Ping,
    Hello,
    Calc,
    Nested,
    Item,
}

#[derive(Debug, Clone, Copy, PartialEq, Eq)]
enum Guard {
    Recovery,
    Marker,
}

fn table() -> RouteTable<Endpoint, Guard> {
    let mut table: RouteTable<Endpoint, Guard> = RouteTable::new();
    let mut r: Router<Guard> = Router::new();
    r.require(Guard::Recovery);
    let mut test = r.route(b"/test");
    test.require(Guard::Marker);
    assert!(test.can_handle(&table, b"GET", b"/ping"));
    test.get(&mut table, b"/ping", Endpoint::Nested);
    r.get(&mut table, b"/ping", Endpoint::Ping);
    r.get(&mut table, b"/hello/:name", Endpoint::Hello);
    r.get(&mut table, b"/calc/:a/:b", Endpoint::Calc);
    r.post(&mut table, b"/a/:x/b", Endpoint::Item);
    table
}

#[test]
fn trims_one_leading_slash() {
    assert_eq!(path_into_trimmed_string(b"/a/b"), b"a/b".to_vec());
    assert_eq!(path_into_trimmed_string(b"a/b"), b"a/b".to_vec());
    assert_eq!(path_into_trimmed_string(b"//a"), b"/a".to_vec());
    assert_eq!(path_into_trimmed_string(b""), Vec::<u8>::new());
    assert_eq!(path_into_trimmed_string(b"/"), Vec::<u8>::new());
}

#[test]
fn splits_into_nonempty_segments() {
    assert_eq!(split_segments(b"/a//b/"), vec![b"a".to_vec(), b"b".to_vec()]);
    assert_eq!(split_segments(b""), Vec::<Vec<u8>>::new());
    assert_eq!(split_segments(b"///"), Vec::<Vec<u8>>::new());
    assert_eq!(split_segments(b"abc"), vec![b"abc".to_vec()]);
}

#[test]
fn tokens_and_key_of_a_template() {
    let (key, tokens) = extract_route_handler_tokens(b"GET", b"/calc/:a/:b");
    assert_eq!(key, b"GET/calc/*CAPTURE*/*CAPTURE*".to_vec());
    assert_eq!(tokens.len(), 3);
    assert!(matches!(&tokens[0], RouteHandlerToken::Path { value } if value == b"calc"));
    assert!(matches!(&tokens[1], RouteHandlerToken::Capture { name } if name == b"a"));
    assert!(matches!(&tokens[2], RouteHandlerToken::Capture { name } if name == b"b"));
    let (key, tokens) = extract_route_handler_tokens(b"POST", b"");
    assert_eq!(key, b"POST".to_vec());
    assert!(tokens.is_empty());
}

#[test]
fn find_returns_the_registered_handler_without_captures() {
    let t = table();
    let (route, vars) = t.find(b"GET", b"/ping").expect("route");
    assert_eq!(*route.handler(), Endpoint::Ping);
    assert!(vars.is_empty());
    assert_eq!(route.middleware(), &vec![Guard::Recovery]);
}

#[test]
fn find_binds_the_capture() {
    let t = table();
    let (route, vars) = t.find(b"POST", b"/a/v/b").expect("route");
    assert_eq!(*route.handler(), Endpoint::Item);
    assert_eq!(vars.get(b"x"), Some(&b"v".to_vec()));
    assert_eq!(vars.get(b"y"), None);
    let (route, vars) = t.find(b"GET", b"/calc/2/3").expect("route");
    assert_eq!(*route.handler(), Endpoint::Calc);
    assert_eq!(vars.get(b"a"), Some(&b"2".to_vec()));
    assert_eq!(vars.get(b"b"), Some(&b"3".to_vec()));
}

#[test]
fn find_needs_method_and_segment_count() {
    let t = table();
    assert!(t.find(b"POST", b"/ping").is_none());
    assert!(t.find(b"GET", b"/hello").is_none());
    assert!(t.find(b"GET", b"/hello/a/b").is_none());
    assert!(t.find(b"POST", b"/a//b").is_none());
    assert!(t.find(b"get", b"/ping").is_none());
    assert!(t.find(b"GET", b"ping").is_some());
    assert!(t.find(b"GET", b"/ping/").is_some());
}

#[test]
fn scope_prefixes_path_and_keeps_middleware() {
    let t = table();
    let (route, _) = t.find(b"GET", b"/test/ping").expect("route");
    assert_eq!(*route.handler(), Endpoint::Nested);
    assert_eq!(route.middleware(), &vec![Guard::Recovery, Guard::Marker]);
    assert_eq!(route.unique(), &b"GET/test/ping".to_vec());
    assert_eq!(route.method(), &b"GET".to_vec());
}

#[test]
fn duplicates_are_detected_by_key() {
    let t = table();
    let r: Router<Guard> = Router::new();
    assert!(!r.can_handle(&t, b"GET", b"/ping"));
    assert!(!r.can_handle(&t, b"GET", b"/hello/:other"));
    assert!(r.can_handle(&t, b"PUT", b"/ping"));
    assert!(t.contains_key(b"GET/hello/*CAPTURE*"));
    assert!(!t.is_free(b"GET", b"hello/:n"));
    let scoped = r.route(b"/s");
    assert!(!scoped.can_handle(&t, b"GET", b"relative"));
}

#[test]
fn first_registered_match_wins() {
    let mut t: RouteTable<u8, Guard> = RouteTable::new();
    let r: Router<Guard> = Router::new();
    r.get(&mut t, b"/:any", 1);
    r.get(&mut t, b"/ping", 2);
    let (route, vars) = t.find(b"GET", b"/ping").expect("route");
    assert_eq!(*route.handler(), 1);
    assert_eq!(vars.get(b"any"), Some(&b"ping".to_vec()));
    assert_eq!(t.len(), 2);
    assert_eq!(*t.get(1).handler(), 2);
}

#[test]
fn a_name_bound_twice_keeps_the_later_segment() {
    let mut t: RouteTable<u8, Guard> = RouteTable::new();
    let r: Router<Guard> = Router::new();
    r.get(&mut t, b"/:x/:x", 1);
    let (_, vars) = t.find(b"GET", b"/one/two").expect("route");
    assert_eq!(vars.get(b"x"), Some(&b"two".to_vec()));
}

#[test]
fn chain_runs_middleware_then_handler() {
    let t = table();
    let (route, _) = t.find(b"GET", b"/test/ping").expect("route");
    assert_eq!(route.route_step(0), (Stage::Middleware(Guard::Recovery), Some(1)));
    assert_eq!(route.route_step(1), (Stage::Middleware(Guard::Marker), Some(2)));
    assert_eq!(route.route_step(2), (Stage::Handler, None));
}

#[test]
fn vars_keep_the_later_binding() {
    let mut vars = index_enclave::vars::Vars::new();
    assert!(vars.is_empty());
    vars.insert(b"a".to_vec(), b"1".to_vec());
    vars.insert(b"b".to_vec(), b"2".to_vec());
    vars.insert(b"a".to_vec(), b"3".to_vec());
    assert!(!vars.is_empty());
    assert_eq!(vars.get(b"a"), Some(&b"3".to_vec()));
    assert_eq!(vars.get(b"b"), Some(&b"2".to_vec()));
    assert_eq!(vars.get(b""), None);
    vars.clear();
    assert!(vars.is_empty());
    assert_eq!(vars.get(b"a"), None);
}

#[test]
fn scopes_nest() {
    let r: Router<Guard> = Router::new();
    assert_eq!(r.push_path(b"relative"), b"relative".to_vec());
    let a = r.route(b"/a");
    let b = a.route(b"/b");
    assert_eq!(b.push_path(b"/c"), b"/a/b/c".to_vec());
    let mut table: RouteTable<Endpoint, Guard> = RouteTable::new();
    assert!(b.try_handle(&mut table, b"GET", b"/c/:id", Endpoint::Item));
    assert!(!b.try_handle(&mut table, b"GET", b"/c/:other", Endpoint::Ping));
    assert!(!b.try_handle(&mut table, b"GET", b"c", Endpoint::Ping));
    assert_eq!(table.len(), 1);
    let (route, vars) = r.find(&table, b"GET", b"/a/b/c/7").expect("route");
    assert_eq!(*route.handler(), Endpoint::Item);
    assert_eq!(vars.get(b"id"), Some(&b"7".to_vec()));
    assert!(route.middleware().is_empty());
    assert_eq!(route.tokens().len(), 4);
}

#[test]
fn every_verb_registers_its_method() {
    let r: Router<Guard> = Router::new();
    let mut table: RouteTable<u8, Guard> = RouteTable::new();
    r.get(&mut table, b"/x", 1);
    r.put(&mut table, b"/x", 2);
    r.post(&mut table, b"/x", 3);
    r.delete(&mut table, b"/x", 4);
    r.patch(&mut table, b"/x", 5);
    r.head(&mut table, b"/x", 6);
    r.handle(&mut table, b"OPTIONS", b"/x", 7);
    for (method, handler) in [
        (&b"GET"[..], 1),
        (b"PUT", 2),
        (b"POST", 3),
        (b"DELETE", 4),
        (b"PATCH", 5),
        (b"HEAD", 6),
        (b"OPTIONS", 7),
    ] {
        let (route, _) = table.find(method, b"/x").expect("route");
        assert_eq!(*route.handler(), handler);
    }
}
