use titan_ipoverlay_client::endpoints::{
    bearer, connect_request, connect_request_for, connect_url, direct_access_points, pop_query_url, ConnectError, Pop,
    PopError, PopSearch, PopStep, Search, SearchStep,
};

#[test]
fn pop_query_url_format() {
    assert_eq!(pop_query_url("http://ap.example/pop", "node-1"), "http://ap.example/pop?nodeid=node-1");
}

#[test]
fn connect_url_format() {
    assert_eq!(
        connect_url("wss://pop.example/ws", "u1", "linux", "0.1.0"),
        "wss://pop.example/ws?id=u1&os=linux&version=0.1.0"
    );
}

#[test]
fn bearer_value() {
    assert_eq!(bearer("tok"), "Bearer tok");
}

#[test]
fn connect_request_for_valid_pop() {
    let pop = Pop { url: "ws://10.0.0.1:8080/ws".to_string(), token: "t".to_string() };
    let r = connect_request(&pop, "u", "linux", "1").unwrap();
    assert_eq!(r.url, "ws://10.0.0.1:8080/ws?id=u&os=linux&version=1");
    assert_eq!(r.authorization, "Bearer t");
}

#[test]
fn connect_request_for_invalid_url() {
    let pop = Pop { url: "not a url".to_string(), token: "t".to_string() };
    assert_eq!(
        connect_request(&pop, "u", "linux", "1"),
        Err(ConnectError::InvalidUrl(url::ParseError::RelativeUrlWithoutBase))
    );
    let bad_port = Pop { url: "ws://h:99999/ws".to_string(), token: "t".to_string() };
    assert_eq!(
        connect_request(&bad_port, "u", "linux", "1"),
        Err(ConnectError::InvalidUrl(url::ParseError::InvalidPort))
    );
}

#[test]
fn connect_request_uses_the_parsed_url() {
    let pop = Pop { url: "WS://Example.COM".to_string(), token: "t".to_string() };
    let r = connect_request(&pop, "u", "linux", "1").unwrap();
    assert_eq!(r.url, "ws://example.com/?id=u&os=linux&version=1");
}

#[test]
fn direct_url_is_the_only_access_point() {
    assert_eq!(direct_access_points("http://x/pop"), Some(vec!["http://x/pop".to_string()]));
    assert_eq!(direct_access_points(""), None);
}

#[test]
fn pop_search_without_access_points() {
    let (_, step) = PopSearch::start(vec![], "u");
    assert!(matches!(step, PopStep::Failed(PopError::NoAccessPoint)));
}

#[test]
fn pop_search_tries_in_order_and_stops_at_first_answer() {
    let (mut s, step) = PopSearch::start(vec!["http://a".to_string(), "http://b".to_string(), "http://c".to_string()], "u");
    assert!(matches!(step, PopStep::Fetch(ref url) if url == "http://a?nodeid=u"));
    assert!(matches!(s.on_reply(None), PopStep::Fetch(ref url) if url == "http://b?nodeid=u"));
    let pop = Pop { url: "ws://p".to_string(), token: "k".to_string() };
    match s.on_reply(Some(pop.clone())) {
        PopStep::Found(p) => assert_eq!(p, pop),
        other => panic!("unexpected {:?}", other),
    }
}

#[test]
fn pop_search_fails_when_all_fail() {
    let (mut s, _) = PopSearch::start(vec!["http://a".to_string()], "u");
    assert!(matches!(s.on_reply(None), PopStep::Failed(PopError::NoPopFound)));
}

#[test]
fn search_walks_candidates() {
    let (mut s, step) = Search::<u32>::start(vec!["x".to_string(), "y".to_string()]);
    assert!(matches!(step, SearchStep::Try(ref c) if c == "x"));
    assert!(matches!(s.on_outcome(None), SearchStep::Try(ref c) if c == "y"));
    assert!(matches!(s.on_outcome(None), SearchStep::Exhausted));
    let (_, empty) = Search::<u32>::start(vec![]);
    assert!(matches!(empty, SearchStep::Exhausted));
    let (mut s2, _) = Search::<u32>::start(vec!["x".to_string()]);
    assert!(matches!(s2.on_outcome(Some(7u32)), SearchStep::Found(7)));
}

#[test]
fn connect_request_for_takes_the_parse_result() {
    let r = connect_request_for(Ok("ws://h/ws".to_string()), "k").unwrap();
    assert_eq!(r.url, "ws://h/ws");
    assert_eq!(r.authorization, "Bearer k");
    assert_eq!(
        connect_request_for(Err(url::ParseError::EmptyHost), "k"),
        Err(ConnectError::InvalidUrl(url::ParseError::EmptyHost))
    );
}
