use tls_flood::random::{build_block, letters_of};
use tls_flood::request::{generate_request, query_joiner, request_from_draws, DispatchConfig, Draws, Method, RequestDescriptor};

fn config(url: &str, body: Option<&str>, extra: Vec<&str>) -> DispatchConfig {
    DispatchConfig {
        url: url.to_string(),
        host: "localhost".to_string(),
        body: body.map(|b| b.to_string()),
        user_agents: vec!["agent-one".to_string(), "agent-two".to_string()],
        referers: vec!["http://ref.example/".to_string()],
        extra_headers: extra.into_iter().map(|s| s.to_string()).collect(),
        stop_on_success: false,
        limit: 5,
    }
}

fn header<'a>(d: &'a RequestDescriptor, name: &str) -> Option<&'a str> {
    d.headers.iter().find(|h| h.name == name).map(|h| h.value.as_str())
}

fn all_upper(s: &str) -> bool {
    s.chars().all(|c| c.is_ascii_uppercase())
}

#[test]
fn get_url_without_query_gets_question_mark_and_letters() {
    let c = config("http://localhost/path", None, vec![]);
    for _ in 0..200 {
        let d = generate_request(&c).unwrap();
        assert_eq!(d.method, Method::Get);
        assert!(d.body.is_none());
        let rest = d.url.strip_prefix("http://localhost/path?").expect("prefix and joiner");
        assert!(rest.len() >= 6 && rest.len() <= 18, "query length {}", rest.len());
        assert!(all_upper(rest));
    }
}

#[test]
fn get_url_with_query_uses_ampersand() {
    let c = config("http://localhost/path?x=1", None, vec![]);
    for _ in 0..100 {
        let d = generate_request(&c).unwrap();
        let rest = d.url.strip_prefix("http://localhost/path?x=1&").expect("ampersand joiner");
        assert!(rest.len() >= 6 && rest.len() <= 18);
        assert!(all_upper(rest));
    }
}

#[test]
fn post_mode_keeps_url_and_body() {
    let c = config("http://localhost/path", Some("a=1"), vec![]);
    for _ in 0..50 {
        let d = generate_request(&c).unwrap();
        assert_eq!(d.method, Method::Post);
        assert_eq!(d.url, "http://localhost/path");
        assert_eq!(d.body.as_deref(), Some("a=1"));
    }
}

#[test]
fn joiner_follows_existing_query() {
    assert_eq!(query_joiner("http://localhost/path"), "?");
    assert_eq!(query_joiner("http://localhost/path?x=1"), "&");
}

#[test]
fn fixed_headers_are_attached_in_order() {
    let c = config("http://localhost/", None, vec![]);
    let d = generate_request(&c).unwrap();
    let names: Vec<&str> = d.headers.iter().map(|h| h.name.as_str()).collect();
    assert_eq!(
        names,
        vec!["user-agent", "cache-control", "accept-charset", "referer", "keep-alive", "connection", "host"]
    );
    assert_eq!(header(&d, "cache-control"), Some("no-cache"));
    assert_eq!(header(&d, "accept-charset"), Some("ISO-8859-1,utf-8;q=0.7,*;q=0.7"));
    assert_eq!(header(&d, "connection"), Some("keep-alive"));
    assert_eq!(header(&d, "host"), Some("localhost"));
}

#[test]
fn user_agent_comes_from_pool() {
    let c = config("http://localhost/", None, vec![]);
    for _ in 0..50 {
        let d = generate_request(&c).unwrap();
        let ua = header(&d, "user-agent").unwrap();
        assert!(ua == "agent-one" || ua == "agent-two");
    }
}

#[test]
fn empty_user_agent_pool_gives_empty_agent() {
    let mut c = config("http://localhost/", None, vec![]);
    c.user_agents = vec![];
    let d = generate_request(&c).unwrap();
    assert_eq!(header(&d, "user-agent"), Some(""));
}

#[test]
fn referer_is_base_and_letter_suffix() {
    let c = config("http://localhost/", None, vec![]);
    for _ in 0..50 {
        let d = generate_request(&c).unwrap();
        let r = header(&d, "referer").unwrap();
        let suffix = r.strip_prefix("http://ref.example/").unwrap();
        assert!(suffix.len() >= 5 && suffix.len() <= 9);
        assert!(all_upper(suffix));
    }
}

#[test]
fn empty_referer_pool_gives_suffix_alone() {
    let mut c = config("http://localhost/", None, vec![]);
    c.referers = vec![];
    let d = generate_request(&c).unwrap();
    let r = header(&d, "referer").unwrap();
    assert!(r.len() >= 5 && r.len() <= 9 && all_upper(r));
}

#[test]
fn keep_alive_is_between_100_and_109() {
    let c = config("http://localhost/", None, vec![]);
    for _ in 0..100 {
        let d = generate_request(&c).unwrap();
        let v: u32 = header(&d, "keep-alive").unwrap().parse().unwrap();
        assert!((100..110).contains(&v));
    }
}

#[test]
fn extra_headers_follow_fixed_ones() {
    let c = config("http://localhost/", None, vec!["X-Test:  value  ", "malformed", "A:b:c"]);
    let d = generate_request(&c).unwrap();
    assert_eq!(d.headers.len(), 9);
    assert_eq!(d.headers[7].name, "X-Test");
    assert_eq!(d.headers[7].value, "value");
    assert_eq!(d.headers[8].name, "A");
    assert_eq!(d.headers[8].value, "b:c");
}

#[test]
fn block_has_requested_length_and_letters() {
    for size in [0usize, 1, 3, 9, 40] {
        let b = build_block(size).unwrap();
        assert_eq!(b.len(), size);
        assert!(all_upper(&b));
    }
}

#[test]
fn letters_follow_positions() {
    assert_eq!(letters_of(&vec![0, 1, 25, 7]), "ABZH");
    assert_eq!(letters_of(&vec![]), "");
}

fn draws() -> Draws {
    Draws {
        query1: vec![0, 1, 2],
        query2: vec![25, 24, 23, 22],
        user_agent: "agent-two".to_string(),
        referer: "http://ref.example/".to_string(),
        referer_suffix: vec![7, 4, 11, 11, 14],
        keep_alive: 7,
    }
}

#[test]
fn request_from_draws_get_is_exact() {
    let c = config("http://localhost/path?x=1", None, vec!["X-Test:  value  "]);
    let d = request_from_draws(&c, &draws());
    assert_eq!(d.method, Method::Get);
    assert_eq!(d.url, "http://localhost/path?x=1&ABCZYXW");
    assert!(d.body.is_none());
    assert_eq!(header(&d, "user-agent"), Some("agent-two"));
    assert_eq!(header(&d, "referer"), Some("http://ref.example/HELLO"));
    assert_eq!(header(&d, "keep-alive"), Some("107"));
    assert_eq!(header(&d, "X-Test"), Some("value"));
    assert_eq!(d.headers.len(), 8);
}

#[test]
fn request_from_draws_post_ignores_query_draws() {
    let c = config("http://localhost/path", Some("a=1"), vec![]);
    let d = request_from_draws(&c, &draws());
    assert_eq!(d.method, Method::Post);
    assert_eq!(d.url, "http://localhost/path");
    assert_eq!(d.body.as_deref(), Some("a=1"));
}
