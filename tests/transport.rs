use std::time::Duration;

use jsonrpc_client::builder::HttpTransportBuilder;
use jsonrpc_client::call::{encode_call, Id, Params, Version};
use jsonrpc_client::transport::HttpTransport;

fn transport() -> HttpTransport {
    HttpTransport::with_client("http://127.0.0.1:8080/v2".to_string(), reqwest::Client::new())
}

#[test]
fn prepare_starts_at_one_and_counts_up() {
    let t = transport();
    let a = t.prepare("foo".to_string(), None);
    let b = t.prepare("bar".to_string(), Some(Params::Array(vec![])));
    assert!(matches!(a.id, Id::Num(1)));
    assert!(matches!(b.id, Id::Num(2)));
    assert_eq!(a.jsonrpc, Version::V2_0);
    assert_eq!(a.method, "foo");
    assert!(a.params.is_none());
    assert!(matches!(b.params, Some(Params::Array(ref v)) if v.is_empty()));
}

#[test]
fn clones_share_the_counter() {
    let t = transport();
    let u = t.clone();
    let mut seen = Vec::new();
    for i in 0..10 {
        let c = if i % 2 == 0 { t.prepare("m".to_string(), None) } else { u.prepare("m".to_string(), None) };
        match c.id {
            Id::Num(n) => seen.push(n),
            Id::Str(_) => panic!("numeric identifier expected"),
        }
    }
    let mut sorted = seen.clone();
    sorted.sort();
    sorted.dedup();
    assert_eq!(sorted.len(), 10);
    assert!(seen.iter().all(|n| *n >= 1));
}

#[test]
fn prepared_call_encodes_as_expected() {
    let t = transport();
    let c = t.prepare("foo".to_string(), None);
    assert_eq!(encode_call(&c), r#"{"jsonrpc":"2.0","method":"foo","id":1}"#);
}

#[test]
fn transport_keeps_url() {
    assert_eq!(transport().url(), "http://127.0.0.1:8080/v2");
}

#[test]
fn builder_defaults() {
    let b = HttpTransport::builder();
    assert!(b.header_entries().is_empty());
    assert_eq!(b.timeout, None);
    assert_eq!(b.connect_timeout, None);
    assert_eq!(b.pool_idle_timeout, Some(Duration::from_secs(90)));
    assert_eq!(b.pool_max_idle_per_host, usize::MAX);
    assert_eq!(b.tcp_keepalive, None);
    assert!(!b.tcp_nodelay);
    assert!(!b.https_only);
    let d = HttpTransportBuilder::default();
    assert_eq!(d.pool_max_idle_per_host, usize::MAX);
    assert!(d.header_entries().is_empty());
}

#[test]
fn builder_setters() {
    let b = HttpTransportBuilder::new()
        .timeout(Duration::from_secs(5))
        .connect_timeout(Duration::from_secs(2))
        .pool_idle_timeout(Duration::from_secs(30))
        .pool_max_idle_per_host(4)
        .tcp_nodelay(true)
        .tcp_keepalive(Duration::from_secs(60))
        .https_only(true);
    assert_eq!(b.timeout, Some(Duration::from_secs(5)));
    assert_eq!(b.connect_timeout, Some(Duration::from_secs(2)));
    assert_eq!(b.pool_idle_timeout, Some(Duration::from_secs(30)));
    assert_eq!(b.pool_max_idle_per_host, 4);
    assert!(b.tcp_nodelay);
    assert_eq!(b.tcp_keepalive, Some(Duration::from_secs(60)));
    assert!(b.https_only);
}

#[test]
fn header_replaces_same_name() {
    let b = HttpTransportBuilder::new()
        .header("x-a".to_string(), "1".to_string())
        .header("x-b".to_string(), "2".to_string())
        .header("x-a".to_string(), "3".to_string());
    assert_eq!(b.header_entries().len(), 2);
    assert_eq!(b.header_value("x-a"), Some("3".to_string()));
    assert_eq!(b.header_value("x-b"), Some("2".to_string()));
    assert_eq!(b.header_value("x-c"), None);
}

#[test]
fn headers_are_set_in_turn() {
    let b = HttpTransportBuilder::new()
        .header("x-a".to_string(), "1".to_string())
        .headers(vec![
            ("x-b".to_string(), "2".to_string()),
            ("x-a".to_string(), "4".to_string()),
            ("x-b".to_string(), "5".to_string()),
        ]);
    assert_eq!(
        b.header_entries(),
        &vec![
            ("x-b".to_string(), "2".to_string()),
            ("x-a".to_string(), "4".to_string()),
            ("x-b".to_string(), "5".to_string()),
        ]
    );
}

#[test]
fn headers_keep_repeated_values() {
    let b = HttpTransportBuilder::new().headers(vec![
        ("X-Multi".to_string(), "1".to_string()),
        ("x-multi".to_string(), "2".to_string()),
    ]);
    assert_eq!(
        b.header_entries(),
        &vec![("x-multi".to_string(), "1".to_string()), ("x-multi".to_string(), "2".to_string())]
    );
}

#[test]
fn header_replaces_every_value_of_a_name() {
    let b = HttpTransportBuilder::new()
        .headers(vec![("x-m".to_string(), "1".to_string()), ("x-m".to_string(), "2".to_string())])
        .header("X-M".to_string(), "3".to_string());
    assert_eq!(b.header_entries(), &vec![("x-m".to_string(), "3".to_string())]);
}

#[test]
fn header_names_are_stored_in_lower_case() {
    let b = HttpTransportBuilder::new().header("Content-TYPE".to_string(), "text/plain".to_string());
    assert_eq!(b.header_entries(), &vec![("content-type".to_string(), "text/plain".to_string())]);
    assert_eq!(b.header_value("content-type"), Some("text/plain".to_string()));
}

#[test]
fn builder_and_default_equal_new() {
    let n = HttpTransportBuilder::new();
    for b in [HttpTransport::builder(), HttpTransportBuilder::default()] {
        assert_eq!(b.header_entries(), n.header_entries());
        assert_eq!(b.timeout, n.timeout);
        assert_eq!(b.connect_timeout, n.connect_timeout);
        assert_eq!(b.pool_idle_timeout, Some(Duration::from_secs(90)));
        assert_eq!(b.pool_idle_timeout, n.pool_idle_timeout);
        assert_eq!(b.pool_max_idle_per_host, n.pool_max_idle_per_host);
        assert_eq!(b.tcp_keepalive, n.tcp_keepalive);
        assert_eq!(b.tcp_nodelay, n.tcp_nodelay);
        assert_eq!(b.https_only, n.https_only);
    }
}
