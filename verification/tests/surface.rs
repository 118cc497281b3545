use echo_core::api::{EchoResponse, ExpensiveTemplate, IndexTemplate};
use echo_core::echo::{response, server_label, server_name};
use echo_core::metrics::{collect_metrics, HttpMethod, Metrics};
use echo_core::sse::{next_heartbeat, sse_counter};

#[test]
fn echo_response_carries_the_request_back() {
    let headers = vec![("host".to_string(), "example".to_string())];
    let r = EchoResponse::new(
        "GET".to_string(),
        headers.clone(),
        "/echo".to_string(),
        b"hello".to_vec(),
        "box".to_string(),
    );
    assert_eq!(r.method, "GET");
    assert_eq!(r.headers, headers);
    assert_eq!(r.path, "/echo");
    assert_eq!(r.body, Some("hello".to_string()));
    assert_eq!(r.server, "box");
}

#[test]
fn empty_body_is_omitted() {
    let r = EchoResponse::new(
        "POST".to_string(),
        Vec::new(),
        "/".to_string(),
        Vec::new(),
        "box".to_string(),
    );
    assert_eq!(r.body, None);
}

#[test]
fn invalid_utf8_is_replaced_not_dropped() {
    let r = EchoResponse::new(
        "POST".to_string(),
        Vec::new(),
        "/".to_string(),
        vec![0xff, 0xfe],
        "box".to_string(),
    );
    let body = r.body.expect("non-empty bytes give a body");
    assert_eq!(body, String::from_utf8_lossy(&[0xff, 0xfe]).to_string());
}

#[test]
fn index_template_holds_headers_and_server() {
    let headers = vec![("accept".to_string(), "*/*".to_string())];
    let t = IndexTemplate::new(headers.clone(), "box".to_string());
    assert_eq!(t.headers, headers);
    assert_eq!(t.server, "box");
}

#[test]
fn expensive_template_constructors() {
    let blank = ExpensiveTemplate::new("box".to_string());
    assert_eq!(blank.server, "box");
    assert_eq!(blank.prime_limit, None);
    assert_eq!(blank.fib_length, None);
    assert_eq!(blank.result, None);
    assert_eq!(blank.error, None);

    let done = ExpensiveTemplate::with_result("box".to_string(), 10, 10, "ok".to_string());
    assert_eq!(done.prime_limit, Some(10));
    assert_eq!(done.fib_length, Some(10));
    assert_eq!(done.result, Some("ok".to_string()));
    assert_eq!(done.error, None);

    let failed = ExpensiveTemplate::with_error(
        "box".to_string(),
        Some(10),
        None,
        "Fibonacci length is required".to_string(),
    );
    assert_eq!(failed.prime_limit, Some(10));
    assert_eq!(failed.fib_length, None);
    assert_eq!(failed.result, None);
    assert_eq!(
        failed.error,
        Some("Fibonacci length is required".to_string())
    );
}

#[test]
fn server_label_prefers_the_hostname() {
    assert_eq!(server_label(Ok("mybox".to_string())), "mybox");
}

#[test]
fn server_name_matches_the_machine() {
    let name = server_name();
    match whoami::hostname() {
        Ok(h) => assert_eq!(name, h),
        Err(_) => assert_eq!(name, "unknown"),
    }
}

#[test]
fn response_counts_and_echoes() {
    let mut metrics = Metrics::new();
    let r = response(
        &mut metrics,
        HttpMethod::Get,
        "GET".to_string(),
        Vec::new(),
        "/anything".to_string(),
        b"body".to_vec(),
        "box".to_string(),
    );
    assert_eq!(metrics.get, 1);
    assert_eq!(metrics.post, 0);
    assert_eq!(r.method, "GET");
    assert_eq!(r.path, "/anything");
    assert_eq!(r.body, Some("body".to_string()));
}

#[test]
fn counters_count_independently() {
    let mut m = Metrics::new();
    m.increment(HttpMethod::Get);
    m.increment(HttpMethod::Get);
    m.increment(HttpMethod::Post);
    assert_eq!(m.get, 2);
    assert_eq!(m.post, 1);
    assert_eq!(m.delete, 0);
}

#[test]
fn counters_saturate_at_the_top() {
    let mut m = Metrics::new();
    m.get = u64::MAX;
    m.increment(HttpMethod::Get);
    assert_eq!(m.get, u64::MAX);
}

#[test]
fn exposition_lists_only_methods_that_were_seen() {
    let mut m = Metrics::new();
    m.increment(HttpMethod::Get);
    m.increment(HttpMethod::Get);
    m.increment(HttpMethod::Post);
    let text = collect_metrics(&m);
    assert_eq!(
        text,
        "# HELP echo_total echo count\n# TYPE echo_total counter\n\
         echo_total{method=\"GET\"} 2\necho_total{method=\"POST\"} 1\n"
    );
}

#[test]
fn exposition_of_fresh_counters_is_only_the_header() {
    let m = Metrics::new();
    assert_eq!(
        collect_metrics(&m),
        "# HELP echo_total echo count\n# TYPE echo_total counter\n"
    );
}

#[test]
fn heartbeat_event_fields() {
    let e = sse_counter(7);
    assert_eq!(e.id, "7");
    assert_eq!(e.retry_ms, 500);
    // The payload is the current time in RFC 3339 form, and never empty.
    assert!(!e.data.is_empty());
    assert!(chrono::DateTime::parse_from_rfc3339(&e.data).is_ok());
}

#[test]
fn heartbeats_count_up() {
    let mut counter: u64 = 0;
    let first = next_heartbeat(&mut counter);
    let second = next_heartbeat(&mut counter);
    assert_eq!(first.id, "1");
    assert_eq!(second.id, "2");
    assert_eq!(counter, 2);
}
