use feedrv3::fetcher::{benchmark_feed_stream, parse_args, RunMode};
use feedrv3::http::{classify_error, get_failure, get_result, head_result, parse_last_modified, status_error_kind};
use feedrv3::metrics::render::render;
use feedrv3::metrics::server::{http_response, path_of_request};
use feedrv3::metrics::Metrics;
use feedrv3::model::{CategoryConfig, ErrorKind};
use feedrv3::server::config::{bind_address, log_level, HttpConfig, LoggingConfig};
use feedrv3::server::db::{schema_statements, search_path_with_fetcher};

fn s(x: &str) -> String {
    x.to_string()
}

#[test]
fn fetcher_arguments() {
    let a = parse_args(&vec![s("cfg.toml")]);
    assert_eq!(a.config_path.as_deref(), Some("cfg.toml"));
    assert_eq!(a.mode, RunMode::Scheduler);
    let a = parse_args(&vec![s("--ingest-benchmark"), s("25"), s("x.toml")]);
    assert_eq!(a.mode, RunMode::IngestBenchmark { feeds_to_insert: 25 });
    assert_eq!(a.config_path.as_deref(), Some("x.toml"));
    let a = parse_args(&vec![s("--ingest-benchmark"), s("many")]);
    assert_eq!(a.mode, RunMode::IngestBenchmark { feeds_to_insert: 0 });
    let a = parse_args(&vec![s("--ingest-benchmark")]);
    assert_eq!((a.mode, a.config_path), (RunMode::Scheduler, None));
    let count = |t: &str| match parse_args(&vec![s("--ingest-benchmark"), s(t)]).mode {
        RunMode::IngestBenchmark { feeds_to_insert } => feeds_to_insert,
        RunMode::Scheduler => panic!("expected a benchmark"),
    };
    assert_eq!(count("+7"), 7);
    assert_eq!(count("007"), 7);
    assert_eq!(count("-1"), 0);
    assert_eq!(count("+"), 0);
    assert_eq!(count(""), 0);
    assert_eq!(count("1 2"), 0);
    assert_eq!(count("99999999999999999999999"), 0);
    assert_eq!(count(&usize::MAX.to_string()), usize::MAX);
}

#[test]
fn benchmark_feeds() {
    let v = benchmark_feed_stream(3, 90, s("benchmark"));
    assert_eq!(v.len(), 3);
    assert_eq!(v[2].id, "bench-2");
    assert_eq!(v[2].url, "https://bench.example.com/2.xml");
    assert_eq!(v[0].domain, "bench.example.com");
    assert_eq!(v[1].category, "benchmark");
    assert_eq!(v[1].base_poll_seconds, 90);
    assert!(benchmark_feed_stream(0, 90, s("b")).is_empty());
}

#[test]
fn metrics_endpoint() {
    let m = Metrics::new(&[CategoryConfig { name: s("news"), domains: vec![] }], 7);
    assert_eq!(path_of_request("GET /metrics HTTP/1.1\r\nHost: x\r\n\r\n"), "/metrics".chars().collect::<Vec<_>>());
    assert_eq!(path_of_request(""), vec!['/']);
    assert_eq!(path_of_request("GET"), vec!['/']);
    let body = render(&m);
    let r = http_response("GET /metrics HTTP/1.1\r\n\r\n", &m);
    let expected = format!(
        "HTTP/1.1 200 OK\r\nContent-Type: text/plain; version=0.0.4\r\nContent-Length: {}\r\nConnection: close\r\n\r\n{}",
        body.len(),
        body
    );
    assert_eq!(r, expected);
    let r = http_response("GET /other HTTP/1.1\r\n\r\n", &m);
    assert!(r.starts_with("HTTP/1.1 404 Not Found\r\nContent-Type: text/plain; version=0.0.4\r\nContent-Length: 10\r\n"));
    assert!(r.ends_with("\r\nContent-Length: 10\r\nConnection: close\r\n\r\nnot found\n"));
}

#[test]
fn http_results() {
    assert_eq!(status_error_kind(404), Some(ErrorKind::Http4xx(404)));
    assert_eq!(status_error_kind(503), Some(ErrorKind::Http5xx(503)));
    assert_eq!(status_error_kind(304), None);
    assert_eq!(classify_error(true, true), ErrorKind::Timeout);
    assert_eq!(classify_error(false, true), ErrorKind::ConnectionFailure);
    assert_eq!(classify_error(false, false), ErrorKind::Unexpected);
    assert_eq!(parse_last_modified(Some("Thu, 01 Jan 1970 00:00:01 GMT")), Some(1000));
    assert_eq!(parse_last_modified(Some("yesterday")), None);
    let h = head_result(500, Some(s("e1")), Some("Thu, 01 Jan 1970 00:00:02 GMT"), 12, vec![s("a=b")]);
    assert_eq!((h.status, h.error, h.last_modified), (Some(500), Some(ErrorKind::Http5xx(500)), Some(2000)));
    let g = get_result(200, Some(b"x".to_vec()), None, None, 3, Vec::new());
    assert_eq!((g.error, g.body), (None, Some(b"x".to_vec())));
    let f = get_failure(false, true, 9);
    assert_eq!((f.status, f.error, f.latency_ms), (None, Some(ErrorKind::ConnectionFailure), 9));
}

#[test]
fn server_statements_and_settings() {
    assert_eq!(
        schema_statements("CREATE TABLE a (x INT);\n ;  CREATE TABLE b (y INT) ;\n"),
        vec![s("CREATE TABLE a (x INT)"), s("CREATE TABLE b (y INT)")]
    );
    assert_eq!(search_path_with_fetcher("app", "fetcher"), "SET search_path TO \"app\", \"fetcher\"");
    assert_eq!(bind_address(&HttpConfig { host: s("0.0.0.0"), port: 8080 }), "0.0.0.0:8080");
    assert_eq!(log_level(&LoggingConfig { level: None }), "info");
    assert_eq!(log_level(&LoggingConfig { level: Some(s(" debug ")) }), "debug");
}
