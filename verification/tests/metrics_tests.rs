use feedrv3::cookies::{cookie_header_to_store, merge_cookie_header_with_set_cookie};
use feedrv3::metrics::histogram::{record_histogram, Histogram};
use feedrv3::metrics::render::{escape_label, render};
use feedrv3::metrics::{record_db_time, record_http_result, record_inflight_start, record_tick, Metrics};
use feedrv3::model::CategoryConfig;

fn s(x: &str) -> String {
    x.to_string()
}

fn metrics() -> Metrics {
    Metrics::new(&[CategoryConfig { name: s("news"), domains: vec![s("a.com")] }], 100)
}

#[test]
fn cookie_merge_orders_and_overrides() {
    let set = vec![s("b=2; Path=/"), s("a=9; HttpOnly")];
    assert_eq!(merge_cookie_header_with_set_cookie(Some("a=1; c=3"), &set), Some(s("a=9; b=2; c=3")));
    assert_eq!(merge_cookie_header_with_set_cookie(None, &vec![s("novalue"), s("k=")]), None);
    assert_eq!(merge_cookie_header_with_set_cookie(Some(" x = y "), &Vec::new()), Some(s("x=y")));
    assert_eq!(cookie_header_to_store(Some("a=1"), &Vec::new()), None);
    assert_eq!(cookie_header_to_store(Some("a=1"), &vec![s("b=2")]), Some(s("a=1; b=2")));
}

#[test]
fn label_escaping() {
    assert_eq!(escape_label("a\"b\\c"), "a\\\"b\\\\c");
}

#[test]
fn histogram_counts_cumulative_buckets() {
    let mut h = Histogram::new(3);
    record_histogram(&mut h, 7, &[5, 10, 20]);
    record_histogram(&mut h, 30, &[5, 10, 20]);
    assert_eq!(h.buckets, vec![0, 1, 0, 1]);
    assert_eq!((h.sum, h.count), (37, 2));
}

#[test]
fn render_fresh_statistics() {
    let mut m = metrics();
    record_tick(&mut m, "news", 3);
    let out = render(&m);
    assert!(out.starts_with(
        "# HELP feedrv3_up Service is running.\n# TYPE feedrv3_up gauge\nfeedrv3_up 1\n\
# HELP feedrv3_start_time_seconds Start time in unix seconds.\n\
# TYPE feedrv3_start_time_seconds gauge\nfeedrv3_start_time_seconds 100\n"
    ));
    assert!(out.contains("feedrv3_scheduler_ticks_total{category=\"news\"} 1\n"));
    assert!(out.contains("feedrv3_due_feeds_total{category=\"news\"} 3\n"));
    assert!(out.contains("feedrv3_due_feeds{category=\"news\"} 3\n"));
    assert!(out.contains("# HELP feedrv3_due_feeds_total Due feeds seen per category.\n# TYPE feedrv3_due_feeds_total counter\n"));
    assert!(out.contains("# TYPE feedrv3_http_latency_ms histogram\n"));
    assert!(!out.contains('\\'));
    assert!(out.contains("feedrv3_inflight_actions 0\n"));
    assert!(out.contains("feedrv3_feed_actions_total{action=\"head\",outcome=\"ok\"} 0\n"));
    assert_eq!(out, m.render());
}

#[test]
fn render_requests_and_timings() {
    let mut m = metrics();
    record_http_result(&mut m, "get", "a.com", Some(200), 30, true);
    record_http_result(&mut m, "head", "a.com", None, 2, false);
    record_db_time(&mut m, "insert_state", 3);
    let g = record_inflight_start(&mut m);
    let out = render(&m);
    assert!(out.contains("feedrv3_inflight_actions 1\n"));
    assert!(out.contains("feedrv3_feed_actions_total{action=\"get\",outcome=\"ok\"} 1\n"));
    assert!(out.contains("feedrv3_feed_actions_total{action=\"head\",outcome=\"err\"} 1\n"));
    assert!(out.contains("feedrv3_http_status_total{action=\"get\",status=\"200\"} 1\n"));
    assert!(out.contains("feedrv3_http_status_total{action=\"head\",status=\"error\"} 1\n"));
    assert!(out.contains("feedrv3_http_latency_ms_bucket{action=\"get\",domain=\"a.com\",le=\"25\"} 0\n"));
    assert!(out.contains("feedrv3_http_latency_ms_bucket{action=\"get\",domain=\"a.com\",le=\"50\"} 1\n"));
    assert!(out.contains("feedrv3_http_latency_ms_bucket{action=\"get\",domain=\"a.com\",le=\"+Inf\"} 1\n"));
    assert!(out.contains("feedrv3_http_latency_ms_sum{action=\"get\",domain=\"a.com\"} 30\n"));
    assert!(out.contains("feedrv3_http_latency_ms_count{action=\"get\",domain=\"a.com\"} 1\n"));
    assert!(out.contains("feedrv3_db_query_ms_bucket{query=\"insert_state\",le=\"5\"} 1\n"));
    assert!(out.find("action=\"get\",status").unwrap() < out.find("action=\"head\",status").unwrap());
    g.finish(&mut m);
    assert!(render(&m).contains("feedrv3_inflight_actions 0\n"));
}
