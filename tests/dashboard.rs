use metrics_view::endpoint::{fetch_outcome, normalize_endpoint, status_ok};
use metrics_view::parse::{parse, read_document, settle};
use metrics_view::render::{content, describe_error, Content};
use metrics_view::scan::{classify_line, Line};
use metrics_view::summary::summarize;
use metrics_view::view::{Key, ViewState};

#[test]
fn single_labelset_row() {
    let doc = parse("http_requests_total{method=\"GET\"} 1027\n").ok().unwrap();
    assert_eq!(doc.families.len(), 1);
    assert_eq!(doc.families[0].name, "http_requests_total");
    assert_eq!(doc.families[0].samples.len(), 1);
    let row = summarize(&doc.families[0]);
    assert_eq!(row.name, "http_requests_total");
    assert_eq!(row.kind, "untyped");
    assert_eq!(row.summary, "method=\"GET\" \u{2192} 1027");
}

#[test]
fn multiple_labelsets_row() {
    let text = "http_requests_total{method=\"GET\"} 1027\nhttp_requests_total{method=\"POST\"} 3\n";
    let doc = parse(text).ok().unwrap();
    assert_eq!(doc.families.len(), 1);
    assert_eq!(doc.families[0].samples.len(), 2);
    assert_eq!(summarize(&doc.families[0]).summary, "(multiple labelsets)");
}

#[test]
fn same_labelset_twice_is_not_multiple() {
    let text = "# TYPE rpc summary\nrpc_sum 10\nrpc_count 4\n";
    let doc = parse(text).ok().unwrap();
    assert_eq!(doc.families.len(), 1);
    assert_eq!(doc.families[0].kind, "summary");
    let row = summarize(&doc.families[0]);
    assert_eq!(row.summary, "4");
}

#[test]
fn bare_value_without_labels() {
    let doc = parse("up 1\n").ok().unwrap();
    assert_eq!(summarize(&doc.families[0]).summary, "1");
}

#[test]
fn malformed_line_shows_error_message() {
    let r = parse("bad line without a value\n");
    assert!(r.is_err());
    let e = r.err().unwrap();
    assert_eq!(e.line, Some("bad line without a value".to_string()));
    let state = ViewState::new(Err(e), "localhost:9100".to_string());
    match content(&state) {
        Content::Message(m) => {
            assert!(m.contains("localhost:9100"));
            assert!(m.contains("malformed line"));
            assert_eq!(
                m,
                "Metrics from localhost:9100 could not be parsed: malformed line: bad line without a value"
            );
        }
        Content::Table(_, _) => panic!("a table was rendered for a failed parse"),
    }
}

#[test]
fn missing_value_is_refused() {
    let e = parse("http_requests_total{method=\"GET\"}\n").err().unwrap();
    assert_eq!(e.line, Some("http_requests_total{method=\"GET\"}".to_string()));
    assert!(read_document("a 1\nb\n").is_err());
}

#[test]
fn exposition_parser_refuses_non_number() {
    assert!(read_document("foo bar\n").is_ok());
    let e = parse("foo bar\n").err().unwrap();
    assert_eq!(e.line, None);
    assert!(!e.reason.is_empty());
}

#[test]
fn status_404_is_a_fetch_error() {
    assert_eq!(fetch_outcome(404, "not found".to_string()), Err(404));
    assert_eq!(fetch_outcome(200, "up 1\n".to_string()), Ok("up 1\n".to_string()));
    assert_eq!(fetch_outcome(204, String::new()), Ok(String::new()));
    assert_eq!(fetch_outcome(301, String::new()), Err(301));
    assert!(status_ok(200) && status_ok(299));
    assert!(!status_ok(404) && !status_ok(199) && !status_ok(300));
}

#[test]
fn endpoint_gets_a_scheme() {
    assert_eq!(normalize_endpoint("localhost:9090"), "http://localhost:9090");
    assert_eq!(normalize_endpoint("https://example.org/metrics"), "https://example.org/metrics");
    assert_eq!(normalize_endpoint(""), "http://");
    assert_eq!(normalize_endpoint("httpbin.org:80"), "http://httpbin.org:80");
    assert_eq!(normalize_endpoint("http://httpbin.org:80"), "http://httpbin.org:80");
    assert_eq!(normalize_endpoint("h:9100/x://y"), "http://h:9100/x://y");
}

#[test]
fn families_keep_first_seen_order() {
    let text = "# HELP zeta last letter\n# TYPE zeta gauge\nzeta 1\n# TYPE alpha_total counter\nalpha_total 2\n";
    let doc = parse(text).ok().unwrap();
    let names: Vec<&str> = doc.families.iter().map(|f| f.name.as_str()).collect();
    assert_eq!(names, vec!["zeta", "alpha_total"]);
    assert_eq!(doc.families[0].help, "last letter");
    assert_eq!(doc.families[0].kind, "gauge");
}

#[test]
fn histogram_components_join_one_family() {
    let text = "# TYPE lat histogram\nlat_bucket{le=\"0.5\"} 1\nlat_bucket{le=\"+Inf\"} 2\nlat_sum 0.7\nlat_count 2\n";
    let doc = parse(text).ok().unwrap();
    assert_eq!(doc.families.len(), 1);
    assert_eq!(doc.families[0].name, "lat");
    assert_eq!(doc.families[0].samples.len(), 4);
    assert_eq!(summarize(&doc.families[0]).summary, "2");
}

#[test]
fn comments_blank_lines_and_timestamps() {
    let text = "# a comment\n\nreqs{code=\"200\"} 5 1700000000000\n";
    let doc = parse(text).ok().unwrap();
    assert_eq!(doc.families.len(), 1);
    assert_eq!(doc.families[0].samples[0].value, "5");
    assert_eq!(doc.families[0].samples[0].labels, "code=\"200\"");
}

#[test]
fn empty_text() {
    assert_eq!(read_document("").ok().unwrap().families.len(), 0);
}

#[test]
fn classify_lines() {
    assert!(matches!(classify_line(""), Line::Blank));
    assert!(matches!(classify_line("# just words"), Line::Comment));
    assert!(matches!(classify_line("# TYPE x counter"), Line::Type(_, _)));
    assert!(matches!(classify_line("# TYPE x"), Line::Malformed));
    assert!(matches!(classify_line("9x 1"), Line::Malformed));
    assert!(matches!(classify_line("x{a=\"}\"} 1"), Line::Metric(_)));
    assert!(matches!(classify_line("x{a=\"1\" 1"), Line::Malformed));
}

#[test]
fn scroll_up_from_top_stays() {
    let doc = parse("# TYPE a gauge\na 1\n# TYPE b gauge\nb 2\n").ok().unwrap();
    let mut s = ViewState::new(Ok(doc), "h".to_string());
    for _ in 0..5 {
        s.scroll_up();
        assert_eq!(s.offset, 0);
    }
}

#[test]
fn scroll_down_clamps_at_last_row() {
    let mut s = ViewState::new(read_document("a 1\nb 2\nc 3\n"), "h".to_string());
    s.scroll_down(3);
    assert_eq!(s.offset, 1);
    s.scroll_down(3);
    assert_eq!(s.offset, 2);
    for _ in 0..4 {
        s.scroll_down(3);
        assert_eq!(s.offset, 2);
    }
    s.scroll_up();
    assert_eq!(s.offset, 1);
    s.scroll_down(0);
    assert_eq!(s.offset, 0);
}

#[test]
fn keys_drive_the_state() {
    let mut s = ViewState::new(read_document("a 1\nb 2\n"), "h".to_string());
    assert!(!s.apply_key(Key::Down, 2));
    assert_eq!(s.offset, 1);
    assert!(!s.apply_key(Key::Other, 2));
    assert_eq!(s.offset, 1);
    assert!(!s.apply_key(Key::Up, 2));
    assert_eq!(s.offset, 0);
    assert!(s.apply_key(Key::Quit, 2));
}

#[test]
fn table_content_for_parsed_document() {
    let mut s = ViewState::new(parse("a 1\n# TYPE b gauge\nb{x=\"y\"} 2\n"), "h".to_string());
    s.scroll_down(2);
    match content(&s) {
        Content::Table(rows, sel) => {
            assert_eq!(sel, 1);
            assert_eq!(rows.len(), 2);
            assert_eq!(rows[1].summary, "x=\"y\" \u{2192} 2");
        }
        Content::Message(m) => panic!("expected a table, got {m}"),
    }
}

#[test]
fn settle_prefers_reader_error() {
    let read = read_document("x\n");
    let r = settle(read, Err("other".to_string()));
    assert_eq!(r.err().unwrap().reason, "malformed line");
    let r = settle(read_document("x 1\n"), Err("bad number".to_string()));
    let e = r.err().unwrap();
    assert_eq!(e.reason, "bad number");
    assert_eq!(describe_error(&e), "bad number");
}

#[test]
fn several_labels_are_joined() {
    let doc = parse("x{a=\"1\",b=\"2\"} 5\n").ok().unwrap();
    assert_eq!(summarize(&doc.families[0]).summary, "a=\"1\", b=\"2\" \u{2192} 5");
}

#[test]
fn summary_quantiles_show_the_count() {
    let text = "# TYPE rpc summary\nrpc{quantile=\"0.5\"} 1\nrpc{quantile=\"0.9\"} 2\nrpc_sum 10\nrpc_count 4\n";
    let doc = parse(text).ok().unwrap();
    assert_eq!(doc.families.len(), 1);
    assert_eq!(summarize(&doc.families[0]).summary, "4");
}

#[test]
fn labelled_histogram_shows_its_series() {
    let text = "# TYPE lat histogram\nlat_bucket{path=\"/\",le=\"+Inf\"} 3\nlat_sum{path=\"/\"} 1\nlat_count{path=\"/\"} 3\n";
    let doc = parse(text).ok().unwrap();
    assert_eq!(summarize(&doc.families[0]).summary, "path=\"/\" \u{2192} 3");
}

#[test]
fn family_built_twice_is_refused() {
    let e = read_document("# TYPE a gauge\na 1\n# TYPE b gauge\nb 1\na 2\n").err().unwrap();
    assert_eq!(e.reason, "metric family defined twice");
    assert_eq!(e.line, Some("a 2".to_string()));
    let e = read_document("# TYPE a gauge\n# TYPE a counter\n").err().unwrap();
    assert_eq!(e.line, Some("# TYPE a counter".to_string()));
    let e = read_document("a 1\n# HELP a late\n").err().unwrap();
    assert_eq!(e.reason, "metric family defined twice");
    assert!(parse("# TYPE a gauge\na 1\n# TYPE b gauge\nb 1\na 2\n").is_err());
    assert!(read_document("# HELP a h\n# TYPE a gauge\na 1\n").is_ok());
}
