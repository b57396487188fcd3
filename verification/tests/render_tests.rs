use maalogs_metrics::metrics::Metrics;
use maalogs_metrics::metrics::observe_command;
use maalogs_metrics::render::render;
use maalogs_metrics::server::handle_request;

const BASELINE: &str = "# HELP tauri_app_up Tauri app up\n\
# TYPE tauri_app_up gauge\n\
tauri_app_up 1\n\
# HELP tauri_command_duration_seconds Tauri command duration\n\
# TYPE tauri_command_duration_seconds histogram\n\
# HELP tauri_command_total Tauri command total\n\
# TYPE tauri_command_total counter\n";

#[test]
fn scrape_before_any_recording_is_baseline() {
    let m = Metrics::new();
    let r = handle_request(&m, "/metrics");
    assert_eq!(r.status, 200);
    assert_eq!(r.body, BASELINE);
    assert_eq!(
        r.content_type.as_deref(),
        Some("text/plain; version=0.0.4; charset=utf-8")
    );
}

#[test]
fn other_paths_get_not_found() {
    let m = Metrics::new();
    for path in ["/foo", "/", "/metrics/", "/METRICS", ""] {
        let r = handle_request(&m, path);
        assert_eq!(r.status, 404);
        assert_eq!(r.body, "not found");
        assert!(!r.body.is_empty());
        assert!(r.content_type.is_none());
    }
}

#[test]
fn scrape_after_one_greet_recording() {
    let mut m = Metrics::new();
    // 0.002 seconds, as integer nanoseconds.
    observe_command(&mut m, "greet", "success", 2_000_000);
    let r = handle_request(&m, "/metrics");
    assert_eq!(r.status, 200);
    let expected = "# HELP tauri_app_up Tauri app up\n\
# TYPE tauri_app_up gauge\n\
tauri_app_up 1\n\
# HELP tauri_command_duration_seconds Tauri command duration\n\
# TYPE tauri_command_duration_seconds histogram\n\
tauri_command_duration_seconds_bucket{command=\"greet\",le=\"0.005\"} 1\n\
tauri_command_duration_seconds_bucket{command=\"greet\",le=\"0.01\"} 1\n\
tauri_command_duration_seconds_bucket{command=\"greet\",le=\"0.025\"} 1\n\
tauri_command_duration_seconds_bucket{command=\"greet\",le=\"0.05\"} 1\n\
tauri_command_duration_seconds_bucket{command=\"greet\",le=\"0.1\"} 1\n\
tauri_command_duration_seconds_bucket{command=\"greet\",le=\"0.25\"} 1\n\
tauri_command_duration_seconds_bucket{command=\"greet\",le=\"0.5\"} 1\n\
tauri_command_duration_seconds_bucket{command=\"greet\",le=\"1\"} 1\n\
tauri_command_duration_seconds_bucket{command=\"greet\",le=\"2.5\"} 1\n\
tauri_command_duration_seconds_bucket{command=\"greet\",le=\"5\"} 1\n\
tauri_command_duration_seconds_bucket{command=\"greet\",le=\"10\"} 1\n\
tauri_command_duration_seconds_bucket{command=\"greet\",le=\"+Inf\"} 1\n\
tauri_command_duration_seconds_sum{command=\"greet\"} 0.002\n\
tauri_command_duration_seconds_count{command=\"greet\"} 1\n\
# HELP tauri_command_total Tauri command total\n\
# TYPE tauri_command_total counter\n\
tauri_command_total{command=\"greet\",status=\"success\"} 1\n";
    assert_eq!(r.body, expected);
    assert!(r.body.contains("tauri_command_total{command=\"greet\",status=\"success\"} 1"));
}

#[test]
fn seconds_render_without_trailing_zeros() {
    let mut m = Metrics::new();
    observe_command(&mut m, "op", "success", 1_500_000_000);
    let body = render(&m);
    assert!(body.contains("tauri_command_duration_seconds_sum{command=\"op\"} 1.5\n"));
    let mut m2 = Metrics::new();
    observe_command(&mut m2, "op", "success", 3_000_000_000);
    let body2 = render(&m2);
    assert!(body2.contains("tauri_command_duration_seconds_sum{command=\"op\"} 3\n"));
    let mut m3 = Metrics::new();
    observe_command(&mut m3, "op", "success", 10);
    let body3 = render(&m3);
    assert!(body3.contains("tauri_command_duration_seconds_sum{command=\"op\"} 0.00000001\n"));
}

#[test]
fn label_values_are_escaped() {
    let mut m = Metrics::new();
    observe_command(&mut m, "we\"ird\\op\nname", "success", 1_000);
    let body = render(&m);
    assert!(body.contains("tauri_command_total{command=\"we\\\"ird\\\\op\\nname\",status=\"success\"} 1"));
}

#[test]
fn entries_render_in_first_observation_order() {
    let mut m = Metrics::new();
    observe_command(&mut m, "b_op", "success", 1_000);
    observe_command(&mut m, "a_op", "success", 1_000);
    observe_command(&mut m, "b_op", "error", 1_000);
    let body = render(&m);
    let b_pos = body.find("tauri_command_total{command=\"b_op\",status=\"success\"} 1").unwrap();
    let a_pos = body.find("tauri_command_total{command=\"a_op\",status=\"success\"} 1").unwrap();
    let be_pos = body.find("tauri_command_total{command=\"b_op\",status=\"error\"} 1").unwrap();
    assert!(b_pos < a_pos && a_pos < be_pos);
    let bh_pos = body.find("tauri_command_duration_seconds_count{command=\"b_op\"} 2").unwrap();
    let ah_pos = body.find("tauri_command_duration_seconds_count{command=\"a_op\"} 1").unwrap();
    assert!(bh_pos < ah_pos);
}
