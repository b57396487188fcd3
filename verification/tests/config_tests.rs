use maalogs_metrics::config::metrics_enabled;
use maalogs_metrics::config::metrics_port;

#[test]
fn enabled_defaults_to_true_when_absent() {
    assert!(metrics_enabled(None));
}

#[test]
fn enabled_recognizes_truthy_values_case_insensitively() {
    for v in ["1", "true", "yes", "TRUE", "True", "tRuE", "YES", "Yes", "yEs"] {
        assert!(metrics_enabled(Some(v)), "expected truthy: {v}");
    }
}

#[test]
fn enabled_rejects_everything_else() {
    for v in ["0", "false", "no", "", " true", "true ", "y", "on", "2", "enabled"] {
        assert!(!metrics_enabled(Some(v)), "expected falsy: {v}");
    }
}

#[test]
fn port_defaults_to_9100_when_absent() {
    assert_eq!(metrics_port(None), 9100);
}

#[test]
fn port_reads_decimal_values() {
    assert_eq!(metrics_port(Some("8080")), 8080);
    assert_eq!(metrics_port(Some("0")), 0);
    assert_eq!(metrics_port(Some("65535")), 65535);
    assert_eq!(metrics_port(Some("+123")), 123);
    assert_eq!(metrics_port(Some("00042")), 42);
}

#[test]
fn port_defaults_on_unreadable_values() {
    for v in ["", "+", "abc", "80a", "-1", "65536", "999999999999999999999", " 80", "8 0", "8.0"] {
        assert_eq!(metrics_port(Some(v)), 9100, "expected default for: {v}");
    }
}
