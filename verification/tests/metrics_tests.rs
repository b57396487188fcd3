use maalogs_metrics::metrics::Metrics;
use maalogs_metrics::metrics::observe_command;

#[test]
fn fresh_registry_reads_zero() {
    let m = Metrics::new();
    assert_eq!(m.up_value(), 1);
    assert_eq!(m.counter_value("greet", "success"), 0);
    assert_eq!(m.histogram_count("greet"), 0);
    assert_eq!(m.histogram_sum_nanos("greet"), 0);
    for i in 0..11 {
        assert_eq!(m.histogram_bucket("greet", i), 0);
    }
}

#[test]
fn one_recording_counts_once() {
    let mut m = Metrics::new();
    observe_command(&mut m, "greet", "success", 2_000_000);
    assert_eq!(m.counter_value("greet", "success"), 1);
    assert_eq!(m.counter_value("greet", "error"), 0);
    assert_eq!(m.counter_value("other", "success"), 0);
    assert_eq!(m.histogram_count("greet"), 1);
    assert_eq!(m.histogram_sum_nanos("greet"), 2_000_000);
    // 2ms fits every bucket of the ladder.
    for i in 0..11 {
        assert_eq!(m.histogram_bucket("greet", i), 1);
    }
}

#[test]
fn counter_equals_number_of_matching_calls() {
    let mut m = Metrics::new();
    for _ in 0..100 {
        observe_command(&mut m, "greet", "success", 1_000);
    }
    observe_command(&mut m, "greet", "error", 1_000);
    observe_command(&mut m, "open_devtools", "success", 1_000);
    assert_eq!(m.counter_value("greet", "success"), 100);
    assert_eq!(m.counter_value("greet", "error"), 1);
    assert_eq!(m.counter_value("open_devtools", "success"), 1);
    assert_eq!(m.histogram_count("greet"), 101);
}

#[test]
fn bucket_tallies_are_cumulative_counts() {
    let mut m = Metrics::new();
    // Exactly on the first boundary (5ms), just over it, and far over all.
    observe_command(&mut m, "op", "success", 5_000_000);
    observe_command(&mut m, "op", "success", 5_000_001);
    observe_command(&mut m, "op", "success", 20_000_000_000);
    assert_eq!(m.histogram_bucket("op", 0), 1); // <= 0.005s
    assert_eq!(m.histogram_bucket("op", 1), 2); // <= 0.01s
    assert_eq!(m.histogram_bucket("op", 10), 2); // <= 10s
    assert_eq!(m.histogram_count("op"), 3);
    assert_eq!(m.histogram_sum_nanos("op"), 20_010_000_001);
    // Cumulative: tallies never shrink as boundaries grow.
    for i in 1..11 {
        assert!(m.histogram_bucket("op", i - 1) <= m.histogram_bucket("op", i));
    }
}

#[test]
fn up_gauge_stays_one() {
    let mut m = Metrics::new();
    assert_eq!(m.up_value(), 1);
    for i in 0..10 {
        observe_command(&mut m, "greet", "success", i * 1_000_000);
        assert_eq!(m.up_value(), 1);
    }
}

#[test]
fn counts_never_reset_and_keys_only_grow() {
    let mut m = Metrics::new();
    observe_command(&mut m, "a", "success", 1);
    let first = m.counter_value("a", "success");
    observe_command(&mut m, "b", "success", 1);
    observe_command(&mut m, "a", "error", 1);
    // An unrelated recording leaves the earlier pair's count in place.
    assert_eq!(m.counter_value("a", "success"), first);
    assert_eq!(m.counter_value("b", "success"), 1);
    assert_eq!(m.counter_value("a", "error"), 1);
}

#[test]
fn saturated_sum_drops_the_recording() {
    let mut m = Metrics::new();
    observe_command(&mut m, "op", "success", u64::MAX);
    assert_eq!(m.counter_value("op", "success"), 1);
    assert_eq!(m.histogram_sum_nanos("op"), u64::MAX);
    // A second recording cannot fit the sum: the registry is left unchanged.
    observe_command(&mut m, "op", "success", 1);
    assert_eq!(m.counter_value("op", "success"), 1);
    assert_eq!(m.histogram_count("op"), 1);
    assert_eq!(m.histogram_sum_nanos("op"), u64::MAX);
}
