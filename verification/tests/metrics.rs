use prometheus_command_exporter::config::{ExportConfig, PrometheusType};
use prometheus_command_exporter::error::Error;
use prometheus_command_exporter::metrics::MetricSet;
use prometheus_command_exporter::registry::Metric;

fn export(name: &str, description: &str, kind: PrometheusType) -> ExportConfig {
    ExportConfig {
        name: name.to_string(),
        description: description.to_string(),
        kind,
        command: String::from("true"),
    }
}

/// Adds a metric that is expected to be taken, and gives it `value`.
fn add(set: MetricSet, name: &str, description: &str, kind: PrometheusType, value: f64) -> MetricSet {
    let (set, added) = set.add(&export(name, description, kind));
    match added.unwrap_or_else(|error| panic!("refused: {}", error.message())) {
        Metric::Counter(handle) => handle.counter.inc_by(value),
        Metric::Gauge(handle) => handle.gauge.set(value),
    }
    set
}

/// Adds a metric that is expected to be refused, and gives the words of the
/// refusal.
fn refuse(set: MetricSet, name: &str, description: &str, kind: PrometheusType) -> (MetricSet, String) {
    let (set, added) = set.add(&export(name, description, kind));
    match added {
        Err(Error::PrometheusLibrary(words)) => (set, words),
        Err(other) => panic!("another error: {}", other.message()),
        Ok(_) => panic!("the metric was taken"),
    }
}

#[test]
fn a_gauge_is_exposed_with_its_value() {
    let set = add(MetricSet::new(), "up", "liveness", PrometheusType::Gauge, 1.0);
    assert_eq!(set.encode().unwrap(), "# HELP up liveness\n# TYPE up gauge\nup 1\n");
}

#[test]
fn a_counter_is_exposed_with_its_value() {
    let set = add(MetricSet::new(), "hits", "hits so far", PrometheusType::Counter, 1234.0);
    assert_eq!(set.encode().unwrap(), "# HELP hits hits so far\n# TYPE hits counter\nhits 1234\n");
}

#[test]
fn metrics_are_exposed_in_the_order_in_which_they_were_added() {
    let set = MetricSet::new();
    let set = add(set, "zeta", "last letter", PrometheusType::Counter, 3.0);
    let set = add(set, "alpha", "first letter", PrometheusType::Gauge, -0.5);
    let set = add(set, "mid", "between", PrometheusType::Counter, 1234.0);
    assert_eq!(
        set.encode().unwrap(),
        "# HELP zeta last letter\n# TYPE zeta counter\nzeta 3\n\
         # HELP alpha first letter\n# TYPE alpha gauge\nalpha -0.5\n\
         # HELP mid between\n# TYPE mid counter\nmid 1234\n"
    );
}

#[test]
fn an_empty_set_is_exposed_as_nothing() {
    assert_eq!(MetricSet::new().encode().unwrap(), "");
}

#[test]
fn a_set_can_be_encoded_again() {
    let set = add(MetricSet::new(), "steady", "does not move", PrometheusType::Gauge, 2.5);
    let once = set.encode().unwrap();
    assert_eq!(once, "# HELP steady does not move\n# TYPE steady gauge\nsteady 2.5\n");
    assert_eq!(set.encode().unwrap(), once);
}

#[test]
fn a_name_is_taken_once() {
    let set = add(MetricSet::new(), "twice", "first", PrometheusType::Gauge, 0.0);
    let (set, _) = refuse(set, "twice", "second", PrometheusType::Counter);
    let (set, _) = refuse(set, "twice", "first", PrometheusType::Gauge);
    assert_eq!(set.encode().unwrap(), "# HELP twice first\n# TYPE twice gauge\ntwice 0\n");
}

#[test]
fn a_name_that_cannot_name_a_metric_is_refused() {
    let mut set = MetricSet::new();
    for name in ["", "9lives", "with space", "dash-ed", "caf\u{e9}", "a.b", "\u{3b1}"] {
        set = refuse(set, name, "help", PrometheusType::Gauge).0;
    }
    for name in ["a", "_", ":", "a9", "A_b:c_9", "Z", "z0", "__", ":9"] {
        set = add(set, name, "help", PrometheusType::Counter, 1.0);
    }
}

#[test]
fn an_empty_description_is_refused() {
    let (set, words) = refuse(MetricSet::new(), "quiet", "", PrometheusType::Gauge);
    assert_eq!(words, "Error: empty help string");
    assert_eq!(set.encode().unwrap(), "");
}

#[test]
fn a_refusal_is_in_the_words_of_the_prometheus_library() {
    let set = MetricSet::new();
    let (set, words) = refuse(set, "with space", "help", PrometheusType::Counter);
    assert_eq!(words, "Error: 'with space' is not a valid metric name");
    let (set, words) = refuse(set, "", "help", PrometheusType::Gauge);
    assert_eq!(words, "Error: '' is not a valid metric name");
    let (set, words) = refuse(set, "9 lives", "", PrometheusType::Counter);
    assert_eq!(words, "Error: empty help string");
    let set = add(set, "once", "help", PrometheusType::Counter, 1.0);
    let (set, words) = refuse(set, "once", "help", PrometheusType::Counter);
    assert_eq!(words, "Duplicate metrics collector registration attempted");
    let (set, words) = refuse(set, "once", "other help", PrometheusType::Gauge);
    assert_eq!(words, "Duplicate metrics collector registration attempted");
    let (_, words) = refuse(set, "once", "", PrometheusType::Gauge);
    assert_eq!(words, "Error: empty help string");
}

#[test]
fn a_refused_metric_leaves_the_set_as_it_was() {
    let set = add(MetricSet::new(), "kept", "stays", PrometheusType::Counter, 7.0);
    let (set, _) = refuse(set, "kept", "again", PrometheusType::Counter);
    let (set, _) = refuse(set, "no good", "bad name", PrometheusType::Gauge);
    let set = add(set, "later", "comes after", PrometheusType::Gauge, 0.5);
    assert_eq!(
        set.encode().unwrap(),
        "# HELP kept stays\n# TYPE kept counter\nkept 7\n\
         # HELP later comes after\n# TYPE later gauge\nlater 0.5\n"
    );
}

#[test]
fn help_text_and_values_are_written_as_the_prometheus_library_writes_them() {
    let set = add(MetricSet::new(), "odd", "back\\slash and\nline", PrometheusType::Gauge, f64::INFINITY);
    assert_eq!(
        set.encode().unwrap(),
        "# HELP odd back\\\\slash and\\nline\n# TYPE odd gauge\nodd inf\n"
    );
}

#[test]
fn a_metric_without_a_value_is_exposed_as_zero() {
    let (set, added) = MetricSet::new().add(&export("idle", "never set", PrometheusType::Counter));
    assert!(matches!(added, Ok(Metric::Counter(_))));
    assert_eq!(set.encode().unwrap(), "# HELP idle never set\n# TYPE idle counter\nidle 0\n");
}

#[test]
fn the_kind_of_the_export_is_the_kind_of_the_metric() {
    let (set, added) = MetricSet::new().add(&export("c", "a counter", PrometheusType::Counter));
    assert!(matches!(added, Ok(Metric::Counter(_))));
    let (_, added) = set.add(&export("g", "a gauge", PrometheusType::Gauge));
    assert!(matches!(added, Ok(Metric::Gauge(_))));
}
