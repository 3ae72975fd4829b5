use remap_functions::metrics::file::{file_names, FileSourceMetricFile, FileSourceMetrics};
use remap_functions::metrics::metric::{select_named, select_tagged, Metric, Tag};
use remap_functions::metrics::registry::{Counter, Registry};

fn tag(key: &str, value: &str) -> Tag {
    Tag { key: key.to_string(), value: value.to_string() }
}

fn metric(name: &str, tags: Vec<Tag>, reading: u64) -> Metric {
    Metric::new(name.to_string(), tags, reading)
}

fn recorded() -> Vec<Metric> {
    vec![
        metric("processed_events_total", vec![tag("file", "b.log")], 1),
        metric("processed_bytes_total", vec![tag("host", "x"), tag("file", "a.log")], 2),
        metric("processed_events_total", vec![], 3),
        metric("processed_events_total", vec![tag("file", "a.log")], 4),
        metric("other", vec![tag("file", "b.log"), tag("file", "a.log")], 5),
        metric("processed_bytes_total", vec![tag("component", "in")], 6),
    ]
}

fn readings(metrics: &[&Metric]) -> Vec<u64> {
    metrics.iter().map(|m| m.reading).collect()
}

#[test]
fn metric_tag_value() {
    let m = metric("m", vec![tag("a", "1"), tag("b", "2"), tag("a", "3")], 0);
    assert_eq!(m.tag_value("a"), Some("1"));
    assert_eq!(m.tag_value("b"), Some("2"));
    assert_eq!(m.tag_value("c"), None);
    assert_eq!(metric("m", vec![], 0).tag_value("a"), None);
}

#[test]
fn files_are_grouped_in_order_of_name() {
    let all = FileSourceMetrics::new(recorded());
    let files = all.files();
    let names: Vec<&str> = files.iter().map(|f| f.name()).collect();
    assert_eq!(names, vec!["a.log", "b.log"]);
    assert_eq!(readings(files[0].metrics()), vec![2, 4]);
    assert_eq!(readings(files[1].metrics()), vec![1, 5]);
}

#[test]
fn files_of_no_metrics() {
    assert!(FileSourceMetrics::new(vec![]).files().is_empty());
    let untagged = FileSourceMetrics::new(vec![metric("m", vec![tag("host", "x")], 1)]);
    assert!(untagged.files().is_empty());
}

#[test]
fn files_totals() {
    let all = FileSourceMetrics::new(recorded());
    assert_eq!(readings(&all.processed_events_total()), vec![1, 3, 4]);
    assert_eq!(readings(&all.processed_bytes_total()), vec![2, 6]);
    let files = all.files();
    assert_eq!(readings(&files[0].processed_events_total()), vec![4]);
    assert_eq!(readings(&files[0].processed_bytes_total()), vec![2]);
    assert_eq!(readings(&files[1].processed_events_total()), vec![1]);
    assert!(files[1].processed_bytes_total().is_empty());
}

#[test]
fn file_from_tuple() {
    let metrics = recorded();
    let file = FileSourceMetricFile::from_tuple(("x.log".to_string(), vec![&metrics[0], &metrics[2]]));
    assert_eq!(file.name(), "x.log");
    assert_eq!(readings(file.metrics()), vec![1, 3]);
    assert_eq!(readings(&file.processed_events_total()), vec![1, 3]);
}

#[test]
fn selecting_metrics() {
    let metrics = recorded();
    assert_eq!(readings(&select_named(&metrics, "other")), vec![5]);
    assert!(select_named(&metrics, "none").is_empty());
    assert_eq!(readings(&select_tagged(&metrics, "file", "b.log")), vec![1, 5]);
    assert_eq!(readings(&select_tagged(&metrics, "host", "x")), vec![2]);
    assert!(select_tagged(&metrics, "host", "y").is_empty());
}

#[test]
fn names_are_kept_ascending() {
    let tagged: Vec<Metric> = ["m", "a", "z", "m", "b", "a"]
        .iter()
        .map(|name| metric("n", vec![tag("file", name)], 0))
        .collect();
    assert_eq!(file_names(&tagged), vec!["a", "b", "m", "z"]);
    assert_eq!(file_names(&recorded()), vec!["a.log", "b.log"]);
}

fn prepare(cardinality: usize) -> Registry {
    let mut registry = Registry::new();
    for idx in 0..cardinality {
        registry.counter("test", vec![tag("idx", &format!("{}", idx))], 1);
    }
    registry
}

fn check_cardinality(cardinality: usize) {
    let registry = prepare(cardinality);
    let snapshot = registry.snapshot();
    assert_eq!(snapshot.size_hint().0, cardinality);
    assert_eq!(snapshot.size_hint().1.unwrap(), cardinality);
    assert_eq!(snapshot.len(), cardinality);
    assert_eq!(registry.cardinality(), cardinality);
}

#[test]
fn cardinality_0() {
    check_cardinality(0);
}

#[test]
fn cardinality_1() {
    check_cardinality(1);
}

#[test]
fn cardinality_10() {
    check_cardinality(10);
}

#[test]
fn cardinality_100() {
    check_cardinality(100);
}

#[test]
fn cardinality_1000() {
    check_cardinality(1000);
}

#[test]
fn cardinality_10000() {
    check_cardinality(10000);
}

#[test]
fn counters_add_up_under_one_key() {
    let mut registry = Registry::new();
    registry.counter("test", vec![tag("idx", "0")], 1);
    registry.counter("test", vec![tag("idx", "1")], 1);
    registry.counter("test", vec![tag("idx", "0")], 41);
    registry.counter("other", vec![tag("idx", "0")], 7);
    registry.counter("test", vec![], u64::MAX);
    registry.counter("test", vec![], 2);
    let snapshot = registry.snapshot();
    assert_eq!(snapshot.size_hint(), (4, Some(4)));
    assert_eq!(
        snapshot.get(0),
        Some(&Counter { name: "test".to_string(), labels: vec![tag("idx", "0")], total: 42 })
    );
    assert_eq!(snapshot.get(1).unwrap().total, 1);
    assert_eq!(snapshot.get(2).unwrap().name, "other");
    assert_eq!(snapshot.get(3).unwrap().total, 1);
    assert_eq!(snapshot.get(4), None);
    assert_eq!(snapshot.get(0).unwrap().duplicate(), *snapshot.get(0).unwrap());

    registry.counter("test", vec![tag("idx", "9")], 1);
    assert_eq!(snapshot.len(), 4);
    assert_eq!(registry.cardinality(), 5);
    registry.reset();
    assert_eq!(registry.snapshot().size_hint(), (0, Some(0)));
}
