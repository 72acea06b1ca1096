use runner::exceptions::IOError;
use runner::exceptions::RunnerError;
use runner::reading::Reading;
use runner::types::default_metrics;
use runner::types::Baseline;
use runner::types::FilePath;
use runner::types::Measurement;
use runner::types::Metric;
use runner::types::Sample;
use runner::types::Timestamp;
use runner::version::Version;
use std::cmp::Ordering;

fn reading(x: f64) -> Reading {
    Reading::from_bits(x.to_bits())
}

fn metric_of(name: &str, project: &str) -> Metric {
    Metric { name: name.to_owned(), project_name: project.to_owned() }
}

fn measurement_with(times: Vec<f64>) -> Measurement {
    Measurement {
        command: "dbt parse".to_owned(),
        mean: reading(1.5),
        stddev: reading(0.5),
        median: reading(1.5),
        user: reading(1.0),
        system: reading(0.25),
        min: reading(1.0),
        max: reading(2.0),
        times: times.into_iter().map(reading).collect(),
    }
}

fn path_of(path: &str, stem: Option<&str>, extension: Option<&str>) -> FilePath {
    FilePath {
        path: path.to_owned(),
        stem: stem.map(|s| s.to_owned()),
        extension: extension.map(|s| s.to_owned()),
    }
}

fn stamp() -> Timestamp {
    Timestamp { secs: 1_650_000_000, nanos: 500 }
}

#[test]
fn separator_is_three_underscores() {
    assert_eq!(Metric::sep(), "___");
}

#[test]
fn filename_joins_name_and_project() {
    assert_eq!(metric_of("parse", "2000_models").filename(), "parse___2000_models.json");
    assert_eq!(metric_of("", "").filename(), "___.json");
}

#[test]
fn metric_reads_its_canonical_text() {
    assert_eq!(Metric::from_str("parse___2000_models").unwrap(), metric_of("parse", "2000_models"));
    assert_eq!(Metric::from_str("___").unwrap(), metric_of("", ""));
    assert_eq!(Metric::from_str("a____b").unwrap(), metric_of("a", "_b"));
    assert_eq!(Metric::from_str("a_b___c_d").unwrap(), metric_of("a_b", "c_d"));
}

fn no_metric(text: &str) {
    match Metric::from_str(text) {
        Err(RunnerError::MetricParseFail(raw)) => assert_eq!(raw, text),
        other => panic!("expected a metric parse failure for {:?}, got {:?}", text, other),
    }
}

#[test]
fn metric_rejects_what_is_not_two_pieces() {
    no_metric("");
    no_metric("parse");
    no_metric("parse__proj");
    no_metric("a___b___c");
    no_metric("a______b");
    no_metric("______");
}

#[test]
fn metric_round_trips_through_its_canonical_text() {
    let metrics = [
        metric_of("parse", "2000_models"),
        metric_of("", ""),
        metric_of("a", "_b"),
        metric_of("a", "__b"),
        metric_of("a_b", "c__d_"),
        metric_of("run test", "proj.v2"),
    ];
    for metric in metrics {
        let filename = metric.filename();
        let canonical = filename.strip_suffix(".json").unwrap();
        assert_eq!(Metric::from_str(canonical).unwrap(), metric);
    }
}

#[test]
fn metric_whose_name_ends_in_an_underscore_does_not_round_trip() {
    let metric = metric_of("a_", "b");
    let filename = metric.filename();
    let canonical = filename.strip_suffix(".json").unwrap();
    assert_eq!(Metric::from_str(canonical).unwrap(), metric_of("a", "_b"));
}

#[test]
fn metric_agrees_with_the_split_of_the_standard_library() {
    let texts = [
        "", "_", "__", "___", "____", "_____", "______", "_______", "a___b", "a____b",
        "a_____b", "a______b", "___a", "a___", "a___b___", "ab", "a_b__c___d", "é___ü",
    ];
    for text in texts {
        let pieces: Vec<&str> = text.split("___").collect();
        match Metric::from_str(text) {
            Ok(metric) => {
                assert_eq!(pieces.len(), 2, "reading {:?}", text);
                assert_eq!(metric.name, pieces[0]);
                assert_eq!(metric.project_name, pieces[1]);
            }
            Err(_) => assert_ne!(pieces.len(), 2, "reading {:?}", text),
        }
    }
}

#[test]
fn same_metric_means_both_fields_equal() {
    assert!(metric_of("a", "b").same(&metric_of("a", "b")));
    assert!(!metric_of("a", "b").same(&metric_of("a", "c")));
    assert!(!metric_of("a", "b").same(&metric_of("c", "b")));
    assert_eq!(metric_of("a", "b").duplicate(), metric_of("a", "b"));
}

#[test]
fn sample_of_one_timing_is_that_timing() {
    let path = path_of("/tmp/out/parse___proj.json", Some("parse___proj"), Some("json"));
    let sample = Sample::from_measurement(&path, &measurement_with(vec![1.25]), stamp()).unwrap();
    assert_eq!(sample.metric, metric_of("parse", "proj"));
    assert_eq!(sample.value.to_bits(), 1.25f64.to_bits());
    assert_eq!(sample.ts, stamp());
}

#[test]
fn sample_of_two_timings_is_the_first() {
    let path = path_of("/tmp/out/parse___proj.json", Some("parse___proj"), Some("json"));
    let sample =
        Sample::from_measurement(&path, &measurement_with(vec![1.25, 7.5]), stamp()).unwrap();
    assert_eq!(sample.value.to_bits(), 1.25f64.to_bits());
}

#[test]
fn sample_of_no_timing_or_of_three_is_malformed() {
    let path = path_of("/tmp/out/parse___proj.json", Some("parse___proj"), Some("json"));
    for times in [vec![], vec![1.0, 2.0, 3.0], vec![1.0, 2.0, 3.0, 4.0]] {
        match Sample::from_measurement(&path, &measurement_with(times), stamp()) {
            Err(RunnerError::MalformedMeasurement(at)) => {
                assert_eq!(at, "/tmp/out/parse___proj.json")
            }
            other => panic!("expected a malformed measurement, got {:?}", other),
        }
    }
}

#[test]
fn sample_needs_a_file_stem() {
    let path = path_of("/tmp/out/..", None, None);
    match Sample::from_measurement(&path, &measurement_with(vec![1.0]), stamp()) {
        Err(RunnerError::RunnerIOError(IOError::BadFilestemError(at))) => {
            assert_eq!(at, "/tmp/out/..")
        }
        other => panic!("expected a bad file stem, got {:?}", other),
    }
}

#[test]
fn sample_needs_a_stem_that_names_a_metric() {
    let path = path_of("/tmp/out/notes.json", Some("notes"), Some("json"));
    match Sample::from_measurement(&path, &measurement_with(vec![]), stamp()) {
        Err(RunnerError::MetricParseFail(raw)) => assert_eq!(raw, "notes"),
        other => panic!("expected a metric parse failure, got {:?}", other),
    }
}

#[test]
fn extension_is_matched_as_a_whole() {
    assert!(path_of("a.json", Some("a"), Some("json")).has_extension("json"));
    assert!(path_of("a.", Some("a"), Some("")).has_extension(""));
    assert!(!path_of("a.xjson", Some("a"), Some("xjson")).has_extension("json"));
    assert!(!path_of("a.geojson", Some("a"), Some("geojson")).has_extension("json"));
    assert!(!path_of("a.json", Some("a"), Some("json")).has_extension(""));
    assert!(!path_of("a.jso", Some("a"), Some("jso")).has_extension("json"));
    assert!(!path_of("a.jsonl", Some("a"), Some("jsonl")).has_extension("json"));
    assert!(!path_of("a.JSON", Some("a"), Some("JSON")).has_extension("json"));
    assert!(!path_of("json", Some("json"), None).has_extension("json"));
    assert!(!path_of("json", Some("json"), None).has_extension(""));
}

#[test]
fn baselines_are_ordered_by_version_alone() {
    let older = Baseline {
        version: Version::new(1, 0, 9),
        metric: metric_of("z", "z"),
        ts: stamp(),
        measurement: measurement_with(vec![9.0]),
    };
    let newer = Baseline {
        version: Version::new(1, 1, 0),
        metric: metric_of("a", "a"),
        ts: Timestamp { secs: 0, nanos: 0 },
        measurement: measurement_with(vec![]),
    };
    let twin = Baseline { metric: metric_of("other", "other"), ..older.duplicate() };
    assert_eq!(older.partial_cmp(&newer), Some(Ordering::Less));
    assert_eq!(newer.partial_cmp(&older), Some(Ordering::Greater));
    assert_eq!(older.partial_cmp(&twin), Some(Ordering::Equal));
    assert!(older < newer);
}

#[test]
fn baseline_is_kept_under_its_version_and_metric() {
    let baseline = Baseline {
        version: Version::new(1, 0, 0),
        metric: metric_of("parse", "2000_models"),
        ts: stamp(),
        measurement: measurement_with(vec![1.0]),
    };
    let (directory, file) = baseline.location();
    assert_eq!(directory, "1.0.0");
    assert_eq!(file, "parse___2000_models.json");
}

#[test]
fn copies_are_equal_to_what_they_copy() {
    let measurement = measurement_with(vec![1.0, 2.0]);
    assert_eq!(measurement.duplicate(), measurement);
    let path = path_of("/a/b.json", Some("b"), Some("json"));
    assert_eq!(path.duplicate(), path);
    let sample = Sample { metric: metric_of("a", "b"), value: reading(1.0), ts: stamp() };
    assert_eq!(sample.duplicate(), sample);
}

#[test]
fn parsing_is_timed_by_default() {
    let metrics = default_metrics();
    assert_eq!(metrics.len(), 1);
    assert_eq!(metrics[0].name, "parse");
    assert_eq!(metrics[0].prepare, "dbt clean");
    assert_eq!(metrics[0].cmd, "dbt parse --no-version-check");
}
