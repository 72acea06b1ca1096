use chrono::Utc;
use runner::calculate::calculate_regression;
use runner::calculate::exit_code;
use runner::calculate::regressed;
use runner::calculate::regressions;
use runner::calculate::sigma;
use runner::calculate::Band;
use runner::exceptions::RunnerError;
use runner::reading::Reading;
use runner::types::Baseline;
use runner::types::Calculation;
use runner::types::Measurement;
use runner::types::Metric;
use runner::types::Sample;
use runner::types::Timestamp;
use runner::version::Version;

fn reading(x: f64) -> Reading {
    Reading::from_bits(x.to_bits())
}

fn now() -> Timestamp {
    let t = Utc::now();
    Timestamp { secs: t.timestamp(), nanos: t.timestamp_subsec_nanos() }
}

fn baseline_of(metric: &Metric, mean: f64, stddev: f64) -> Baseline {
    Baseline {
        version: Version::new(9, 9, 9),
        metric: metric.clone(),
        ts: now(),
        measurement: Measurement {
            command: "some command".to_owned(),
            mean: reading(mean),
            stddev: reading(stddev),
            median: reading(1.00),
            user: reading(1.00),
            system: reading(1.00),
            min: reading(0.00),
            max: reading(2.00),
            times: vec![],
        },
    }
}

fn threshold_of(baseline: &Baseline, sigma: f64) -> Reading {
    let mean = f64::from_bits(baseline.measurement.mean.to_bits());
    let stddev = f64::from_bits(baseline.measurement.stddev.to_bits());
    reading(mean + sigma * stddev)
}

fn metric_of(name: &str, project: &str) -> Metric {
    Metric { name: name.to_owned(), project_name: project.to_owned() }
}

#[test]
fn detects_3sigma_regression() {
    let metric = Metric { name: "test".to_owned(), project_name: "detects 3 sigma".to_owned() };

    let baseline = baseline_of(&metric, 1.00, 0.1);

    let sample = Sample { metric: metric, value: reading(1.31), ts: now() };

    let calculation = calculate_regression(
        &sample,
        &baseline,
        reading(3.0), // 3 sigma
        threshold_of(&baseline, 3.0),
    );

    // expect a regression for the mean being outside the 3 sigma
    println!("{:#?}", calculation);
    assert!(calculation.regression);
}

#[test]
fn passes_near_3sigma() {
    let metric =
        Metric { name: "test".to_owned(), project_name: "passes near 3 sigma".to_owned() };

    let baseline = baseline_of(&metric, 1.00, 0.1);

    let sample = Sample { metric: metric, value: reading(1.29), ts: now() };

    let calculation = calculate_regression(
        &sample,
        &baseline,
        reading(3.0), // 3 sigma
        threshold_of(&baseline, 3.0),
    );

    // expect no regressions
    println!("{:#?}", calculation);
    assert!(!calculation.regression);
}

// The text of a version goes into JSON as a string and comes back the same.
#[test]
fn version_serialize_loop() {
    let v = Version { major: 1, minor: 2, patch: 3 };
    let text = serde_json::to_string_pretty(&v.to_string()).unwrap();
    assert_eq!(text, "\"1.2.3\"");
    let back = serde_json::from_str::<String>(&text).unwrap();
    let v2 = Version::from_str(&back);
    assert_eq!(v, v2.unwrap());
}

#[test]
fn sample_exactly_at_threshold_is_no_regression() {
    let metric = metric_of("test", "at the edge");
    let baseline = baseline_of(&metric, 1.00, 0.1);
    let threshold = threshold_of(&baseline, 3.0);
    assert_eq!(threshold.to_bits(), 1.30f64.to_bits());
    let sample = Sample { metric: metric, value: reading(1.30), ts: now() };
    let calculation = calculate_regression(&sample, &baseline, reading(3.0), threshold);
    assert!(!calculation.regression);
}

#[test]
fn calculation_carries_the_model_and_the_sample() {
    let metric = metric_of("parse", "proj");
    let baseline = baseline_of(&metric, 2.5, 0.25);
    let stamp = Timestamp { secs: 1_600_000_000, nanos: 42 };
    let sample = Sample { metric: metric_of("other", "x"), value: reading(4.0), ts: stamp };
    let c = calculate_regression(&sample, &baseline, reading(3.0), reading(3.25));
    assert_eq!(c.version, Version::new(9, 9, 9));
    assert_eq!(c.metric, metric);
    assert_eq!(c.ts, stamp);
    assert_eq!(c.sigma.to_bits(), 3.0f64.to_bits());
    assert_eq!(c.mean.to_bits(), 2.5f64.to_bits());
    assert_eq!(c.stddev.to_bits(), 0.25f64.to_bits());
    assert_eq!(c.threshold.to_bits(), 3.25f64.to_bits());
    assert_eq!(c.sample.to_bits(), 4.0f64.to_bits());
    assert!(c.regression);
}

#[test]
fn faster_sample_is_never_a_regression() {
    let metric = metric_of("parse", "proj");
    let baseline = baseline_of(&metric, 10.0, 1.0);
    let sample = Sample { metric: metric, value: reading(0.5), ts: now() };
    let c = calculate_regression(&sample, &baseline, reading(3.0), threshold_of(&baseline, 3.0));
    assert!(!c.regression);
}

#[test]
fn nan_sample_is_no_regression() {
    let metric = metric_of("parse", "proj");
    let baseline = baseline_of(&metric, 10.0, 1.0);
    let sample = Sample { metric: metric, value: reading(f64::NAN), ts: now() };
    let c = calculate_regression(&sample, &baseline, reading(3.0), threshold_of(&baseline, 3.0));
    assert!(!c.regression);
}

#[test]
fn sigma_is_three() {
    assert_eq!(f64::from_bits(sigma().to_bits()), 3.0);
}

fn band_of(metric: &Metric, mean: f64, stddev: f64) -> Band {
    let baseline = baseline_of(metric, mean, stddev);
    let threshold = threshold_of(&baseline, 3.0);
    Band { baseline: baseline, threshold: threshold }
}

#[test]
fn regressions_gives_one_verdict_per_baseline_in_order() {
    let a = metric_of("parse", "one");
    let b = metric_of("parse", "two");
    let bands = vec![band_of(&a, 1.0, 0.1), band_of(&b, 2.0, 0.1)];
    let samples = vec![
        Sample { metric: b.clone(), value: reading(2.5), ts: now() },
        Sample { metric: a.clone(), value: reading(1.1), ts: now() },
    ];
    let calculations = regressions("/baselines/9.9.9", &bands, &samples).unwrap();
    assert_eq!(calculations.len(), 2);
    assert_eq!(calculations[0].metric, a);
    assert!(!calculations[0].regression);
    assert_eq!(calculations[0].sample.to_bits(), 1.1f64.to_bits());
    assert_eq!(calculations[0].sigma.to_bits(), 3.0f64.to_bits());
    assert_eq!(calculations[1].metric, b);
    assert!(calculations[1].regression);
    assert_eq!(calculations[1].threshold.to_bits(), (2.0f64 + 3.0 * 0.1).to_bits());
}

#[test]
fn regressions_takes_the_last_sample_of_a_metric() {
    let a = metric_of("parse", "one");
    let bands = vec![band_of(&a, 1.0, 0.1)];
    let samples = vec![
        Sample { metric: a.clone(), value: reading(9.0), ts: now() },
        Sample { metric: a.clone(), value: reading(1.0), ts: now() },
    ];
    let calculations = regressions("/baselines/9.9.9", &bands, &samples).unwrap();
    assert_eq!(calculations.len(), 1);
    assert_eq!(calculations[0].sample.to_bits(), 1.0f64.to_bits());
    assert!(!calculations[0].regression);
}

#[test]
fn regressions_fails_on_a_baseline_that_was_not_sampled() {
    let a = metric_of("parse", "one");
    let b = metric_of("parse", "two");
    let c = metric_of("parse", "three");
    let bands = vec![band_of(&a, 1.0, 0.1), band_of(&b, 2.0, 0.1), band_of(&c, 2.0, 0.1)];
    let samples = vec![Sample { metric: a.clone(), value: reading(1.0), ts: now() }];
    match regressions("/baselines/9.9.9", &bands, &samples) {
        Err(RunnerError::BaselineMetricNotSampled(metric)) => assert_eq!(metric, b),
        other => panic!("expected a metric that was not sampled, got {:?}", other),
    }
}

#[test]
fn regressions_fails_without_baselines() {
    let samples = vec![Sample { metric: metric_of("parse", "one"), value: reading(1.0), ts: now() }];
    let bands: Vec<Band> = Vec::new();
    match regressions("/baselines/9.9.9", &bands, &samples) {
        Err(RunnerError::NoVersionedBaselineData(dir)) => assert_eq!(dir, "/baselines/9.9.9"),
        other => panic!("expected no baseline data, got {:?}", other),
    }
}

fn verdict(metric: &Metric, regression: bool) -> Calculation {
    Calculation {
        version: Version::new(1, 0, 0),
        metric: metric.clone(),
        regression: regression,
        ts: now(),
        sigma: reading(3.0),
        mean: reading(1.0),
        stddev: reading(0.1),
        threshold: reading(1.3),
        sample: reading(1.0),
    }
}

#[test]
fn exit_code_is_one_exactly_when_something_regressed() {
    let a = metric_of("parse", "one");
    let b = metric_of("parse", "two");
    let none: Vec<Calculation> = Vec::new();
    assert_eq!(exit_code(&none), 0);
    assert_eq!(exit_code(&vec![verdict(&a, false), verdict(&b, false)]), 0);
    assert_eq!(exit_code(&vec![verdict(&a, false), verdict(&b, true)]), 1);
    assert_eq!(exit_code(&vec![verdict(&a, true)]), 1);
}

#[test]
fn regressed_keeps_the_regressions_in_order() {
    let a = metric_of("parse", "one");
    let b = metric_of("parse", "two");
    let c = metric_of("parse", "three");
    let all = vec![verdict(&a, true), verdict(&b, false), verdict(&c, true)];
    let found = regressed(&all);
    assert_eq!(found.len(), 2);
    assert_eq!(found[0].metric, a);
    assert_eq!(found[1].metric, c);
}
