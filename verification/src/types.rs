//! The records of the runner: what is measured, what a measurement holds,
//! and what is kept and compared.

use crate::exceptions::IOError;
use crate::exceptions::IOErrorView;
use crate::exceptions::RunnerError;
use crate::exceptions::RunnerErrorView;
use crate::reading::Reading;
use crate::text::contains;
use crate::text::lemma_split_head;
use crate::text::lemma_split_whole;
use crate::text::occurs_at;
use crate::text::result_view;
use crate::text::same_text;
use crate::text::split;
use crate::text::split_on;
use crate::text::views;
use crate::version::Version;
use std::cmp::Ordering;
use vstd::prelude::*;
use vstd::std_specs::cmp::PartialOrdSpecImpl;

verus! {

/// The separator between a metric's name and its project, as characters.
pub open spec fn sep_spec() -> Seq<char> {
    seq!['_', '_', '_']
}

/// One measured operation of one project.
#[derive(Debug, Clone, PartialEq, Eq, Hash)]
pub struct Metric {
    pub name: String,
    pub project_name: String,
}

/// A metric as two texts.
pub struct MetricView {
    pub name: Seq<char>,
    pub project_name: Seq<char>,
}

impl View for Metric {
    type V = MetricView;

    open spec fn view(&self) -> MetricView {
        MetricView { name: self.name@, project_name: self.project_name@ }
    }
}

impl MetricView {
    /// The canonical text of the metric: name, separator, project.
    pub open spec fn encoded(self) -> Seq<char> {
        self.name + sep_spec() + self.project_name
    }

    /// The name of the file that holds the metric's data.
    pub open spec fn filename(self) -> Seq<char> {
        self.encoded() + seq!['.', 'j', 's', 'o', 'n']
    }

    /// The metric that a canonical text stands for: the text must fall into
    /// exactly two pieces at the separator.
    pub open spec fn decode(s: Seq<char>) -> Option<MetricView> {
        let pieces = split(s, sep_spec());
        if pieces.len() == 2 {
            Some(MetricView { name: pieces[0], project_name: pieces[1] })
        } else {
            None
        }
    }

    /// Reading a canonical text: the metric it stands for, or the failure
    /// that carries the text.
    pub open spec fn parse(s: Seq<char>) -> Result<MetricView, RunnerErrorView> {
        match MetricView::decode(s) {
            Some(m) => Ok(m),
            None => Err(RunnerErrorView::MetricParseFail(s)),
        }
    }
}

impl Metric {
    /// The separator between a metric's name and its project.
    pub fn sep() -> (r: &'static str)
        ensures
            r@ == sep_spec(),
    {
        proof {
            reveal_strlit("___");
        }
        let r = "___";
        assert(r@ =~= sep_spec());
        r
    }

    /// The name of the file that holds the metric's data:
    /// `<name>___<project>.json`.
    pub fn filename(&self) -> (r: String)
        ensures
            r@ == self@.filename(),
    {
        let mut out = self.name.clone();
        out.append(Metric::sep());
        out.append(self.project_name.as_str());
        proof {
            reveal_strlit(".json");
            assert(".json"@ =~= seq!['.', 'j', 's', 'o', 'n']);
        }
        out.append(".json");
        out
    }

    /// Reads a metric from its canonical text `<name>___<project>`.
    pub fn from_str(s: &str) -> (r: Result<Metric, RunnerError>)
        ensures
            result_view(r) == MetricView::parse(s@),
    {
        let mut pieces = split_on(s, Metric::sep());
        assert(views(pieces@).len() == pieces@.len());
        if pieces.len() == 2 {
            let ghost all = views(pieces@);
            assert(all[0] == pieces@[0]@);
            assert(all[1] == pieces@[1]@);
            let project_name = pieces.pop().unwrap();
            let name = pieces.pop().unwrap();
            Ok(Metric { name, project_name })
        } else {
            Err(RunnerError::MetricParseFail(s.to_owned()))
        }
    }

    /// A copy of the metric.
    pub fn duplicate(&self) -> (r: Metric)
        ensures
            r@ == self@,
    {
        Metric { name: self.name.clone(), project_name: self.project_name.clone() }
    }

    /// Are the two metrics the same: both fields equal?
    pub fn same(&self, other: &Metric) -> (r: bool)
        ensures
            r == (self@ == other@),
    {
        self.name == other.name && self.project_name == other.project_name
    }
}

/// Decoding the canonical text of a metric gives the metric back, provided
/// that the separator stands in neither field and the name does not end in
/// an underscore (which would run into the separator).
pub proof fn lemma_metric_round_trip(m: MetricView)
    requires
        !contains(m.name, sep_spec()),
        !contains(m.project_name, sep_spec()),
        m.name.len() == 0 || m.name.last() != '_',
    ensures
        MetricView::decode(m.encoded()) == Some(m),
{
    let sep = sep_spec();
    let s = m.name + sep + m.project_name;
    assert forall|j: int| 0 <= j < m.name.len() implies !occurs_at(s, sep, j) by {
        if occurs_at(s, sep, j) {
            let found = s.subrange(j, j + 3);
            if j + 3 <= m.name.len() {
                assert(m.name.subrange(j, j + 3) =~= found);
                assert(occurs_at(m.name, sep, j));
            } else {
                let k = m.name.len() - 1 - j;
                assert(found[k] == s[m.name.len() - 1]);
                assert(s[m.name.len() - 1] == m.name.last());
                assert(sep[k] == '_');
            }
        }
    }
    lemma_split_head(m.name, sep, m.project_name);
    lemma_split_whole(m.project_name, sep);
    assert(split(s, sep) =~= seq![m.name, m.project_name]);
}

/// No two metrics share a file: metrics with the same file name are the
/// same metric, provided that both are such as decode from their canonical
/// text.
pub proof fn lemma_one_file_per_metric(a: MetricView, b: MetricView)
    requires
        !contains(a.name, sep_spec()),
        !contains(a.project_name, sep_spec()),
        a.name.len() == 0 || a.name.last() != '_',
        !contains(b.name, sep_spec()),
        !contains(b.project_name, sep_spec()),
        b.name.len() == 0 || b.name.last() != '_',
        a.filename() == b.filename(),
    ensures
        a == b,
{
    let suffix = seq!['.', 'j', 's', 'o', 'n'];
    assert(a.filename().subrange(0, a.encoded().len() as int) =~= a.encoded());
    assert(b.filename().subrange(0, b.encoded().len() as int) =~= b.encoded());
    assert(a.filename().len() == a.encoded().len() + suffix.len());
    assert(b.filename().len() == b.encoded().len() + suffix.len());
    lemma_metric_round_trip(a);
    lemma_metric_round_trip(b);
}

/// A command to be timed by the benchmarking tool: its name, the command
/// that prepares each run, and the command that is measured.
#[derive(Debug, Clone)]
pub struct HyperfineCmd<'a> {
    pub name: &'a str,
    pub prepare: &'a str,
    pub cmd: &'a str,
}

/// A command to be timed, as plain text.
pub struct CmdView {
    pub name: Seq<char>,
    pub prepare: Seq<char>,
    pub cmd: Seq<char>,
}

impl<'a> View for HyperfineCmd<'a> {
    type V = CmdView;

    open spec fn view(&self) -> CmdView {
        CmdView { name: self.name@, prepare: self.prepare@, cmd: self.cmd@ }
    }
}

/// The commands that are timed where the caller names no others: the
/// parsing of a project.
pub fn default_metrics() -> (r: Vec<HyperfineCmd<'static>>)
    ensures
        r@.len() == 1,
        r@[0].name@ == "parse"@,
        r@[0].prepare@ == "dbt clean"@,
        r@[0].cmd@ == "dbt parse --no-version-check"@,
{
    let mut metrics: Vec<HyperfineCmd<'static>> = Vec::new();
    metrics.push(
        HyperfineCmd { name: "parse", prepare: "dbt clean", cmd: "dbt parse --no-version-check" },
    );
    metrics
}

/// A point in time: seconds since the Unix epoch, and the nanoseconds
/// within that second.
#[derive(Debug, Copy, Clone, PartialEq, Eq, Structural, Hash)]
pub struct Timestamp {
    pub secs: i64,
    pub nanos: u32,
}

/// The summary that the benchmarking tool gives of the runs of one command.
#[derive(Debug, Clone, PartialEq)]
pub struct Measurement {
    pub command: String,
    pub mean: Reading,
    pub stddev: Reading,
    pub median: Reading,
    pub user: Reading,
    pub system: Reading,
    pub min: Reading,
    pub max: Reading,
    pub times: Vec<Reading>,
}

/// A measurement as plain values.
pub struct MeasurementView {
    pub command: Seq<char>,
    pub mean: Reading,
    pub stddev: Reading,
    pub median: Reading,
    pub user: Reading,
    pub system: Reading,
    pub min: Reading,
    pub max: Reading,
    pub times: Seq<Reading>,
}

impl View for Measurement {
    type V = MeasurementView;

    open spec fn view(&self) -> MeasurementView {
        MeasurementView {
            command: self.command@,
            mean: self.mean,
            stddev: self.stddev,
            median: self.median,
            user: self.user,
            system: self.system,
            min: self.min,
            max: self.max,
            times: self.times@,
        }
    }
}

impl Measurement {
    /// A copy of the measurement.
    pub fn duplicate(&self) -> (r: Measurement)
        ensures
            r@ == self@,
    {
        let mut times: Vec<Reading> = Vec::new();
        let mut i: usize = 0;
        while i < self.times.len()
            invariant
                i <= self.times@.len(),
                times@ == self.times@.subrange(0, i as int),
            decreases self.times@.len() - i,
        {
            times.push(self.times[i]);
            assert(times@ =~= self.times@.subrange(0, i + 1));
            i += 1;
        }
        assert(times@ =~= self.times@);
        Measurement {
            command: self.command.clone(),
            mean: self.mean,
            stddev: self.stddev,
            median: self.median,
            user: self.user,
            system: self.system,
            min: self.min,
            max: self.max,
            times,
        }
    }
}

/// The whole output of the benchmarking tool: one measurement per command.
#[derive(Debug, Clone, PartialEq)]
pub struct Measurements {
    pub results: Vec<Measurement>,
}

impl View for Measurements {
    type V = Seq<MeasurementView>;

    open spec fn view(&self) -> Seq<MeasurementView> {
        self.results@.map_values(|m: Measurement| m@)
    }
}

/// Text that may be absent, as plain values.
pub open spec fn text_view(t: Option<String>) -> Option<Seq<char>> {
    match t {
        Some(s) => Some(s@),
        None => None,
    }
}

/// A path to a file, with the two parts of its file name that are read:
/// the stem (the file name up to its last dot) and the extension (what
/// follows that dot). Either is absent where the path has none.
#[derive(Debug, Clone, PartialEq, Eq)]
pub struct FilePath {
    pub path: String,
    pub stem: Option<String>,
    pub extension: Option<String>,
}

/// A path and the parts of its file name, as plain text.
pub struct FilePathView {
    pub path: Seq<char>,
    pub stem: Option<Seq<char>>,
    pub extension: Option<Seq<char>>,
}

impl View for FilePath {
    type V = FilePathView;

    open spec fn view(&self) -> FilePathView {
        FilePathView {
            path: self.path@,
            stem: text_view(self.stem),
            extension: text_view(self.extension),
        }
    }
}

impl FilePathView {
    /// The file has an extension, and it is `wanted`.
    pub open spec fn has_extension(self, wanted: Seq<char>) -> bool {
        self.extension == Some(wanted)
    }
}

/// A copy of a text that may be absent.
pub fn duplicate_text(t: &Option<String>) -> (r: Option<String>)
    ensures
        text_view(r) == text_view(*t),
{
    match t {
        Some(s) => Some(s.clone()),
        None => None,
    }
}

impl FilePath {
    /// Is `wanted` the file's extension? A file without an extension has
    /// none, not even the empty one.
    pub fn has_extension(&self, wanted: &str) -> (r: bool)
        ensures
            r == self@.has_extension(wanted@),
    {
        match &self.extension {
            Some(extension) => same_text(extension.as_str(), wanted),
            None => false,
        }
    }

    /// A copy of the path.
    pub fn duplicate(&self) -> (r: FilePath)
        ensures
            r@ == self@,
    {
        FilePath {
            path: self.path.clone(),
            stem: duplicate_text(&self.stem),
            extension: duplicate_text(&self.extension),
        }
    }
}

/// The model of one metric at one version: what later samples are held
/// against.
#[derive(Debug, Clone, PartialEq)]
pub struct Baseline {
    pub version: Version,
    pub metric: Metric,
    pub ts: Timestamp,
    pub measurement: Measurement,
}

/// A baseline as plain values.
pub struct BaselineView {
    pub version: Version,
    pub metric: MetricView,
    pub ts: Timestamp,
    pub measurement: MeasurementView,
}

impl View for Baseline {
    type V = BaselineView;

    open spec fn view(&self) -> BaselineView {
        BaselineView {
            version: self.version,
            metric: self.metric@,
            ts: self.ts,
            measurement: self.measurement@,
        }
    }
}

impl Baseline {
    /// Where the baseline is kept under the root of the store: the name of
    /// the directory of its version, and the name of its file in there.
    pub fn location(&self) -> (r: (String, String))
        ensures
            r.0@ == self.version.text(),
            r.1@ == self.metric@.filename(),
    {
        (self.version.to_string(), self.metric.filename())
    }

    /// A copy of the baseline.
    pub fn duplicate(&self) -> (r: Baseline)
        ensures
            r@ == self@,
    {
        Baseline {
            version: self.version,
            metric: self.metric.duplicate(),
            ts: self.ts,
            measurement: self.measurement.duplicate(),
        }
    }
}

/// Baselines are ordered by their version alone.
impl PartialOrd for Baseline {
    fn partial_cmp(&self, other: &Baseline) -> (r: Option<Ordering>) {
        Some(self.version.compare(&other.version))
    }
}

impl PartialOrdSpecImpl for Baseline {
    open spec fn obeys_partial_cmp_spec() -> bool {
        true
    }

    open spec fn partial_cmp_spec(&self, other: &Baseline) -> Option<Ordering> {
        Some(self.version.order(other.version))
    }
}

/// One fresh timing of a metric.
#[derive(Debug, Clone, PartialEq)]
pub struct Sample {
    pub metric: Metric,
    pub value: Reading,
    pub ts: Timestamp,
}

/// A sample as plain values.
pub struct SampleView {
    pub metric: MetricView,
    pub value: Reading,
    pub ts: Timestamp,
}

impl View for Sample {
    type V = SampleView;

    open spec fn view(&self) -> SampleView {
        SampleView { metric: self.metric@, value: self.value, ts: self.ts }
    }
}

impl SampleView {
    /// The sample that a measurement gives. The file stem of the path names
    /// the metric. The value is the first timing, of one or of two; any
    /// other number of timings is malformed.
    pub open spec fn from_measurement(
        path: FilePathView,
        measurement: MeasurementView,
        ts: Timestamp,
    ) -> Result<SampleView, RunnerErrorView> {
        match path.stem {
            None => Err(RunnerErrorView::RunnerIOError(IOErrorView::BadFilestemError(path.path))),
            Some(stem) => match MetricView::decode(stem) {
                None => Err(RunnerErrorView::MetricParseFail(stem)),
                Some(metric) => if measurement.times.len() == 1 || measurement.times.len() == 2 {
                    Ok(SampleView { metric, value: measurement.times[0], ts })
                } else {
                    Err(RunnerErrorView::MalformedMeasurement(path.path))
                },
            },
        }
    }
}

impl Sample {
    /// Makes the sample that a measurement gives, at the time `ts`.
    pub fn from_measurement(path: &FilePath, measurement: &Measurement, ts: Timestamp) -> (r:
        Result<Sample, RunnerError>)
        ensures
            result_view(r) == SampleView::from_measurement(path@, measurement@, ts),
    {
        let stem = match &path.stem {
            None => {
                return Err(RunnerError::RunnerIOError(IOError::BadFilestemError(path.path.clone())));
            },
            Some(stem) => stem,
        };
        let metric = match Metric::from_str(stem.as_str()) {
            Err(e) => {
                return Err(e);
            },
            Ok(metric) => metric,
        };
        let count = measurement.times.len();
        if count == 1 || count == 2 {
            Ok(Sample { metric, value: measurement.times[0], ts })
        } else {
            Err(RunnerError::MalformedMeasurement(path.path.clone()))
        }
    }

    /// A copy of the sample.
    pub fn duplicate(&self) -> (r: Sample)
        ensures
            r@ == self@,
    {
        Sample { metric: self.metric.duplicate(), value: self.value, ts: self.ts }
    }
}

/// The verdict on one metric: the baseline's model, the band above it, the
/// sample, and whether the sample lies above the band.
#[derive(Debug, Clone, PartialEq)]
pub struct Calculation {
    pub version: Version,
    pub metric: Metric,
    pub regression: bool,
    pub ts: Timestamp,
    pub sigma: Reading,
    pub mean: Reading,
    pub stddev: Reading,
    pub threshold: Reading,
    pub sample: Reading,
}

/// A verdict as plain values.
pub struct CalculationView {
    pub version: Version,
    pub metric: MetricView,
    pub regression: bool,
    pub ts: Timestamp,
    pub sigma: Reading,
    pub mean: Reading,
    pub stddev: Reading,
    pub threshold: Reading,
    pub sample: Reading,
}

impl View for Calculation {
    type V = CalculationView;

    open spec fn view(&self) -> CalculationView {
        CalculationView {
            version: self.version,
            metric: self.metric@,
            regression: self.regression,
            ts: self.ts,
            sigma: self.sigma,
            mean: self.mean,
            stddev: self.stddev,
            threshold: self.threshold,
            sample: self.sample,
        }
    }
}

} // verus!
