//! The baseline store and the output of the benchmarking tool, once read:
//! which files count, what their contents give, and which version is the
//! latest. Reading and writing the files is the caller's part.

use crate::collect::gather;
use crate::collect::lemma_gather_empty;
use crate::collect::lemma_gather_next;
use crate::exceptions::IOError;
use crate::exceptions::IOErrorView;
use crate::exceptions::RunnerError;
use crate::exceptions::RunnerErrorView;
use crate::text::result_view;
use crate::text::views;
use crate::types::FilePath;
use crate::types::Baseline;
use crate::types::BaselineView;
use crate::types::FilePathView;
use crate::types::Measurements;
use crate::types::MeasurementView;
use crate::types::Metric;
use crate::types::MetricView;
use crate::types::Sample;
use crate::types::SampleView;
use crate::types::Timestamp;
use crate::version::latest;
use crate::version::Version;
use vstd::prelude::*;

verus! {

/// What a document gives: the value read from it, or the failure that
/// carries its raw text and the cause.
pub open spec fn decoded<T>(document: (String, Result<T, serde_json::Error>)) -> Result<
    T,
    RunnerErrorView,
> {
    match document.1 {
        Ok(value) => Ok(value),
        Err(cause) => Err(RunnerErrorView::BadJSONErr(document.0@, Some(cause))),
    }
}

/// The values read from the documents, in order, or the failure of the
/// first document that could not be read. Each document comes with what
/// the JSON reader made of it.
pub fn map_deserialize<T>(documents: Vec<(String, Result<T, serde_json::Error>)>) -> (r: Result<
    Vec<T>,
    RunnerError,
>)
    ensures
        match r {
            Ok(values) => gather(documents@.map_values(|d| decoded(d))) == Ok::<
                Seq<T>,
                RunnerErrorView,
            >(values@),
            Err(e) => gather(documents@.map_values(|d| decoded(d))) == Err::<
                Seq<T>,
                RunnerErrorView,
            >(e@),
        },
{
    let ghost all = documents@.map_values(|d| decoded(d));
    let mut rest = documents;
    let mut values: Vec<T> = Vec::new();
    proof {
        lemma_gather_empty(all.subrange(0, 0));
        assert(values@ =~= Seq::<T>::empty());
    }
    while rest.len() > 0
        invariant
            all == documents@.map_values(|d| decoded(d)),
            values@.len() + rest@.len() == documents@.len(),
            forall|k: int| 0 <= k < rest@.len() ==> rest@[k] == documents@[values@.len() + k],
            gather(all.subrange(0, values@.len() as int)) == Ok::<Seq<T>, RunnerErrorView>(
                values@,
            ),
        decreases rest@.len(),
    {
        let ghost done = values@.len() as int;
        let (text, outcome) = rest.remove(0);
        proof {
            lemma_gather_next(all, done);
            assert(all[done] == decoded((text, outcome)));
        }
        match outcome {
            Ok(value) => {
                values.push(value);
            },
            Err(cause) => {
                return Err(RunnerError::BadJSONErr(text, Some(cause)));
            },
        }
    }
    assert(all.subrange(0, values@.len() as int) =~= all);
    Ok(values)
}

/// The paths whose extension is `extension`, in their order: the files of
/// a directory that are to be read.
pub fn files_with_extension(paths: &Vec<FilePath>, extension: &str) -> (r: Vec<FilePath>)
    ensures
        views(r@) == views(paths@).filter(|p: FilePathView| p.has_extension(extension@)),
{
    let ghost wanted = |p: FilePathView| p.has_extension(extension@);
    let mut chosen: Vec<FilePath> = Vec::new();
    let mut i: usize = 0;
    proof {
        reveal(Seq::filter);
        assert(views(paths@).subrange(0, 0) =~= Seq::<FilePathView>::empty());
        assert(views(chosen@) =~= Seq::<FilePathView>::empty());
    }
    while i < paths.len()
        invariant
            i <= paths@.len(),
            wanted == |p: FilePathView| p.has_extension(extension@),
            views(chosen@) == views(paths@).subrange(0, i as int).filter(wanted),
        decreases paths@.len() - i,
    {
        let ghost seen = views(paths@).subrange(0, i as int);
        let ghost before = views(chosen@);
        proof {
            reveal(Seq::filter);
            let next = views(paths@).subrange(0, i + 1);
            assert(next.drop_last() =~= seen);
            assert(next.last() == paths@[i as int]@);
        }
        if paths[i].has_extension(extension) {
            chosen.push(paths[i].duplicate());
            assert(views(chosen@) =~= before.push(paths@[i as int]@));
        }
        i += 1;
    }
    assert(views(paths@).subrange(0, i as int) =~= views(paths@));
    chosen
}

/// What the attempt to read a file gives: the path with the contents, or
/// the failure that carries the path and the cause.
pub open spec fn contents_of(read: (FilePath, Result<String, std::io::Error>)) -> Result<
    (FilePathView, Seq<char>),
    IOErrorView,
> {
    match read.1 {
        Ok(contents) => Ok((read.0@, contents@)),
        Err(cause) => Err(IOErrorView::BadFileContentsErr(read.0@.path, Some(cause))),
    }
}

/// The contents of the files, each with its path, in order; or the failure
/// of the first file that could not be read. Each path comes with what the
/// attempt to read it gave.
pub fn file_contents_from(reads: Vec<(FilePath, Result<String, std::io::Error>)>) -> (r: Result<
    Vec<(FilePath, String)>,
    IOError,
>)
    ensures
        match r {
            Ok(files) => gather(reads@.map_values(|d| contents_of(d))) == Ok::<
                Seq<(FilePathView, Seq<char>)>,
                IOErrorView,
            >(views(files@)),
            Err(e) => gather(reads@.map_values(|d| contents_of(d))) == Err::<
                Seq<(FilePathView, Seq<char>)>,
                IOErrorView,
            >(e@),
        },
{
    let ghost all = reads@.map_values(|d| contents_of(d));
    let mut rest = reads;
    let mut files: Vec<(FilePath, String)> = Vec::new();
    proof {
        lemma_gather_empty(all.subrange(0, 0));
        assert(views(files@) =~= Seq::<(FilePathView, Seq<char>)>::empty());
    }
    while rest.len() > 0
        invariant
            all == reads@.map_values(|d| contents_of(d)),
            files@.len() + rest@.len() == reads@.len(),
            forall|k: int| 0 <= k < rest@.len() ==> rest@[k] == reads@[files@.len() + k],
            gather(all.subrange(0, files@.len() as int)) == Ok::<
                Seq<(FilePathView, Seq<char>)>,
                IOErrorView,
            >(views(files@)),
        decreases rest@.len(),
    {
        let ghost done = files@.len() as int;
        let ghost before = views(files@);
        let (path, outcome) = rest.remove(0);
        proof {
            lemma_gather_next(all, done);
            assert(all[done] == contents_of((path, outcome)));
        }
        match outcome {
            Ok(contents) => {
                files.push((path, contents));
                assert(views(files@) =~= before.push((path@, contents@)));
            },
            Err(cause) => {
                return Err(IOError::BadFileContentsErr(path.path, Some(cause)));
            },
        }
    }
    assert(all.subrange(0, files@.len() as int) =~= all);
    Ok(files)
}

/// What a file gives once read as a `T`: its path with the value, or the
/// failure that carries its raw text and the cause.
pub open spec fn decoded_file<T>(file: (FilePath, String, Result<T, serde_json::Error>)) -> Result<
    (FilePathView, T),
    RunnerErrorView,
> {
    match file.2 {
        Ok(value) => Ok((file.0@, value)),
        Err(cause) => Err(RunnerErrorView::BadJSONErr(file.1@, Some(cause))),
    }
}

/// The paths of a pair list, as plain values, beside the values.
pub open spec fn path_views<T>(files: Seq<(FilePath, T)>) -> Seq<(FilePathView, T)> {
    files.map_values(|f: (FilePath, T)| (f.0@, f.1))
}

/// The value read from each file, with the file's path, in order; or the
/// failure of the first file that could not be read as a `T`. Each file
/// comes with its contents and with what the JSON reader made of them.
pub fn from_json_files<T>(files: Vec<(FilePath, String, Result<T, serde_json::Error>)>) -> (r:
    Result<Vec<(FilePath, T)>, RunnerError>)
    ensures
        match r {
            Ok(values) => gather(files@.map_values(|d| decoded_file(d))) == Ok::<
                Seq<(FilePathView, T)>,
                RunnerErrorView,
            >(path_views(values@)),
            Err(e) => gather(files@.map_values(|d| decoded_file(d))) == Err::<
                Seq<(FilePathView, T)>,
                RunnerErrorView,
            >(e@),
        },
{
    let ghost all = files@.map_values(|d| decoded_file(d));
    let mut rest = files;
    let mut values: Vec<(FilePath, T)> = Vec::new();
    proof {
        lemma_gather_empty(all.subrange(0, 0));
        assert(path_views(values@) =~= Seq::<(FilePathView, T)>::empty());
    }
    while rest.len() > 0
        invariant
            all == files@.map_values(|d| decoded_file(d)),
            values@.len() + rest@.len() == files@.len(),
            forall|k: int| 0 <= k < rest@.len() ==> rest@[k] == files@[values@.len() + k],
            gather(all.subrange(0, values@.len() as int)) == Ok::<
                Seq<(FilePathView, T)>,
                RunnerErrorView,
            >(path_views(values@)),
        decreases rest@.len(),
    {
        let ghost done = values@.len() as int;
        let ghost before = path_views(values@);
        let (path, text, outcome) = rest.remove(0);
        proof {
            lemma_gather_next(all, done);
            assert(all[done] == decoded_file((path, text, outcome)));
        }
        match outcome {
            Ok(value) => {
                values.push((path, value));
                assert(path_views(values@) =~= before.push((path@, value)));
            },
            Err(cause) => {
                return Err(RunnerError::BadJSONErr(text, Some(cause)));
            },
        }
    }
    assert(all.subrange(0, values@.len() as int) =~= all);
    Ok(values)
}

/// The versions that the names write, or the failure of the first name
/// that writes none.
pub open spec fn parsed_names(names: Seq<String>) -> Result<Seq<Version>, RunnerErrorView> {
    gather(names.map_values(|name: String| Version::parse(name@)))
}

/// The latest of the versions that the directories under `dir` are named
/// for. This is the version that samples are held against.
///
/// A name that is no version is a failure that carries the name, the first
/// such in order. No names at all is a failure that carries `dir`.
pub fn latest_version_from(dir: &str, names: &Vec<String>) -> (r: Result<Version, RunnerError>)
    ensures
        match r {
            Ok(v) => {
                &&& parsed_names(names@) matches Ok(versions)
                &&& versions.contains(v)
                &&& forall|i: int| 0 <= i < versions.len() ==> (#[trigger] versions[i]).at_most(v)
            },
            Err(e) => match parsed_names(names@) {
                Ok(versions) => versions.len() == 0 && e@
                    == RunnerErrorView::NoVersionedBaselineData(dir@),
                Err(failure) => e@ == failure,
            },
        },
{
    let ghost all = names@.map_values(|name: String| Version::parse(name@));
    let mut versions: Vec<Version> = Vec::new();
    let mut i: usize = 0;
    proof {
        lemma_gather_empty(all.subrange(0, 0));
        assert(versions@ =~= Seq::<Version>::empty());
    }
    while i < names.len()
        invariant
            i <= names@.len(),
            all == names@.map_values(|name: String| Version::parse(name@)),
            gather(all.subrange(0, i as int)) == Ok::<Seq<Version>, RunnerErrorView>(versions@),
        decreases names@.len() - i,
    {
        proof {
            lemma_gather_next(all, i as int);
        }
        match Version::from_str(names[i].as_str()) {
            Ok(v) => {
                versions.push(v);
            },
            Err(e) => {
                return Err(e);
            },
        }
        i += 1;
    }
    assert(all.subrange(0, i as int) =~= all);
    match latest(&versions) {
        Some(v) => Ok(v),
        None => Err(RunnerError::NoVersionedBaselineData(dir.to_owned())),
    }
}

impl BaselineView {
    /// The baseline that the output of the benchmarking tool gives for a
    /// version. The file stem of the path names the metric, and the first
    /// result is the measurement of record; an output without a result is
    /// malformed.
    pub open spec fn from_measurement(
        version: Version,
        path: FilePathView,
        results: Seq<MeasurementView>,
        ts: Timestamp,
    ) -> Result<BaselineView, RunnerErrorView> {
        match path.stem {
            None => Err(RunnerErrorView::RunnerIOError(IOErrorView::BadFilestemError(path.path))),
            Some(stem) => match MetricView::decode(stem) {
                None => Err(RunnerErrorView::MetricParseFail(stem)),
                Some(metric) => if results.len() == 0 {
                    Err(RunnerErrorView::MalformedMeasurement(path.path))
                } else {
                    Ok(BaselineView { version, metric, ts, measurement: results[0] })
                },
            },
        }
    }
}

/// Makes the baseline that one output of the benchmarking tool gives for
/// `version`, at the time `ts`.
pub fn from_measurement(
    version: Version,
    path: &FilePath,
    measurements: &Measurements,
    ts: Timestamp,
) -> (r: Result<Baseline, RunnerError>)
    ensures
        result_view(r) == BaselineView::from_measurement(version, path@, measurements@, ts),
{
    let stem = match &path.stem {
        None => {
            return Err(RunnerError::RunnerIOError(IOError::BadFilestemError(path.path.clone())));
        },
        Some(stem) => stem,
    };
    let metric = match Metric::from_str(stem.as_str()) {
        Err(e) => {
            return Err(e);
        },
        Ok(metric) => metric,
    };
    if measurements.results.len() == 0 {
        Err(RunnerError::MalformedMeasurement(path.path.clone()))
    } else {
        assert(measurements@[0] == measurements.results@[0]@);
        Ok(Baseline { version, metric, ts, measurement: measurements.results[0].duplicate() })
    }
}

/// The sample that one output of the benchmarking tool gives: that of its
/// first result. An output without a result is malformed.
pub open spec fn sample_of(output: (FilePathView, Seq<MeasurementView>), ts: Timestamp) -> Result<
    SampleView,
    RunnerErrorView,
> {
    if output.1.len() == 0 {
        Err(RunnerErrorView::MalformedMeasurement(output.0.path))
    } else {
        SampleView::from_measurement(output.0, output.1[0], ts)
    }
}

/// The samples that the outputs of one run of the benchmarking tool give,
/// one per output and in their order, all at the one time `ts`; or the
/// failure of the first output that gives none.
pub fn take_samples(outputs: &Vec<(FilePath, Measurements)>, ts: Timestamp) -> (r: Result<
    Vec<Sample>,
    RunnerError,
>)
    ensures
        match r {
            Ok(samples) => gather(views(outputs@).map_values(|o| sample_of(o, ts))) == Ok::<
                Seq<SampleView>,
                RunnerErrorView,
            >(views(samples@)),
            Err(e) => gather(views(outputs@).map_values(|o| sample_of(o, ts))) == Err::<
                Seq<SampleView>,
                RunnerErrorView,
            >(e@),
        },
{
    let ghost all = views(outputs@).map_values(|o| sample_of(o, ts));
    let mut samples: Vec<Sample> = Vec::new();
    let mut i: usize = 0;
    proof {
        lemma_gather_empty(all.subrange(0, 0));
        assert(views(samples@) =~= Seq::<SampleView>::empty());
    }
    while i < outputs.len()
        invariant
            i <= outputs@.len(),
            all == views(outputs@).map_values(|o| sample_of(o, ts)),
            gather(all.subrange(0, i as int)) == Ok::<Seq<SampleView>, RunnerErrorView>(
                views(samples@),
            ),
        decreases outputs@.len() - i,
    {
        let ghost before = views(samples@);
        proof {
            lemma_gather_next(all, i as int);
            assert(all[i as int] == sample_of(outputs@[i as int]@, ts));
        }
        let path = &outputs[i].0;
        let measurements = &outputs[i].1;
        let made = if measurements.results.len() == 0 {
            Err(RunnerError::MalformedMeasurement(path.path.clone()))
        } else {
            assert(measurements@[0] == measurements.results@[0]@);
            Sample::from_measurement(path, &measurements.results[0], ts)
        };
        match made {
            Ok(sample) => {
                samples.push(sample);
                assert(views(samples@) =~= before.push(sample@));
            },
            Err(e) => {
                return Err(e);
            },
        }
        i += 1;
    }
    assert(all.subrange(0, i as int) =~= all);
    Ok(samples)
}

/// The baselines of `version` that the outputs of one run of the
/// benchmarking tool give, one per output and in their order, all at the
/// one time `ts`; or the failure of the first output that gives none.
pub fn model(version: Version, outputs: &Vec<(FilePath, Measurements)>, ts: Timestamp) -> (r:
    Result<Vec<Baseline>, RunnerError>)
    ensures
        match r {
            Ok(baselines) => gather(
                views(outputs@).map_values(
                    |o: (FilePathView, Seq<MeasurementView>)|
                        BaselineView::from_measurement(version, o.0, o.1, ts),
                ),
            ) == Ok::<Seq<BaselineView>, RunnerErrorView>(views(baselines@)),
            Err(e) => gather(
                views(outputs@).map_values(
                    |o: (FilePathView, Seq<MeasurementView>)|
                        BaselineView::from_measurement(version, o.0, o.1, ts),
                ),
            ) == Err::<Seq<BaselineView>, RunnerErrorView>(e@),
        },
{
    let ghost all = views(outputs@).map_values(
        |o: (FilePathView, Seq<MeasurementView>)|
            BaselineView::from_measurement(version, o.0, o.1, ts),
    );
    let mut baselines: Vec<Baseline> = Vec::new();
    let mut i: usize = 0;
    proof {
        lemma_gather_empty(all.subrange(0, 0));
        assert(views(baselines@) =~= Seq::<BaselineView>::empty());
    }
    while i < outputs.len()
        invariant
            i <= outputs@.len(),
            all == views(outputs@).map_values(
                |o: (FilePathView, Seq<MeasurementView>)|
                    BaselineView::from_measurement(version, o.0, o.1, ts),
            ),
            gather(all.subrange(0, i as int)) == Ok::<Seq<BaselineView>, RunnerErrorView>(
                views(baselines@),
            ),
        decreases outputs@.len() - i,
    {
        let ghost before = views(baselines@);
        proof {
            lemma_gather_next(all, i as int);
        }
        match from_measurement(version, &outputs[i].0, &outputs[i].1, ts) {
            Ok(baseline) => {
                baselines.push(baseline);
                assert(views(baselines@) =~= before.push(baseline@));
            },
            Err(e) => {
                return Err(e);
            },
        }
        i += 1;
    }
    assert(all.subrange(0, i as int) =~= all);
    Ok(baselines)
}

} // verus!
