//! The failures of the runner. Each carries what went wrong with: the raw
//! text, the path, or the error the system gave.

use crate::types::Metric;
use crate::types::MetricView;
use vstd::prelude::*;
use vstd::std_specs::convert::FromSpecImpl;

verus! {

/// The error type of `std::io`, carried through unread.
#[verifier::external_type_specification]
#[verifier::external_body]
pub struct ExIoError(std::io::Error);

/// The error type of `serde_json`, carried through unread.
#[verifier::external_type_specification]
#[verifier::external_body]
pub struct ExJsonError(serde_json::Error);

/// A failed read or write. Paths are kept as text.
#[derive(Debug)]
pub enum IOError {
    /// A file or directory cannot be read.
    ReadErr(String, Option<std::io::Error>),
    /// A file cannot be written to.
    WriteErr(String, Option<std::io::Error>),
    /// The path names no file.
    MissingFilenameErr(String),
    /// The file name is not Unicode.
    FilenameNotUnicodeErr(String),
    /// The contents of a file cannot be had.
    BadFileContentsErr(String, Option<std::io::Error>),
    /// The benchmarking command could not be started.
    CommandErr(Option<std::io::Error>),
    /// The scratch directory could not be deleted and made anew.
    CannotRecreateTempDirErr(String, std::io::Error),
    /// The path has no file stem.
    BadFilestemError(String),
    /// Walking a directory failed part-way.
    ReadIterErr(String, Option<std::io::Error>),
}

/// Everything that aborts a run.
#[derive(Debug)]
pub enum RunnerError {
    /// The text is not `major.minor.patch` with three integers.
    VersionParseFail(String),
    /// The text is not `name___project`.
    MetricParseFail(String),
    /// A document is not the JSON that was expected; the raw text is kept.
    BadJSONErr(String, Option<serde_json::Error>),
    /// A value could not be written as JSON.
    SerializationErr(serde_json::Error),
    /// A read or write failed.
    RunnerIOError(IOError),
    /// The benchmarking command ended with this non-zero exit code.
    HyperfineNonZeroExitCode(i32),
    /// The directory holds no baseline.
    NoVersionedBaselineData(String),
    /// A metric has a baseline but was not sampled.
    BaselineMetricNotSampled(Metric),
    /// The benchmarking output at this path holds no result, or a result
    /// with no timing or with more than two.
    MalformedMeasurement(String),
}

impl From<IOError> for RunnerError {
    fn from(item: IOError) -> (r: RunnerError) {
        RunnerError::RunnerIOError(item)
    }
}

impl FromSpecImpl<IOError> for RunnerError {
    open spec fn obeys_from_spec() -> bool {
        true
    }

    open spec fn from_spec(item: IOError) -> RunnerError {
        RunnerError::RunnerIOError(item)
    }
}

/// A failed read or write, with its paths as plain text.
pub enum IOErrorView {
    ReadErr(Seq<char>, Option<std::io::Error>),
    WriteErr(Seq<char>, Option<std::io::Error>),
    MissingFilenameErr(Seq<char>),
    FilenameNotUnicodeErr(Seq<char>),
    BadFileContentsErr(Seq<char>, Option<std::io::Error>),
    CommandErr(Option<std::io::Error>),
    CannotRecreateTempDirErr(Seq<char>, std::io::Error),
    BadFilestemError(Seq<char>),
    ReadIterErr(Seq<char>, Option<std::io::Error>),
}

impl View for IOError {
    type V = IOErrorView;

    open spec fn view(&self) -> IOErrorView {
        match self {
            IOError::ReadErr(path, cause) => IOErrorView::ReadErr(path@, *cause),
            IOError::WriteErr(path, cause) => IOErrorView::WriteErr(path@, *cause),
            IOError::MissingFilenameErr(path) => IOErrorView::MissingFilenameErr(path@),
            IOError::FilenameNotUnicodeErr(path) => IOErrorView::FilenameNotUnicodeErr(path@),
            IOError::BadFileContentsErr(path, cause) => IOErrorView::BadFileContentsErr(
                path@,
                *cause,
            ),
            IOError::CommandErr(cause) => IOErrorView::CommandErr(*cause),
            IOError::CannotRecreateTempDirErr(path, cause) => IOErrorView::CannotRecreateTempDirErr(
                path@,
                *cause,
            ),
            IOError::BadFilestemError(path) => IOErrorView::BadFilestemError(path@),
            IOError::ReadIterErr(path, cause) => IOErrorView::ReadIterErr(path@, *cause),
        }
    }
}

/// A failure of the runner, with its texts as plain text.
pub enum RunnerErrorView {
    VersionParseFail(Seq<char>),
    MetricParseFail(Seq<char>),
    BadJSONErr(Seq<char>, Option<serde_json::Error>),
    SerializationErr(serde_json::Error),
    RunnerIOError(IOErrorView),
    HyperfineNonZeroExitCode(i32),
    NoVersionedBaselineData(Seq<char>),
    BaselineMetricNotSampled(MetricView),
    MalformedMeasurement(Seq<char>),
}

impl View for RunnerError {
    type V = RunnerErrorView;

    open spec fn view(&self) -> RunnerErrorView {
        match self {
            RunnerError::VersionParseFail(text) => RunnerErrorView::VersionParseFail(text@),
            RunnerError::MetricParseFail(text) => RunnerErrorView::MetricParseFail(text@),
            RunnerError::BadJSONErr(text, cause) => RunnerErrorView::BadJSONErr(text@, *cause),
            RunnerError::SerializationErr(cause) => RunnerErrorView::SerializationErr(*cause),
            RunnerError::RunnerIOError(inner) => RunnerErrorView::RunnerIOError(inner@),
            RunnerError::HyperfineNonZeroExitCode(code) => RunnerErrorView::HyperfineNonZeroExitCode(
                *code,
            ),
            RunnerError::NoVersionedBaselineData(path) => RunnerErrorView::NoVersionedBaselineData(
                path@,
            ),
            RunnerError::BaselineMetricNotSampled(metric) => RunnerErrorView::BaselineMetricNotSampled(
                metric@,
            ),
            RunnerError::MalformedMeasurement(path) => RunnerErrorView::MalformedMeasurement(path@),
        }
    }
}

} // verus!
