//! The errors that the library's operations return.

use vstd::prelude::*;
use vstd::string::*;

verus! {

/// The kinds of error.
#[derive(Clone, Copy, PartialEq, Eq, Debug, Structural)]
pub enum ErrorKind {
    /// The pipeline's entry point was not found.
    Configuration,
    /// The request itself is malformed.
    Validation,
    /// Something asked for does not exist.
    Lookup,
    /// The request reaches for what it may not have.
    Security,
}

/// Why an operation was refused.
#[derive(PartialEq, Eq, Debug)]
pub enum JobError {
    /// A job was submitted without input files.
    NoInputFiles,
    /// No directory from the executable's upwards holds the pipeline.
    ProjectRootNotFound,
    /// The pipeline's entry point is not where it was looked for.
    PipelineNotFound { path: String },
    /// No job has the given id.
    JobNotFound,
    /// A job with the given id exists already.
    DuplicateJob,
    /// The file is none of the job's results.
    NotInOutputs { filename: String },
    /// No file of that name lies where results are written.
    SourceNotFound { filename: String },
    /// The name of a result directory is empty.
    EmptyDirName,
    /// The name of a result directory holds a separator or `..`.
    InvalidDirName,
    /// The results hold no directory of that name.
    ResultDirNotFound,
    /// The directory lies outside the results.
    OutsideResults,
    /// The result directory holds no file to open.
    NoOutputFile,
    /// The file lies outside its result directory.
    OutsideResultDir,
}

/// An error as the contracts see it.
pub enum JobErrorView {
    NoInputFiles,
    ProjectRootNotFound,
    PipelineNotFound { path: Seq<char> },
    JobNotFound,
    DuplicateJob,
    NotInOutputs { filename: Seq<char> },
    SourceNotFound { filename: Seq<char> },
    EmptyDirName,
    InvalidDirName,
    ResultDirNotFound,
    OutsideResults,
    NoOutputFile,
    OutsideResultDir,
}

impl View for JobError {
    type V = JobErrorView;

    open spec fn view(&self) -> JobErrorView {
        match self {
            JobError::NoInputFiles => JobErrorView::NoInputFiles,
            JobError::ProjectRootNotFound => JobErrorView::ProjectRootNotFound,
            JobError::PipelineNotFound { path } => JobErrorView::PipelineNotFound { path: path@ },
            JobError::JobNotFound => JobErrorView::JobNotFound,
            JobError::DuplicateJob => JobErrorView::DuplicateJob,
            JobError::NotInOutputs { filename } => JobErrorView::NotInOutputs {
                filename: filename@,
            },
            JobError::SourceNotFound { filename } => JobErrorView::SourceNotFound {
                filename: filename@,
            },
            JobError::EmptyDirName => JobErrorView::EmptyDirName,
            JobError::InvalidDirName => JobErrorView::InvalidDirName,
            JobError::ResultDirNotFound => JobErrorView::ResultDirNotFound,
            JobError::OutsideResults => JobErrorView::OutsideResults,
            JobError::NoOutputFile => JobErrorView::NoOutputFile,
            JobError::OutsideResultDir => JobErrorView::OutsideResultDir,
        }
    }
}

/// The kind of each error.
pub open spec fn error_kind(error: JobErrorView) -> ErrorKind {
    match error {
        JobErrorView::NoInputFiles => ErrorKind::Validation,
        JobErrorView::ProjectRootNotFound => ErrorKind::Configuration,
        JobErrorView::PipelineNotFound { .. } => ErrorKind::Configuration,
        JobErrorView::JobNotFound => ErrorKind::Lookup,
        JobErrorView::DuplicateJob => ErrorKind::Validation,
        JobErrorView::NotInOutputs { .. } => ErrorKind::Security,
        JobErrorView::SourceNotFound { .. } => ErrorKind::Lookup,
        JobErrorView::EmptyDirName => ErrorKind::Validation,
        JobErrorView::InvalidDirName => ErrorKind::Validation,
        JobErrorView::ResultDirNotFound => ErrorKind::Lookup,
        JobErrorView::OutsideResults => ErrorKind::Security,
        JobErrorView::NoOutputFile => ErrorKind::Lookup,
        JobErrorView::OutsideResultDir => ErrorKind::Security,
    }
}

/// The text of each error.
pub open spec fn error_text(error: JobErrorView) -> Seq<char> {
    match error {
        JobErrorView::NoInputFiles => "no input files"@,
        JobErrorView::ProjectRootNotFound => "failed to resolve project root"@,
        JobErrorView::PipelineNotFound { path } => "dispatcher.py not found at "@ + path,
        JobErrorView::JobNotFound => "job not found"@,
        JobErrorView::DuplicateJob => "job id already in use"@,
        JobErrorView::NotInOutputs { filename } => "file not found in job outputs: "@ + filename,
        JobErrorView::SourceNotFound { filename } => "source file not found: "@ + filename,
        JobErrorView::EmptyDirName => "dirName is empty"@,
        JobErrorView::InvalidDirName => "invalid dirName"@,
        JobErrorView::ResultDirNotFound => "result dir not found"@,
        JobErrorView::OutsideResults => "invalid result dir"@,
        JobErrorView::NoOutputFile => "no output file found"@,
        JobErrorView::OutsideResultDir => "invalid output file"@,
    }
}

impl JobError {
    /// The kind of the error.
    pub fn kind(&self) -> (kind: ErrorKind)
        ensures
            kind == error_kind(self@),
    {
        match self {
            JobError::NoInputFiles => ErrorKind::Validation,
            JobError::ProjectRootNotFound => ErrorKind::Configuration,
            JobError::PipelineNotFound { .. } => ErrorKind::Configuration,
            JobError::JobNotFound => ErrorKind::Lookup,
            JobError::DuplicateJob => ErrorKind::Validation,
            JobError::NotInOutputs { .. } => ErrorKind::Security,
            JobError::SourceNotFound { .. } => ErrorKind::Lookup,
            JobError::EmptyDirName => ErrorKind::Validation,
            JobError::InvalidDirName => ErrorKind::Validation,
            JobError::ResultDirNotFound => ErrorKind::Lookup,
            JobError::OutsideResults => ErrorKind::Security,
            JobError::NoOutputFile => ErrorKind::Lookup,
            JobError::OutsideResultDir => ErrorKind::Security,
        }
    }

    /// The text that the user is shown.
    pub fn message(&self) -> (text: String)
        ensures
            text@ == error_text(self@),
    {
        match self {
            JobError::NoInputFiles => String::from_str("no input files"),
            JobError::ProjectRootNotFound => String::from_str("failed to resolve project root"),
            JobError::PipelineNotFound { path } => {
                String::from_str("dispatcher.py not found at ").concat(path.as_str())
            },
            JobError::JobNotFound => String::from_str("job not found"),
            JobError::DuplicateJob => String::from_str("job id already in use"),
            JobError::NotInOutputs { filename } => {
                String::from_str("file not found in job outputs: ").concat(filename.as_str())
            },
            JobError::SourceNotFound { filename } => {
                String::from_str("source file not found: ").concat(filename.as_str())
            },
            JobError::EmptyDirName => String::from_str("dirName is empty"),
            JobError::InvalidDirName => String::from_str("invalid dirName"),
            JobError::ResultDirNotFound => String::from_str("result dir not found"),
            JobError::OutsideResults => String::from_str("invalid result dir"),
            JobError::NoOutputFile => String::from_str("no output file found"),
            JobError::OutsideResultDir => String::from_str("invalid output file"),
        }
    }
}

} // verus!
