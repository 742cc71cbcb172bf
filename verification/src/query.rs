//! The questions that are asked of a job: how far it is, what it has
//! made, and where one of its results lies.
//!
//! A file is looked up on disk only under a name that the job itself has
//! recorded among its results.

use vstd::prelude::*;
use vstd::string::*;
use crate::decimal::{decimal_text, push_decimal};
use crate::error::{JobError, JobErrorView};
use crate::job::{JobInfo, JobStatus, JobView};
use crate::progress::Stage;
use crate::registry::JobRegistry;
use crate::snapshot::{
    holds, holds_name, snapshot_holds, FoundFile, FoundView, ResultEntry, ResultsSnapshot,
};
use crate::text::{clone_names, name_views};

verus! {

/// Opens the message of a page being converted.
pub const PAGES_LABEL: &'static str = "PDF変換中: ";

/// Closes the message of a page being converted.
pub const PAGES_UNIT: &'static str = "ページ";

/// The message of the merge step.
pub const MERGING_LABEL: &'static str = "後処理: Markdown結合中";

/// The message of the word export.
pub const WORD_LABEL: &'static str = "後処理: Word変換中";

/// The message of the spreadsheet export.
pub const SHEET_LABEL: &'static str = "後処理: Excel変換中";

/// The message that tells the user of a stage.
pub open spec fn stage_text(stage: Stage) -> Seq<char> {
    match stage {
        Stage::Pages { current, total } => PAGES_LABEL@ + decimal_text(current as nat) + seq!['/']
            + decimal_text(total as nat) + PAGES_UNIT@,
        Stage::Merging => MERGING_LABEL@,
        Stage::WordExport => WORD_LABEL@,
        Stage::SheetExport => SHEET_LABEL@,
    }
}

/// The message that tells the user of a stage.
pub fn stage_message(stage: Stage) -> (message: String)
    ensures
        message@ == stage_text(stage),
{
    match stage {
        Stage::Pages { current, total } => {
            let mut message = PAGES_LABEL.to_owned();
            push_decimal(&mut message, current as u64);
            message.append("/");
            proof {
                reveal_strlit("/");
                assert("/"@ =~= seq!['/']);
            }
            push_decimal(&mut message, total as u64);
            message.append(PAGES_UNIT);
            message
        },
        Stage::Merging => MERGING_LABEL.to_owned(),
        Stage::WordExport => WORD_LABEL.to_owned(),
        Stage::SheetExport => SHEET_LABEL.to_owned(),
    }
}

/// How far a job is. Progress is in millionths of the whole job.
#[derive(Debug, PartialEq, Eq)]
pub struct ProgressResponse {
    pub status: JobStatus,
    pub progress: u32,
    pub log: Vec<String>,
    pub error: Option<String>,
    pub current_message: Option<String>,
    pub page_current: Option<u32>,
    pub page_total: Option<u32>,
    pub eta_seconds: Option<u32>,
}

/// What a job has made.
#[derive(Debug, PartialEq, Eq)]
pub struct ResultResponse {
    pub outputs: Vec<String>,
    pub preview: Option<String>,
}

/// The message of the stage that a job is in, if it is in one.
pub open spec fn message_of(stage: Option<Stage>) -> Option<Seq<char>> {
    match stage {
        Some(s) => Some(stage_text(s)),
        None => None,
    }
}

/// Whether the answer tells how far the job is.
pub open spec fn reports(job: JobView, answer: ProgressResponse) -> bool {
    &&& answer.status == job.status
    &&& answer.progress == job.progress
    &&& name_views(answer.log@) == job.log
    &&& answer.error.deep_view() == job.error
    &&& answer.current_message.deep_view() == message_of(job.stage)
    &&& answer.page_current == job.page_current
    &&& answer.page_total == job.page_total
    &&& answer.eta_seconds == job.eta_seconds
}

fn clone_text(text: &Option<String>) -> (copy: Option<String>)
    ensures
        copy.deep_view() == text.deep_view(),
{
    match text {
        Some(t) => Some(t.clone()),
        None => None,
    }
}

/// How far the job with this id is.
pub fn get_progress(registry: &JobRegistry, job_id: &str) -> (r: Result<ProgressResponse, JobError>)
    requires
        registry.wf(),
    ensures
        match r {
            Ok(answer) => registry@.contains_key(job_id@) && reports(registry@[job_id@], answer),
            Err(e) => !registry@.contains_key(job_id@) && e == JobError::JobNotFound,
        },
{
    let job = match registry.get(job_id) {
        Ok(job) => job,
        Err(e) => {
            return Err(e);
        },
    };
    let log = clone_names(job.log());
    let current_message: Option<String> = match job.stage() {
        Some(stage) => Some(stage_message(stage)),
        None => None,
    };
    Ok(
        ProgressResponse {
            status: job.status(),
            progress: job.progress(),
            log,
            error: clone_text(job.error()),
            current_message,
            page_current: job.page_current(),
            page_total: job.page_total(),
            eta_seconds: job.eta_seconds(),
        },
    )
}

/// What the job with this id has made. Before the job is done there is
/// nothing to tell.
pub fn get_result(registry: &JobRegistry, job_id: &str) -> (r: Result<ResultResponse, JobError>)
    requires
        registry.wf(),
    ensures
        match r {
            Ok(answer) => registry@.contains_key(job_id@) && name_views(answer.outputs@)
                == registry@[job_id@].outputs && answer.preview.deep_view()
                == registry@[job_id@].preview,
            Err(e) => !registry@.contains_key(job_id@) && e == JobError::JobNotFound,
        },
{
    let job = match registry.get(job_id) {
        Ok(job) => job,
        Err(e) => {
            return Err(e);
        },
    };
    let outputs = clone_names(job.outputs());
    Ok(ResultResponse { outputs, preview: clone_text(job.preview()) })
}

/// The leave to look one of a job's results up on disk. It is given for a
/// name that the job has recorded among its results, and for no other.
pub struct OutputGrant {
    filename: String,
}

impl OutputGrant {
    /// The name that the leave is for.
    pub closed spec fn name(&self) -> Seq<char> {
        self.filename@
    }

    /// The name that the leave is for.
    pub fn filename(&self) -> (name: &String)
        ensures
            name@ == self.name(),
    {
        &self.filename
    }
}

/// Whether `name` is one of `names`.
pub fn is_listed(names: &Vec<String>, name: &String) -> (r: bool)
    ensures
        r == name_views(names@).contains(name@),
{
    let mut i: usize = 0;
    while i < names.len()
        invariant
            i <= names.len(),
            forall|k: int| 0 <= k < i ==> name_views(names@)[k] != name@,
        decreases names.len() - i,
    {
        if names[i] == *name {
            assert(name_views(names@)[i as int] == name@);
            return true;
        }
        i += 1;
    }
    false
}

/// Gives leave to look `filename` up on disk if it is one of the results
/// of the job with this id. Until it is given, nothing is to be read.
pub fn authorize_output(registry: &JobRegistry, job_id: &str, filename: &str) -> (r: Result<
    OutputGrant,
    JobError,
>)
    requires
        registry.wf(),
    ensures
        match r {
            Ok(grant) => registry@.contains_key(job_id@) && registry@[job_id@].outputs.contains(
                filename@,
            ) && grant.name() == filename@,
            Err(e) => if !registry@.contains_key(job_id@) {
                e == JobError::JobNotFound
            } else {
                !registry@[job_id@].outputs.contains(filename@) && e@ == (
                JobErrorView::NotInOutputs { filename: filename@ })
            },
        },
{
    let job = match registry.get(job_id) {
        Ok(job) => job,
        Err(e) => {
            return Err(e);
        },
    };
    let wanted: String = filename.to_owned();
    if !is_listed(job.outputs(), &wanted) {
        return Err(JobError::NotInOutputs { filename: wanted });
    }
    Ok(OutputGrant { filename: wanted })
}

/// Whether entry `i` of the results area is the first directory that
/// holds a file of this name.
pub open spec fn is_first_holder(results: Seq<ResultEntry>, name: Seq<char>, i: int) -> bool {
    &&& 0 <= i < results.len()
    &&& results[i].is_dir
    &&& holds_name(results[i].entries@, name)
    &&& forall|k: int|
        0 <= k < i ==> !((#[trigger] results[k]).is_dir && holds_name(results[k].entries@, name))
}

/// No directory of the results area holds a file of this name.
pub open spec fn no_holder(results: Seq<ResultEntry>, name: Seq<char>) -> bool {
    forall|k: int|
        0 <= k < results.len() ==> !((#[trigger] results[k]).is_dir && holds_name(
            results[k].entries@,
            name,
        ))
}

/// Whether `file` is where the file of this name is found: in the first
/// result directory that holds the name, and directly under the project
/// root only where no result directory holds it.
pub open spec fn is_found_at(snapshot: ResultsSnapshot, name: Seq<char>, file: FoundView) -> bool {
    &&& file.name == name
    &&& match file.dir {
        Some(dir) => exists|i: int|
            is_first_holder(snapshot.results@, name, i) && dir == snapshot.results@[i].name@,
        None => no_holder(snapshot.results@, name) && holds_name(snapshot.root@, name),
    }
}

/// The file of this name is nowhere to be found.
pub open spec fn is_nowhere(snapshot: ResultsSnapshot, name: Seq<char>) -> bool {
    no_holder(snapshot.results@, name) && !holds_name(snapshot.root@, name)
}

/// Finds the file of this name: in the first result directory that holds
/// it, else directly under the project root.
pub fn find_output_path(snapshot: &ResultsSnapshot, filename: &str) -> (found: Option<FoundFile>)
    ensures
        match found {
            Some(file) => is_found_at(*snapshot, filename@, file@),
            None => is_nowhere(*snapshot, filename@),
        },
{
    let wanted: String = filename.to_owned();
    let mut i: usize = 0;
    while i < snapshot.results.len()
        invariant
            i <= snapshot.results.len(),
            wanted@ == filename@,
            forall|k: int|
                0 <= k < i ==> !((#[trigger] snapshot.results@[k]).is_dir && holds_name(
                    snapshot.results@[k].entries@,
                    filename@,
                )),
        decreases snapshot.results.len() - i,
    {
        let entry = &snapshot.results[i];
        if entry.is_dir && holds(&entry.entries, &wanted) {
            assert(is_first_holder(snapshot.results@, filename@, i as int));
            return Some(FoundFile { dir: Some(entry.name.clone()), name: wanted });
        }
        i += 1;
    }
    if holds(&snapshot.root, &wanted) {
        return Some(FoundFile { dir: None, name: wanted });
    }
    None
}

/// Finds the file that leave was given for: in the first result directory
/// that holds it, else directly under the project root.
pub fn locate_output(snapshot: &ResultsSnapshot, grant: &OutputGrant) -> (r: Result<FoundFile, JobError>)
    ensures
        match r {
            Ok(file) => is_found_at(*snapshot, grant.name(), file@) && snapshot_holds(
                *snapshot,
                file@,
            ),
            Err(e) => is_nowhere(*snapshot, grant.name()) && e@ == (JobErrorView::SourceNotFound {
                filename: grant.name(),
            }),
        },
{
    match find_output_path(snapshot, grant.filename.as_str()) {
        Some(file) => Ok(file),
        None => Err(JobError::SourceNotFound { filename: grant.filename.clone() }),
    }
}

/// The directory to show for a job's results.
#[derive(Debug, PartialEq, Eq)]
pub enum OpenTarget {
    /// The result directory of this name.
    ResultDir(String),
    /// The project root.
    ProjectRoot,
    /// The results area itself.
    ResultsArea,
}

/// The first of a job's results, if it has any.
pub fn first_output(registry: &JobRegistry, job_id: &str) -> (r: Result<Option<String>, JobError>)
    requires
        registry.wf(),
    ensures
        match r {
            Ok(first) => registry@.contains_key(job_id@) && first.deep_view() == (if registry@[job_id@].outputs.len()
                > 0 {
                Some(registry@[job_id@].outputs[0])
            } else {
                None
            }),
            Err(e) => !registry@.contains_key(job_id@) && e == JobError::JobNotFound,
        },
{
    let job = match registry.get(job_id) {
        Ok(job) => job,
        Err(e) => {
            return Err(e);
        },
    };
    let outputs = job.outputs();
    if outputs.len() > 0 {
        assert(name_views(outputs@)[0] == outputs@[0]@);
        Ok(Some(outputs[0].clone()))
    } else {
        Ok(None)
    }
}

/// Picks the directory to show for a job's results: where its first result
/// lies, or the results area if it has none or the file is gone.
pub fn output_dir_target(snapshot: &ResultsSnapshot, first: &Option<String>) -> (target: OpenTarget)
    ensures
        match target {
            OpenTarget::ResultDir(dir) => first matches Some(name) && exists|i: int|
                is_first_holder(snapshot.results@, name@, i) && dir@ == snapshot.results@[i].name@,
            OpenTarget::ProjectRoot => first matches Some(name) && no_holder(
                snapshot.results@,
                name@,
            ) && holds_name(snapshot.root@, name@),
            OpenTarget::ResultsArea => first matches Some(name) ==> no_holder(
                snapshot.results@,
                name@,
            ) && !holds_name(snapshot.root@, name@),
        },
{
    match first {
        Some(name) => match find_output_path(snapshot, name.as_str()) {
            Some(file) => match file.dir {
                Some(dir) => OpenTarget::ResultDir(dir),
                None => OpenTarget::ProjectRoot,
            },
            None => OpenTarget::ResultsArea,
        },
        None => OpenTarget::ResultsArea,
    }
}

} // verus!
