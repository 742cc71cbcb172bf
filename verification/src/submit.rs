//! Submission: a job is refused before anything is registered if it names
//! no input or the pipeline is not there, and else registered as running
//! under the id that is made of the random bytes drawn for it.
//!
//! Drawing the bytes is the caller's part; what id they make, and whether
//! the submission goes, is decided here.

use vstd::prelude::*;
use vstd::string::*;
use crate::error::{JobError, JobErrorView};
use crate::job::JobView;
use crate::registry::JobRegistry;

verus! {

/// What was found of the pipeline on disk.
pub enum PipelineProbe {
    /// No directory from the executable's upwards holds the pipeline.
    NoProjectRoot,
    /// The entry script is not at `dispatcher`.
    Missing { dispatcher: String },
    /// The entry script is at `dispatcher`.
    Found { dispatcher: String },
}

/// Why nothing can be submitted with no inputs.
pub open spec fn inputs_error(count: nat) -> Option<JobErrorView> {
    if count == 0 {
        Some(JobErrorView::NoInputFiles)
    } else {
        None
    }
}

/// Why a submission is refused, if it is: for want of inputs first, then
/// for want of the pipeline.
pub open spec fn submission_error(count: nat, probe: PipelineProbe) -> Option<JobErrorView> {
    if count == 0 {
        Some(JobErrorView::NoInputFiles)
    } else {
        match probe {
            PipelineProbe::NoProjectRoot => Some(JobErrorView::ProjectRootNotFound),
            PipelineProbe::Missing { dispatcher } => Some(
                JobErrorView::PipelineNotFound { path: dispatcher@ },
            ),
            PipelineProbe::Found { .. } => None,
        }
    }
}

/// Checks the inputs of a submission, before the disk is looked at.
pub fn check_inputs(paths: &Vec<String>) -> (r: Result<(), JobError>)
    ensures
        match r {
            Ok(()) => paths@.len() > 0,
            Err(e) => paths@.len() == 0 && e == JobError::NoInputFiles,
        },
{
    if paths.len() == 0 {
        Err(JobError::NoInputFiles)
    } else {
        Ok(())
    }
}

/// Checks a submission.
pub fn check_submission(paths: &Vec<String>, probe: &PipelineProbe) -> (r: Result<(), JobError>)
    ensures
        match r {
            Ok(()) => submission_error(paths@.len(), *probe) is None,
            Err(e) => submission_error(paths@.len(), *probe) == Some(e@),
        },
{
    if paths.len() == 0 {
        return Err(JobError::NoInputFiles);
    }
    match probe {
        PipelineProbe::NoProjectRoot => Err(JobError::ProjectRootNotFound),
        PipelineProbe::Missing { dispatcher } => Err(
            JobError::PipelineNotFound { path: dispatcher.clone() },
        ),
        PipelineProbe::Found { .. } => Ok(()),
    }
}

/// Registers a submission under `job_id`. A submission that is refused
/// leaves the registry as it was.
pub fn register_job(
    registry: &mut JobRegistry,
    paths: &Vec<String>,
    probe: &PipelineProbe,
    job_id: String,
) -> (r: Result<String, JobError>)
    requires
        old(registry).wf(),
    ensures
        final(registry).wf(),
        match r {
            Ok(id) => {
                &&& id@ == job_id@
                &&& submission_error(paths@.len(), *probe) is None
                &&& !old(registry)@.contains_key(job_id@)
                &&& final(registry)@ == old(registry)@.insert(job_id@, JobView::started())
            },
            Err(e) => {
                &&& final(registry)@ == old(registry)@
                &&& match submission_error(paths@.len(), *probe) {
                    Some(refusal) => e@ == refusal,
                    None => old(registry)@.contains_key(job_id@) && e == JobError::DuplicateJob,
                }
            },
        },
{
    match check_submission(paths, probe) {
        Ok(()) => {},
        Err(e) => {
            return Err(e);
        },
    }
    let id = job_id.clone();
    match registry.create(job_id) {
        Ok(()) => Ok(id),
        Err(e) => Err(e),
    }
}

/// The text of the id that is made of 16 random bytes.
pub uninterp spec fn job_id_text(random: Seq<u8>) -> Seq<char>;

/// `uuid::Builder::from_random_bytes`, and the text of the id that it
/// builds: the version-4 id that has these bytes, but for the six bits that
/// tell version and variant, in its hyphenated form. The text depends on
/// the bytes alone and is 36 characters long whatever they are; the call
/// cannot fail.
#[verifier::external_body]
fn job_id_from(random: [u8; 16]) -> (id: String)
    ensures
        id@ == job_id_text(random@),
        id@.len() == 36,
{
    uuid::Builder::from_random_bytes(random).into_uuid().to_string()
}

/// Why a submission under the id made of `random` is refused, if it is:
/// for want of inputs or of the pipeline, or because the id is taken.
pub open spec fn refusal(
    registry: Map<Seq<char>, JobView>,
    count: nat,
    probe: PipelineProbe,
    random: Seq<u8>,
) -> Option<JobErrorView> {
    match submission_error(count, probe) {
        Some(e) => Some(e),
        None => if registry.contains_key(job_id_text(random)) {
            Some(JobErrorView::DuplicateJob)
        } else {
            None
        },
    }
}

/// Submits a job: it is checked, given the id made of `random`, 16 bytes
/// drawn at random for this submission, and registered as running. The id
/// comes back at once; the pipeline is run afterwards. A submission that
/// is refused leaves the registry as it was.
pub fn submit_job(
    registry: &mut JobRegistry,
    paths: &Vec<String>,
    probe: &PipelineProbe,
    random: [u8; 16],
) -> (r: Result<String, JobError>)
    requires
        old(registry).wf(),
    ensures
        final(registry).wf(),
        match r {
            Ok(id) => {
                &&& refusal(old(registry)@, paths@.len(), *probe, random@) is None
                &&& id@ == job_id_text(random@)
                &&& id@.len() == 36
                &&& final(registry)@ == old(registry)@.insert(id@, JobView::started())
            },
            Err(e) => {
                &&& refusal(old(registry)@, paths@.len(), *probe, random@) == Some(e@)
                &&& final(registry)@ == old(registry)@
            },
        },
{
    match check_submission(paths, probe) {
        Ok(()) => {},
        Err(e) => {
            return Err(e);
        },
    }
    register_job(registry, paths, probe, job_id_from(random))
}

/// A submission is refused for an id that is taken only where the
/// registry holds a job already: into an empty registry every submission
/// that names inputs and finds the pipeline goes.
pub proof fn lemma_first_submission_goes(count: nat, probe: PipelineProbe, random: Seq<u8>)
    requires
        submission_error(count, probe) is None,
    ensures
        refusal(Map::<Seq<char>, JobView>::empty(), count, probe, random) is None,
{
}

} // verus!
