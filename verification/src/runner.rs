//! The job runner's decisions: which file to run next, what the end of a
//! file's run means for the job, and what the job is completed with.
//!
//! Whoever runs the pipeline asks for a directive, does what it says, and
//! reports how the run ended. Files run one at a time in the order they
//! were submitted, and the first failure ends the batch.

use vstd::prelude::*;
use vstd::string::*;
use crate::band::{band_of, FileBand};
use crate::job::{Failure, FailureView, JobEvent, JobEventView, JobStatus, JobView};
use crate::names::{extension_of, has_extension};
use crate::snapshot::{found_views, FoundFile, FoundView};
use crate::text::name_views;

verus! {

/// The format that a job's preview is read from.
pub const PREVIEW_FORMAT: &'static str = "md";

/// Opens the preview of a job that has no text to show.
pub const FALLBACK_PREFIX: &'static str = "Converted markdown for: ";

/// Closes the preview of a job that has no text to show.
pub const FALLBACK_SUFFIX: &'static str = " (md preview not found)";

/// Stands between the inputs that such a preview names.
pub const LIST_SEPARATOR: &'static str = ", ";

/// How the pipeline's run on one file ended.
pub enum ProcessOutcome {
    /// It ran and reported success.
    Succeeded,
    /// It ran and reported failure.
    NonZeroExit,
    /// It could not be started or waited for; the system's reason.
    Lost(String),
}

/// The end of a run as the contracts see it.
pub enum ProcessOutcomeView {
    Succeeded,
    NonZeroExit,
    Lost(Seq<char>),
}

impl View for ProcessOutcome {
    type V = ProcessOutcomeView;

    open spec fn view(&self) -> ProcessOutcomeView {
        match self {
            ProcessOutcome::Succeeded => ProcessOutcomeView::Succeeded,
            ProcessOutcome::NonZeroExit => ProcessOutcomeView::NonZeroExit,
            ProcessOutcome::Lost(reason) => ProcessOutcomeView::Lost(reason@),
        }
    }
}

/// What to do next.
#[derive(Clone, Copy, PartialEq, Eq, Debug)]
pub enum Directive {
    /// Run the pipeline on the file that owns this band.
    Run(FileBand),
    /// Every file is through: look for the results and complete the job.
    Collect,
    /// Nothing is left to do.
    Halt,
}

/// Where a batch stands.
pub struct RunnerState {
    /// The number of files in the batch.
    pub count: int,
    /// The files before this one are through.
    pub next: int,
    /// The batch has ended: by a failure, or with its job completed.
    pub halted: bool,
}

/// Where one batch stands.
pub struct Runner {
    count: usize,
    next: usize,
    halted: bool,
}

impl View for Runner {
    type V = RunnerState;

    closed spec fn view(&self) -> RunnerState {
        RunnerState { count: self.count as int, next: self.next as int, halted: self.halted }
    }
}

impl RunnerState {
    /// The next file is one of the batch, or all are through.
    pub open spec fn wf(self) -> bool {
        0 <= self.next <= self.count
    }

    /// Whether a file is to be run now.
    pub open spec fn runs_file(self) -> bool {
        !self.halted && self.next < self.count
    }

    /// The batch after the run on its next file ended with `outcome`.
    pub open spec fn after(self, outcome: ProcessOutcomeView) -> RunnerState {
        if !self.runs_file() {
            self
        } else {
            match outcome {
                ProcessOutcomeView::Succeeded => RunnerState { next: self.next + 1, ..self },
                _ => RunnerState { halted: true, ..self },
            }
        }
    }
}

/// What is to be done where the batch stands: the next file is run, or
/// the results are collected once all files are through, or nothing once
/// the batch has ended.
pub open spec fn directive_for(state: RunnerState) -> Directive {
    if state.halted {
        Directive::Halt
    } else if state.next < state.count {
        Directive::Run(band_of(state.next, state.count))
    } else {
        Directive::Collect
    }
}

/// What the end of a run means for the job: the file's band is complete,
/// or the job fails. Where no file was to be run, it means nothing.
pub open spec fn ended_event(state: RunnerState, outcome: ProcessOutcomeView) -> Option<
    JobEventView,
> {
    if !state.runs_file() {
        None
    } else {
        match outcome {
            ProcessOutcomeView::Succeeded => Some(
                JobEventView::FileSucceeded { band: band_of(state.next, state.count) },
            ),
            _ => Some(JobEventView::Failed { failure: failure_of(outcome) }),
        }
    }
}

/// Why the job fails when a run ends otherwise than well.
pub open spec fn failure_of(outcome: ProcessOutcomeView) -> FailureView {
    match outcome {
        ProcessOutcomeView::Lost(reason) => FailureView::Process(reason),
        _ => FailureView::NonZeroExit,
    }
}

impl Runner {
    /// The next file is one of the batch, or all are through.
    #[verifier::type_invariant]
    pub open spec fn wf(&self) -> bool {
        self@.wf()
    }

    /// A batch of `count` files, none of them run yet.
    pub fn new(count: usize) -> (runner: Runner)
        ensures
            runner@ == (RunnerState { count: count as int, next: 0, halted: false }),
    {
        Runner { count, next: 0, halted: false }
    }

    /// What to do next.
    pub fn directive(&self) -> (d: Directive)
        ensures
            d == directive_for(self@),
    {
        proof {
            use_type_invariant(self);
        }
        if self.halted {
            return Directive::Halt;
        }
        match FileBand::new(self.next, self.count) {
            Some(band) => Directive::Run(band),
            None => Directive::Collect,
        }
    }

    /// Takes in how the run on the next file ended and gives what that
    /// means for the job: the file's band is complete, or the job fails
    /// and the batch ends. Where no file was to be run, nothing changes
    /// and nothing is given.
    pub fn file_ended(&mut self, outcome: ProcessOutcome) -> (event: Option<JobEvent>)
        ensures
            final(self)@ == old(self)@.after(outcome@),
            match event {
                Some(e) => ended_event(old(self)@, outcome@) == Some(e@),
                None => ended_event(old(self)@, outcome@) is None,
            },
    {
        proof {
            use_type_invariant(&*self);
        }
        if self.halted {
            return None;
        }
        let band = match FileBand::new(self.next, self.count) {
            Some(band) => band,
            None => {
                return None;
            },
        };
        match outcome {
            ProcessOutcome::Succeeded => {
                self.next = self.next + 1;
                Some(JobEvent::FileSucceeded { band })
            },
            ProcessOutcome::NonZeroExit => {
                self.halted = true;
                Some(JobEvent::Failed { failure: Failure::NonZeroExit })
            },
            ProcessOutcome::Lost(reason) => {
                self.halted = true;
                Some(JobEvent::Failed { failure: Failure::Process(reason) })
            },
        }
    }

    /// Ends the batch once its job is completed.
    pub fn finish(&mut self)
        ensures
            final(self)@ == (RunnerState { halted: true, ..old(self)@ }),
    {
        proof {
            use_type_invariant(&*self);
        }
        self.halted = true;
    }
}

/// A running job and its batch after the runs on its files ended with
/// each of `outcomes` in turn.
pub open spec fn driven(job: JobView, state: RunnerState, outcomes: Seq<ProcessOutcomeView>) -> JobView
    decreases outcomes.len(),
{
    if outcomes.len() == 0 {
        job
    } else {
        let before = driven(job, state, outcomes.drop_last());
        match ended_event(after_all(state, outcomes.drop_last()), outcomes.last()) {
            Some(event) => before.step(event),
            None => before,
        }
    }
}

/// The batch after each of `outcomes` in turn.
pub open spec fn after_all(state: RunnerState, outcomes: Seq<ProcessOutcomeView>) -> RunnerState
    decreases outcomes.len(),
{
    if outcomes.len() == 0 {
        state
    } else {
        after_all(state, outcomes.drop_last()).after(outcomes.last())
    }
}

/// Files run in the order they were submitted and none runs twice: the
/// next file never goes back. A batch that has ended stays ended, so that
/// after a failure no further file is run.
pub proof fn lemma_batch_order(state: RunnerState, outcomes: Seq<ProcessOutcomeView>)
    requires
        state.wf(),
    ensures
        after_all(state, outcomes).wf(),
        after_all(state, outcomes).count == state.count,
        state.next <= after_all(state, outcomes).next <= state.next + outcomes.len(),
        state.halted ==> after_all(state, outcomes) == state,
        after_all(state, outcomes).halted && !state.halted ==> exists|k: int|
            0 <= k < outcomes.len() && !(#[trigger] outcomes[k] is Succeeded),
    decreases outcomes.len(),
{
    if outcomes.len() > 0 {
        lemma_batch_order(state, outcomes.drop_last());
        let before = after_all(state, outcomes.drop_last());
        if after_all(state, outcomes).halted && !state.halted {
            if before.halted {
                let k = choose|k: int|
                    0 <= k < outcomes.drop_last().len() && !(#[trigger] outcomes.drop_last()[k]
                        is Succeeded);
                assert(outcomes[k] == outcomes.drop_last()[k]);
            } else {
                assert(!(outcomes[outcomes.len() - 1] is Succeeded));
            }
        }
    }
}

/// Whether file `i` is the one that the preview is read from: the first
/// of the results with the preview's format.
pub open spec fn is_preview_source(found: Seq<FoundView>, i: int) -> bool {
    &&& 0 <= i < found.len()
    &&& extension_of(found[i].name) == Some(PREVIEW_FORMAT@)
    &&& forall|k: int| 0 <= k < i ==> extension_of((#[trigger] found[k]).name) != Some(PREVIEW_FORMAT@)
}

/// None of the results has the preview's format.
pub open spec fn no_preview_source(found: Seq<FoundView>) -> bool {
    forall|k: int|
        0 <= k < found.len() ==> extension_of((#[trigger] found[k]).name) != Some(PREVIEW_FORMAT@)
}

/// Finds the file that the preview is read from.
pub fn find_preview_source(found: &Vec<FoundFile>) -> (source: Option<usize>)
    ensures
        match source {
            Some(i) => is_preview_source(found_views(found@), i as int),
            None => no_preview_source(found_views(found@)),
        },
{
    let mut i: usize = 0;
    while i < found.len()
        invariant
            i <= found.len(),
            forall|k: int|
                0 <= k < i ==> extension_of((#[trigger] found_views(found@)[k]).name) != Some(
                    PREVIEW_FORMAT@,
                ),
        decreases found.len() - i,
    {
        assert(found_views(found@)[i as int].name == found@[i as int].name@);
        if has_extension(found[i].name.as_str(), PREVIEW_FORMAT) {
            return Some(i);
        }
        i += 1;
    }
    None
}

/// The texts one after another with `separator` between them.
pub open spec fn joined(texts: Seq<Seq<char>>, separator: Seq<char>) -> Seq<char>
    decreases texts.len(),
{
    if texts.len() == 0 {
        Seq::empty()
    } else if texts.len() == 1 {
        texts[0]
    } else {
        joined(texts.drop_last(), separator) + separator + texts.last()
    }
}

/// The preview of a job none of whose results can be shown.
pub open spec fn fallback_preview(inputs: Seq<Seq<char>>) -> Seq<char> {
    FALLBACK_PREFIX@ + joined(inputs, LIST_SEPARATOR@) + FALLBACK_SUFFIX@
}

/// The preview of a job: what the preview's file holds, if one of the
/// results has the preview's format and it could be read; else word that
/// there is none, naming the inputs.
pub open spec fn preview_text(
    found: Seq<FoundView>,
    inputs: Seq<Seq<char>>,
    content: Option<Seq<char>>,
) -> Seq<char> {
    match content {
        Some(text) if !no_preview_source(found) => text,
        _ => fallback_preview(inputs),
    }
}

/// The names of the files.
pub open spec fn names_of(found: Seq<FoundView>) -> Seq<Seq<char>> {
    Seq::new(found.len(), |i: int| found[i].name)
}

fn join_texts(texts: &Vec<String>, separator: &str) -> (out: String)
    ensures
        out@ == joined(name_views(texts@), separator@),
{
    let ghost all = name_views(texts@);
    let mut out = String::new();
    let mut i: usize = 0;
    assert(all.take(0) =~= Seq::<Seq<char>>::empty());
    while i < texts.len()
        invariant
            i <= texts.len(),
            all == name_views(texts@),
            out@ == joined(all.take(i as int), separator@),
        decreases texts.len() - i,
    {
        proof {
            assert(all.take(i + 1).drop_last() =~= all.take(i as int));
            assert(all.take(i + 1).last() == texts@[i as int]@);
        }
        if i > 0 {
            out.append(separator);
        }
        out.append(texts[i].as_str());
        proof {
            if i == 0 {
                assert(out@ =~= texts@[0]@);
            }
        }
        i += 1;
    }
    assert(all.take(i as int) =~= all);
    out
}

fn file_names(found: &Vec<FoundFile>) -> (names: Vec<String>)
    ensures
        name_views(names@) == names_of(found_views(found@)),
{
    let mut names: Vec<String> = Vec::new();
    let mut i: usize = 0;
    while i < found.len()
        invariant
            i <= found.len(),
            names@.len() == i,
            forall|k: int| 0 <= k < i ==> (#[trigger] names@[k])@ == found@[k].name@,
        decreases found.len() - i,
    {
        names.push(found[i].name.clone());
        i += 1;
    }
    assert(name_views(names@) =~= names_of(found_views(found@)));
    names
}

/// Completes a job: its results are the names of the files found, and its
/// preview is `content`, what was read from the preview's file, or word
/// that there is none.
pub fn completion(found: &Vec<FoundFile>, inputs: &Vec<String>, content: Option<String>) -> (event:
    JobEvent)
    ensures
        event@ == (JobEventView::Completed {
            outputs: names_of(found_views(found@)),
            preview: preview_text(found_views(found@), name_views(inputs@), content.deep_view()),
        }),
{
    let source = find_preview_source(found);
    let preview: String = match (source, content) {
        (Some(_), Some(text)) => text,
        _ => {
            let mut text = FALLBACK_PREFIX.to_owned();
            text.append(join_texts(inputs, LIST_SEPARATOR).as_str());
            text.append(FALLBACK_SUFFIX);
            text
        },
    };
    JobEvent::Completed { outputs: file_names(found), preview }
}

/// The first run that does not end well fails the job and ends the batch,
/// so that no further file is run and no results are collected; and as
/// long as every run ends well the job goes on running, without results.
pub proof fn lemma_failure_ends_batch(job: JobView, state: RunnerState, outcomes: Seq<ProcessOutcomeView>)
    requires
        job.status == JobStatus::Running,
        state.wf(),
        !state.halted,
    ensures
        after_all(state, outcomes).halted <==> driven(job, state, outcomes).status
            == JobStatus::Error,
        !after_all(state, outcomes).halted ==> driven(job, state, outcomes).status
            == JobStatus::Running,
        after_all(state, outcomes).halted ==> directive_for(after_all(state, outcomes))
            == Directive::Halt,
        driven(job, state, outcomes).outputs == job.outputs,
        driven(job, state, outcomes).preview == job.preview,
    decreases outcomes.len(),
{
    if outcomes.len() > 0 {
        lemma_failure_ends_batch(job, state, outcomes.drop_last());
    }
}

} // verus!
