//! One job: its state, the events that change it, and the laws of its
//! life: progress only moves forward, and a job that is done or has
//! failed changes no more.

use vstd::prelude::*;
use vstd::string::*;
use crate::band::{capped, lemma_bands_ordered, FileBand, FULL_SCALE, INFERRED_CAP};
use crate::progress::{EtaChange, LineUpdate, Stage};
use crate::text::name_views;

verus! {

/// Put before the command line in the log when a file's run starts.
pub const SPAWN_PREFIX: &'static str = "spawn: ";

/// Put before each line of the pipeline's error stream in the log.
pub const DIAGNOSTIC_PREFIX: &'static str = "[err] ";

/// The first line of every job's log.
pub const STARTED_LINE: &'static str = "job started";

/// The error of a job whose pipeline ended with a failure code.
pub const NON_ZERO_EXIT: &'static str = "dispatcher failed (non-zero exit code)";

/// Put before the system's reason when the pipeline could not be run.
pub const PROCESS_PREFIX: &'static str = "failed to spawn python: ";

/// Where a job stands. `Idle` is what no job ever is: it stands for the
/// time before anything was submitted.
#[derive(Clone, Copy, PartialEq, Eq, Debug, Structural)]
pub enum JobStatus {
    Idle,
    Running,
    Done,
    Error,
}

impl Default for JobStatus {
    /// Before anything is submitted there is nothing to run.
    fn default() -> (status: JobStatus)
        ensures
            status == JobStatus::Idle,
    {
        JobStatus::Idle
    }
}

/// Why a job failed.
pub enum Failure {
    /// The pipeline ran and ended with a failure code.
    NonZeroExit,
    /// The pipeline could not be started or waited for; the system's reason.
    Process(String),
}

/// What happens to a job.
pub enum JobEvent {
    /// The pipeline is started on the file that owns `band`.
    FileStarted { band: FileBand, command: String },
    /// The pipeline printed `line`, which tells `update`.
    Output { line: String, update: LineUpdate },
    /// The pipeline printed `line` on its error stream.
    Diagnostic { line: String },
    /// The pipeline ended well on the file that owns `band`.
    FileSucceeded { band: FileBand },
    /// The pipeline failed; the rest of the batch is given up.
    Failed { failure: Failure },
    /// Every file is through: the results found and the preview.
    Completed { outputs: Vec<String>, preview: String },
}

/// The message of a failure.
pub open spec fn failure_text(failure: FailureView) -> Seq<char> {
    match failure {
        FailureView::NonZeroExit => NON_ZERO_EXIT@,
        FailureView::Process(reason) => PROCESS_PREFIX@ + reason,
    }
}

/// A failure as the contracts see it.
pub enum FailureView {
    NonZeroExit,
    Process(Seq<char>),
}

impl View for Failure {
    type V = FailureView;

    open spec fn view(&self) -> FailureView {
        match self {
            Failure::NonZeroExit => FailureView::NonZeroExit,
            Failure::Process(reason) => FailureView::Process(reason@),
        }
    }
}

/// An event as the contracts see it.
pub enum JobEventView {
    FileStarted { band: FileBand, command: Seq<char> },
    Output { line: Seq<char>, update: LineUpdate },
    Diagnostic { line: Seq<char> },
    FileSucceeded { band: FileBand },
    Failed { failure: FailureView },
    Completed { outputs: Seq<Seq<char>>, preview: Seq<char> },
}

impl View for JobEvent {
    type V = JobEventView;

    open spec fn view(&self) -> JobEventView {
        match self {
            JobEvent::FileStarted { band, command } => JobEventView::FileStarted {
                band: *band,
                command: command@,
            },
            JobEvent::Output { line, update } => JobEventView::Output {
                line: line@,
                update: *update,
            },
            JobEvent::Diagnostic { line } => JobEventView::Diagnostic { line: line@ },
            JobEvent::FileSucceeded { band } => JobEventView::FileSucceeded { band: *band },
            JobEvent::Failed { failure } => JobEventView::Failed { failure: failure@ },
            JobEvent::Completed { outputs, preview } => JobEventView::Completed {
                outputs: name_views(outputs@),
                preview: preview@,
            },
        }
    }
}

impl JobEventView {
    /// The bands that the event names exist.
    pub open spec fn wf(self) -> bool {
        match self {
            JobEventView::FileStarted { band, .. } => band.wf(),
            JobEventView::FileSucceeded { band } => band.wf(),
            _ => true,
        }
    }
}

/// A job as the contracts see it. Progress is in millionths of the whole.
pub struct JobView {
    pub status: JobStatus,
    pub progress: u32,
    pub log: Seq<Seq<char>>,
    pub outputs: Seq<Seq<char>>,
    pub preview: Option<Seq<char>>,
    pub error: Option<Seq<char>>,
    pub stage: Option<Stage>,
    pub page_current: Option<u32>,
    pub page_total: Option<u32>,
    pub eta_seconds: Option<u32>,
}

/// The larger of `progress` and `target`.
pub open spec fn advanced(progress: u32, target: int) -> u32 {
    if target > progress {
        target as u32
    } else {
        progress
    }
}

/// `target` held within the scale.
pub open spec fn within_scale(target: int) -> int {
    if target <= 1_000_000 {
        target
    } else {
        1_000_000
    }
}

/// The estimate after a change to it.
pub open spec fn eta_changed(eta: Option<u32>, change: EtaChange) -> Option<u32> {
    match change {
        EtaChange::Keep => eta,
        EtaChange::Clear => None,
        EtaChange::Estimate(seconds) => Some(seconds),
    }
}

/// `new` where there is one, else `old`.
pub open spec fn replaced<T>(old: Option<T>, new: Option<T>) -> Option<T> {
    match new {
        Some(_) => new,
        None => old,
    }
}

impl JobView {
    /// A job as it is registered: running, at zero, its log opened.
    pub open spec fn started() -> JobView {
        JobView {
            status: JobStatus::Running,
            progress: 0,
            log: seq![STARTED_LINE@],
            outputs: Seq::empty(),
            preview: None,
            error: None,
            stage: None,
            page_current: None,
            page_total: None,
            eta_seconds: None,
        }
    }

    /// Whether the job is done or has failed.
    pub open spec fn is_terminal(self) -> bool {
        self.status == JobStatus::Done || self.status == JobStatus::Error
    }

    /// What holds of every job: it is never idle; its progress lies within
    /// the scale and is full once it is done; it has an error exactly when
    /// it failed, and results and a preview only when it is done. A job
    /// whose last file has ended well stands at the full scale while it is
    /// still running, until it is completed.
    pub open spec fn wf(self) -> bool {
        &&& self.status != JobStatus::Idle
        &&& self.progress <= FULL_SCALE
        &&& (self.status == JobStatus::Done ==> self.progress == FULL_SCALE)
        &&& (self.error is Some <==> self.status == JobStatus::Error)
        &&& (self.preview is Some <==> self.status == JobStatus::Done)
        &&& (self.outputs.len() > 0 ==> self.status == JobStatus::Done)
    }

    /// The job after `event`. Only a running job changes.
    pub open spec fn step(self, event: JobEventView) -> JobView {
        if self.status != JobStatus::Running {
            self
        } else {
            match event {
                JobEventView::FileStarted { band, command } => JobView {
                    log: self.log.push(SPAWN_PREFIX@ + command),
                    progress: advanced(self.progress, capped(band.start_point())),
                    ..self
                },
                JobEventView::Output { line, update } => JobView {
                    log: self.log.push(line),
                    page_current: replaced(self.page_current, update.page_current),
                    page_total: replaced(self.page_total, update.page_total),
                    stage: replaced(self.stage, update.stage),
                    eta_seconds: eta_changed(self.eta_seconds, update.eta),
                    progress: match update.target {
                        Some(target) => advanced(self.progress, capped(target as int)),
                        None => self.progress,
                    },
                    ..self
                },
                JobEventView::Diagnostic { line } => JobView {
                    log: self.log.push(DIAGNOSTIC_PREFIX@ + line),
                    ..self
                },
                JobEventView::FileSucceeded { band } => JobView {
                    progress: advanced(self.progress, within_scale(band.end_point())),
                    ..self
                },
                JobEventView::Failed { failure } => JobView {
                    status: JobStatus::Error,
                    error: Some(failure_text(failure)),
                    ..self
                },
                JobEventView::Completed { outputs, preview } => JobView {
                    status: JobStatus::Done,
                    progress: FULL_SCALE,
                    outputs,
                    preview: Some(preview),
                    ..self
                },
            }
        }
    }

    /// The job after each of `events` in turn.
    pub open spec fn run(self, events: Seq<JobEventView>) -> JobView
        decreases events.len(),
    {
        if events.len() == 0 {
            self
        } else {
            self.run(events.drop_last()).step(events.last())
        }
    }
}

/// One job's record.
pub struct JobInfo {
    status: JobStatus,
    progress: u32,
    log: Vec<String>,
    outputs: Vec<String>,
    preview: Option<String>,
    error: Option<String>,
    stage: Option<Stage>,
    page_current: Option<u32>,
    page_total: Option<u32>,
    eta_seconds: Option<u32>,
}

impl View for JobInfo {
    type V = JobView;

    closed spec fn view(&self) -> JobView {
        JobView {
            status: self.status,
            progress: self.progress,
            log: name_views(self.log@),
            outputs: name_views(self.outputs@),
            preview: self.preview.deep_view(),
            error: self.error.deep_view(),
            stage: self.stage,
            page_current: self.page_current,
            page_total: self.page_total,
            eta_seconds: self.eta_seconds,
        }
    }
}

/// `prefix` followed by `rest`.
pub fn prefixed(prefix: &str, rest: &str) -> (out: String)
    ensures
        out@ == prefix@ + rest@,
{
    let mut out = String::from_str(prefix);
    out.append(rest);
    out
}

/// The message of a failure.
pub fn failure_message(failure: &Failure) -> (out: String)
    ensures
        out@ == failure_text(failure@),
{
    match failure {
        Failure::NonZeroExit => String::from_str(NON_ZERO_EXIT),
        Failure::Process(reason) => prefixed(PROCESS_PREFIX, reason.as_str()),
    }
}

fn advance(progress: u32, target: u32) -> (p: u32)
    ensures
        p == advanced(progress, target as int),
{
    if target > progress {
        target
    } else {
        progress
    }
}

impl JobInfo {
    /// A job as it is registered.
    pub fn start() -> (job: JobInfo)
        ensures
            job@ == JobView::started(),
            job@.wf(),
    {
        let mut log: Vec<String> = Vec::new();
        log.push(String::from_str(STARTED_LINE));
        let job = JobInfo {
            status: JobStatus::Running,
            progress: 0,
            log,
            outputs: Vec::new(),
            preview: None,
            error: None,
            stage: None,
            page_current: None,
            page_total: None,
            eta_seconds: None,
        };
        assert(name_views(job.log@) =~= seq![STARTED_LINE@]);
        assert(name_views(job.outputs@) =~= Seq::<Seq<char>>::empty());
        job
    }

    /// Where the job stands.
    pub fn status(&self) -> (s: JobStatus)
        ensures
            s == self@.status,
    {
        self.status
    }

    /// Progress in millionths of the whole job.
    pub fn progress(&self) -> (p: u32)
        ensures
            p == self@.progress,
    {
        self.progress
    }

    /// Every line seen so far, in the order of arrival.
    pub fn log(&self) -> (log: &Vec<String>)
        ensures
            name_views(log@) == self@.log,
    {
        &self.log
    }

    /// The names of the result files.
    pub fn outputs(&self) -> (outputs: &Vec<String>)
        ensures
            name_views(outputs@) == self@.outputs,
    {
        &self.outputs
    }

    /// The text that is shown of the job's results, once it is done.
    pub fn preview(&self) -> (preview: &Option<String>)
        ensures
            preview.deep_view() == self@.preview,
    {
        &self.preview
    }

    /// Why the job failed, if it did.
    pub fn error(&self) -> (error: &Option<String>)
        ensures
            error.deep_view() == self@.error,
    {
        &self.error
    }

    /// What the pipeline is doing, as far as its output has told.
    pub fn stage(&self) -> (stage: Option<Stage>)
        ensures
            stage == self@.stage,
    {
        self.stage
    }

    /// The page that is being worked on.
    pub fn page_current(&self) -> (page: Option<u32>)
        ensures
            page == self@.page_current,
    {
        self.page_current
    }

    /// The number of pages.
    pub fn page_total(&self) -> (pages: Option<u32>)
        ensures
            pages == self@.page_total,
    {
        self.page_total
    }

    /// The estimate of the time left, in seconds.
    pub fn eta_seconds(&self) -> (eta: Option<u32>)
        ensures
            eta == self@.eta_seconds,
    {
        self.eta_seconds
    }

    fn push_log(&mut self, line: String)
        ensures
            final(self)@ == (JobView { log: old(self)@.log.push(line@), ..old(self)@ }),
    {
        self.log.push(line);
        assert(name_views(self.log@) =~= name_views(old(self).log@).push(line@));
    }

    /// Takes `event` in. Only a running job changes, and what holds of
    /// every job goes on holding.
    pub fn apply(&mut self, event: JobEvent)
        ensures
            final(self)@ == old(self)@.step(event@),
            old(self)@.wf() ==> final(self)@.wf(),
    {
        proof {
            match &event {
                JobEvent::FileStarted { band, .. } => {
                    use_type_invariant(band);
                },
                JobEvent::FileSucceeded { band } => {
                    use_type_invariant(band);
                },
                _ => {},
            }
            if old(self)@.wf() {
                lemma_step_keeps_wf(old(self)@, event@);
            }
        }
        if self.status != JobStatus::Running {
            return ;
        }
        match event {
            JobEvent::FileStarted { band, command } => {
                self.push_log(prefixed(SPAWN_PREFIX, command.as_str()));
                let start: u32 = band.start();
                let target: u32 = if start <= INFERRED_CAP {
                    start
                } else {
                    INFERRED_CAP
                };
                self.progress = advance(self.progress, target);
            },
            JobEvent::Output { line, update } => {
                self.push_log(line);
                if update.page_current.is_some() {
                    self.page_current = update.page_current;
                }
                if update.page_total.is_some() {
                    self.page_total = update.page_total;
                }
                if update.stage.is_some() {
                    self.stage = update.stage;
                }
                match update.eta {
                    EtaChange::Keep => {},
                    EtaChange::Clear => {
                        self.eta_seconds = None;
                    },
                    EtaChange::Estimate(seconds) => {
                        self.eta_seconds = Some(seconds);
                    },
                }
                match update.target {
                    Some(target) => {
                        let held: u32 = if target <= INFERRED_CAP {
                            target
                        } else {
                            INFERRED_CAP
                        };
                        self.progress = advance(self.progress, held);
                    },
                    None => {},
                }
            },
            JobEvent::Diagnostic { line } => {
                self.push_log(prefixed(DIAGNOSTIC_PREFIX, line.as_str()));
            },
            JobEvent::FileSucceeded { band } => {
                let end: u32 = band.end();
                self.progress = advance(self.progress, end);
            },
            JobEvent::Failed { failure } => {
                self.status = JobStatus::Error;
                self.error = Some(failure_message(&failure));
            },
            JobEvent::Completed { outputs, preview } => {
                self.status = JobStatus::Done;
                self.progress = FULL_SCALE;
                self.outputs = outputs;
                self.preview = Some(preview);
            },
        }
    }
}

/// An event keeps a job well formed.
pub proof fn lemma_step_keeps_wf(job: JobView, event: JobEventView)
    requires
        job.wf(),
        event.wf(),
    ensures
        job.step(event).wf(),
{
    match event {
        JobEventView::FileStarted { band, .. } => {
            lemma_bands_ordered(band.file_index(), band.file_count());
        },
        JobEventView::FileSucceeded { band } => {
            lemma_bands_ordered(band.file_index(), band.file_count());
        },
        _ => {},
    }
}

/// No event moves a job's progress back.
pub proof fn lemma_step_moves_forward(job: JobView, event: JobEventView)
    requires
        job.wf(),
        event.wf(),
    ensures
        job.progress <= job.step(event).progress,
{
    match event {
        JobEventView::FileStarted { band, .. } => {
            lemma_bands_ordered(band.file_index(), band.file_count());
        },
        JobEventView::FileSucceeded { band } => {
            lemma_bands_ordered(band.file_index(), band.file_count());
        },
        _ => {},
    }
}

/// A job leaves `Running` at most once: an event keeps its status, or takes
/// it from `Running` to `Done` or `Error`; and a job that is done or has
/// failed is left as it is by every event.
pub proof fn lemma_step_status(job: JobView, event: JobEventView)
    ensures
        job.step(event).status == job.status || (job.status == JobStatus::Running && job.step(
            event,
        ).is_terminal()),
        job.status != JobStatus::Running ==> job.step(event) == job,
{
}

/// What a job is after a part of its events it still is, or has moved on
/// from, after more of them: sampled at two times, progress has not gone
/// back, and a status once terminal has stayed, with everything else.
pub proof fn lemma_run_laws(job: JobView, events: Seq<JobEventView>, earlier: int, later: int)
    requires
        job.wf(),
        forall|i: int| 0 <= i < events.len() ==> (#[trigger] events[i]).wf(),
        0 <= earlier <= later <= events.len(),
    ensures
        job.run(events.take(earlier)).wf(),
        job.run(events.take(later)).wf(),
        job.run(events.take(earlier)).progress <= job.run(events.take(later)).progress,
        job.run(events.take(earlier)).is_terminal() ==> job.run(events.take(later)) == job.run(
            events.take(earlier),
        ),
        job.run(events.take(earlier)).status == JobStatus::Running || job.run(
            events.take(later),
        ).status == job.run(events.take(earlier)).status,
    decreases later,
{
    if later == 0 {
        assert(events.take(0).len() == 0);
    } else if earlier == later {
        lemma_run_laws(job, events, earlier - 1, later - 1);
        assert(events.take(later).drop_last() =~= events.take(later - 1));
        let before = job.run(events.take(later - 1));
        lemma_step_keeps_wf(before, events[later - 1]);
    } else {
        lemma_run_laws(job, events, earlier, later - 1);
        assert(events.take(later).drop_last() =~= events.take(later - 1));
        let before = job.run(events.take(later - 1));
        lemma_step_keeps_wf(before, events[later - 1]);
        lemma_step_moves_forward(before, events[later - 1]);
        lemma_step_status(before, events[later - 1]);
    }
}

/// Every job that the library makes is well formed, whatever happened to
/// it since it started.
pub proof fn lemma_started_job_wf(events: Seq<JobEventView>)
    requires
        forall|i: int| 0 <= i < events.len() ==> (#[trigger] events[i]).wf(),
    ensures
        JobView::started().run(events).wf(),
{
    lemma_run_laws(JobView::started(), events, 0, events.len() as int);
    assert(events.take(events.len() as int) =~= events);
}

/// A job's log only grows: whatever happens, every line that it held
/// before it still holds, in the same place.
pub proof fn lemma_log_only_grows(job: JobView, events: Seq<JobEventView>)
    ensures
        job.log.is_prefix_of(job.run(events).log),
    decreases events.len(),
{
    if events.len() > 0 {
        lemma_log_only_grows(job, events.drop_last());
        let before = job.run(events.drop_last());
        let after = before.step(events.last());
        assert(before.log.is_prefix_of(after.log)) by {
            if after.log != before.log {
                assert(after.log.len() == before.log.len() + 1);
                assert(after.log.subrange(0, before.log.len() as int) =~= before.log);
            }
        }
        assert(job.log.is_prefix_of(after.log)) by {
            assert(after.log.subrange(0, job.log.len() as int) =~= before.log.subrange(
                0,
                job.log.len() as int,
            ));
        }
    }
}

} // verus!
