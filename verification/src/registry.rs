//! The job registry: every job by its id.
//!
//! The registry is plain data. Whoever shares it between threads puts it
//! behind one lock, so that each operation here is one atomic step; an
//! operation on one id leaves every other job as it was.

use vstd::prelude::*;
use vstd::hash_map::StringHashMap;
use crate::error::JobError;
use crate::job::{JobEvent, JobInfo, JobView};

verus! {

/// Every job by its id.
pub struct JobRegistry {
    /// Where each id's job stands in `jobs`.
    index: StringHashMap<usize>,
    jobs: Vec<JobInfo>,
}

impl View for JobRegistry {
    type V = Map<Seq<char>, JobView>;

    closed spec fn view(&self) -> Map<Seq<char>, JobView> {
        Map::new(
            |id: Seq<char>| self.index@.contains_key(id),
            |id: Seq<char>| self.jobs@[self.index@[id] as int]@,
        )
    }
}

impl JobRegistry {
    /// Each id has a place of its own among the jobs, and what holds of
    /// every job holds of each of them.
    pub closed spec fn wf(&self) -> bool {
        &&& forall|i: int| 0 <= i < self.jobs@.len() ==> (#[trigger] self.jobs@[i])@.wf()
        &&& forall|id: Seq<char>| #[trigger]
            self.index@.contains_key(id) ==> self.index@[id] < self.jobs@.len()
        &&& forall|a: Seq<char>, b: Seq<char>|
            #![trigger self.index@[a], self.index@[b]]
            self.index@.contains_key(a) && self.index@.contains_key(b) && a != b
                ==> self.index@[a] != self.index@[b]
    }

    /// What holds of every job holds of every job in a registry.
    pub proof fn lemma_jobs_wf(&self, job_id: Seq<char>)
        requires
            self.wf(),
            self@.contains_key(job_id),
        ensures
            self@[job_id].wf(),
    {
    }

    /// A registry without jobs.
    pub fn new() -> (registry: JobRegistry)
        ensures
            registry.wf(),
            registry@ == Map::<Seq<char>, JobView>::empty(),
    {
        let registry = JobRegistry { index: StringHashMap::new(), jobs: Vec::new() };
        assert(registry@ =~= Map::<Seq<char>, JobView>::empty());
        registry
    }

    /// The number of jobs.
    pub fn job_count(&self) -> (count: usize)
        ensures
            count == self@.dom().len(),
    {
        assert(self@.dom() =~= self.index@.dom());
        self.index.len()
    }

    /// Whether a job has this id.
    pub fn contains(&self, job_id: &str) -> (found: bool)
        ensures
            found == self@.contains_key(job_id@),
    {
        self.index.contains_key(job_id)
    }

    /// Registers a new job under `job_id`: running, at zero. An id that is
    /// taken is refused and nothing changes.
    pub fn create(&mut self, job_id: String) -> (r: Result<(), JobError>)
        requires
            old(self).wf(),
        ensures
            final(self).wf(),
            match r {
                Ok(()) => !old(self)@.contains_key(job_id@) && final(self)@ == old(self)@.insert(
                    job_id@,
                    JobView::started(),
                ),
                Err(e) => old(self)@.contains_key(job_id@) && e == JobError::DuplicateJob
                    && final(self)@ == old(self)@,
            },
    {
        if self.index.contains_key(job_id.as_str()) {
            return Err(JobError::DuplicateJob);
        }
        let slot: usize = self.jobs.len();
        self.jobs.push(JobInfo::start());
        self.index.insert(job_id, slot);
        assert(final(self)@ =~= old(self)@.insert(job_id@, JobView::started()));
        Ok(())
    }

    /// The job with this id.
    pub fn get(&self, job_id: &str) -> (r: Result<&JobInfo, JobError>)
        requires
            self.wf(),
        ensures
            match r {
                Ok(job) => self@.contains_key(job_id@) && job@ == self@[job_id@],
                Err(e) => !self@.contains_key(job_id@) && e == JobError::JobNotFound,
            },
    {
        match self.index.get(job_id) {
            Some(slot) => Ok(&self.jobs[*slot]),
            None => Err(JobError::JobNotFound),
        }
    }

    /// Lets `event` happen to the job with this id, as one step. Every
    /// other job stays as it is.
    pub fn apply(&mut self, job_id: &str, event: JobEvent) -> (r: Result<(), JobError>)
        requires
            old(self).wf(),
        ensures
            final(self).wf(),
            match r {
                Ok(()) => old(self)@.contains_key(job_id@) && final(self)@ == old(self)@.insert(
                    job_id@,
                    old(self)@[job_id@].step(event@),
                ),
                Err(e) => !old(self)@.contains_key(job_id@) && e == JobError::JobNotFound
                    && final(self)@ == old(self)@,
            },
    {
        let slot: usize = match self.index.get(job_id) {
            Some(slot) => *slot,
            None => {
                return Err(JobError::JobNotFound);
            },
        };
        let job = &mut self.jobs[slot];
        job.apply(event);
        assert(final(self)@ =~= old(self)@.insert(job_id@, old(self)@[job_id@].step(event@)));
        Ok(())
    }
}

} // verus!
