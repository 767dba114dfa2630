//! The tracker of background jobs: it keeps the jobs in the order in
//! which they arrived, applies transitions to them by id, and says what a
//! consumer is to be told of each change.

use crate::jobs::{Job, JobError, JobStatus, JobType, JobUpdate};
use crate::text::{str_eq, text_of};
use vstd::prelude::*;
use vstd::string::*;

verus! {

/// Milliseconds in a day.
pub const DAY_MS: i64 = 86_400_000;

/// The place of the job with the id `id` among `jobs`, if it is there.
pub open spec fn position(jobs: Seq<Job>, id: Seq<char>) -> Option<int>
    decreases jobs.len(),
{
    if jobs.len() == 0 {
        None
    } else if position(jobs.drop_last(), id) is Some {
        position(jobs.drop_last(), id)
    } else if jobs.last().id@ == id {
        Some(jobs.len() - 1)
    } else {
        None
    }
}

/// No two of the jobs share an id.
pub open spec fn distinct_ids(jobs: Seq<Job>) -> bool {
    forall|i: int, j: int| 0 <= i < j < jobs.len() ==> jobs[i].id@ != jobs[j].id@
}

/// All the jobs are well formed.
pub open spec fn all_well_formed(jobs: Seq<Job>) -> bool {
    forall|i: int| 0 <= i < jobs.len() ==> (#[trigger] jobs[i]).well_formed()
}

/// What `position` finds is the first job with the id, and it finds
/// nothing only if no job has the id.
pub proof fn lemma_position(jobs: Seq<Job>, id: Seq<char>)
    ensures
        match position(jobs, id) {
            Some(i) => 0 <= i < jobs.len() && jobs[i].id@ == id && forall|j: int|
                0 <= j < i ==> jobs[j].id@ != id,
            None => forall|j: int| 0 <= j < jobs.len() ==> jobs[j].id@ != id,
        },
    decreases jobs.len(),
{
    if jobs.len() > 0 {
        lemma_position(jobs.drop_last(), id);
        assert forall|j: int| 0 <= j < jobs.len() - 1 implies jobs[j] == jobs.drop_last()[j] by {}
    }
}

/// The notice of a change: the job's id, the state's name, a percentage
/// and, for a failure, the message.
pub open spec fn notice_of(
    update: JobUpdate,
    id: Seq<char>,
    status: JobStatus,
    progress: int,
    error: Option<Seq<char>>,
) -> bool {
    &&& update.id@ == id
    &&& update.status@ == status.label()
    &&& update.progress == progress
    &&& text_of(update.error) == error
}

fn notice(id: &str, status: JobStatus, progress: i32, error: Option<String>) -> (update: JobUpdate)
    ensures
        notice_of(update, id@, status, progress as int, text_of(error)),
{
    JobUpdate {
        id: String::from_str(id),
        status: String::from_str(status.as_str()),
        progress,
        error,
    }
}

/// Keeps track of background jobs.
#[derive(Debug)]
pub struct JobManager {
    jobs: Vec<Job>,
}

impl JobManager {
    #[verifier::type_invariant]
    spec fn sound(&self) -> bool {
        all_well_formed(self.jobs@) && distinct_ids(self.jobs@)
    }

    /// The tracked jobs, in the order in which they arrived.
    pub closed spec fn jobs(&self) -> Seq<Job> {
        self.jobs@
    }

    /// A tracker without jobs.
    pub fn new() -> (manager: Self)
        ensures
            manager.jobs().len() == 0,
    {
        JobManager { jobs: Vec::new() }
    }

    /// How many jobs are tracked. Whatever their number, the jobs are
    /// well formed and no two of them share an id.
    pub fn len(&self) -> (count: usize)
        ensures
            count == self.jobs().len(),
            all_well_formed(self.jobs()),
            distinct_ids(self.jobs()),
    {
        proof {
            use_type_invariant(self);
        }
        self.jobs.len()
    }

    fn find(&self, id: &str) -> (place: Option<usize>)
        ensures
            match place {
                Some(i) => position(self.jobs(), id@) == Some(i as int) && i < self.jobs().len(),
                None => position(self.jobs(), id@) is None,
            },
    {
        let mut i: usize = 0;
        while i < self.jobs.len()
            invariant
                i <= self.jobs@.len(),
                position(self.jobs@.take(i as int), id@) is None,
            decreases self.jobs@.len() - i,
        {
            proof {
                assert(self.jobs@.take(i + 1).drop_last() =~= self.jobs@.take(i as int));
            }
            if str_eq(self.jobs[i].id.as_str(), id) {
                proof {
                    lemma_position(self.jobs@, id@);
                    lemma_position(self.jobs@.take(i as int), id@);
                    let found = position(self.jobs@, id@);
                    assert(self.jobs@[i as int].id@ == id@);
                    if found != Some(i as int) {
                        let j = found.unwrap();
                        assert(j < i);
                        assert(self.jobs@.take(i as int)[j] == self.jobs@[j]);
                    }
                }
                return Some(i);
            }
            i += 1;
        }
        proof {
            assert(self.jobs@.take(i as int) =~= self.jobs@);
        }
        None
    }

    fn exchange(&mut self, i: usize, job: &mut Job)
        requires
            i < old(self).jobs().len(),
            old(job).well_formed(),
            old(job).id@ == old(self).jobs()[i as int].id@,
        ensures
            final(self).jobs() == old(self).jobs().update(i as int, *old(job)),
            *final(job) == old(self).jobs()[i as int],
    {
        proof {
            use_type_invariant(&*self);
        }
        let mut jobs: Vec<Job> = Vec::new();
        core::mem::swap(&mut self.jobs, &mut jobs);
        jobs.set_and_swap(i, job);
        core::mem::swap(&mut self.jobs, &mut jobs);
    }

    fn stand_in(&self, i: usize) -> (job: Job)
        requires
            i < self.jobs().len(),
        ensures
            job.well_formed(),
            job.id@ == self.jobs()[i as int].id@,
    {
        Job::with_id(self.jobs[i].id.clone(), JobType::Summarize, None, 0)
    }

    /// Takes `job` into the tracker. A malformed job and a job whose id
    /// is already tracked are turned down, and nothing changes.
    pub fn submit(&mut self, job: Job) -> (taken: Result<(), JobError>)
        ensures
            taken == if !job.well_formed() {
                Err::<(), JobError>(JobError::Malformed)
            } else if position(old(self).jobs(), job.id@) is Some {
                Err(JobError::DuplicateId)
            } else {
                Ok(())
            },
            final(self).jobs() == if taken is Ok {
                old(self).jobs().push(job)
            } else {
                old(self).jobs()
            },
    {
        if !job.is_well_formed() {
            return Err(JobError::Malformed);
        }
        if self.find(job.id.as_str()).is_some() {
            return Err(JobError::DuplicateId);
        }
        proof {
            use_type_invariant(&*self);
            lemma_position(self.jobs@, job.id@);
        }
        let mut jobs: Vec<Job> = Vec::new();
        core::mem::swap(&mut self.jobs, &mut jobs);
        jobs.push(job);
        core::mem::swap(&mut self.jobs, &mut jobs);
        Ok(())
    }

    /// Creates a pending job with a fresh random id at `now` and tracks
    /// it. Hands back the id. Should the id be tracked already, nothing
    /// changes and the call fails; a tracker without jobs has no id to
    /// clash with, so there the call succeeds whatever id is drawn.
    pub fn start_job(&mut self, job_type: JobType, citekey: Option<String>, now: i64) -> (started:
        Result<String, JobError>)
        ensures
            old(self).jobs().len() == 0 ==> started is Ok,
            match started {
                Ok(id) => position(old(self).jobs(), id@) is None && final(self).jobs() == old(
                    self,
                ).jobs().push(
                    Job {
                        id: final(self).jobs().last().id,
                        job_type,
                        citekey,
                        status: JobStatus::Pending,
                        progress: 0,
                        error: None,
                        log_path: None,
                        started_at: None,
                        finished_at: None,
                        created_at: now,
                    },
                ) && final(self).jobs().last().id@ == id@,
                Err(error) => error == JobError::DuplicateId && final(self).jobs() == old(
                    self,
                ).jobs(),
            },
    {
        let job = Job::new(job_type, citekey, now);
        let id = job.id.clone();
        match self.submit(job) {
            Ok(()) => Ok(id),
            Err(error) => Err(error),
        }
    }

    /// The job with the id `id`, if it is tracked.
    pub fn get_job(&self, id: &str) -> (job: Option<&Job>)
        ensures
            match position(self.jobs(), id@) {
                Some(i) => job == Some(&self.jobs()[i]),
                None => job is None,
            },
    {
        match self.find(id) {
            Some(i) => Some(&self.jobs[i]),
            None => None,
        }
    }

    /// Starts the job `id` at `now`. A pending job runs from now on, and
    /// its consumer is told so; a running job stays as it is, silently; a
    /// job in a final state, or none at all, fails the call.
    pub fn mark_running(&mut self, id: &str, now: i64) -> (told: Result<Option<JobUpdate>, JobError>)
        ensures
            match position(old(self).jobs(), id@) {
                Some(i) => {
                    let before = old(self).jobs()[i];
                    &&& final(self).jobs() == old(self).jobs().update(i, before.started(now))
                    &&& match before.status {
                        JobStatus::Pending => told matches Ok(Some(update)) && notice_of(
                            update,
                            id@,
                            JobStatus::Running,
                            0,
                            None,
                        ),
                        JobStatus::Running => told matches Ok(None),
                        _ => told matches Err(JobError::InvalidTransition),
                    }
                },
                None => final(self).jobs() == old(self).jobs() && told matches Err(
                    JobError::NotFound,
                ),
            },
    {
        let i = match self.find(id) {
            Some(i) => i,
            None => {
                return Err(JobError::NotFound);
            },
        };
        proof {
            use_type_invariant(&*self);
        }
        let mut job = self.stand_in(i);
        self.exchange(i, &mut job);
        let changed = job.mark_running(now);
        self.exchange(i, &mut job);
        proof {
            assert(self.jobs@ =~= old(self).jobs@.update(i as int, old(self).jobs@[i as int].started(now)));
        }
        match changed {
            Ok(true) => Ok(Some(notice(id, JobStatus::Running, 0, None))),
            Ok(false) => Ok(None),
            Err(error) => Err(error),
        }
    }

    /// Reports progress of the running job `id`; see `Job::update_progress`.
    /// The consumer is told the progress in force.
    pub fn update_progress(&mut self, id: &str, progress: i32) -> (told: Result<JobUpdate, JobError>)
        ensures
            match position(old(self).jobs(), id@) {
                Some(i) => {
                    let before = old(self).jobs()[i];
                    &&& final(self).jobs() == old(self).jobs().update(i, before.progressed(progress))
                    &&& if before.status == JobStatus::Running {
                        told matches Ok(update) && notice_of(
                            update,
                            id@,
                            JobStatus::Running,
                            before.progressed(progress).progress as int,
                            None,
                        )
                    } else {
                        told matches Err(JobError::InvalidTransition)
                    }
                },
                None => final(self).jobs() == old(self).jobs() && told matches Err(
                    JobError::NotFound,
                ),
            },
    {
        let i = match self.find(id) {
            Some(i) => i,
            None => {
                return Err(JobError::NotFound);
            },
        };
        proof {
            use_type_invariant(&*self);
        }
        let mut job = self.stand_in(i);
        self.exchange(i, &mut job);
        let changed = job.update_progress(progress);
        self.exchange(i, &mut job);
        proof {
            assert(self.jobs@ =~= old(self).jobs@.update(
                i as int,
                old(self).jobs@[i as int].progressed(progress),
            ));
        }
        match changed {
            Ok(in_force) => Ok(notice(id, JobStatus::Running, in_force, None)),
            Err(error) => Err(error),
        }
    }

    /// Completes the job `id` at `now`; see `Job::mark_completed`. The
    /// consumer is told that the job is complete, at 100 percent.
    pub fn mark_completed(&mut self, id: &str, now: i64) -> (told: Result<JobUpdate, JobError>)
        ensures
            match position(old(self).jobs(), id@) {
                Some(i) => {
                    let before = old(self).jobs()[i];
                    &&& final(self).jobs() == old(self).jobs().update(
                        i,
                        before.ended(JobStatus::Completed, now, None),
                    )
                    &&& if before.status.is_active() {
                        told matches Ok(update) && notice_of(
                            update,
                            id@,
                            JobStatus::Completed,
                            100,
                            None,
                        )
                    } else {
                        told matches Err(JobError::InvalidTransition)
                    }
                },
                None => final(self).jobs() == old(self).jobs() && told matches Err(
                    JobError::NotFound,
                ),
            },
    {
        let i = match self.find(id) {
            Some(i) => i,
            None => {
                return Err(JobError::NotFound);
            },
        };
        proof {
            use_type_invariant(&*self);
        }
        let mut job = self.stand_in(i);
        self.exchange(i, &mut job);
        let changed = job.mark_completed(now);
        self.exchange(i, &mut job);
        proof {
            assert(self.jobs@ =~= old(self).jobs@.update(
                i as int,
                old(self).jobs@[i as int].ended(JobStatus::Completed, now, None),
            ));
        }
        match changed {
            Ok(()) => Ok(notice(id, JobStatus::Completed, 100, None)),
            Err(error) => Err(error),
        }
    }

    /// Fails the job `id` at `now` with the message `error`; see
    /// `Job::mark_failed`. The consumer is told that the job failed, and why.
    pub fn mark_failed(&mut self, id: &str, now: i64, error: &str) -> (told: Result<
        JobUpdate,
        JobError,
    >)
        ensures
            match position(old(self).jobs(), id@) {
                Some(i) => {
                    let before = old(self).jobs()[i];
                    let message = final(self).jobs()[i].error;
                    &&& final(self).jobs() == old(self).jobs().update(
                        i,
                        before.ended(JobStatus::Failed, now, message),
                    )
                    &&& if before.status.is_active() {
                        &&& text_of(message) == Some(error@)
                        &&& told matches Ok(update) && notice_of(
                            update,
                            id@,
                            JobStatus::Failed,
                            0,
                            Some(error@),
                        )
                    } else {
                        told matches Err(JobError::InvalidTransition)
                    }
                },
                None => final(self).jobs() == old(self).jobs() && told matches Err(
                    JobError::NotFound,
                ),
            },
    {
        let i = match self.find(id) {
            Some(i) => i,
            None => {
                return Err(JobError::NotFound);
            },
        };
        proof {
            use_type_invariant(&*self);
        }
        let mut job = self.stand_in(i);
        self.exchange(i, &mut job);
        let changed = job.mark_failed(now, String::from_str(error));
        self.exchange(i, &mut job);
        proof {
            assert(self.jobs@ =~= old(self).jobs@.update(
                i as int,
                old(self).jobs@[i as int].ended(JobStatus::Failed, now, self.jobs@[i as int].error),
            ));
        }
        match changed {
            Ok(()) => Ok(notice(id, JobStatus::Failed, 0, Some(String::from_str(error)))),
            Err(error) => Err(error),
        }
    }

    /// Cancels the job `id` at `now`; see `Job::cancel`. A pending or
    /// running job is cancelled and the consumer is told so; a job in a
    /// final state, or none at all, leaves everything as it is and nobody
    /// is told.
    pub fn cancel_job(&mut self, id: &str, now: i64) -> (told: Option<JobUpdate>)
        ensures
            match position(old(self).jobs(), id@) {
                Some(i) => {
                    let before = old(self).jobs()[i];
                    &&& final(self).jobs() == old(self).jobs().update(
                        i,
                        before.ended(JobStatus::Cancelled, now, None),
                    )
                    &&& told is Some == before.status.is_active()
                },
                None => final(self).jobs() == old(self).jobs() && told is None,
            },
            told matches Some(update) ==> notice_of(update, id@, JobStatus::Cancelled, 0, None),
            told is None ==> final(self).jobs() == old(self).jobs(),
    {
        let i = match self.find(id) {
            Some(i) => i,
            None => {
                return None;
            },
        };
        proof {
            use_type_invariant(&*self);
        }
        let mut job = self.stand_in(i);
        self.exchange(i, &mut job);
        let cancelled = job.cancel(now);
        self.exchange(i, &mut job);
        proof {
            assert(self.jobs@ =~= old(self).jobs@.update(
                i as int,
                old(self).jobs@[i as int].ended(JobStatus::Cancelled, now, None),
            ));
            if !cancelled {
                assert(self.jobs@ =~= old(self).jobs@);
            }
        }
        if cancelled {
            Some(notice(id, JobStatus::Cancelled, 0, None))
        } else {
            None
        }
    }
}

/// A job is listed under a filter when there is none or its state is the
/// one asked for.
pub open spec fn is_listed(job: Job, status: Option<JobStatus>) -> bool {
    status matches Some(wanted) ==> job.status == wanted
}

/// The newest `limit` jobs that a filter lists, newest first.
pub open spec fn listing(jobs: Seq<Job>, status: Option<JobStatus>, limit: nat) -> Seq<Job>
    decreases jobs.len(),
{
    if jobs.len() == 0 || limit == 0 {
        Seq::empty()
    } else if is_listed(jobs.last(), status) {
        seq![jobs.last()] + listing(jobs.drop_last(), status, (limit - 1) as nat)
    } else {
        listing(jobs.drop_last(), status, limit)
    }
}

/// The pending and running jobs, oldest first.
pub open spec fn active_jobs(jobs: Seq<Job>) -> Seq<Job>
    decreases jobs.len(),
{
    if jobs.len() == 0 {
        Seq::empty()
    } else if jobs.last().status.is_active() {
        active_jobs(jobs.drop_last()).push(jobs.last())
    } else {
        active_jobs(jobs.drop_last())
    }
}

/// The instant before which a finished job is old: `days_old` days before `now`.
pub open spec fn cutoff(now: i64, days_old: i64) -> int {
    now - days_old * DAY_MS
}

/// A job is cleaned up when it is in a final state and was created
/// before the cutoff.
pub open spec fn is_expired(job: Job, cutoff: int) -> bool {
    job.status.is_final() && job.created_at < cutoff
}

/// The jobs that a cleanup keeps, in their order.
pub open spec fn unexpired(jobs: Seq<Job>, cutoff: int) -> Seq<Job>
    decreases jobs.len(),
{
    if jobs.len() == 0 {
        Seq::empty()
    } else if is_expired(jobs.last(), cutoff) {
        unexpired(jobs.drop_last(), cutoff)
    } else {
        unexpired(jobs.drop_last(), cutoff).push(jobs.last())
    }
}

/// A job works for the record `citekey` and is pending or running.
pub open spec fn is_active_for(job: Job, citekey: Seq<char>) -> bool {
    job.status.is_active() && text_of(job.citekey) == Some(citekey)
}

/// The oldest pending job, if any.
pub open spec fn oldest_pending(jobs: Seq<Job>) -> Option<Job>
    decreases jobs.len(),
{
    if jobs.len() == 0 {
        None
    } else if oldest_pending(jobs.drop_last()) is Some {
        oldest_pending(jobs.drop_last())
    } else if jobs.last().status == JobStatus::Pending {
        Some(jobs.last())
    } else {
        None
    }
}

/// The jobs that a vector of references points to.
pub open spec fn pointed_to(refs: Seq<&Job>) -> Seq<Job> {
    Seq::new(refs.len(), |i: int| *refs[i])
}

proof fn lemma_unexpired_is_part(jobs: Seq<Job>, cutoff: int)
    requires
        all_well_formed(jobs),
        distinct_ids(jobs),
    ensures
        all_well_formed(unexpired(jobs, cutoff)),
        distinct_ids(unexpired(jobs, cutoff)),
        unexpired(jobs, cutoff).len() <= jobs.len(),
        forall|i: int|
            0 <= i < unexpired(jobs, cutoff).len() ==> exists|j: int|
                0 <= j < jobs.len() && jobs[j] == #[trigger] unexpired(jobs, cutoff)[i],
    decreases jobs.len(),
{
    if jobs.len() > 0 {
        let rest = jobs.drop_last();
        assert(all_well_formed(rest)) by {
            assert forall|i: int| 0 <= i < rest.len() implies (#[trigger] rest[i]).well_formed() by {
                assert(rest[i] == jobs[i]);
            }
        }
        assert(distinct_ids(rest)) by {
            assert forall|i: int, j: int| 0 <= i < j < rest.len() implies rest[i].id@
                != rest[j].id@ by {
                assert(rest[i] == jobs[i] && rest[j] == jobs[j]);
            }
        }
        lemma_unexpired_is_part(rest, cutoff);
        let kept = unexpired(jobs, cutoff);
        let before = unexpired(rest, cutoff);
        assert forall|i: int| 0 <= i < kept.len() implies exists|j: int|
            0 <= j < jobs.len() && jobs[j] == #[trigger] kept[i] by {
            if i < before.len() {
                let j = choose|j: int| 0 <= j < rest.len() && rest[j] == before[i];
                assert(jobs[j] == kept[i]);
            } else {
                assert(jobs[jobs.len() - 1] == kept[i]);
            }
        }
        if !is_expired(jobs.last(), cutoff) {
            assert forall|i: int, j: int| 0 <= i < j < kept.len() implies kept[i].id@
                != kept[j].id@ by {
                if j == kept.len() - 1 {
                    let k = choose|k: int| 0 <= k < rest.len() && rest[k] == before[i];
                    assert(jobs[k].id@ != jobs[jobs.len() - 1].id@);
                }
            }
        }
    }
}

impl JobManager {
    /// The newest `limit` jobs, newest first; with a filter, only the
    /// jobs in that state.
    pub fn list_jobs(&self, status: Option<JobStatus>, limit: usize) -> (listed: Vec<&Job>)
        ensures
            pointed_to(listed@) == listing(self.jobs(), status, limit as nat),
    {
        let mut listed: Vec<&Job> = Vec::new();
        let mut i: usize = self.jobs.len();
        proof {
            assert(self.jobs@.take(i as int) =~= self.jobs@);
            assert(pointed_to(listed@) =~= Seq::<Job>::empty());
        }
        while i > 0 && listed.len() < limit
            invariant
                i <= self.jobs@.len(),
                listed@.len() <= limit,
                listing(self.jobs@, status, limit as nat) == pointed_to(listed@) + listing(
                    self.jobs@.take(i as int),
                    status,
                    (limit - listed@.len()) as nat,
                ),
            decreases i,
        {
            let job = &self.jobs[i - 1];
            let wanted = match status {
                Some(status) => job.status == status,
                None => true,
            };
            proof {
                let upto = self.jobs@.take(i as int);
                assert(upto.last() == self.jobs@[i - 1]);
                assert(upto.drop_last() =~= self.jobs@.take(i - 1));
            }
            if wanted {
                let ghost before = pointed_to(listed@);
                listed.push(job);
                proof {
                    assert(pointed_to(listed@) =~= before + seq![*job]);
                    let rest = listing(
                        self.jobs@.take(i - 1),
                        status,
                        (limit - listed@.len()) as nat,
                    );
                    assert(before + (seq![*job] + rest) =~= (before + seq![*job]) + rest);
                }
            }
            i -= 1;
        }
        proof {
            let rest = listing(
                self.jobs@.take(i as int),
                status,
                (limit - listed@.len()) as nat,
            );
            assert(rest =~= Seq::<Job>::empty());
            assert(pointed_to(listed@) + rest =~= pointed_to(listed@));
        }
        listed
    }

    /// The pending and running jobs, oldest first.
    pub fn list_active_jobs(&self) -> (listed: Vec<&Job>)
        ensures
            pointed_to(listed@) == active_jobs(self.jobs()),
    {
        let mut listed: Vec<&Job> = Vec::new();
        let mut i: usize = 0;
        proof {
            assert(pointed_to(listed@) =~= Seq::<Job>::empty());
        }
        while i < self.jobs.len()
            invariant
                i <= self.jobs@.len(),
                pointed_to(listed@) == active_jobs(self.jobs@.take(i as int)),
            decreases self.jobs@.len() - i,
        {
            let job = &self.jobs[i];
            proof {
                let upto = self.jobs@.take(i + 1);
                assert(upto.last() == self.jobs@[i as int]);
                assert(upto.drop_last() =~= self.jobs@.take(i as int));
            }
            if !job.status.is_terminal() {
                let ghost before = pointed_to(listed@);
                listed.push(job);
                proof {
                    assert(pointed_to(listed@) =~= before.push(*job));
                }
            }
            i += 1;
        }
        proof {
            assert(self.jobs@.take(i as int) =~= self.jobs@);
        }
        listed
    }

    /// Whether a pending or running job works for the record `citekey`.
    pub fn has_active_job(&self, citekey: &str) -> (active: bool)
        ensures
            active == exists|i: int|
                0 <= i < self.jobs().len() && is_active_for(#[trigger] self.jobs()[i], citekey@),
    {
        let mut i: usize = 0;
        while i < self.jobs.len()
            invariant
                i <= self.jobs@.len(),
                forall|j: int| 0 <= j < i ==> !is_active_for(#[trigger] self.jobs@[j], citekey@),
            decreases self.jobs@.len() - i,
        {
            let job = &self.jobs[i];
            if !job.status.is_terminal() {
                if let Some(key) = &job.citekey {
                    if str_eq(key.as_str(), citekey) {
                        assert(is_active_for(self.jobs()[i as int], citekey@));
                        return true;
                    }
                }
            }
            i += 1;
        }
        false
    }

    /// The pending job that arrived first, if any job is pending.
    pub fn get_next_pending(&self) -> (next: Option<&Job>)
        ensures
            match oldest_pending(self.jobs()) {
                Some(job) => next == Some(&job),
                None => next is None,
            },
    {
        let mut i: usize = 0;
        while i < self.jobs.len()
            invariant
                i <= self.jobs@.len(),
                oldest_pending(self.jobs@.take(i as int)) is None,
            decreases self.jobs@.len() - i,
        {
            proof {
                let upto = self.jobs@.take(i + 1);
                assert(upto.last() == self.jobs@[i as int]);
                assert(upto.drop_last() =~= self.jobs@.take(i as int));
            }
            match self.jobs[i].status {
                JobStatus::Pending => {
                    proof {
                        lemma_oldest_pending_of_prefix(self.jobs@, i + 1);
                    }
                    return Some(&self.jobs[i]);
                },
                _ => {},
            }
            i += 1;
        }
        proof {
            assert(self.jobs@.take(i as int) =~= self.jobs@);
        }
        None
    }

    /// Forgets the jobs in a final state that were created more than
    /// `days_old` days before `now`, and says how many they were. The other
    /// jobs stay, in their order.
    pub fn cleanup_old_jobs(&mut self, days_old: i64, now: i64) -> (removed: usize)
        ensures
            final(self).jobs() == unexpired(old(self).jobs(), cutoff(now, days_old)),
            removed == old(self).jobs().len() - final(self).jobs().len(),
    {
        proof {
            use_type_invariant(&*self);
        }
        let ghost limit = cutoff(now, days_old);
        let mut jobs: Vec<Job> = Vec::new();
        core::mem::swap(&mut self.jobs, &mut jobs);
        let ghost all = jobs@;
        let total = jobs.len();
        let mut kept: Vec<Job> = Vec::new();
        let mut done: usize = 0;
        proof {
            assert(all.take(0) =~= Seq::<Job>::empty());
        }
        while done < total
            invariant
                done <= total,
                total == all.len(),
                jobs@.len() == total,
                limit == cutoff(now, days_old),
                kept@ == unexpired(all.take(done as int), limit),
                forall|k: int| done <= k < total ==> jobs@[k] == all[k],
            decreases total - done,
        {
            let mut job = Job::with_id(String::new(), JobType::Summarize, None, 0);
            jobs.set_and_swap(done, &mut job);
            proof {
                let upto = all.take(done + 1);
                assert(upto.last() == all[done as int]);
                assert(upto.drop_last() =~= all.take(done as int));
                assert(job == all[done as int]);
            }
            let old_enough = (job.created_at as i128) < (now as i128) - (days_old as i128) * (
            DAY_MS as i128);
            if !(job.status.is_terminal() && old_enough) {
                kept.push(job);
            }
            done += 1;
        }
        proof {
            assert(all.take(done as int) =~= all);
            lemma_unexpired_is_part(all, limit);
        }
        let removed = total - kept.len();
        core::mem::swap(&mut self.jobs, &mut kept);
        removed
    }
}

proof fn lemma_oldest_pending_of_prefix(jobs: Seq<Job>, upto: int)
    requires
        0 < upto <= jobs.len(),
        oldest_pending(jobs.take(upto)) is Some,
    ensures
        oldest_pending(jobs) == oldest_pending(jobs.take(upto)),
    decreases jobs.len() - upto,
{
    if upto < jobs.len() {
        assert(jobs.take(upto + 1).drop_last() =~= jobs.take(upto));
        lemma_oldest_pending_of_prefix(jobs, upto + 1);
    } else {
        assert(jobs.take(upto) =~= jobs);
    }
}

} // verus!
