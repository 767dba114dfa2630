//! Background jobs: their kinds and states, and the transitions between
//! the states.
//!
//! Instants are milliseconds since the Unix epoch. No function here reads
//! a clock: the caller hands in the current instant.

use crate::outside::{format_rfc3339, parse_rfc3339, random_id, rfc3339_instant, rfc3339_text};
use crate::text::{str_eq, text_of};
use vstd::prelude::*;
use vstd::string::*;

verus! {

/// What a job does.
#[derive(Clone, Copy, Debug, PartialEq, Eq, Structural)]
pub enum JobType {
    ImportBib,
    FindPdf,
    DownloadPdf,
    ExtractText,
    Summarize,
    BuildGraph,
}

impl JobType {
    /// The name under which the kind is stored.
    pub open spec fn label(self) -> Seq<char> {
        match self {
            JobType::ImportBib => "import_bib"@,
            JobType::FindPdf => "find_pdf"@,
            JobType::DownloadPdf => "download_pdf"@,
            JobType::ExtractText => "extract_text"@,
            JobType::Summarize => "summarize"@,
            JobType::BuildGraph => "build_graph"@,
        }
    }

    /// The kind stored under a name, if the name is one.
    pub open spec fn labelled(name: Seq<char>) -> Option<JobType> {
        if name == "import_bib"@ {
            Some(JobType::ImportBib)
        } else if name == "find_pdf"@ {
            Some(JobType::FindPdf)
        } else if name == "download_pdf"@ {
            Some(JobType::DownloadPdf)
        } else if name == "extract_text"@ {
            Some(JobType::ExtractText)
        } else if name == "summarize"@ {
            Some(JobType::Summarize)
        } else if name == "build_graph"@ {
            Some(JobType::BuildGraph)
        } else {
            None
        }
    }

    /// The name under which the kind is stored.
    pub fn as_str(&self) -> (name: &'static str)
        ensures
            name@ == self.label(),
    {
        match self {
            JobType::ImportBib => "import_bib",
            JobType::FindPdf => "find_pdf",
            JobType::DownloadPdf => "download_pdf",
            JobType::ExtractText => "extract_text",
            JobType::Summarize => "summarize",
            JobType::BuildGraph => "build_graph",
        }
    }

    /// The kind stored under `name`, if the name is one.
    pub fn from_str(name: &str) -> (kind: Option<Self>)
        ensures
            kind == Self::labelled(name@),
    {
        if str_eq(name, "import_bib") {
            Some(JobType::ImportBib)
        } else if str_eq(name, "find_pdf") {
            Some(JobType::FindPdf)
        } else if str_eq(name, "download_pdf") {
            Some(JobType::DownloadPdf)
        } else if str_eq(name, "extract_text") {
            Some(JobType::ExtractText)
        } else if str_eq(name, "summarize") {
            Some(JobType::Summarize)
        } else if str_eq(name, "build_graph") {
            Some(JobType::BuildGraph)
        } else {
            None
        }
    }
}

/// Where a job stands. `Completed`, `Failed` and `Cancelled` are final.
#[derive(Clone, Copy, Debug, PartialEq, Eq, Structural)]
pub enum JobStatus {
    Pending,
    Running,
    Completed,
    Failed,
    Cancelled,
}

impl JobStatus {
    /// The name under which the state is stored.
    pub open spec fn label(self) -> Seq<char> {
        match self {
            JobStatus::Pending => "pending"@,
            JobStatus::Running => "running"@,
            JobStatus::Completed => "completed"@,
            JobStatus::Failed => "failed"@,
            JobStatus::Cancelled => "cancelled"@,
        }
    }

    /// The state stored under a name; an unknown name reads as `Pending`.
    pub open spec fn labelled(name: Seq<char>) -> JobStatus {
        if name == "running"@ {
            JobStatus::Running
        } else if name == "completed"@ {
            JobStatus::Completed
        } else if name == "failed"@ {
            JobStatus::Failed
        } else if name == "cancelled"@ {
            JobStatus::Cancelled
        } else {
            JobStatus::Pending
        }
    }

    /// No transition leaves this state.
    pub open spec fn is_final(self) -> bool {
        self == JobStatus::Completed || self == JobStatus::Failed || self == JobStatus::Cancelled
    }

    /// The job is waiting or at work.
    pub open spec fn is_active(self) -> bool {
        self == JobStatus::Pending || self == JobStatus::Running
    }

    /// The name under which the state is stored.
    pub fn as_str(&self) -> (name: &'static str)
        ensures
            name@ == self.label(),
    {
        match self {
            JobStatus::Pending => "pending",
            JobStatus::Running => "running",
            JobStatus::Completed => "completed",
            JobStatus::Failed => "failed",
            JobStatus::Cancelled => "cancelled",
        }
    }

    /// The state stored under `name`; an unknown name reads as `Pending`.
    pub fn from_str(name: &str) -> (status: Self)
        ensures
            status == Self::labelled(name@),
    {
        if str_eq(name, "running") {
            JobStatus::Running
        } else if str_eq(name, "completed") {
            JobStatus::Completed
        } else if str_eq(name, "failed") {
            JobStatus::Failed
        } else if str_eq(name, "cancelled") {
            JobStatus::Cancelled
        } else {
            JobStatus::Pending
        }
    }

    /// Whether no transition leaves this state.
    pub fn is_terminal(&self) -> (terminal: bool)
        ensures
            terminal == self.is_final(),
    {
        match self {
            JobStatus::Completed => true,
            JobStatus::Failed => true,
            JobStatus::Cancelled => true,
            _ => false,
        }
    }
}

/// Why a job operation was turned down.
#[derive(Clone, Copy, Debug, PartialEq, Eq, Structural)]
pub enum JobError {
    /// No job has this id.
    NotFound,
    /// A job with this id is already tracked.
    DuplicateId,
    /// The job's state does not allow the transition.
    InvalidTransition,
    /// The job's fields contradict each other.
    Malformed,
}

/// A background job.
#[derive(Debug)]
pub struct Job {
    pub id: String,
    pub job_type: JobType,
    pub citekey: Option<String>,
    pub status: JobStatus,
    pub progress: i32,
    pub error: Option<String>,
    pub log_path: Option<String>,
    pub started_at: Option<i64>,
    pub finished_at: Option<i64>,
    pub created_at: i64,
}

/// What a consumer is told when a job changes.
#[derive(Debug)]
pub struct JobUpdate {
    pub id: String,
    pub status: String,
    pub progress: i32,
    pub error: Option<String>,
}

/// The later of two instants.
pub open spec fn later_of(a: i64, b: i64) -> i64 {
    if a >= b {
        a
    } else {
        b
    }
}

/// A percentage forced into the range from 0 to 100.
pub open spec fn clamped_percent(value: i32) -> i32 {
    if value < 0 {
        0
    } else if value > 100 {
        100
    } else {
        value
    }
}

impl Job {
    /// The fields of a job agree with each other: the progress is a
    /// percentage; the instants are ordered, creation first, then start,
    /// then finish; a pending job has neither started nor progressed; a
    /// running job has started and not finished; a job in a final state
    /// has finished; a completed job stands at 100 percent.
    pub open spec fn well_formed(&self) -> bool {
        &&& 0 <= self.progress <= 100
        &&& (self.started_at matches Some(started) ==> self.created_at <= started)
        &&& (self.finished_at matches Some(finished) ==> self.last_instant() <= finished)
        &&& (self.status == JobStatus::Pending ==> self.started_at is None && self.finished_at
            is None && self.progress == 0)
        &&& (self.status == JobStatus::Running ==> self.started_at is Some && self.finished_at
            is None)
        &&& (self.status.is_final() ==> self.finished_at is Some)
        &&& (self.status == JobStatus::Completed ==> self.progress == 100)
    }

    /// The instant of the start if the job has started, else of its creation.
    pub open spec fn last_instant(&self) -> i64 {
        match self.started_at {
            Some(started) => started,
            None => self.created_at,
        }
    }

    /// The job as it is after `mark_running` at `now`: a pending job runs,
    /// started at `now` or at its creation if that is later; any other job
    /// is unchanged.
    pub open spec fn started(self, now: i64) -> Job {
        if self.status == JobStatus::Pending {
            Job {
                status: JobStatus::Running,
                started_at: Some(later_of(now, self.created_at)),
                ..self
            }
        } else {
            self
        }
    }

    /// The job as it is after `update_progress` to `value`: a running job
    /// takes the clamped value unless that is a step back; any other job
    /// is unchanged.
    pub open spec fn progressed(self, value: i32) -> Job {
        if self.status == JobStatus::Running && clamped_percent(value) > self.progress {
            Job { progress: clamped_percent(value), ..self }
        } else {
            self
        }
    }

    /// The job as it is after it ended at `now` in the final state
    /// `status` with the error `error`: an active job takes the state and
    /// finishes at `now`, or at its last instant if that is later; a
    /// completed one stands at 100 percent; a job already in a final state
    /// is unchanged.
    pub open spec fn ended(self, status: JobStatus, now: i64, error: Option<String>) -> Job {
        if self.status.is_active() {
            Job {
                status,
                progress: if status == JobStatus::Completed {
                    100
                } else {
                    self.progress
                },
                error: if status == JobStatus::Failed {
                    error
                } else {
                    self.error
                },
                finished_at: Some(later_of(now, self.last_instant())),
                ..self
            }
        } else {
            self
        }
    }

    /// A pending job with the given identity, created at `created_at`.
    pub fn with_id(id: String, job_type: JobType, citekey: Option<String>, created_at: i64) -> (job:
        Self)
        ensures
            job == (Job {
                id,
                job_type,
                citekey,
                status: JobStatus::Pending,
                progress: 0,
                error: None,
                log_path: None,
                started_at: None,
                finished_at: None,
                created_at,
            }),
            job.well_formed(),
    {
        Job {
            id,
            job_type,
            citekey,
            status: JobStatus::Pending,
            progress: 0,
            error: None,
            log_path: None,
            started_at: None,
            finished_at: None,
            created_at,
        }
    }

    /// A pending job with a fresh random id, created at `created_at`.
    pub fn new(job_type: JobType, citekey: Option<String>, created_at: i64) -> (job: Self)
        ensures
            job == (Job {
                id: job.id,
                job_type,
                citekey,
                status: JobStatus::Pending,
                progress: 0,
                error: None,
                log_path: None,
                started_at: None,
                finished_at: None,
                created_at,
            }),
            job.well_formed(),
    {
        Self::with_id(random_id(), job_type, citekey, created_at)
    }

    /// Whether the fields agree with each other.
    pub fn is_well_formed(&self) -> (ok: bool)
        ensures
            ok == self.well_formed(),
    {
        let last = match self.started_at {
            Some(started) => started,
            None => self.created_at,
        };
        let ordered = (match self.started_at {
            Some(started) => self.created_at <= started,
            None => true,
        }) && (match self.finished_at {
            Some(finished) => last <= finished,
            None => true,
        });
        let fits = match self.status {
            JobStatus::Pending => self.started_at.is_none() && self.finished_at.is_none()
                && self.progress == 0,
            JobStatus::Running => self.started_at.is_some() && self.finished_at.is_none(),
            JobStatus::Completed => self.finished_at.is_some() && self.progress == 100,
            JobStatus::Failed => self.finished_at.is_some(),
            JobStatus::Cancelled => self.finished_at.is_some(),
        };
        0 <= self.progress && self.progress <= 100 && ordered && fits
    }

    /// Starts a pending job at `now`. `Ok(true)`: the job now runs.
    /// `Ok(false)`: it ran already, and nothing changed, its start least of
    /// all. `Err`: it is in a final state, and nothing changed.
    pub fn mark_running(&mut self, now: i64) -> (changed: Result<bool, JobError>)
        ensures
            *final(self) == old(self).started(now),
            changed == match old(self).status {
                JobStatus::Pending => Ok::<bool, JobError>(true),
                JobStatus::Running => Ok(false),
                _ => Err(JobError::InvalidTransition),
            },
            old(self).well_formed() ==> final(self).well_formed(),
    {
        match self.status {
            JobStatus::Pending => {
                let started = if now >= self.created_at {
                    now
                } else {
                    self.created_at
                };
                self.status = JobStatus::Running;
                self.started_at = Some(started);
                Ok(true)
            },
            JobStatus::Running => Ok(false),
            _ => Err(JobError::InvalidTransition),
        }
    }

    /// Reports progress of a running job. The value is clamped to a
    /// percentage, and a value below the present progress is ignored, so
    /// that progress never steps back. Hands back the progress in force.
    /// A job that does not run is unchanged and the call fails.
    pub fn update_progress(&mut self, value: i32) -> (progress: Result<i32, JobError>)
        ensures
            *final(self) == old(self).progressed(value),
            progress == if old(self).status == JobStatus::Running {
                Ok::<i32, JobError>(final(self).progress)
            } else {
                Err(JobError::InvalidTransition)
            },
            final(self).progress >= old(self).progress,
            old(self).well_formed() ==> final(self).well_formed(),
    {
        match self.status {
            JobStatus::Running => {},
            _ => {
                return Err(JobError::InvalidTransition);
            },
        }
        let clamped: i32 = if value < 0 {
            0
        } else if value > 100 {
            100
        } else {
            value
        };
        if clamped > self.progress {
            self.progress = clamped;
        }
        Ok(self.progress)
    }

    fn finish_instant(&self, now: i64) -> (instant: i64)
        ensures
            instant == later_of(now, self.last_instant()),
    {
        let last = match self.started_at {
            Some(started) => started,
            None => self.created_at,
        };
        if now >= last {
            now
        } else {
            last
        }
    }

    /// Completes a pending or running job at `now`, at 100 percent. A job
    /// in a final state is unchanged and the call fails.
    pub fn mark_completed(&mut self, now: i64) -> (done: Result<(), JobError>)
        ensures
            *final(self) == old(self).ended(JobStatus::Completed, now, None),
            done is Ok == old(self).status.is_active(),
            done matches Err(error) ==> error == JobError::InvalidTransition,
            old(self).well_formed() ==> final(self).well_formed(),
    {
        if self.status.is_terminal() {
            return Err(JobError::InvalidTransition);
        }
        let finished = self.finish_instant(now);
        self.status = JobStatus::Completed;
        self.progress = 100;
        self.finished_at = Some(finished);
        Ok(())
    }

    /// Fails a pending or running job at `now` with the message `error`.
    /// A job in a final state is unchanged and the call fails.
    pub fn mark_failed(&mut self, now: i64, error: String) -> (done: Result<(), JobError>)
        ensures
            *final(self) == old(self).ended(JobStatus::Failed, now, Some(error)),
            done is Ok == old(self).status.is_active(),
            done matches Err(error) ==> error == JobError::InvalidTransition,
            old(self).well_formed() ==> final(self).well_formed(),
    {
        if self.status.is_terminal() {
            return Err(JobError::InvalidTransition);
        }
        let finished = self.finish_instant(now);
        self.status = JobStatus::Failed;
        self.error = Some(error);
        self.finished_at = Some(finished);
        Ok(())
    }

    /// Cancels a pending or running job at `now` and says `true`. A job
    /// in a final state is left exactly as it is, its finish included, and
    /// the answer is `false`.
    pub fn cancel(&mut self, now: i64) -> (cancelled: bool)
        ensures
            *final(self) == old(self).ended(JobStatus::Cancelled, now, None),
            cancelled == old(self).status.is_active(),
            !cancelled ==> *final(self) == *old(self),
            cancelled ==> final(self).status == JobStatus::Cancelled && final(self).finished_at
                is Some,
            old(self).well_formed() ==> final(self).well_formed(),
    {
        if self.status.is_terminal() {
            return false;
        }
        let finished = self.finish_instant(now);
        self.status = JobStatus::Cancelled;
        self.finished_at = Some(finished);
        true
    }
}

/// What can happen to a job.
pub enum JobEvent {
    /// `mark_running` at an instant.
    Start(i64),
    /// `update_progress` to a value.
    Progress(i32),
    /// `mark_completed` at an instant.
    Complete(i64),
    /// `mark_failed` at an instant, with a message.
    Fail(i64, String),
    /// `cancel` at an instant.
    Cancel(i64),
}

/// The job after an event.
pub open spec fn after_event(job: Job, event: JobEvent) -> Job {
    match event {
        JobEvent::Start(now) => job.started(now),
        JobEvent::Progress(value) => job.progressed(value),
        JobEvent::Complete(now) => job.ended(JobStatus::Completed, now, None),
        JobEvent::Fail(now, error) => job.ended(JobStatus::Failed, now, Some(error)),
        JobEvent::Cancel(now) => job.ended(JobStatus::Cancelled, now, None),
    }
}

/// The job after a series of events.
pub open spec fn after_events(job: Job, events: Seq<JobEvent>) -> Job
    decreases events.len(),
{
    if events.len() == 0 {
        job
    } else {
        after_event(after_events(job, events.drop_last()), events.last())
    }
}

/// The final states are sinks: whatever happens to a job that is
/// completed, failed or cancelled, it stays exactly as it is.
pub proof fn lemma_final_states_are_sinks(job: Job, events: Seq<JobEvent>)
    requires
        job.status.is_final(),
    ensures
        after_events(job, events) == job,
    decreases events.len(),
{
    if events.len() > 0 {
        lemma_final_states_are_sinks(job, events.drop_last());
    }
}

/// Whatever happens to a well-formed job, it stays well formed: its
/// progress is a percentage, and its instants stay ordered, creation
/// first, then start, then finish.
pub proof fn lemma_events_keep_well_formed(job: Job, events: Seq<JobEvent>)
    requires
        job.well_formed(),
    ensures
        after_events(job, events).well_formed(),
    decreases events.len(),
{
    if events.len() > 0 {
        lemma_events_keep_well_formed(job, events.drop_last());
    }
}

/// Whatever happens to a well-formed job: its progress never steps
/// back; a start and a finish, once set, are never set again; and once it
/// has left the state of running it never runs again.
pub proof fn lemma_jobs_only_move_forward(job: Job, event: JobEvent)
    requires
        job.well_formed(),
    ensures
        after_event(job, event).progress >= job.progress,
        job.started_at is Some ==> after_event(job, event).started_at == job.started_at,
        job.finished_at is Some ==> after_event(job, event).finished_at == job.finished_at,
        job.status.is_final() ==> after_event(job, event).status == job.status,
        after_event(job, event).status == JobStatus::Running ==> job.status.is_active(),
        after_event(job, event).id == job.id,
        after_event(job, event).created_at == job.created_at,
{
}

/// Cancelling a job that is completed changes nothing, its finish least
/// of all; cancelling a pending job makes it cancelled and finished.
pub proof fn lemma_cancel(job: Job, now: i64)
    ensures
        job.status == JobStatus::Completed ==> job.ended(JobStatus::Cancelled, now, None) == job,
        job.status == JobStatus::Pending ==> job.ended(JobStatus::Cancelled, now, None).status
            == JobStatus::Cancelled && job.ended(JobStatus::Cancelled, now, None).finished_at
            is Some,
{
}

/// The kind a stored name stands for; an unknown name reads as `Summarize`.
pub open spec fn stored_job_type(name: Seq<char>) -> JobType {
    match JobType::labelled(name) {
        Some(kind) => kind,
        None => JobType::Summarize,
    }
}

/// The instant a stored text stands for, if there is a text and it is a
/// date and time.
pub open spec fn stored_instant(text: Option<String>) -> Option<i64> {
    match text {
        Some(text) => rfc3339_instant(text@),
        None => None,
    }
}

/// A job as the durable store holds it: every field as text or number.
#[derive(Debug)]
pub struct JobRow {
    pub id: String,
    pub job_type: String,
    pub citekey: Option<String>,
    pub status: String,
    pub progress: i32,
    pub error: Option<String>,
    pub log_path: Option<String>,
    pub started_at: Option<String>,
    pub finished_at: Option<String>,
    pub created_at: String,
}

impl Job {
    /// The job that stored fields stand for, once its instants have been
    /// read: an unknown kind reads as `Summarize`, an unknown state as
    /// `Pending`, and a creation instant that could not be read as `now`.
    pub fn from_stored(
        row: JobRow,
        started_at: Option<i64>,
        finished_at: Option<i64>,
        created_at: Option<i64>,
        now: i64,
    ) -> (job: Self)
        ensures
            job == (Job {
                id: row.id,
                job_type: stored_job_type(row.job_type@),
                citekey: row.citekey,
                status: JobStatus::labelled(row.status@),
                progress: row.progress,
                error: row.error,
                log_path: row.log_path,
                started_at,
                finished_at,
                created_at: match created_at {
                    Some(instant) => instant,
                    None => now,
                },
            }),
    {
        let job_type = match JobType::from_str(row.job_type.as_str()) {
            Some(kind) => kind,
            None => JobType::Summarize,
        };
        let status = JobStatus::from_str(row.status.as_str());
        Job {
            id: row.id,
            job_type,
            citekey: row.citekey,
            status,
            progress: row.progress,
            error: row.error,
            log_path: row.log_path,
            started_at,
            finished_at,
            created_at: match created_at {
                Some(instant) => instant,
                None => now,
            },
        }
    }

    /// The job that a row of the durable store stands for. Its instants
    /// are read as RFC 3339 dates and times; a start or finish that cannot
    /// be read counts as absent, a creation that cannot be read as `now`.
    /// The job need not be well formed.
    pub fn from_row(row: JobRow, now: i64) -> (job: Self)
        ensures
            job == (Job {
                id: row.id,
                job_type: stored_job_type(row.job_type@),
                citekey: row.citekey,
                status: JobStatus::labelled(row.status@),
                progress: row.progress,
                error: row.error,
                log_path: row.log_path,
                started_at: stored_instant(row.started_at),
                finished_at: stored_instant(row.finished_at),
                created_at: match rfc3339_instant(row.created_at@) {
                    Some(instant) => instant,
                    None => now,
                },
            }),
    {
        let started_at = match &row.started_at {
            Some(text) => parse_rfc3339(text.as_str()),
            None => None,
        };
        let finished_at = match &row.finished_at {
            Some(text) => parse_rfc3339(text.as_str()),
            None => None,
        };
        let created_at = parse_rfc3339(row.created_at.as_str());
        Self::from_stored(row, started_at, finished_at, created_at, now)
    }
}

/// A job as it is shown: kind and state by name, instants as text.
#[derive(Debug)]
pub struct JobInfo {
    pub id: String,
    pub job_type: String,
    pub citekey: Option<String>,
    pub status: String,
    pub progress: i32,
    pub error: Option<String>,
    pub started_at: Option<String>,
    pub finished_at: Option<String>,
    pub created_at: String,
}

/// The text of an optional instant; `None` if there is no instant.
pub open spec fn shown_instant(instant: Option<i64>) -> Option<Seq<char>> {
    match instant {
        Some(millis) => rfc3339_text(millis),
        None => None,
    }
}

/// Every instant of the job can be written as a date and time.
pub open spec fn can_be_shown(job: Job) -> bool {
    &&& rfc3339_text(job.created_at) is Some
    &&& (job.started_at matches Some(millis) ==> rfc3339_text(millis) is Some)
    &&& (job.finished_at matches Some(millis) ==> rfc3339_text(millis) is Some)
}

impl JobInfo {
    /// What is shown of `job`, given the texts of its instants.
    pub fn with_texts(
        job: Job,
        started_at: Option<String>,
        finished_at: Option<String>,
        created_at: String,
    ) -> (info: Self)
        ensures
            info.id == job.id,
            info.job_type@ == job.job_type.label(),
            info.citekey == job.citekey,
            info.status@ == job.status.label(),
            info.progress == job.progress,
            info.error == job.error,
            info.started_at == started_at,
            info.finished_at == finished_at,
            info.created_at == created_at,
    {
        JobInfo {
            id: job.id,
            job_type: String::from_str(job.job_type.as_str()),
            citekey: job.citekey,
            status: String::from_str(job.status.as_str()),
            progress: job.progress,
            error: job.error,
            started_at,
            finished_at,
            created_at,
        }
    }

    /// What is shown of `job`, its instants written as RFC 3339 dates and
    /// times; `None` if one of them lies outside the range of dates.
    pub fn from_job(job: Job) -> (info: Option<Self>)
        ensures
            info is Some == can_be_shown(job),
            info matches Some(shown) ==> {
                &&& shown.id == job.id
                &&& shown.job_type@ == job.job_type.label()
                &&& shown.citekey == job.citekey
                &&& shown.status@ == job.status.label()
                &&& shown.progress == job.progress
                &&& shown.error == job.error
                &&& text_of(shown.started_at) == shown_instant(job.started_at)
                &&& text_of(shown.finished_at) == shown_instant(job.finished_at)
                &&& Some(shown.created_at@) == rfc3339_text(job.created_at)
            },
    {
        let created_at = match format_rfc3339(job.created_at) {
            Some(text) => text,
            None => {
                return None;
            },
        };
        let started_at = match job.started_at {
            Some(millis) => {
                let text = format_rfc3339(millis);
                if text.is_none() {
                    return None;
                }
                text
            },
            None => None,
        };
        let finished_at = match job.finished_at {
            Some(millis) => {
                let text = format_rfc3339(millis);
                if text.is_none() {
                    return None;
                }
                text
            },
            None => None,
        };
        Some(Self::with_texts(job, started_at, finished_at, created_at))
    }
}

} // verus!
