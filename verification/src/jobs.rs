//! Jobs, their metadata, and the messages that carry them through a queue.

use vstd::prelude::*;
use std::time::Duration;
use std::time::SystemTime;
use crate::ext::is_uuid_v4_text;
use crate::ext::new_uuid_string;
use crate::ext::system_time_now;
use crate::server::STATUS_DONE;
use crate::server::STATUS_FAILED;
use crate::server::STATUS_PROCESSING;
use crate::server::STATUS_RETRYING;
use crate::server::STATUS_STARTED;

verus! {

/// Prefix of the key under which a job message is stored.
pub const JOB_PREFIX: &'static str = "job:msg:";

/// Status of a freshly made metadata record.
pub const STATUS_NEW: &'static str = "started";

/// A unit of work: the task to run, its payload, and how to run it.
#[derive(Debug)]
pub struct Job {
    pub on_success: Option<Vec<Job>>,
    pub task: String,
    pub payload: Vec<u8>,
    pub on_error: Option<Vec<Job>>,
    pub opts: JobOpts,
}

/// How a job is run: its id (one is generated when absent), its queue, how
/// often it may be retried, and an optional time limit.
#[derive(Debug, Clone)]
pub struct JobOpts {
    pub id: Option<String>,
    pub queue: String,
    pub max_retries: u32,
    pub timeout: Option<Duration>,
}

/// What is recorded of a job as it moves through the queue.
#[derive(Debug, Clone)]
pub struct Meta {
    pub id: String,
    pub on_success_ids: Vec<String>,
    pub status: String,
    pub queue: String,
    pub max_retry: u32,
    pub retried: u32,
    pub prev_err: Option<String>,
    pub processed_at: Option<SystemTime>,
    pub prev_job_result: Option<Vec<u8>>,
}

/// A job together with its metadata: what travels through a queue.
#[derive(Debug)]
pub struct JobMessage {
    pub meta: Meta,
    pub job: Job,
}

/// What a running task sees: the store for its result and its job's metadata.
#[derive(Clone)]
pub struct JobCtx<S> {
    pub store: S,
    pub meta: Meta,
}

/// How a run of a job's task is settled.
#[derive(Debug, Clone, Copy, PartialEq, Eq, Structural)]
pub enum Outcome {
    /// The task succeeded.
    Done,
    /// The task failed and the job goes back on its queue.
    Retrying,
    /// The task failed and no retry is left.
    Failed,
}

/// The outcome of a run of a job whose metadata is `meta`: `failed` says
/// whether the task failed.
pub open spec fn outcome_of(meta: Meta, failed: bool) -> Outcome {
    if !failed {
        Outcome::Done
    } else if meta.max_retry > meta.retried {
        Outcome::Retrying
    } else {
        Outcome::Failed
    }
}

/// The status recorded for each outcome.
pub open spec fn outcome_status(o: Outcome) -> Seq<char> {
    match o {
        Outcome::Done => STATUS_DONE@,
        Outcome::Retrying => STATUS_RETRYING@,
        Outcome::Failed => STATUS_FAILED@,
    }
}

/// The retry count after a run with outcome `o`: a retry counts one more.
pub open spec fn retried_after(retried: u32, o: Outcome) -> int {
    if o == Outcome::Retrying {
        retried + 1
    } else {
        retried as int
    }
}

/// The outcomes of `k` runs in a row, all failed, of a job whose metadata is
/// `meta` before the first of them.
pub open spec fn failure_run(meta: Meta, k: nat) -> Seq<Outcome>
    decreases k,
{
    if k == 0 {
        Seq::empty()
    } else {
        let o = outcome_of(meta, true);
        seq![o] + failure_run(Meta { retried: retried_after(meta.retried, o) as u32, ..meta }, (k - 1) as nat)
    }
}

/// A job is retried while retries are left: of runs in a row that all fail,
/// the first `max_retry - retried` are retried and every later one fails.
/// A job that was never retried thus runs `max_retry + 1` times before it
/// fails.
pub proof fn lemma_failures_use_up_retries(meta: Meta, k: nat)
    requires
        meta.retried <= meta.max_retry,
    ensures
        failure_run(meta, k).len() == k,
        forall|i: int| 0 <= i < k ==> #[trigger] failure_run(meta, k)[i] == if meta.retried + i < meta.max_retry {
            Outcome::Retrying
        } else {
            Outcome::Failed
        },
    decreases k,
{
    if k > 0 {
        let o = outcome_of(meta, true);
        let next = Meta { retried: retried_after(meta.retried, o) as u32, ..meta };
        lemma_failures_use_up_retries(next, (k - 1) as nat);
        assert forall|i: int| 0 <= i < k implies #[trigger] failure_run(meta, k)[i] == if meta.retried + i < meta.max_retry {
            Outcome::Retrying
        } else {
            Outcome::Failed
        } by {
            if i > 0 {
                assert(failure_run(meta, k)[i] == failure_run(next, (k - 1) as nat)[i - 1]);
            }
        }
    }
}

/// Settling a run never takes the retry count past the number of retries
/// allowed, and only a retry changes it (by one).
pub proof fn lemma_settle_keeps_retry_bound(meta: Meta, failed: bool)
    requires
        meta.retried <= meta.max_retry,
    ensures
        retried_after(meta.retried, outcome_of(meta, failed)) <= meta.max_retry,
        outcome_of(meta, failed) == Outcome::Retrying <==> (failed && meta.retried < meta.max_retry),
        !failed ==> outcome_of(meta, failed) == Outcome::Done,
{
}

/// Different jobs are stored under different keys.
pub proof fn lemma_job_keys_distinct(a: Seq<char>, b: Seq<char>)
    requires
        a != b,
    ensures
        JOB_PREFIX@ + a != JOB_PREFIX@ + b,
{
    crate::text::lemma_prefix_cancels(JOB_PREFIX@, a, b);
}

impl Meta {
    /// `self` and `other` differ at most in their status and the time of
    /// their last status change.
    pub open spec fn same_but_status(self, other: Meta) -> bool {
        &&& self.id == other.id
        &&& self.on_success_ids == other.on_success_ids
        &&& self.queue == other.queue
        &&& self.max_retry == other.max_retry
        &&& self.retried == other.retried
        &&& self.prev_err == other.prev_err
        &&& self.prev_job_result == other.prev_job_result
    }

    /// Metadata for a new job run with `opts`, with the id `id`: status
    /// "started", no retries yet, nothing processed yet.
    pub fn with_id(opts: &JobOpts, id: String) -> (m: Meta)
        ensures
            m.id == id,
            m.on_success_ids@ == Seq::<String>::empty(),
            m.status@ == STATUS_NEW@,
            m.queue@ == opts.queue@,
            m.max_retry == opts.max_retries,
            m.retried == 0,
            m.prev_err is None,
            m.processed_at is None,
            m.prev_job_result is None,
    {
        Meta {
            id,
            on_success_ids: Vec::new(),
            status: STATUS_NEW.to_owned(),
            queue: opts.queue.clone(),
            max_retry: opts.max_retries,
            retried: 0,
            prev_err: None,
            processed_at: None,
            prev_job_result: None,
        }
    }

    /// Metadata for a new job run with `opts`. Its id is the one `opts` gives,
    /// or else a fresh random UUID in hyphenated form.
    pub fn default_meta(opts: &JobOpts) -> (m: Meta)
        ensures
            match opts.id {
                Some(id) => m.id@ == id@,
                None => is_uuid_v4_text(m.id@),
            },
            m.on_success_ids@ == Seq::<String>::empty(),
            m.status@ == STATUS_NEW@,
            m.queue@ == opts.queue@,
            m.max_retry == opts.max_retries,
            m.retried == 0,
            m.prev_err is None,
            m.processed_at is None,
            m.prev_job_result is None,
    {
        let id = match &opts.id {
            Some(id) => id.clone(),
            None => new_uuid_string(),
        };
        Meta::with_id(opts, id)
    }
}

impl Job {
    /// The message that carries this job with metadata `meta`.
    pub fn message(self, meta: Meta) -> (msg: JobMessage)
        ensures
            msg.meta == meta,
            msg.job == self,
    {
        JobMessage { meta, job: self }
    }
}

/// The key under which the message of job `id` is stored: `job:msg:` and the id.
pub fn job_key(id: &str) -> (k: String)
    ensures
        k@ == JOB_PREFIX@ + id@,
{
    let mut k = JOB_PREFIX.to_owned();
    k.append(id);
    k
}

impl JobMessage {
    /// Records `status` as the job's status, stamped with the current time.
    fn stamp(&mut self, status: &str)
        ensures
            final(self).job == old(self).job,
            final(self).meta.same_but_status(old(self).meta),
            final(self).meta.status@ == status@,
            final(self).meta.processed_at is Some,
    {
        self.meta.processed_at = Some(system_time_now());
        self.meta.status = status.to_owned();
    }

    /// Marks the job queued ("queued"), as it is when first enqueued.
    pub fn status_started(&mut self)
        ensures
            final(self).job == old(self).job,
            final(self).meta.same_but_status(old(self).meta),
            final(self).meta.status@ == STATUS_STARTED@,
            final(self).meta.processed_at is Some,
    {
        self.stamp(STATUS_STARTED);
    }

    /// Marks the job as being processed ("processing").
    pub fn status_processing(&mut self)
        ensures
            final(self).job == old(self).job,
            final(self).meta.same_but_status(old(self).meta),
            final(self).meta.status@ == STATUS_PROCESSING@,
            final(self).meta.processed_at is Some,
    {
        self.stamp(STATUS_PROCESSING);
    }

    /// Marks the job done ("successful").
    pub fn status_done(&mut self)
        ensures
            final(self).job == old(self).job,
            final(self).meta.same_but_status(old(self).meta),
            final(self).meta.status@ == STATUS_DONE@,
            final(self).meta.processed_at is Some,
    {
        self.stamp(STATUS_DONE);
    }

    /// Marks the job failed ("failed").
    pub fn status_failed(&mut self)
        ensures
            final(self).job == old(self).job,
            final(self).meta.same_but_status(old(self).meta),
            final(self).meta.status@ == STATUS_FAILED@,
            final(self).meta.processed_at is Some,
    {
        self.stamp(STATUS_FAILED);
    }

    /// Marks the job as waiting for a retry ("retrying").
    pub fn status_retrying(&mut self)
        ensures
            final(self).job == old(self).job,
            final(self).meta.same_but_status(old(self).meta),
            final(self).meta.status@ == STATUS_RETRYING@,
            final(self).meta.processed_at is Some,
    {
        self.stamp(STATUS_RETRYING);
    }

    /// Settles a run of the job's task. `result` is the task's result, with
    /// the error written as text. A failure is recorded as the last error;
    /// it is retried while retries are left (counting one more), else the
    /// job fails. The status is stamped accordingly.
    pub fn settle(&mut self, result: Result<(), String>) -> (o: Outcome)
        ensures
            o == outcome_of(old(self).meta, result is Err),
            final(self).job == old(self).job,
            final(self).meta.status@ == outcome_status(o),
            final(self).meta.processed_at is Some,
            final(self).meta.retried == retried_after(old(self).meta.retried, o),
            final(self).meta.prev_err == match result {
                Ok(()) => old(self).meta.prev_err,
                Err(e) => Some(e),
            },
            final(self).meta.id == old(self).meta.id,
            final(self).meta.on_success_ids == old(self).meta.on_success_ids,
            final(self).meta.queue == old(self).meta.queue,
            final(self).meta.max_retry == old(self).meta.max_retry,
            final(self).meta.prev_job_result == old(self).meta.prev_job_result,
    {
        match result {
            Err(e) => {
                self.meta.prev_err = Some(e);
                if self.meta.max_retry > self.meta.retried {
                    self.meta.retried = self.meta.retried + 1;
                    self.status_retrying();
                    Outcome::Retrying
                } else {
                    self.status_failed();
                    Outcome::Failed
                }
            },
            Ok(()) => {
                self.status_done();
                Outcome::Done
            },
        }
    }
}

} // verus!
