//! The server: the registry of tasks and of the queues they run on.

use vstd::prelude::*;
use crate::ext::cpu_count;
use crate::jobs::JobMessage;
use crate::jobs::Outcome;
use crate::namemap::NameMap;
use crate::text::decimal;
use crate::text::push_decimal;

verus! {

/// Status of a job waiting on its queue.
pub const STATUS_STARTED: &'static str = "queued";
/// Status of a job whose task is running.
pub const STATUS_PROCESSING: &'static str = "processing";
/// Status of a job whose task failed with no retry left.
pub const STATUS_FAILED: &'static str = "failed";
/// Status of a job whose task succeeded.
pub const STATUS_DONE: &'static str = "successful";
/// Status of a job waiting for another run after a failure.
pub const STATUS_RETRYING: &'static str = "retrying";
/// The name under which the server traces its work.
pub const TRACER: &'static str = "tasqueue";
/// The queue of a task registered without one.
pub const DEFAULT_QUEUE: &'static str = "default";

/// The statuses a job goes through are written "queued", "processing",
/// "successful", "retrying" and "failed", and no two are the same; none is
/// the status "started" of fresh metadata. Tasks with no queue run on
/// "default".
pub proof fn lemma_status_texts()
    ensures
        STATUS_STARTED@ == "queued"@,
        STATUS_PROCESSING@ == "processing"@,
        STATUS_DONE@ == "successful"@,
        STATUS_RETRYING@ == "retrying"@,
        STATUS_FAILED@ == "failed"@,
        DEFAULT_QUEUE@ == "default"@,
        seq![STATUS_STARTED@, STATUS_PROCESSING@, STATUS_DONE@, STATUS_RETRYING@, STATUS_FAILED@,
            crate::jobs::STATUS_NEW@].no_duplicates(),
{
    reveal_strlit("queued");
    reveal_strlit("processing");
    reveal_strlit("successful");
    reveal_strlit("retrying");
    reveal_strlit("failed");
    reveal_strlit("started");
    let s = seq![STATUS_STARTED@, STATUS_PROCESSING@, STATUS_DONE@, STATUS_RETRYING@, STATUS_FAILED@,
        crate::jobs::STATUS_NEW@];
    assert forall|i: int, j: int| 0 <= i < s.len() && 0 <= j < s.len() && i != j implies s[i] != s[j] by {
        if s[i].len() == s[j].len() {
            assert(s[i][0] != s[j][0]);
        }
    }
}

/// How a task is run: on which queue, with how many workers, and the
/// callbacks to call as its jobs succeed, are processed, are retried or fail.
#[derive(Clone)]
pub struct TaskOpts<C, E> {
    pub concurrency: u32,
    pub queue: String,
    pub success_cb: Option<C>,
    pub processing_cb: Option<C>,
    pub retrying_cb: Option<E>,
    pub failed_cb: Option<E>,
}

/// A registered task: its name, the handler that runs its jobs, its options.
#[derive(Clone)]
pub struct Task<H, C, E> {
    pub name: String,
    pub handler: H,
    pub opts: TaskOpts<C, E>,
}

/// The broker and result store a server is made with.
pub struct ServerOpts<B, R> {
    pub broker: B,
    pub results: R,
}

/// Why a task could not be registered.
#[derive(Debug, Clone)]
pub enum RegisterError {
    /// The task's queue is already defined with another concurrency.
    QueueConflict { queue: String, existing: u32 },
}

impl RegisterError {
    /// The error's message.
    pub fn message(&self) -> (s: String)
        ensures
            match self {
                RegisterError::QueueConflict { queue, existing } => s@ == "Queue '"@ + queue@
                    + "' is already defined with concurrency "@ + decimal(*existing as nat),
            },
    {
        match self {
            RegisterError::QueueConflict { queue, existing } => {
                let mut s = "Queue '".to_owned();
                s.append(queue.as_str());
                s.append("' is already defined with concurrency ");
                push_decimal(&mut s, *existing as u64);
                s
            },
        }
    }
}

/// The queue a task runs on: the one asked for, or "default" if none is named.
pub open spec fn effective_queue(queue: Seq<char>) -> Seq<char> {
    if queue.len() == 0 {
        DEFAULT_QUEUE@
    } else {
        queue
    }
}

/// The concurrency a task runs with: the one asked for, or the server's
/// default (taken as a `u32`) if it is 0.
pub open spec fn effective_concurrency(concurrency: u32, default_conc: usize) -> u32 {
    if concurrency == 0 {
        default_conc as u32
    } else {
        concurrency
    }
}

/// The queues after a task asks for `queue` with `concurrency`: unchanged if
/// the queue is already defined with that concurrency, extended if it is
/// new, and `None` (a refusal) if it is defined with another concurrency.
pub open spec fn queues_after(
    queues: Map<Seq<char>, u32>,
    queue: Seq<char>,
    concurrency: u32,
) -> Option<Map<Seq<char>, u32>> {
    if queues.dom().contains(queue) {
        if queues[queue] == concurrency {
            Some(queues)
        } else {
            None
        }
    } else {
        Some(queues.insert(queue, concurrency))
    }
}

/// A task gets the concurrency it asks for, unless it asks for 0: then it
/// gets the server's default (taken as a `u32`). It runs on the queue it
/// names, unless it names none: then on "default".
pub proof fn lemma_effective_settings(concurrency: u32, default_conc: usize, queue: Seq<char>)
    ensures
        concurrency != 0 ==> effective_concurrency(concurrency, default_conc) == concurrency,
        concurrency == 0 ==> effective_concurrency(concurrency, default_conc) == default_conc as u32,
        queue.len() != 0 ==> effective_queue(queue) == queue,
        queue.len() == 0 ==> effective_queue(queue) == DEFAULT_QUEUE@,
{
}

/// A queue keeps the concurrency it was first defined with: once a task has
/// been registered on it with concurrency `c`, a task asking for the same
/// queue is accepted exactly when it asks for `c`, and accepting it changes
/// no queue. Registering never changes the concurrency of a queue defined
/// before.
pub proof fn lemma_queue_keeps_concurrency(queues: Map<Seq<char>, u32>, queue: Seq<char>, c: u32, c2: u32)
    requires
        queues_after(queues, queue, c) is Some,
    ensures
        ({
            let m = queues_after(queues, queue, c)->0;
            &&& m.dom().contains(queue) && m[queue] == c
            &&& (queues_after(m, queue, c2) is Some <==> c2 == c)
            &&& queues_after(m, queue, c) == Some(m)
            &&& forall|q: Seq<char>| #[trigger] queues.dom().contains(q) ==> m.dom().contains(q) && m[q] == queues[q]
        }),
{
}

/// `task` is what registering `name` with `handler` and `opts` stores, its
/// queue being `queue` and its concurrency `concurrency`.
pub open spec fn is_registered_task<H, C, E>(
    task: Task<H, C, E>,
    name: String,
    handler: H,
    opts: TaskOpts<C, E>,
    queue: Seq<char>,
    concurrency: u32,
) -> bool {
    &&& task.name == name
    &&& task.handler == handler
    &&& task.opts.queue@ == queue
    &&& task.opts.concurrency == concurrency
    &&& task.opts.success_cb == opts.success_cb
    &&& task.opts.processing_cb == opts.processing_cb
    &&& task.opts.retrying_cb == opts.retrying_cb
    &&& task.opts.failed_cb == opts.failed_cb
}

/// What the server does once a run of a job is settled, in order.
#[derive(Debug, Clone, Copy, PartialEq, Eq, Structural)]
pub enum Action {
    /// Call the task's retrying callback with the job's context and error.
    RetryingCallback,
    /// Call the task's failed callback with the job's context and error.
    FailedCallback,
    /// Call the task's success callback with the job's context.
    SuccessCallback,
    /// Add the job to the result store's set of failed jobs.
    RecordFailed,
    /// Add the job to the result store's set of succeeded jobs.
    RecordSuccess,
    /// Store the job's message (with its new status) in the result store.
    StoreMessage,
    /// Put the job's message back on its queue.
    Requeue,
}

/// The actions after a run settled with outcome `o`, for a task that has the
/// callbacks that the flags say it has: a retried job has its callback
/// called, its message stored and put back on its queue; a failed or done job
/// has its callback called, is added to the failed or succeeded set, and has
/// its message stored. A callback the task lacks is skipped.
pub open spec fn follow_up_actions(o: Outcome, has_success_cb: bool, has_retrying_cb: bool, has_failed_cb: bool) -> Seq<Action> {
    match o {
        Outcome::Retrying => (if has_retrying_cb { seq![Action::RetryingCallback] } else { Seq::empty() })
            + seq![Action::StoreMessage, Action::Requeue],
        Outcome::Failed => (if has_failed_cb { seq![Action::FailedCallback] } else { Seq::empty() })
            + seq![Action::RecordFailed, Action::StoreMessage],
        Outcome::Done => (if has_success_cb { seq![Action::SuccessCallback] } else { Seq::empty() })
            + seq![Action::RecordSuccess, Action::StoreMessage],
    }
}

impl<H, C, E> Task<H, C, E> {
    /// What follows a finished run, with outcome `o`, of a job of the task.
    pub fn follow_up(&self, o: Outcome) -> (r: Vec<Action>)
        ensures
            r@ == follow_up_actions(
                o,
                self.opts.success_cb is Some,
                self.opts.retrying_cb is Some,
                self.opts.failed_cb is Some,
            ),
    {
        let mut r: Vec<Action> = Vec::new();
        match o {
            Outcome::Retrying => {
                if self.opts.retrying_cb.is_some() {
                    r.push(Action::RetryingCallback);
                }
                r.push(Action::StoreMessage);
                r.push(Action::Requeue);
            },
            Outcome::Failed => {
                if self.opts.failed_cb.is_some() {
                    r.push(Action::FailedCallback);
                }
                r.push(Action::RecordFailed);
                r.push(Action::StoreMessage);
            },
            Outcome::Done => {
                if self.opts.success_cb.is_some() {
                    r.push(Action::SuccessCallback);
                }
                r.push(Action::RecordSuccess);
                r.push(Action::StoreMessage);
            },
        }
        assert(r@ =~= follow_up_actions(
            o,
            self.opts.success_cb is Some,
            self.opts.retrying_cb is Some,
            self.opts.failed_cb is Some,
        ));
        r
    }
}

/// Every settled run has its message stored; only a retried job goes back on
/// its queue; a job is added to the failed set only when it failed and to the
/// succeeded set only when it is done; and only the callback of its outcome
/// is called.
pub proof fn lemma_follow_up(o: Outcome, has_success_cb: bool, has_retrying_cb: bool, has_failed_cb: bool)
    ensures
        ({
            let a = follow_up_actions(o, has_success_cb, has_retrying_cb, has_failed_cb);
            &&& a.contains(Action::StoreMessage)
            &&& a.contains(Action::Requeue) <==> o == Outcome::Retrying
            &&& a.contains(Action::RecordFailed) <==> o == Outcome::Failed
            &&& a.contains(Action::RecordSuccess) <==> o == Outcome::Done
            &&& a.contains(Action::RetryingCallback) <==> (o == Outcome::Retrying && has_retrying_cb)
            &&& a.contains(Action::FailedCallback) <==> (o == Outcome::Failed && has_failed_cb)
            &&& a.contains(Action::SuccessCallback) <==> (o == Outcome::Done && has_success_cb)
        }),
{
    let a = follow_up_actions(o, has_success_cb, has_retrying_cb, has_failed_cb);
    let n = a.len() as int;
    assert(a[n - 1] == Action::StoreMessage || a[n - 2] == Action::StoreMessage);
    if o == Outcome::Retrying {
        assert(a[n - 1] == Action::Requeue);
    }
    if o == Outcome::Failed {
        assert(a[n - 2] == Action::RecordFailed);
    }
    if o == Outcome::Done {
        assert(a[n - 2] == Action::RecordSuccess);
    }
    if o == Outcome::Retrying && has_retrying_cb {
        assert(a[0] == Action::RetryingCallback);
    }
    if o == Outcome::Failed && has_failed_cb {
        assert(a[0] == Action::FailedCallback);
    }
    if o == Outcome::Done && has_success_cb {
        assert(a[0] == Action::SuccessCallback);
    }
}

/// No action is taken twice after a run. A retried job is put back on its
/// queue exactly once, as the very last action, after its message is stored;
/// a failed or done job ends with its message being stored. A callback, if
/// any, comes first.
pub proof fn lemma_follow_up_order(o: Outcome, has_success_cb: bool, has_retrying_cb: bool, has_failed_cb: bool)
    ensures
        ({
            let a = follow_up_actions(o, has_success_cb, has_retrying_cb, has_failed_cb);
            &&& a.no_duplicates()
            &&& 2 <= a.len() <= 3
            &&& o == Outcome::Retrying ==> a.last() == Action::Requeue && a[a.len() - 2] == Action::StoreMessage
            &&& o != Outcome::Retrying ==> a.last() == Action::StoreMessage
            &&& forall|i: int| 0 <= i < a.len() - 1 ==> #[trigger] a[i] != Action::Requeue
            &&& forall|i: int| 0 < i < a.len() ==> #[trigger] a[i] != Action::RetryingCallback
                && a[i] != Action::FailedCallback && a[i] != Action::SuccessCallback
        }),
{
    let a = follow_up_actions(o, has_success_cb, has_retrying_cb, has_failed_cb);
    assert(a.no_duplicates());
}

/// The follow-up action to run next, after `done` of `actions` have run and
/// the last of them succeeded or not (`last_ok`): a failed action ends the
/// follow-up, and so does the end of the list.
pub open spec fn follow_up_step(actions: Seq<Action>, done: nat, last_ok: bool) -> Option<Action> {
    if !last_ok || done >= actions.len() {
        None
    } else {
        Some(actions[done as int])
    }
}

/// How many of `actions`, from the `done`-th on, run when each action's call
/// succeeds or fails as `oks` says: all up to and including the first failed
/// one.
pub open spec fn actions_run_from(actions: Seq<Action>, oks: Seq<bool>, done: nat) -> nat
    decreases actions.len() - done,
{
    if done >= actions.len() {
        0
    } else if done < oks.len() && oks[done as int] {
        1 + actions_run_from(actions, oks, done + 1)
    } else {
        1
    }
}

/// Driving a follow-up with `follow_up_step` runs the actions in order, one
/// by one, until one fails: the actions run are a prefix of the list, all
/// but the last of them succeeded, and the list stops early only after a
/// failure.
pub proof fn lemma_follow_up_stops_at_first_failure(actions: Seq<Action>, oks: Seq<bool>, done: nat)
    requires
        oks.len() == actions.len(),
        done <= actions.len(),
    ensures
        done + actions_run_from(actions, oks, done) <= actions.len(),
        forall|j: int| done <= j < done + actions_run_from(actions, oks, done) - 1 ==> #[trigger] oks[j],
        done + actions_run_from(actions, oks, done) < actions.len() ==> !oks[done + actions_run_from(actions, oks, done) - 1],
        done < actions.len() ==> follow_up_step(actions, done, true) == Some(actions[done as int]),
        follow_up_step(actions, done, false) is None,
    decreases actions.len() - done,
{
    if done < actions.len() && oks[done as int] {
        lemma_follow_up_stops_at_first_failure(actions, oks, done + 1);
    }
}

/// The follow-up action to run next, after `done` of `actions` have run, the
/// last of which succeeded or not (`last_ok`).
pub fn next_follow_up(actions: &Vec<Action>, done: usize, last_ok: bool) -> (a: Option<Action>)
    ensures
        a == follow_up_step(actions@, done as nat, last_ok),
{
    if !last_ok || done >= actions.len() {
        None
    } else {
        Some(actions[done])
    }
}

/// Every task runs on a defined queue, with that queue's concurrency, and is
/// bound under its own name.
pub open spec fn tasks_match_queues<H, C, E>(
    tasks: Map<Seq<char>, Task<H, C, E>>,
    queues: Map<Seq<char>, u32>,
) -> bool {
    forall|k: Seq<char>| #[trigger] tasks.dom().contains(k) ==> {
        &&& queues.dom().contains(tasks[k].opts.queue@)
        &&& queues[tasks[k].opts.queue@] == tasks[k].opts.concurrency
        &&& tasks[k].name@ == k
    }
}

/// How one registration of `name` changes a map of bindings `pre` into
/// `post`: when it succeeds (`ok`) the name is bound and every other binding
/// stays; when it is refused nothing changes.
pub open spec fn registration_frame<T>(
    pre: Map<Seq<char>, T>,
    post: Map<Seq<char>, T>,
    name: Seq<char>,
    ok: bool,
) -> bool {
    if ok {
        &&& post.dom() == pre.dom().insert(name)
        &&& forall|k: Seq<char>| #[trigger] pre.dom().contains(k) && k != name ==> post[k] == pre[k]
    } else {
        post == pre
    }
}

/// How one registration changes the queues: a queue defined before keeps
/// its concurrency.
pub open spec fn queues_kept(pre: Map<Seq<char>, u32>, post: Map<Seq<char>, u32>) -> bool {
    forall|q: Seq<char>| #[trigger] pre.dom().contains(q) ==> post.dom().contains(q) && post[q] == pre[q]
}

/// The registrations `names` (each successful where `oks` says so) take
/// the task bindings through `states`, step by step.
pub open spec fn registration_run<T>(
    states: Seq<Map<Seq<char>, T>>,
    names: Seq<Seq<char>>,
    oks: Seq<bool>,
) -> bool {
    &&& states.len() == names.len() + 1
    &&& oks.len() == names.len()
    &&& forall|j: int| 0 <= j < names.len() ==> #[trigger] registration_frame(states[j], states[j + 1], names[j], oks[j])
}

/// The run is cut short: its first `k` steps.
proof fn lemma_registration_run_prefix<T>(
    states: Seq<Map<Seq<char>, T>>,
    names: Seq<Seq<char>>,
    oks: Seq<bool>,
)
    requires
        registration_run(states, names, oks),
        names.len() > 0,
    ensures
        registration_run(states.drop_last(), names.drop_last(), oks.drop_last()),
{
    let s2 = states.drop_last();
    let n2 = names.drop_last();
    let o2 = oks.drop_last();
    assert forall|j: int| 0 <= j < n2.len() implies #[trigger] registration_frame(s2[j], s2[j + 1], n2[j], o2[j]) by {
        assert(registration_frame(states[j], states[j + 1], names[j], oks[j]));
    }
}

/// Over any run of registrations, a task stays bound as its last successful
/// registration left it: if step `i` registered `n` and no later successful
/// step names `n`, the final bindings hold for `n` what step `i` stored.
pub proof fn lemma_binding_persists<T>(
    states: Seq<Map<Seq<char>, T>>,
    names: Seq<Seq<char>>,
    oks: Seq<bool>,
    n: Seq<char>,
    i: int,
)
    requires
        registration_run(states, names, oks),
        0 <= i < names.len(),
        oks[i],
        names[i] == n,
        forall|j: int| i < j < names.len() && #[trigger] oks[j] ==> names[j] != n,
    ensures
        states.last().dom().contains(n),
        states.last()[n] == states[i + 1][n],
    decreases names.len(),
{
    let m = names.len() - 1;
    assert(registration_frame(states[m], states[m + 1], names[m], oks[m]));
    if i < m {
        lemma_registration_run_prefix(states, names, oks);
        let s2 = states.drop_last();
        let n2 = names.drop_last();
        let o2 = oks.drop_last();
        assert forall|j: int| i < j < n2.len() && #[trigger] o2[j] implies n2[j] != n by {
            assert(oks[j]);
        }
        lemma_binding_persists(s2, n2, o2, n, i);
        assert(s2[i + 1] == states[i + 1]);
        assert(s2.last() == states[m]);
        if oks[m] {
            assert(names[m] != n);
            assert(states[m].dom().contains(n));
        }
    }
}

/// Over any run of registrations, a name that no successful step registers
/// is bound at the end exactly as it was at the start.
pub proof fn lemma_unregistered_name_unchanged<T>(
    states: Seq<Map<Seq<char>, T>>,
    names: Seq<Seq<char>>,
    oks: Seq<bool>,
    n: Seq<char>,
)
    requires
        registration_run(states, names, oks),
        forall|j: int| 0 <= j < names.len() && #[trigger] oks[j] ==> names[j] != n,
    ensures
        states.last().dom().contains(n) == states[0].dom().contains(n),
        states[0].dom().contains(n) ==> states.last()[n] == states[0][n],
    decreases names.len(),
{
    if names.len() > 0 {
        let m = names.len() - 1;
        lemma_registration_run_prefix(states, names, oks);
        let s2 = states.drop_last();
        let n2 = names.drop_last();
        let o2 = oks.drop_last();
        assert forall|j: int| 0 <= j < n2.len() && #[trigger] o2[j] implies n2[j] != n by {
            assert(oks[j]);
        }
        lemma_unregistered_name_unchanged(s2, n2, o2, n);
        assert(s2.last() == states[m]);
        assert(s2[0] == states[0]);
        assert(registration_frame(states[m], states[m + 1], names[m], oks[m]));
        if oks[m] {
            assert(names[m] != n);
        }
    }
}

/// Over any run of registrations, a queue keeps the concurrency it had
/// before the run.
pub proof fn lemma_queues_kept_over_run(states: Seq<Map<Seq<char>, u32>>)
    requires
        states.len() > 0,
        forall|j: int| 0 <= j < states.len() - 1 ==> #[trigger] queues_kept(states[j], states[j + 1]),
    ensures
        queues_kept(states[0], states.last()),
    decreases states.len(),
{
    if states.len() > 1 {
        let s2 = states.drop_last();
        assert forall|j: int| 0 <= j < s2.len() - 1 implies #[trigger] queues_kept(s2[j], s2[j + 1]) by {
            assert(queues_kept(states[j], states[j + 1]));
        }
        lemma_queues_kept_over_run(s2);
        let m = states.len() - 2;
        assert(queues_kept(states[m], states[m + 1]));
        assert(s2.last() == states[m]);
    }
}

/// A server: its broker and result store, the tasks registered by name, the
/// queues with the concurrency each was defined with, and the concurrency a
/// task gets when it asks for none.
pub struct Server<B, R, H, C, E> {
    broker: B,
    results: R,
    tasks: NameMap<Task<H, C, E>>,
    queues: NameMap<u32>,
    default_conc: usize,
}

impl<B, R, H, C, E> Server<B, R, H, C, E> {
    #[verifier::type_invariant]
    closed spec fn registry_consistent(self) -> bool {
        tasks_match_queues(self.tasks@, self.queues@)
    }

    /// The registered tasks, by name.
    pub closed spec fn task_map(self) -> Map<Seq<char>, Task<H, C, E>> {
        self.tasks@
    }

    /// The defined queues, with their concurrency.
    pub closed spec fn queue_map(self) -> Map<Seq<char>, u32> {
        self.queues@
    }

    /// The defined queues, in the order they were first defined.
    pub closed spec fn queue_names(self) -> Seq<Seq<char>> {
        self.queues.names()
    }

    /// The concurrency a task gets when it asks for none.
    pub closed spec fn default_concurrency_of(self) -> usize {
        self.default_conc
    }

    /// The broker.
    pub closed spec fn broker_of(self) -> B {
        self.broker
    }

    /// The result store.
    pub closed spec fn results_of(self) -> R {
        self.results
    }

    /// A server with no task and no queue, whose default concurrency is
    /// `default_conc`.
    pub fn with_default_concurrency(broker: B, results: R, default_conc: usize) -> (s: Self)
        ensures
            s.task_map() == Map::<Seq<char>, Task<H, C, E>>::empty(),
            s.queue_map() == Map::<Seq<char>, u32>::empty(),
            s.default_concurrency_of() == default_conc,
            s.broker_of() == broker,
            s.results_of() == results,
    {
        let tasks: NameMap<Task<H, C, E>> = NameMap::new();
        let queues: NameMap<u32> = NameMap::new();
        Server { broker, results, tasks, queues, default_conc }
    }

    /// A server with no task and no queue, whose default concurrency is the
    /// number of CPUs this process may use (at least 1).
    pub fn new(broker: B, results: R) -> (s: Self)
        ensures
            s.task_map() == Map::<Seq<char>, Task<H, C, E>>::empty(),
            s.queue_map() == Map::<Seq<char>, u32>::empty(),
            s.default_concurrency_of() >= 1,
            s.broker_of() == broker,
            s.results_of() == results,
    {
        Self::with_default_concurrency(broker, results, cpu_count())
    }

    /// The broker.
    pub fn broker(&self) -> (b: &B)
        ensures
            *b == self.broker_of(),
    {
        &self.broker
    }

    /// The result store.
    pub fn results(&self) -> (r: &R)
        ensures
            *r == self.results_of(),
    {
        &self.results
    }

    /// The concurrency a task gets when it asks for none.
    pub fn default_concurrency(&self) -> (n: usize)
        ensures
            n == self.default_concurrency_of(),
    {
        self.default_conc
    }

    /// The defined queues, with their concurrency.
    pub fn queues(&self) -> (q: &NameMap<u32>)
        ensures
            q@ == self.queue_map(),
    {
        &self.queues
    }

    /// The workers to start: each defined queue, in the order queues were
    /// first defined, with the number of workers its concurrency asks for.
    pub fn worker_plan(&self) -> (plan: Vec<(String, u32)>)
        ensures
            plan@.len() == self.queue_names().len(),
            forall|i: int| 0 <= i < plan@.len() ==> {
                &&& (#[trigger] plan@[i]).0@ == self.queue_names()[i]
                &&& self.queue_map().dom().contains(plan@[i].0@)
                &&& plan@[i].1 == self.queue_map()[plan@[i].0@]
            },
            forall|q: Seq<char>| #[trigger] self.queue_map().dom().contains(q) <==> self.queue_names().contains(q),
            self.queue_names().no_duplicates(),
    {
        let names = self.queues.keys();
        let ghost ns = self.queues.names();
        let mut plan: Vec<(String, u32)> = Vec::new();
        let n = names.len();
        let mut i: usize = 0;
        while i < n
            invariant
                n == names@.len(),
                names@.map_values(|s: String| s@) == ns,
                ns == self.queues.names(),
                forall|q: Seq<char>| #[trigger] self.queues@.dom().contains(q) <==> ns.contains(q),
                i <= n,
                plan@.len() == i,
                forall|j: int| 0 <= j < i ==> {
                    &&& (#[trigger] plan@[j]).0@ == ns[j]
                    &&& self.queues@.dom().contains(plan@[j].0@)
                    &&& plan@[j].1 == self.queues@[plan@[j].0@]
                },
            decreases n - i,
        {
            let name = names[i].clone();
            assert(ns[i as int] == names@[i as int]@);
            assert(ns.contains(name@));
            match self.queues.get(name.as_str()) {
                Some(c) => {
                    plan.push((name, *c));
                },
                None => {
                    assert(false);
                },
            }
            i = i + 1;
        }
        plan
    }

    /// Registers the task `name`, run by `handler` with `opts`. A task that
    /// names no queue runs on "default"; one that asks for concurrency 0 gets
    /// the server's default. Its queue is defined with that concurrency if it
    /// is new; if the queue is defined with another concurrency the task is
    /// refused and nothing changes. A task registered under a name already
    /// taken replaces the one before.
    pub fn register_task(&mut self, name: String, handler: H, opts: TaskOpts<C, E>) -> (r: Result<
        (),
        RegisterError,
    >)
        ensures
            ({
                let q = effective_queue(opts.queue@);
                let c = effective_concurrency(opts.concurrency, old(self).default_concurrency_of());
                match queues_after(old(self).queue_map(), q, c) {
                    None => {
                        &&& r matches Err(RegisterError::QueueConflict { queue, existing })
                        &&& queue@ == q
                        &&& existing == old(self).queue_map()[q]
                        &&& final(self).queue_map() == old(self).queue_map()
                        &&& final(self).task_map() == old(self).task_map()
                    },
                    Some(queues) => {
                        &&& r is Ok
                        &&& final(self).queue_map() == queues
                        &&& final(self).task_map().dom() == old(self).task_map().dom().insert(name@)
                        &&& forall|k: Seq<char>| #[trigger] old(self).task_map().dom().contains(k) && k != name@
                            ==> final(self).task_map()[k] == old(self).task_map()[k]
                        &&& is_registered_task(final(self).task_map()[name@], name, handler, opts, q, c)
                    },
                }
            }),
            registration_frame(old(self).task_map(), final(self).task_map(), name@, r is Ok),
            queues_kept(old(self).queue_map(), final(self).queue_map()),
            tasks_match_queues(final(self).task_map(), final(self).queue_map()),
            final(self).default_concurrency_of() == old(self).default_concurrency_of(),
            final(self).broker_of() == old(self).broker_of(),
            final(self).results_of() == old(self).results_of(),
    {
        proof {
            use_type_invariant(&*self);
        }
        let mut opts = opts;
        if opts.queue.as_str().is_empty() {
            opts.queue = DEFAULT_QUEUE.to_owned();
        }
        if opts.concurrency == 0 {
            opts.concurrency = self.default_conc as u32;
        }
        let new_queue = match self.queues.get(opts.queue.as_str()) {
            Some(existing) => {
                if *existing != opts.concurrency {
                    return Err(
                        RegisterError::QueueConflict { queue: opts.queue, existing: *existing },
                    );
                }
                false
            },
            None => true,
        };
        // Take the maps out (leaving empty ones, which are consistent), update
        // them, and put them back, queues first.
        let mut tasks: NameMap<Task<H, C, E>> = NameMap::new();
        std::mem::swap(&mut tasks, &mut self.tasks);
        let mut queues: NameMap<u32> = NameMap::new();
        std::mem::swap(&mut queues, &mut self.queues);
        let ghost old_tasks = tasks@;
        let ghost old_queues = queues@;
        if new_queue {
            queues.insert(opts.queue.clone(), opts.concurrency);
        }
        let ghost q = opts.queue@;
        let ghost c = opts.concurrency;
        let key = name.clone();
        tasks.insert(key, Task { name, handler, opts });
        proof {
            assert(queues@.dom().contains(q) && queues@[q] == c);
            assert(queues_kept(old_queues, queues@));
            assert forall|k: Seq<char>| #[trigger] tasks@.dom().contains(k) implies {
                &&& queues@.dom().contains(tasks@[k].opts.queue@)
                &&& queues@[tasks@[k].opts.queue@] == tasks@[k].opts.concurrency
                &&& tasks@[k].name@ == k
            } by {
                if k != key@ {
                    assert(old_tasks.dom().contains(k));
                    assert(tasks@[k] == old_tasks[k]);
                    assert(old_queues.dom().contains(old_tasks[k].opts.queue@));
                }
            }
        }
        self.queues = queues;
        self.tasks = tasks;
        Ok(())
    }

    /// Readies a job message for its run: finds the task it names and, if
    /// there is one, marks the job as being processed. A message naming no
    /// registered task is left as it is.
    pub fn prepare_job(&self, msg: &mut JobMessage) -> (t: Option<&Task<H, C, E>>)
        ensures
            match t {
                Some(t) => {
                    &&& self.task_map().dom().contains(old(msg).job.task@)
                    &&& *t == self.task_map()[old(msg).job.task@]
                    &&& final(msg).job == old(msg).job
                    &&& final(msg).meta.same_but_status(old(msg).meta)
                    &&& final(msg).meta.status@ == STATUS_PROCESSING@
                    &&& final(msg).meta.processed_at is Some
                },
                None => {
                    &&& !self.task_map().dom().contains(old(msg).job.task@)
                    &&& *final(msg) == *old(msg)
                },
            },
    {
        let t = self.get_handler(msg.job.task.as_str());
        if t.is_some() {
            msg.status_processing();
        }
        t
    }

    /// The task registered under `name`, if any.
    pub fn get_handler(&self, name: &str) -> (t: Option<&Task<H, C, E>>)
        ensures
            match t {
                Some(t) => {
                    &&& self.task_map().dom().contains(name@)
                    &&& *t == self.task_map()[name@]
                    &&& t.name@ == name@
                    &&& self.queue_map().dom().contains(t.opts.queue@)
                    &&& self.queue_map()[t.opts.queue@] == t.opts.concurrency
                },
                None => !self.task_map().dom().contains(name@),
            },
            tasks_match_queues(self.task_map(), self.queue_map()),
    {
        proof {
            use_type_invariant(self);
        }
        self.tasks.get(name)
    }
}

} // verus!
