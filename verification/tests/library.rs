use std::time::Duration;
use taskqueue::broker::{consumer_step, Broker, ConsumerAction, ConsumerEvent, Options as BrokerOptions};
use taskqueue::connection::{is_redis_url, starts_with_ignoring_ascii_case};
use taskqueue::jobs::{job_key, Job, JobMessage, JobOpts, Meta, Outcome, JOB_PREFIX, STATUS_NEW};
use taskqueue::namemap::NameMap;
use taskqueue::results::{
    failed_key, purge_score, result_key, success_key, Options as ResultsOptions, Results,
};
use taskqueue::server::{
    next_follow_up, Action, RegisterError, Task, Server, TaskOpts, DEFAULT_QUEUE, STATUS_DONE, STATUS_FAILED,
    STATUS_PROCESSING, STATUS_RETRYING, STATUS_STARTED,
};
use taskqueue::tasks::{sum, SumPayload};
use taskqueue::text::{i64_to_decimal, trim_end_slashes_of, u64_to_decimal};

type TestServer = Server<u8, u8, u32, u8, u8>;

fn opts(queue: &str, concurrency: u32) -> TaskOpts<u8, u8> {
    TaskOpts {
        concurrency,
        queue: queue.to_string(),
        success_cb: None,
        processing_cb: None,
        retrying_cb: None,
        failed_cb: None,
    }
}

fn job_opts(id: Option<&str>, max_retries: u32) -> JobOpts {
    JobOpts {
        id: id.map(|s| s.to_string()),
        queue: "default".to_string(),
        max_retries,
        timeout: None,
    }
}

fn job(id: Option<&str>, max_retries: u32) -> Job {
    Job {
        on_success: None,
        task: "add".to_string(),
        payload: vec![1, 2, 3],
        on_error: None,
        opts: job_opts(id, max_retries),
    }
}

fn message(max_retries: u32) -> JobMessage {
    let j = job(Some("job-1"), max_retries);
    let meta = Meta::default_meta(&j.opts);
    j.message(meta)
}

#[test]
fn name_map_binds_replaces_and_lists_in_order() {
    let mut m: NameMap<u32> = NameMap::new();
    assert!(!m.contains_key("a"));
    m.insert("b".to_string(), 1);
    m.insert("a".to_string(), 2);
    m.insert("b".to_string(), 3);
    assert_eq!(m.get("b"), Some(&3));
    assert_eq!(m.get("a"), Some(&2));
    assert_eq!(m.get("c"), None);
    assert!(m.contains_key("a"));
    assert_eq!(m.keys(), vec!["b".to_string(), "a".to_string()]);
}

#[test]
fn decimal_numerals() {
    assert_eq!(u64_to_decimal(0), "0");
    assert_eq!(u64_to_decimal(42), "42");
    assert_eq!(u64_to_decimal(u64::MAX), u64::MAX.to_string());
    assert_eq!(i64_to_decimal(-5), "-5");
    assert_eq!(i64_to_decimal(1700000000), "1700000000");
    assert_eq!(i64_to_decimal(i64::MIN), i64::MIN.to_string());
}

#[test]
fn trailing_slashes_are_trimmed() {
    assert_eq!(trim_end_slashes_of("redis://host//"), "redis://host");
    assert_eq!(trim_end_slashes_of("a/b"), "a/b");
    assert_eq!(trim_end_slashes_of("///"), "");
    assert_eq!(trim_end_slashes_of(""), "");
    assert_eq!(trim_end_slashes_of("h\u{e9}/"), "h\u{e9}");
}

#[test]
fn default_meta_keeps_given_id() {
    let o = job_opts(Some("my-id"), 3);
    let m = Meta::default_meta(&o);
    assert_eq!(m.id, "my-id");
    assert_eq!(m.status, STATUS_NEW);
    assert_eq!(m.status, "started");
    assert_eq!(m.queue, "default");
    assert_eq!(m.max_retry, 3);
    assert_eq!(m.retried, 0);
    assert!(m.on_success_ids.is_empty());
    assert!(m.prev_err.is_none());
    assert!(m.processed_at.is_none());
    assert!(m.prev_job_result.is_none());
}

#[test]
fn default_meta_generates_uuid() {
    let o = job_opts(None, 0);
    let a = Meta::default_meta(&o);
    let b = Meta::default_meta(&o);
    assert_eq!(a.id.len(), 36);
    assert_eq!(a.id.matches('-').count(), 4);
    for (i, c) in a.id.chars().enumerate() {
        if i == 8 || i == 13 || i == 18 || i == 23 {
            assert_eq!(c, '-');
        } else {
            assert!(c.is_ascii_digit() || ('a'..='f').contains(&c));
        }
    }
    assert_eq!(a.id.chars().nth(14), Some('4'));
    assert!(matches!(a.id.chars().nth(19), Some('8' | '9' | 'a' | 'b')));
    assert_ne!(a.id, b.id);
}

#[test]
fn with_id_uses_the_given_id() {
    let o = job_opts(Some("ignored"), 1);
    let m = Meta::with_id(&o, "chosen".to_string());
    assert_eq!(m.id, "chosen");
    assert_eq!(m.max_retry, 1);
}

#[test]
fn message_carries_job_and_meta() {
    let msg = message(2);
    assert_eq!(msg.meta.id, "job-1");
    assert_eq!(msg.job.task, "add");
    assert_eq!(msg.job.payload, vec![1, 2, 3]);
}

#[test]
fn job_keys() {
    assert_eq!(JOB_PREFIX, "job:msg:");
    assert_eq!(job_key("abc"), "job:msg:abc");
    assert_ne!(job_key("a"), job_key("b"));
}

#[test]
fn status_stamps() {
    let mut msg = message(0);
    msg.status_started();
    assert_eq!(msg.meta.status, "queued");
    assert_eq!(msg.meta.status, STATUS_STARTED);
    assert!(msg.meta.processed_at.is_some());
    msg.status_processing();
    assert_eq!(msg.meta.status, STATUS_PROCESSING);
    assert_eq!(msg.meta.status, "processing");
    msg.status_retrying();
    assert_eq!(msg.meta.status, STATUS_RETRYING);
    assert_eq!(msg.meta.status, "retrying");
    msg.status_failed();
    assert_eq!(msg.meta.status, STATUS_FAILED);
    assert_eq!(msg.meta.status, "failed");
    msg.status_done();
    assert_eq!(msg.meta.status, STATUS_DONE);
    assert_eq!(msg.meta.status, "successful");
    assert_eq!(msg.meta.id, "job-1");
    assert_eq!(msg.meta.retried, 0);
}

#[test]
fn settle_success_is_done() {
    let mut msg = message(3);
    assert_eq!(msg.settle(Ok(())), Outcome::Done);
    assert_eq!(msg.meta.status, "successful");
    assert_eq!(msg.meta.retried, 0);
    assert!(msg.meta.prev_err.is_none());
    assert!(msg.meta.processed_at.is_some());
}

#[test]
fn failures_use_up_retries_then_fail() {
    let mut msg = message(2);
    assert_eq!(msg.settle(Err("boom 1".to_string())), Outcome::Retrying);
    assert_eq!(msg.meta.retried, 1);
    assert_eq!(msg.meta.status, "retrying");
    assert_eq!(msg.meta.prev_err.as_deref(), Some("boom 1"));
    assert_eq!(msg.settle(Err("boom 2".to_string())), Outcome::Retrying);
    assert_eq!(msg.meta.retried, 2);
    assert_eq!(msg.settle(Err("boom 3".to_string())), Outcome::Failed);
    assert_eq!(msg.meta.retried, 2);
    assert_eq!(msg.meta.status, "failed");
    assert_eq!(msg.meta.prev_err.as_deref(), Some("boom 3"));
    assert_eq!(msg.settle(Err("boom 4".to_string())), Outcome::Failed);
    assert_eq!(msg.meta.retried, 2);
}

#[test]
fn no_retries_fails_at_once() {
    let mut msg = message(0);
    assert_eq!(msg.settle(Err("e".to_string())), Outcome::Failed);
    assert_eq!(msg.meta.retried, 0);
}

#[test]
fn success_after_retry_keeps_error() {
    let mut msg = message(1);
    assert_eq!(msg.settle(Err("first".to_string())), Outcome::Retrying);
    assert_eq!(msg.settle(Ok(())), Outcome::Done);
    assert_eq!(msg.meta.prev_err.as_deref(), Some("first"));
    assert_eq!(msg.meta.retried, 1);
}

#[test]
fn register_uses_defaults() {
    let mut s: TestServer = Server::with_default_concurrency(1, 2, 4);
    assert_eq!(s.register_task("add".to_string(), 7, opts("", 0)).is_ok(), true);
    let t = s.get_handler("add").unwrap();
    assert_eq!(t.name, "add");
    assert_eq!(t.handler, 7);
    assert_eq!(t.opts.queue, DEFAULT_QUEUE);
    assert_eq!(t.opts.queue, "default");
    assert_eq!(t.opts.concurrency, 4);
    assert_eq!(s.queues().get("default"), Some(&4));
    assert!(s.get_handler("missing").is_none());
}

#[test]
fn register_conflicting_concurrency_is_refused() {
    let mut s: TestServer = Server::with_default_concurrency(1, 2, 4);
    s.register_task("a".to_string(), 1, opts("q", 5)).unwrap();
    match s.register_task("b".to_string(), 2, opts("q", 6)) {
        Err(RegisterError::QueueConflict { queue, existing }) => {
            assert_eq!(queue, "q");
            assert_eq!(existing, 5);
        }
        Ok(()) => panic!("conflicting concurrency accepted"),
    }
    assert!(s.get_handler("b").is_none());
    assert_eq!(s.queues().get("q"), Some(&5));
    assert!(s.register_task("c".to_string(), 3, opts("q", 5)).is_ok());
    assert_eq!(s.get_handler("c").unwrap().handler, 3);
}

#[test]
fn register_error_message() {
    let e = RegisterError::QueueConflict { queue: "default".to_string(), existing: 4 };
    assert_eq!(e.message(), "Queue 'default' is already defined with concurrency 4");
}

#[test]
fn register_replaces_task_of_same_name() {
    let mut s: TestServer = Server::with_default_concurrency(1, 2, 4);
    s.register_task("a".to_string(), 1, opts("q1", 2)).unwrap();
    s.register_task("a".to_string(), 9, opts("q2", 3)).unwrap();
    let t = s.get_handler("a").unwrap();
    assert_eq!(t.handler, 9);
    assert_eq!(t.opts.queue, "q2");
    assert_eq!(s.queues().keys(), vec!["q1".to_string(), "q2".to_string()]);
}

#[test]
fn default_concurrency_of_zero_registers_zero() {
    let mut s: TestServer = Server::with_default_concurrency(1, 2, 0);
    s.register_task("a".to_string(), 1, opts("q", 0)).unwrap();
    assert_eq!(s.get_handler("a").unwrap().opts.concurrency, 0);
}

#[test]
fn new_server_uses_cpu_count() {
    let s: TestServer = Server::new(10, 20);
    assert!(s.default_concurrency() >= 1);
    assert_eq!(s.default_concurrency(), num_cpus::get());
    assert_eq!(*s.broker(), 10);
    assert_eq!(*s.results(), 20);
}

#[test]
fn broker_default_options() {
    let o = BrokerOptions::default();
    assert_eq!(o.addrs, vec!["127.0.0.1:6379".to_string()]);
    assert!(o.password.is_none());
    assert_eq!(o.db, 0);
    assert_eq!(o.dial_timeout, Duration::from_secs(5));
    assert_eq!(o.read_timeout, Duration::from_secs(5));
    assert_eq!(o.write_timeout, Duration::from_secs(5));
    assert_eq!(o.idle_timeout, Duration::from_secs(60));
    assert_eq!(o.min_idle_conns, 1);
    assert_eq!(o.poll_period, Duration::from_secs(1));
}

#[test]
fn broker_opens_client_for_bare_address() {
    let o = BrokerOptions {
        addrs: vec!["127.0.0.1:6379".to_string()],
        password: None,
        db: 0,
        ..Default::default()
    };
    assert_eq!(Broker::connection_url(&o), "redis://127.0.0.1:6379/");
    let b = Broker::new(o).unwrap();
    assert_eq!(b.opts().addrs[0], "127.0.0.1:6379");
    assert!(Broker::new(BrokerOptions::default()).is_ok());
}

#[test]
fn broker_url_with_password_and_db() {
    let mut o = BrokerOptions::default();
    o.password = Some("pw".to_string());
    o.db = 2;
    assert_eq!(Broker::connection_url(&o), "redis://:pw@127.0.0.1:63792/");
}

#[test]
fn broker_refuses_malformed_address() {
    let mut o = BrokerOptions::default();
    o.addrs = vec!["bad host".to_string()];
    match Broker::new(o) {
        Err(e) => assert_eq!(e.url, "redis://bad host/"),
        Ok(_) => panic!("malformed address accepted"),
    }
}

fn results_options(password: Option<&str>, db: u32, addr: &str) -> ResultsOptions {
    ResultsOptions {
        addrs: vec![addr.to_string()],
        password: password.map(|p| p.to_string()),
        db,
        ..Default::default()
    }
}

#[test]
fn results_connection_urls() {
    assert_eq!(
        Results::connection_url(&results_options(None, 0, "127.0.0.1:6379")),
        "redis://127.0.0.1:6379/"
    );
    assert_eq!(
        Results::connection_url(&results_options(Some("secret"), 0, "127.0.0.1:6379")),
        "redis://:secret@127.0.0.1:6379/"
    );
    assert_eq!(
        Results::connection_url(&results_options(Some("secret"), 3, "127.0.0.1:6379")),
        "redis://:secret@127.0.0.1:63793/"
    );
    assert_eq!(
        Results::connection_url(&results_options(None, 12, "host//")),
        "redis://host12/"
    );
}

#[test]
fn results_open_client() {
    let r = Results::new(results_options(None, 2, "127.0.0.1:6379")).unwrap();
    assert_eq!(r.options().db, 2);
    match Results::new(results_options(None, 0, "bad host")) {
        Err(e) => assert_eq!(e.url, "redis://bad host/"),
        Ok(_) => panic!("malformed URL accepted"),
    }
}

#[test]
fn result_keys() {
    assert_eq!(result_key("abc"), "tq:res:abc");
    assert_eq!(success_key(), "tq:res:success");
    assert_eq!(failed_key(), "tq:res:failed");
}

#[test]
fn purge_scores() {
    assert_eq!(purge_score(1000, 300), "700");
    assert_eq!(purge_score(0, 5), "-5");
    assert_eq!(purge_score(u64::MAX, 0), "-1");
}

#[test]
fn sum_adds() {
    assert_eq!(sum(&SumPayload { arg1: 5, arg2: 4 }).result, 9);
    assert_eq!(sum(&SumPayload { arg1: -10, arg2: 15 }).result, 5);
}

#[test]
fn follow_up_actions_per_outcome() {
    let bare: Task<u32, u8, u8> = Task { name: "t".to_string(), handler: 0, opts: opts("q", 1) };
    assert_eq!(bare.follow_up(Outcome::Retrying), vec![Action::StoreMessage, Action::Requeue]);
    assert_eq!(bare.follow_up(Outcome::Failed), vec![Action::RecordFailed, Action::StoreMessage]);
    assert_eq!(bare.follow_up(Outcome::Done), vec![Action::RecordSuccess, Action::StoreMessage]);
    let mut o = opts("q", 1);
    o.success_cb = Some(1);
    o.retrying_cb = Some(2);
    o.failed_cb = Some(3);
    let full: Task<u32, u8, u8> = Task { name: "t".to_string(), handler: 0, opts: o };
    assert_eq!(
        full.follow_up(Outcome::Retrying),
        vec![Action::RetryingCallback, Action::StoreMessage, Action::Requeue]
    );
    assert_eq!(
        full.follow_up(Outcome::Failed),
        vec![Action::FailedCallback, Action::RecordFailed, Action::StoreMessage]
    );
    assert_eq!(
        full.follow_up(Outcome::Done),
        vec![Action::SuccessCallback, Action::RecordSuccess, Action::StoreMessage]
    );
}

#[test]
fn consumer_steps() {
    assert!(matches!(consumer_step(ConsumerEvent::Received(vec![7])), ConsumerAction::Deliver(m) if m == vec![7]));
    assert!(matches!(consumer_step(ConsumerEvent::PollFailed), ConsumerAction::ReportError));
    assert!(matches!(consumer_step(ConsumerEvent::TimedOut), ConsumerAction::ReportTimeout));
    assert!(matches!(consumer_step(ConsumerEvent::DeliveryFailed), ConsumerAction::Stop));
}

#[test]
fn follow_up_stops_at_first_failure() {
    let actions = vec![Action::SuccessCallback, Action::RecordSuccess, Action::StoreMessage];
    assert_eq!(next_follow_up(&actions, 0, true), Some(Action::SuccessCallback));
    assert_eq!(next_follow_up(&actions, 1, true), Some(Action::RecordSuccess));
    assert_eq!(next_follow_up(&actions, 2, false), None);
    assert_eq!(next_follow_up(&actions, 2, true), Some(Action::StoreMessage));
    assert_eq!(next_follow_up(&actions, 3, true), None);
    let mut ran = Vec::new();
    let oks = [true, false, true];
    let (mut done, mut last_ok) = (0usize, true);
    while let Some(a) = next_follow_up(&actions, done, last_ok) {
        ran.push(a);
        last_ok = oks[done];
        done += 1;
    }
    assert_eq!(ran, vec![Action::SuccessCallback, Action::RecordSuccess]);
}

#[test]
fn prepare_job_marks_processing() {
    let mut s: TestServer = Server::with_default_concurrency(1, 2, 4);
    s.register_task("add".to_string(), 7, opts("", 0)).unwrap();
    let mut msg = message(1);
    let t = s.prepare_job(&mut msg).unwrap();
    assert_eq!(t.handler, 7);
    assert_eq!(msg.meta.status, "processing");
    assert!(msg.meta.processed_at.is_some());
    let mut other = message(1);
    other.job.task = "missing".to_string();
    assert!(s.prepare_job(&mut other).is_none());
    assert_eq!(other.meta.status, "started");
    assert!(other.meta.processed_at.is_none());
}

#[test]
fn worker_plan_lists_queues_with_concurrency() {
    let mut s: TestServer = Server::with_default_concurrency(1, 2, 4);
    s.register_task("a".to_string(), 1, opts("fast", 8)).unwrap();
    s.register_task("b".to_string(), 2, opts("", 0)).unwrap();
    s.register_task("c".to_string(), 3, opts("fast", 8)).unwrap();
    assert_eq!(s.worker_plan(), vec![("fast".to_string(), 8), ("default".to_string(), 4)]);
}

#[test]
fn registrations_keep_tasks_matching_queues() {
    let mut s: TestServer = Server::with_default_concurrency(1, 2, 4);
    s.register_task("a".to_string(), 1, opts("q", 2)).unwrap();
    assert!(s.register_task("b".to_string(), 2, opts("q", 3)).is_err());
    s.register_task("c".to_string(), 3, opts("r", 0)).unwrap();
    s.register_task("a".to_string(), 4, opts("r", 4)).unwrap();
    for name in ["a", "c"] {
        let t = s.get_handler(name).unwrap();
        assert_eq!(s.queues().get(&t.opts.queue), Some(&t.opts.concurrency));
    }
    assert_eq!(s.get_handler("a").unwrap().handler, 4);
    assert_eq!(s.get_handler("c").unwrap().handler, 3);
    assert!(s.get_handler("b").is_none());
    assert_eq!(s.queues().get("q"), Some(&2));
}

#[test]
fn results_purge_metadata_only_with_lifetime() {
    let r = Results::new(results_options(None, 0, "127.0.0.1:6379")).unwrap();
    assert!(!r.purges_metadata());
    let mut o = results_options(None, 0, "127.0.0.1:6379");
    o.meta_expiry = Duration::from_millis(1);
    assert!(Results::new(o).unwrap().purges_metadata());
}

#[test]
fn broker_takes_redis_url_as_it_stands() {
    let mut o = BrokerOptions::default();
    o.addrs = vec!["redis://127.0.0.1:6379".to_string()];
    o.db = 2;
    assert_eq!(Broker::connection_url(&o), "redis://127.0.0.1:6379");
    let b = Broker::new(o).unwrap();
    assert_eq!(b.opts().addrs[0], "redis://127.0.0.1:6379");
    for addr in ["rediss://host:6380/1", "REDIS://host", "unix:///tmp/redis.sock", "valkey://h"] {
        let mut o = BrokerOptions::default();
        o.addrs = vec![addr.to_string()];
        assert_eq!(Broker::connection_url(&o), addr);
    }
}

#[test]
fn scheme_detection() {
    assert!(is_redis_url("redis://h"));
    assert!(is_redis_url("Redis+Unix:///s"));
    assert!(!is_redis_url("127.0.0.1:6379"));
    assert!(!is_redis_url("redisx://h"));
    assert!(!is_redis_url("redis"));
    assert!(starts_with_ignoring_ascii_case("ABC", "ab"));
    assert!(!starts_with_ignoring_ascii_case("a", "ab"));
}
