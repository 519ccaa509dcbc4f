//! The result store: job results and the sets of succeeded and failed jobs,
//! kept in redis.

use vstd::prelude::*;
use std::time::Duration;
use crate::broker::ConnectError;
use crate::ext::duration_is_zero;
use crate::ext::duration_secs;
use crate::ext::duration_subsec_nanos;
use crate::ext::open_redis_client;
use crate::ext::redis_open_result;
use crate::connection::connection_url;
use crate::connection::opt_view;
use crate::connection::redis_url;
use crate::text::i64_to_decimal;
use crate::text::int_decimal;

verus! {

/// Prefix of every key of the result store.
pub const RESULT_PREFIX: &'static str = "tq:res:";
/// Name of the set of succeeded jobs.
pub const SUCCESS: &'static str = "success";
/// Name of the set of failed jobs.
pub const FAILED: &'static str = "failed";

/// How to reach the result store's redis server, and how long what it keeps
/// lives.
#[derive(Default, Clone)]
pub struct Options {
    pub addrs: Vec<String>,
    pub password: Option<String>,
    pub db: u32,
    pub dial_timeout: Duration,
    pub read_timeout: Duration,
    pub write_timeout: Duration,
    pub idle_timeout: Duration,
    pub expiry: Duration,
    pub meta_expiry: Duration,
    pub min_idle_conns: usize,
}

/// The password of `options`, as text.
pub open spec fn password_view(options: Options) -> Option<Seq<char>> {
    opt_view(options.password)
}

/// The result store.
pub struct Results {
    options: Options,
    client: redis::Client,
}

impl Results {
    /// The options the store was made with.
    pub closed spec fn options_of(self) -> Options {
        self.options
    }

    /// The redis client the store connects with.
    pub closed spec fn client_of(self) -> redis::Client {
        self.client
    }

    /// The redis URL for `options`: its first address, its password and its
    /// database.
    pub fn connection_url(options: &Options) -> (url: String)
        requires
            options.addrs@.len() > 0,
        ensures
            url@ == connection_url(options.addrs@[0]@, password_view(*options), options.db),
    {
        redis_url(options.addrs[0].as_str(), &options.password, options.db)
    }

    /// A result store for `options`, whose client connects to the URL that
    /// `connection_url` makes of them. Redis must accept that URL; else the
    /// error names it.
    pub fn new(options: Options) -> (r: Result<Results, ConnectError>)
        requires
            options.addrs@.len() > 0,
        ensures
            ({
                let url = connection_url(options.addrs@[0]@, password_view(options), options.db);
                &&& r is Ok <==> redis_open_result(url) is Some
                &&& r matches Ok(s) ==> s.options_of() == options && redis_open_result(url) == Some(s.client_of())
                &&& r matches Err(e) ==> e.url@ == url
            }),
    {
        let url = Results::connection_url(&options);
        match open_redis_client(url.clone()) {
            Ok(client) => Ok(Results { options, client }),
            Err(cause) => Err(ConnectError { url, cause }),
        }
    }

    /// Whether the store purges old job metadata: it does when its options
    /// give metadata a lifetime (a nonzero `meta_expiry`).
    pub fn purges_metadata(&self) -> (b: bool)
        ensures
            b == !(duration_secs(self.options_of().meta_expiry) == 0
                && duration_subsec_nanos(self.options_of().meta_expiry) == 0),
    {
        !duration_is_zero(&self.options.meta_expiry)
    }

    /// The options the store was made with.
    pub fn options(&self) -> (o: &Options)
        ensures
            *o == self.options_of(),
    {
        &self.options
    }

    /// The redis client, as `redis::Client::open` made it of the connection URL.
    pub fn client(&self) -> (c: &redis::Client)
        ensures
            *c == self.client_of(),
    {
        &self.client
    }
}

/// The key of the result of job `id`: `tq:res:` and the id.
pub fn result_key(id: &str) -> (k: String)
    ensures
        k@ == RESULT_PREFIX@ + id@,
{
    let mut k = RESULT_PREFIX.to_owned();
    k.append(id);
    k
}

/// Different jobs have their results under different keys.
pub proof fn lemma_result_keys_distinct(a: Seq<char>, b: Seq<char>)
    requires
        a != b,
    ensures
        RESULT_PREFIX@ + a != RESULT_PREFIX@ + b,
{
    crate::text::lemma_prefix_cancels(RESULT_PREFIX@, a, b);
}

/// The key of the set of succeeded jobs: `tq:res:success`.
pub fn success_key() -> (k: String)
    ensures
        k@ == RESULT_PREFIX@ + SUCCESS@,
{
    result_key(SUCCESS)
}

/// The key of the set of failed jobs: `tq:res:failed`.
pub fn failed_key() -> (k: String)
    ensures
        k@ == RESULT_PREFIX@ + FAILED@,
{
    result_key(FAILED)
}

/// The latest score that the metadata purge removes at time `now_secs`
/// (seconds since the epoch) for metadata that lives `ttl_secs` seconds:
/// both taken as `i64`, the difference.
pub open spec fn purge_cutoff(now_secs: u64, ttl_secs: u64) -> int {
    (now_secs as i64) - (ttl_secs as i64)
}

/// The cutoff is exactly the metadata lifetime before now, whenever the
/// lifetime is no longer than the time since the epoch and now fits an
/// `i64`; it lies at most `now_secs` seconds after the epoch and grows with
/// `now_secs` and shrinks as the lifetime grows.
pub proof fn lemma_purge_cutoff(now_secs: u64, ttl_secs: u64, later: u64, longer: u64)
    requires
        ttl_secs <= now_secs <= i64::MAX,
        now_secs <= later <= i64::MAX,
        ttl_secs <= longer <= now_secs,
    ensures
        purge_cutoff(now_secs, ttl_secs) == now_secs - ttl_secs,
        0 <= purge_cutoff(now_secs, ttl_secs) <= now_secs,
        purge_cutoff(now_secs, ttl_secs) <= purge_cutoff(later, ttl_secs),
        purge_cutoff(now_secs, longer) <= purge_cutoff(now_secs, ttl_secs),
{
}

/// The purge cutoff for time `now_secs` and lifetime `ttl_secs`, as a
/// decimal numeral: the score up to which the purge removes entries. The
/// difference must fit an `i64`.
pub fn purge_score(now_secs: u64, ttl_secs: u64) -> (s: String)
    requires
        i64::MIN <= purge_cutoff(now_secs, ttl_secs) <= i64::MAX,
    ensures
        s@ == int_decimal(purge_cutoff(now_secs, ttl_secs)),
{
    let cutoff: i64 = (now_secs as i64) - (ttl_secs as i64);
    i64_to_decimal(cutoff)
}

} // verus!
