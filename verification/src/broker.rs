//! The broker: the redis lists that jobs wait on.

use vstd::prelude::*;
use std::time::Duration;
use crate::ext::duration_from_secs;
use crate::ext::duration_secs;
use crate::ext::duration_subsec_nanos;
use crate::connection::connection_url;
use crate::connection::has_redis_scheme;
use crate::connection::is_redis_url;
use crate::connection::opt_view;
use crate::connection::redis_url;
use crate::ext::open_redis_client;
use crate::ext::redis_open_result;

verus! {

/// How to reach the broker's redis server, and how often to poll it.
pub struct Options {
    pub addrs: Vec<String>,
    pub password: Option<String>,
    pub db: u32,
    pub dial_timeout: Duration,
    pub read_timeout: Duration,
    pub write_timeout: Duration,
    pub idle_timeout: Duration,
    pub min_idle_conns: usize,
    pub poll_period: Duration,
}

/// `d` is exactly `secs` seconds long.
pub open spec fn is_secs(d: Duration, secs: u64) -> bool {
    duration_secs(d) == secs && duration_subsec_nanos(d) == 0
}

impl Default for Options {
    /// A local redis server ("127.0.0.1:6379", database 0, no password),
    /// 5 s timeouts for dialing, reading and writing, 60 s before an idle
    /// connection closes, one idle connection kept, and a poll every second.
    fn default() -> (o: Self)
        ensures
            o.addrs@.len() == 1,
            o.addrs@[0]@ == "127.0.0.1:6379"@,
            o.password is None,
            o.db == 0,
            is_secs(o.dial_timeout, 5),
            is_secs(o.read_timeout, 5),
            is_secs(o.write_timeout, 5),
            is_secs(o.idle_timeout, 60),
            o.min_idle_conns == 1,
            is_secs(o.poll_period, 1),
    {
        let mut addrs: Vec<String> = Vec::new();
        addrs.push("127.0.0.1:6379".to_owned());
        Options {
            addrs,
            password: None,
            db: 0,
            dial_timeout: duration_from_secs(5),
            read_timeout: duration_from_secs(5),
            write_timeout: duration_from_secs(5),
            idle_timeout: duration_from_secs(60),
            min_idle_conns: 1,
            poll_period: duration_from_secs(1),
        }
    }
}

/// What a broker's consumer saw last.
#[derive(Debug)]
pub enum ConsumerEvent {
    /// A poll of the queue returned a message.
    Received(Vec<u8>),
    /// A poll of the queue failed.
    PollFailed,
    /// A poll of the queue did not answer within the poll period.
    TimedOut,
    /// A message could not be handed on: nobody takes work any more.
    DeliveryFailed,
}

/// What a broker's consumer does next.
#[derive(Debug)]
pub enum ConsumerAction {
    /// Hand the message on to the workers, then poll again.
    Deliver(Vec<u8>),
    /// Report the failed poll and poll again.
    ReportError,
    /// Report the timeout and poll again.
    ReportTimeout,
    /// Stop consuming.
    Stop,
}

/// A consumer's step: it hands every message on, keeps polling after a
/// failed or timed-out poll, and stops only when a message cannot be handed
/// on.
pub fn consumer_step(event: ConsumerEvent) -> (a: ConsumerAction)
    ensures
        match event {
            ConsumerEvent::Received(m) => a == ConsumerAction::Deliver(m),
            ConsumerEvent::PollFailed => a == ConsumerAction::ReportError,
            ConsumerEvent::TimedOut => a == ConsumerAction::ReportTimeout,
            ConsumerEvent::DeliveryFailed => a == ConsumerAction::Stop,
        },
{
    match event {
        ConsumerEvent::Received(m) => ConsumerAction::Deliver(m),
        ConsumerEvent::PollFailed => ConsumerAction::ReportError,
        ConsumerEvent::TimedOut => ConsumerAction::ReportTimeout,
        ConsumerEvent::DeliveryFailed => ConsumerAction::Stop,
    }
}

/// The URL a broker connects to: its address as it stands when that already
/// is a redis URL, else the URL made of address, password and database.
pub open spec fn broker_url(addr: Seq<char>, password: Option<Seq<char>>, db: u32) -> Seq<char> {
    if has_redis_scheme(addr) {
        addr
    } else {
        connection_url(addr, password, db)
    }
}

/// A connection URL that redis refused.
#[derive(Debug)]
pub struct ConnectError {
    pub url: String,
    pub cause: redis::RedisError,
}

/// A broker: its options and the redis client made from them.
pub struct Broker {
    opts: Options,
    client: redis::Client,
}

impl Broker {
    /// The options the broker was made with.
    pub closed spec fn options_of(self) -> Options {
        self.opts
    }

    /// The redis client the broker connects with.
    pub closed spec fn client_of(self) -> redis::Client {
        self.client
    }

    /// The redis URL for `opts`: its first address as it stands when that
    /// already is a redis URL, else the URL made of that address, the
    /// password and the database.
    pub fn connection_url(opts: &Options) -> (url: String)
        requires
            opts.addrs@.len() > 0,
        ensures
            url@ == broker_url(opts.addrs@[0]@, opt_view(opts.password), opts.db),
    {
        let addr = opts.addrs[0].as_str();
        if is_redis_url(addr) {
            addr.to_owned()
        } else {
            redis_url(addr, &opts.password, opts.db)
        }
    }

    /// A broker for `opts`, whose client connects to the URL that
    /// `connection_url` makes of them: an address such as
    /// "redis://127.0.0.1:6379" is taken as it stands, and a plain
    /// `host:port` address such as "127.0.0.1:6379" becomes
    /// `redis://127.0.0.1:6379/`. Redis must accept that URL; else the error
    /// names it.
    pub fn new(opts: Options) -> (r: Result<Broker, ConnectError>)
        requires
            opts.addrs@.len() > 0,
        ensures
            ({
                let url = broker_url(opts.addrs@[0]@, opt_view(opts.password), opts.db);
                &&& r is Ok <==> redis_open_result(url) is Some
                &&& r matches Ok(b) ==> b.options_of() == opts && redis_open_result(url) == Some(b.client_of())
                &&& r matches Err(e) ==> e.url@ == url
            }),
    {
        let url = Broker::connection_url(&opts);
        match open_redis_client(url.clone()) {
            Ok(client) => Ok(Broker { opts, client }),
            Err(cause) => Err(ConnectError { url, cause }),
        }
    }

    /// The options the broker was made with.
    pub fn opts(&self) -> (o: &Options)
        ensures
            *o == self.options_of(),
    {
        &self.opts
    }

    /// The redis client, as `redis::Client::open` made it of the connection URL.
    pub fn client(&self) -> (c: &redis::Client)
        ensures
            *c == self.client_of(),
    {
        &self.client
    }
}

} // verus!
