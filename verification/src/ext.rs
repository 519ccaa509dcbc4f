//! The calls this library makes into other crates and into parts of std that
//! vstd gives no specification. Each item here is trusted: its contract is
//! what the called code's source or documentation shows, and is not proved.

use vstd::prelude::*;
use std::time::Duration;
use std::time::SystemTime;

verus! {

/// A redis client: the parsed connection settings it will connect with.
#[verifier::external_type_specification]
#[verifier::external_body]
pub struct ExRedisClient(redis::Client);

/// The error redis reports, here the refusal of a connection URL.
#[verifier::external_type_specification]
#[verifier::external_body]
pub struct ExRedisError(redis::RedisError);

/// A point in time read from the system clock.
#[verifier::external_type_specification]
#[verifier::external_body]
pub struct ExSystemTime(SystemTime);

/// `Duration` is `Copy`: its `clone` gives back the same duration.
pub assume_specification [<Duration as Clone>::clone](d: &Duration) -> (r: Duration)
    ensures
        r == *d,
;

/// What `redis::Client::open` makes of the connection URL `url`: the client
/// holding the settings parsed from it, or `None` when it refuses the URL.
pub uninterp spec fn redis_open_result(url: Seq<char>) -> Option<redis::Client>;

/// The whole seconds of a duration, as `Duration::as_secs` gives them.
pub uninterp spec fn duration_secs(d: Duration) -> u64;

/// The fractional part of a duration in nanoseconds, as
/// `Duration::subsec_nanos` gives it.
pub uninterp spec fn duration_subsec_nanos(d: Duration) -> u32;

/// Calls `redis::Client::open` on a URL. The call only parses the URL into
/// connection settings (it opens no connection), so whether it succeeds, and
/// the client it makes, depend on the URL alone; the rules by which redis
/// parses it are not stated here.
#[verifier::external_body]
pub(crate) fn open_redis_client(url: String) -> (r: Result<redis::Client, redis::RedisError>)
    ensures
        match r {
            Ok(c) => redis_open_result(url@) == Some(c),
            Err(_) => redis_open_result(url@) is None,
        },
{
    redis::Client::open(url)
}

/// Reads the system clock with `SystemTime::now`. Nothing is stated of the
/// time it returns.
#[verifier::external_body]
pub(crate) fn system_time_now() -> SystemTime {
    SystemTime::now()
}

/// Calls `Duration::from_secs`: the duration of `secs` whole seconds.
#[verifier::external_body]
pub(crate) fn duration_from_secs(secs: u64) -> (d: Duration)
    ensures
        duration_secs(d) == secs,
        duration_subsec_nanos(d) == 0,
{
    Duration::from_secs(secs)
}

/// Calls `Duration::is_zero`: whether `d` is no time at all.
#[verifier::external_body]
pub(crate) fn duration_is_zero(d: &Duration) -> (b: bool)
    ensures
        b == (duration_secs(*d) == 0 && duration_subsec_nanos(*d) == 0),
{
    d.is_zero()
}

/// Calls `num_cpus::get`, the number of CPUs this process may use, which its
/// documentation says is always at least 1. It depends on the machine, so
/// nothing more is stated.
#[verifier::external_body]
pub(crate) fn cpu_count() -> (n: usize)
    ensures
        n >= 1,
{
    num_cpus::get()
}

/// A lower-case hexadecimal digit.
pub open spec fn is_lower_hex_digit(c: char) -> bool {
    (48 <= (c as u32) <= 57) || (97 <= (c as u32) <= 102)
}

/// The hyphenated text of a random (version 4, RFC 4122 variant) UUID:
/// 36 characters, hyphens at 8, 13, 18 and 23, lower-case hex digits
/// elsewhere, the version digit `4` at 14 and a variant digit of `8`, `9`,
/// `a` or `b` at 19.
pub open spec fn is_uuid_v4_text(s: Seq<char>) -> bool {
    &&& s.len() == 36
    &&& forall|i: int| 0 <= i < 36 ==> if i == 8 || i == 13 || i == 18 || i == 23 {
        #[trigger] s[i] == '-'
    } else {
        is_lower_hex_digit(s[i])
    }
    &&& s[14] == '4'
    &&& (s[19] == '8' || s[19] == '9' || s[19] == 'a' || s[19] == 'b')
}

/// A fresh random UUID from `uuid::Uuid::new_v4`, which sets the version
/// bits to 4 and the variant bits to RFC 4122, written by its `Display` impl
/// in the lower-case hyphenated form. Which UUID comes out is chance, so
/// only that form is stated.
#[verifier::external_body]
pub(crate) fn new_uuid_string() -> (s: String)
    ensures
        is_uuid_v4_text(s@),
{
    uuid::Uuid::new_v4().to_string()
}

} // verus!
