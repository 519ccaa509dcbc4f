//! The redis URL that the broker and the result store connect to.

use vstd::prelude::*;
use crate::text::decimal;
use crate::text::digits_value;
use crate::text::is_digit;
use crate::text::lemma_decimal_denotes;
use crate::text::lemma_trim_end_slashes;
use crate::text::push_decimal;
use crate::text::trim_end_slashes;
use crate::text::trim_end_slashes_of;

verus! {

/// The redis URL for the server at `addr`: `redis://`, then `:password@`
/// when there is a password, the address and `/`. A database other than 0
/// replaces the trailing slashes by its number and a slash (so with an
/// address `host:port` the number follows the port directly).
pub open spec fn connection_url(addr: Seq<char>, password: Option<Seq<char>>, db: u32) -> Seq<char> {
    let base = match password {
        Some(p) => "redis://:"@ + p + "@"@ + addr + "/"@,
        None => "redis://"@ + addr + "/"@,
    };
    if db != 0 {
        trim_end_slashes(base) + decimal(db as nat) + "/"@
    } else {
        base
    }
}

/// A database other than 0 is named in the URL: the URL ends with a numeral
/// that denotes the database, then a slash, and it differs from the URL of
/// database 0; what comes before the numeral is the database-0 URL without
/// its trailing slashes. The database-0 URL ends with a slash.
pub proof fn lemma_connection_url_names_db(addr: Seq<char>, password: Option<Seq<char>>, db: u32)
    ensures
        ({
            let url = connection_url(addr, password, db);
            let base = connection_url(addr, password, 0);
            &&& base.len() > 0 && base.last() == '/'
            &&& db != 0 ==> {
                let k = url.len() - 1;
                let start = trim_end_slashes(base).len() as int;
                &&& url.last() == '/'
                &&& start < k
                &&& url.subrange(0, start) == trim_end_slashes(base)
                &&& forall|i: int| start <= i < k ==> is_digit(#[trigger] url[i])
                &&& digits_value(url.subrange(start, k)) == db
                &&& url[start] != '0'
                &&& url != base
            }
        }),
{
    reveal_strlit("/");
    let url = connection_url(addr, password, db);
    let base = connection_url(addr, password, 0);
    let t = trim_end_slashes(base);
    lemma_trim_end_slashes(base);
    assert(base.last() == '/');
    if db != 0 {
        let d = decimal(db as nat);
        lemma_decimal_denotes(db as nat);
        assert(url == t + d + "/"@);
        let start = t.len() as int;
        let k = url.len() - 1;
        assert(url.subrange(0, start) =~= t);
        assert(url.subrange(start, k) =~= d);
        assert forall|i: int| start <= i < k implies is_digit(#[trigger] url[i]) by {
            assert(url[i] == d[i - start]);
        }
        if t.len() == base.len() {
            assert(t =~= base);
        }
        assert(t.len() < base.len());
        assert(base[start] == '/');
        assert(url[start] == d[0]);
        assert(is_digit(d[0]));
        assert(url[start] != base[start]);
    }
}

/// An optional string, as text.
pub open spec fn opt_view(s: Option<String>) -> Option<Seq<char>> {
    match s {
        Some(p) => Some(p@),
        None => None,
    }
}

/// The redis URL for the server at `addr` with `password` and database `db`.
pub fn redis_url(addr: &str, password: &Option<String>, db: u32) -> (url: String)
    ensures
        url@ == connection_url(addr@, opt_view(*password), db),
{
    let mut url = match password {
        Some(pwd) => {
            let mut u = "redis://:".to_owned();
            u.append(pwd.as_str());
            u.append("@");
            u.append(addr);
            u.append("/");
            u
        },
        None => {
            let mut u = "redis://".to_owned();
            u.append(addr);
            u.append("/");
            u
        },
    };
    if db != 0 {
        let mut with_db = trim_end_slashes_of(url.as_str());
        push_decimal(&mut with_db, db as u64);
        with_db.append("/");
        url = with_db;
    }
    url
}

/// The code of `c`, with ASCII upper-case letters taken as lower-case.
pub open spec fn ascii_lower(c: char) -> u32 {
    if 65 <= (c as u32) <= 90 {
        ((c as u32) + 32) as u32
    } else {
        c as u32
    }
}

/// `s` begins with `prefix`, ASCII letters compared without regard to case.
pub open spec fn starts_with_ignoring_case(s: Seq<char>, prefix: Seq<char>) -> bool {
    &&& prefix.len() <= s.len()
    &&& forall|i: int| 0 <= i < prefix.len() ==> ascii_lower(#[trigger] s[i]) == ascii_lower(prefix[i])
}

/// The URL schemes (with their colon) by which redis takes an address as a
/// URL: `redis`, `rediss`, `valkey`, `valkeys`, `redis+unix`, `valkey+unix`
/// and `unix`.
pub open spec fn redis_schemes() -> Seq<Seq<char>> {
    seq!["redis:"@, "rediss:"@, "valkey:"@, "valkeys:"@, "redis+unix:"@, "valkey+unix:"@, "unix:"@]
}

/// `addr` already is a URL with one of the schemes redis takes (schemes
/// are not case sensitive).
pub open spec fn has_redis_scheme(addr: Seq<char>) -> bool {
    exists|k: int| 0 <= k < redis_schemes().len() && starts_with_ignoring_case(addr, #[trigger] redis_schemes()[k])
}

/// Every scheme redis takes is recognised, whatever follows it and in
/// whatever case its letters are written: an address starting with
/// `redis:`, `rediss:`, `valkey:`, `valkeys:`, `redis+unix:`,
/// `valkey+unix:` or `unix:` is taken as a URL. The schemes are seven
/// different ones. An address starting with a digit, such as a bare
/// `127.0.0.1:6379`, is not taken as a URL.
pub proof fn lemma_redis_schemes_recognised(rest: Seq<char>)
    ensures
        has_redis_scheme("redis:"@ + rest),
        has_redis_scheme("rediss:"@ + rest),
        has_redis_scheme("valkey:"@ + rest),
        has_redis_scheme("valkeys:"@ + rest),
        has_redis_scheme("redis+unix:"@ + rest),
        has_redis_scheme("valkey+unix:"@ + rest),
        has_redis_scheme("unix:"@ + rest),
        has_redis_scheme("REDIS:"@ + rest),
        redis_schemes().len() == 7,
        redis_schemes().no_duplicates(),
        rest.len() > 0 && is_digit(rest[0]) ==> !has_redis_scheme(rest),
{
    reveal_strlit("redis:");
    reveal_strlit("rediss:");
    reveal_strlit("valkey:");
    reveal_strlit("valkeys:");
    reveal_strlit("redis+unix:");
    reveal_strlit("valkey+unix:");
    reveal_strlit("unix:");
    reveal_strlit("REDIS:");
    let sc = redis_schemes();
    assert forall|k: int| 0 <= k < 7 implies starts_with_ignoring_case(#[trigger] sc[k] + rest, sc[k]) by {
        let w = sc[k] + rest;
        assert forall|i: int| 0 <= i < sc[k].len() implies ascii_lower(#[trigger] w[i]) == ascii_lower(sc[k][i]) by {
            assert(w[i] == sc[k][i]);
        }
    }
    assert(sc[0] + rest == "redis:"@ + rest);
    assert(starts_with_ignoring_case(sc[0] + rest, sc[0]));
    assert(starts_with_ignoring_case(sc[1] + rest, sc[1]));
    assert(starts_with_ignoring_case(sc[2] + rest, sc[2]));
    assert(starts_with_ignoring_case(sc[3] + rest, sc[3]));
    assert(starts_with_ignoring_case(sc[4] + rest, sc[4]));
    assert(starts_with_ignoring_case(sc[5] + rest, sc[5]));
    assert(starts_with_ignoring_case(sc[6] + rest, sc[6]));
    let up = "REDIS:"@ + rest;
    assert forall|i: int| 0 <= i < sc[0].len() implies ascii_lower(#[trigger] up[i]) == ascii_lower(sc[0][i]) by {
        assert(up[i] == "REDIS:"@[i]);
    }
    assert(starts_with_ignoring_case(up, sc[0]));
    assert forall|i: int, j: int| 0 <= i < sc.len() && 0 <= j < sc.len() && i != j implies sc[i] != sc[j] by {
        if sc[i].len() == sc[j].len() {
            assert(sc[i][0] != sc[j][0] || sc[i][5] != sc[j][5]);
        }
    }
    if rest.len() > 0 && is_digit(rest[0]) {
        assert forall|k: int| 0 <= k < sc.len() implies !starts_with_ignoring_case(rest, #[trigger] sc[k]) by {
            assert(ascii_lower(rest[0]) != ascii_lower(sc[k][0]));
        }
    }
}

fn lower_code(c: char) -> (r: u32)
    ensures
        r == ascii_lower(c),
{
    let code = c as u32;
    if 65 <= code && code <= 90 {
        code + 32
    } else {
        code
    }
}

/// Whether `s` begins with `prefix`, ASCII letters compared without regard
/// to case.
pub fn starts_with_ignoring_ascii_case(s: &str, prefix: &str) -> (b: bool)
    ensures
        b == starts_with_ignoring_case(s@, prefix@),
{
    let n = s.unicode_len();
    let m = prefix.unicode_len();
    if m > n {
        return false;
    }
    let mut i: usize = 0;
    while i < m
        invariant
            n == s@.len(),
            m == prefix@.len(),
            m <= n,
            i <= m,
            forall|j: int| 0 <= j < i ==> ascii_lower(#[trigger] s@[j]) == ascii_lower(prefix@[j]),
        decreases m - i,
    {
        if lower_code(s.get_char(i)) != lower_code(prefix.get_char(i)) {
            return false;
        }
        i = i + 1;
    }
    true
}

/// Whether `addr` already is a URL with one of the schemes redis takes.
pub fn is_redis_url(addr: &str) -> (b: bool)
    ensures
        b == has_redis_scheme(addr@),
{
    let schemes: [&str; 7] = ["redis:", "rediss:", "valkey:", "valkeys:", "redis+unix:", "valkey+unix:", "unix:"];
    proof {
        reveal_strlit("redis:");
        reveal_strlit("rediss:");
        reveal_strlit("valkey:");
        reveal_strlit("valkeys:");
        reveal_strlit("redis+unix:");
        reveal_strlit("valkey+unix:");
        reveal_strlit("unix:");
    }
    let mut k: usize = 0;
    while k < 7
        invariant
            k <= 7,
            forall|j: int| 0 <= j < 7 ==> (#[trigger] schemes@[j])@ == redis_schemes()[j],
            forall|j: int| 0 <= j < k ==> !starts_with_ignoring_case(addr@, #[trigger] redis_schemes()[j]),
        decreases 7 - k,
    {
        if starts_with_ignoring_ascii_case(addr, schemes[k]) {
            return true;
        }
        k = k + 1;
    }
    false
}

} // verus!
