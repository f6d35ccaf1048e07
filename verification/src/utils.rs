//! Small decisions of the surrounding sync tooling: reading the published
//! layer number out of a snapshot URL, the version prefix of a node build
//! string, the network-layer clock, and backup file naming.

use vstd::prelude::*;

use crate::strutil::dec_of;
use crate::strutil::digit_of_char;
use crate::strutil::find_char;
use crate::strutil::is_digit;
use crate::strutil::lemma_find_char;
use crate::strutil::lemma_find_char_at;
use crate::strutil::lemma_find_char_none;
use crate::strutil::parse_u64_spec;
use crate::strutil::parse_u64_str;
use crate::strutil::str_ends_with;
use crate::strutil::to_decimal;

verus! {

/// The start of the digit run ending just before index `j`: the least index
/// from which everything up to `j` is digits.
pub open spec fn digit_run_start(s: Seq<char>, j: int) -> int
    decreases j,
{
    if 0 < j <= s.len() && is_digit(s[j - 1]) {
        digit_run_start(s, j - 1)
    } else {
        j
    }
}

/// The digit string captured by a URL of the form `.../{number}.sql.zst`:
/// the maximal digit run just before the `.sql.zst` suffix, which must be
/// non-empty and preceded by `/`.
pub open spec fn zst_number_str(s: Seq<char>) -> Option<Seq<char>> {
    let n = s.len() as int;
    if n >= 8 && s.skip(n - 8) == ".sql.zst"@ {
        let j = n - 8;
        let st = digit_run_start(s, j);
        if st < j && st > 0 && s[st - 1] == '/' {
            Some(s.subrange(st, j))
        } else {
            None
        }
    } else {
        None
    }
}

/// The layer number a snapshot URL carries, if its path ends in
/// `/{number}.sql.zst` and the number fits a `u64`.
pub open spec fn extract_number_spec(s: Seq<char>) -> Option<u64> {
    match zst_number_str(s) {
        None => None,
        Some(digits) => parse_u64_spec(digits),
    }
}

/// Reads the published layer number out of a snapshot URL: the digits
/// between the final `/` and a trailing `.sql.zst`. `None` when the URL has
/// no such component or the number does not fit.
pub fn extract_number_from_url(url: &str) -> (r: Option<u64>)
    ensures
        r == extract_number_spec(url@),
{
    proof {
        reveal_strlit(".sql.zst");
    }
    if !str_ends_with(url, ".sql.zst") {
        return None;
    }
    let n = url.unicode_len();
    let j = n - 8;
    let mut st: usize = j;
    while st > 0 && digit_of_char(url.get_char(st - 1)).is_some()
        invariant
            st <= j,
            j + 8 == n,
            n == url@.len(),
            digit_run_start(url@, j as int) == digit_run_start(url@, st as int),
        decreases st,
    {
        st = st - 1;
    }
    proof {
        assert(digit_run_start(url@, st as int) == st as int);
    }
    if st == j || st == 0 {
        return None;
    }
    if url.get_char(st - 1) != '/' {
        return None;
    }
    let digits = url.substring_char(st, j);
    proof {
        assert(digits@ =~= url@.subrange(st as int, j as int));
    }
    parse_u64_str(digits)
}

/// The node version without its build metadata: everything before the first
/// `+`, or the whole string when it has none.
pub fn version_prefix(version: &str) -> (r: String)
    ensures
        find_char(version@, '+') == -1 ==> r@ == version@,
        find_char(version@, '+') >= 0 ==> r@ == version@.take(find_char(version@, '+')),
{
    let n = version.unicode_len();
    let mut i: usize = 0;
    while i < n && version.get_char(i) != '+'
        invariant
            i <= n,
            n == version@.len(),
            forall|j: int| 0 <= j < i ==> version@[j] != '+',
        decreases n - i,
    {
        i = i + 1;
    }
    proof {
        if i < n {
            lemma_find_char_at(version@, '+', i as int);
        } else {
            lemma_find_char_none(version@, '+');
        }
    }
    let prefix = version.substring_char(0, i);
    proof {
        assert(prefix@ =~= version@.take(i as int));
        if i == n {
            assert(version@.take(n as int) == version@);
        }
    }
    let mut r = String::new();
    r.append(prefix);
    r
}

/// The network layer the clock has reached: the time since genesis divided
/// by the layer duration, both in milliseconds. Genesis must not lie in the
/// future and the duration must be positive.
pub fn calculate_latest_layer(now_ms: i64, genesis_ms: i64, layer_duration_ms: i64) -> (r: i64)
    requires
        genesis_ms <= now_ms,
        now_ms - genesis_ms <= i64::MAX,
        layer_duration_ms > 0,
    ensures
        r == ((now_ms - genesis_ms) as int) / (layer_duration_ms as int),
{
    let delta = now_ms - genesis_ms;
    delta / layer_duration_ms
}

/// The backup name to try for attempt `counter`: `state.sql.bak.{counter}`.
pub fn next_backup_name(counter: u64) -> (r: String)
    ensures
        r@ == "state.sql.bak."@ + dec_of(counter as nat),
{
    let mut r = String::new();
    r.append("state.sql.bak.");
    let c = to_decimal(counter);
    r.append(c.as_str());
    r
}

} // verus!
