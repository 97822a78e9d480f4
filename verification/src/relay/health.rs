//! Routing of the relay node's HTTP health and metrics endpoint.
//!
//! | Route          | Status  | Body                              |
//! |----------------|---------|-----------------------------------|
//! | `GET /health`  | 200     | `ok`                              |
//! | `GET /metrics` | 200     | Prometheus text exposition format |
//! | `GET /ready`   | 200/503 | `ready` or `not ready`            |
use vstd::prelude::*;
use crate::relay::metrics::{RelayMetrics, format_prometheus, spec_prometheus, spec_snapshot};
use crate::text::{chars_match, str_chars};

verus! {

/// Unicode White_Space characters, as `char::is_whitespace` documents them.
pub open spec fn is_ws(c: char) -> bool {
    let u = c as u32;
    ||| 0x09 <= u <= 0x0D
    ||| u == 0x20
    ||| u == 0x85
    ||| u == 0xA0
    ||| u == 0x1680
    ||| 0x2000 <= u <= 0x200A
    ||| u == 0x2028
    ||| u == 0x2029
    ||| u == 0x202F
    ||| u == 0x205F
    ||| u == 0x3000
}

/// Whether `c` is a whitespace character.
pub fn is_whitespace_char(c: char) -> (r: bool)
    ensures
        r == is_ws(c),
{
    let u = c as u32;
    (0x09 <= u && u <= 0x0D) || u == 0x20 || u == 0x85 || u == 0xA0 || u == 0x1680 || (0x2000
        <= u && u <= 0x200A) || u == 0x2028 || u == 0x2029 || u == 0x202F || u == 0x205F || u
        == 0x3000
}

/// The first index at or after `i` that does not hold whitespace.
pub open spec fn skip_ws(s: Seq<char>, i: int) -> int
    decreases s.len() - i,
{
    if 0 <= i < s.len() && is_ws(s[i]) {
        skip_ws(s, i + 1)
    } else {
        i
    }
}

/// The first index at or after `i` that holds whitespace (or the end).
pub open spec fn word_end(s: Seq<char>, i: int) -> int
    decreases s.len() - i,
{
    if 0 <= i < s.len() && !is_ws(s[i]) {
        word_end(s, i + 1)
    } else {
        i
    }
}

/// The whitespace-separated words of `s` from index `i` on.
pub open spec fn words_from(s: Seq<char>, i: int) -> Seq<Seq<char>>
    decreases s.len() - i,
{
    let a = skip_ws(s, i);
    if 0 <= i <= a && a < s.len() {
        let b = word_end(s, a);
        if a < b <= s.len() {
            seq![s.subrange(a, b)] + words_from(s, b)
        } else {
            Seq::empty()
        }
    } else {
        Seq::empty()
    }
}

/// The whitespace-separated words of `s` (what `split_whitespace` yields).
pub open spec fn words(s: Seq<char>) -> Seq<Seq<char>> {
    words_from(s, 0)
}

proof fn lemma_skip_ws_bounds(s: Seq<char>, i: int)
    requires
        0 <= i <= s.len(),
    ensures
        i <= skip_ws(s, i) <= s.len(),
        skip_ws(s, i) < s.len() ==> !is_ws(s[skip_ws(s, i)]),
    decreases s.len() - i,
{
    if i < s.len() && is_ws(s[i]) {
        lemma_skip_ws_bounds(s, i + 1);
    }
}

proof fn lemma_word_end_bounds(s: Seq<char>, i: int)
    requires
        0 <= i <= s.len(),
    ensures
        i <= word_end(s, i) <= s.len(),
    decreases s.len() - i,
{
    if i < s.len() && !is_ws(s[i]) {
        lemma_word_end_bounds(s, i + 1);
    }
}

/// Index of the first non-whitespace character at or after `i`.
fn skip_whitespace(v: &Vec<char>, i: usize) -> (j: usize)
    requires
        i <= v@.len(),
    ensures
        j as int == skip_ws(v@, i as int),
        i <= j <= v@.len(),
{
    let mut j = i;
    while j < v.len() && is_whitespace_char(v[j])
        invariant
            i <= j <= v@.len(),
            skip_ws(v@, i as int) == skip_ws(v@, j as int),
        decreases v@.len() - j,
    {
        j += 1;
    }
    j
}

/// Index of the first whitespace character at or after `i` (or the end).
fn find_word_end(v: &Vec<char>, i: usize) -> (j: usize)
    requires
        i <= v@.len(),
    ensures
        j as int == word_end(v@, i as int),
        i <= j <= v@.len(),
{
    let mut j = i;
    while j < v.len() && !is_whitespace_char(v[j])
        invariant
            i <= j <= v@.len(),
            word_end(v@, i as int) == word_end(v@, j as int),
        decreases v@.len() - j,
    {
        j += 1;
    }
    j
}

/// The status line and body that the endpoint answers for a request line.
pub open spec fn spec_route(line: Seq<char>, m: RelayMetrics, max_capacity: u64) -> (Seq<char>, Seq<char>) {
    let w = words(line);
    if w.len() < 2 {
        ("400 Bad Request"@, "bad request"@)
    } else if w[0] != "GET"@ {
        ("405 Method Not Allowed"@, "method not allowed"@)
    } else if w[1] == "/health"@ {
        ("200 OK"@, "ok"@)
    } else if w[1] == "/metrics"@ {
        ("200 OK"@, spec_prometheus(spec_snapshot(m)))
    } else if w[1] == "/ready"@ {
        spec_ready(m, max_capacity)
    } else {
        ("404 Not Found"@, "not found"@)
    }
}

/// The answer of the readiness probe: ready while below capacity.
pub open spec fn spec_ready(m: RelayMetrics, max_capacity: u64) -> (Seq<char>, Seq<char>) {
    if m.active_sessions < max_capacity {
        ("200 OK"@, "ready"@)
    } else {
        ("503 Service Unavailable"@, "not ready"@)
    }
}

/// Route a raw HTTP request line (`METHOD PATH ...`) to its handler and
/// return `(status_line, body)`.
pub fn route(first_line: &str, metrics: &RelayMetrics, max_capacity: u64) -> (r: (String, String))
    ensures
        (r.0@, r.1@) == spec_route(first_line@, *metrics, max_capacity),
{
    let v = str_chars(first_line);
    let ghost s = v@;
    let a0 = skip_whitespace(&v, 0);
    proof {
        lemma_skip_ws_bounds(s, 0);
    }
    if a0 >= v.len() {
        return (String::from_str("400 Bad Request"), String::from_str("bad request"));
    }
    let b0 = find_word_end(&v, a0);
    proof {
        lemma_word_end_bounds(s, a0 as int + 1);
        assert(b0 > a0);
    }
    let a1 = skip_whitespace(&v, b0);
    proof {
        lemma_skip_ws_bounds(s, b0 as int);
    }
    if a1 >= v.len() {
        assert(words_from(s, b0 as int) =~= Seq::<Seq<char>>::empty());
        assert(words(s).len() == 1);
        return (String::from_str("400 Bad Request"), String::from_str("bad request"));
    }
    let b1 = find_word_end(&v, a1);
    proof {
        lemma_word_end_bounds(s, a1 as int + 1);
        assert(b1 > a1);
        assert(words(s)[0] == s.subrange(a0 as int, b0 as int));
        assert(words_from(s, b0 as int)[0] == s.subrange(a1 as int, b1 as int));
        assert(words(s).len() >= 2);
        assert(words(s)[1] == s.subrange(a1 as int, b1 as int));
    }
    if !chars_match(&v, a0, b0, "GET") {
        return (String::from_str("405 Method Not Allowed"), String::from_str("method not allowed"));
    }
    if chars_match(&v, a1, b1, "/health") {
        handle_health()
    } else if chars_match(&v, a1, b1, "/metrics") {
        handle_metrics(metrics)
    } else if chars_match(&v, a1, b1, "/ready") {
        handle_ready(metrics, max_capacity)
    } else {
        (String::from_str("404 Not Found"), String::from_str("not found"))
    }
}

/// `GET /health`: always `200 OK` with body `ok`.
pub fn handle_health() -> (r: (String, String))
    ensures
        r.0@ == "200 OK"@,
        r.1@ == "ok"@,
{
    (String::from_str("200 OK"), String::from_str("ok"))
}

/// `GET /metrics`: `200 OK` with the Prometheus rendering of the counters.
pub fn handle_metrics(metrics: &RelayMetrics) -> (r: (String, String))
    ensures
        r.0@ == "200 OK"@,
        r.1@ == spec_prometheus(spec_snapshot(*metrics)),
{
    let snap = metrics.snapshot();
    let body = format_prometheus(&snap);
    (String::from_str("200 OK"), body)
}

/// `GET /ready`: `200 OK`/`ready` while the active sessions are below
/// `max_capacity`, else `503 Service Unavailable`/`not ready`.
pub fn handle_ready(metrics: &RelayMetrics, max_capacity: u64) -> (r: (String, String))
    ensures
        (r.0@, r.1@) == spec_ready(*metrics, max_capacity),
{
    if metrics.active_sessions < max_capacity {
        (String::from_str("200 OK"), String::from_str("ready"))
    } else {
        (String::from_str("503 Service Unavailable"), String::from_str("not ready"))
    }
}

/// The most sessions a relay can hold with the ports `min_port..=max_port`:
/// each session takes a pair, so the width of the range halved and rounded
/// up (none when the range is empty).
pub fn relay_capacity(min_port: u16, max_port: u16) -> (c: u64)
    ensures
        c == if max_port >= min_port {
            (max_port - min_port + 1) / 2
        } else {
            0
        },
{
    let width: u64 = if max_port >= min_port {
        (max_port - min_port) as u64
    } else {
        0
    };
    width / 2 + width % 2
}

} // verus!
