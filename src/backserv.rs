//! What the back listener decides: which request a report is for, what
//! the report says, and what the reporter is told.

use crate::arbiter::ForHttpResponse;
use crate::table::same_text;
use vstd::prelude::*;

verus! {

/// The path prefix under which reports name their request.
pub const REPORT_PREFIX: &'static str = "/urhttp/";

/// Whether `s` starts with `p`.
pub open spec fn starts_with(s: Seq<char>, p: Seq<char>) -> bool {
    p.len() <= s.len() && s.take(p.len() as int) == p
}

/// `s` with every occurrence of `p` taken out, scanning from the left as
/// `str::replace` does.
pub open spec fn remove_all(s: Seq<char>, p: Seq<char>) -> Seq<char>
    decreases s.len(),
{
    if p.len() == 0 || s.len() == 0 {
        s
    } else if starts_with(s, p) {
        remove_all(s.skip(p.len() as int), p)
    } else {
        seq![s[0]] + remove_all(s.skip(1), p)
    }
}

/// Whether `p` occurs in `s` at position `i`.
fn occurs_at(s: &str, n: usize, p: &str, m: usize, i: usize) -> (r: bool)
    requires
        n == s@.len(),
        m == p@.len(),
        i <= n,
    ensures
        r == starts_with(s@.skip(i as int), p@),
{
    if m > n - i {
        return false;
    }
    let piece = s.substring_char(i, i + m);
    assert(s@.skip(i as int).take(m as int) =~= s@.subrange(i as int, (i + m) as int));
    same_text(piece, p)
}

/// The request identifier that a report's path names: the path with the
/// report prefix taken out wherever it occurs, for a path that starts with
/// it; `None` for any other path.
pub fn uri_extract_req_id(path: &str) -> (r: Option<String>)
    ensures
        r is Some <==> starts_with(path@, REPORT_PREFIX@),
        r matches Some(id) ==> id@ == remove_all(path@, REPORT_PREFIX@),
{
    let n = path.unicode_len();
    let prefix = REPORT_PREFIX;
    let m = prefix.unicode_len();
    proof {
        reveal_strlit("/urhttp/");
    }
    assert(path@.skip(0) =~= path@);
    if !occurs_at(path, n, prefix, m, 0) {
        return None;
    }
    let mut out = String::new();
    let mut i: usize = 0;
    while i < n
        invariant
            n == path@.len(),
            m == prefix@.len(),
            m == 8,
            prefix@ == REPORT_PREFIX@,
            i <= n,
            remove_all(path@, prefix@) == out@ + remove_all(path@.skip(i as int), prefix@),
        decreases n - i,
    {
        if occurs_at(path, n, prefix, m, i) {
            i = i + m;
            assert(path@.skip((i - m) as int).skip(m as int) =~= path@.skip(i as int));
        } else {
            let c = path.substring_char(i, i + 1);
            let ghost rest = path@.skip(i as int);
            assert(rest.skip(1) =~= path@.skip(i + 1));
            assert(c@ =~= seq![rest[0]]);
            out.append(c);
            i = i + 1;
        }
    }
    assert(path@.skip(n as int) =~= Seq::<char>::empty());
    Some(out)
}

/// Whether `serde_json::from_slice` reads the bytes as a JSON value.
pub uninterp spec fn json_parses(b: Seq<u8>) -> bool;

/// Relies on `serde_json::from_slice`: whether it reads the bytes as a JSON
/// value depends on the bytes alone.
#[verifier::external_body]
fn parse_json(bytes: &[u8]) -> (r: Option<serde_json::Value>)
    ensures
        r is Some <==> json_parses(bytes@),
{
    match serde_json::from_slice::<serde_json::Value>(bytes) {
        Ok(v) => Some(v),
        Err(_) => None,
    }
}

/// Relies on `serde_json::Value::from` on a `bool`: the JSON value `false`.
#[verifier::external_body]
fn json_false() -> (r: serde_json::Value) {
    serde_json::Value::from(false)
}

/// The status of a report whose body is JSON.
pub const REPORT_OK_STATUS: u32 = 200;

/// The status of a report whose body is not JSON.
pub const REPORT_BAD_STATUS: u32 = 500;

/// The fulfillment that a report body makes: status 200 and the JSON value
/// it holds, or status 500 and `false` where it holds none.
pub fn payload_response(body: &[u8]) -> (r: ForHttpResponse)
    ensures
        r.code == (if json_parses(body@) {
            REPORT_OK_STATUS
        } else {
            REPORT_BAD_STATUS
        }),
{
    match parse_json(body) {
        Some(data) => ForHttpResponse { code: REPORT_OK_STATUS, data },
        None => ForHttpResponse { code: REPORT_BAD_STATUS, data: json_false() },
    }
}

/// What the reporter is told, as status and body: whether its report
/// matched a pending request, or, where the coordinator could not be
/// asked (`None`), an empty answer with status 500.
pub fn ack_reply(outcome: Option<bool>) -> (r: (u16, &'static str))
    ensures
        match outcome {
            Some(true) => r.0 == 200 && r.1@ == "ok\n"@,
            Some(false) => r.0 == 200 && r.1@ == "Does not match any response\n"@,
            None => r.0 == 500 && r.1@.len() == 0,
        },
{
    proof {
        reveal_strlit("");
    }
    match outcome {
        Some(true) => (200, "ok\n"),
        Some(false) => (200, "Does not match any response\n"),
        None => (500, ""),
    }
}

/// The body of the answer to a report whose path names no request.
pub const NOT_HANDLED_BODY: &'static str = "not handled\n";

} // verus!
