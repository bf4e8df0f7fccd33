//! What the front listener answers once a request is resolved.

use crate::arbiter::FrontResponse;
use vstd::prelude::*;

verus! {

/// The status of an answer that carries an internal error.
pub const INTERNAL_ERROR_STATUS: u16 = 500;

/// The status that an answer with code `code` gets: the code cut to 16
/// bits, where that is a status code (three digits, from 100), else 500.
pub open spec fn status_of(code: u32) -> u16 {
    let c = code % 65536;
    if 100 <= c < 1000 {
        c as u16
    } else {
        INTERNAL_ERROR_STATUS
    }
}

/// The status that an answer with code `code` gets.
pub fn status_for(code: u32) -> (r: u16)
    ensures
        r == status_of(code),
{
    let c = (code % 65536) as u16;
    if 100 <= c && c < 1000 {
        c
    } else {
        INTERNAL_ERROR_STATUS
    }
}

/// Relies on the `Display` of `serde_json::Value`: its compact JSON text.
#[verifier::external_body]
fn json_text(v: &serde_json::Value) -> (r: String) {
    v.to_string()
}

/// The status and body of the answer to a resolved request: the reported
/// code and JSON text, or status 500 and `Internal Error`.
pub fn front_reply(resp: &FrontResponse) -> (r: (u16, String))
    ensures
        match resp {
            FrontResponse::BackMsg(m) => r.0 == status_of(m.code),
            FrontResponse::InternalError => r.0 == INTERNAL_ERROR_STATUS && r.1@
                == "Internal Error"@,
        },
{
    match resp {
        FrontResponse::BackMsg(m) => (status_for(m.code), json_text(&m.data)),
        FrontResponse::InternalError => (INTERNAL_ERROR_STATUS, "Internal Error".to_string()),
    }
}

} // verus!
