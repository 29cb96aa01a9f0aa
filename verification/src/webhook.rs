//! Delivering a job's output files to a webhook: the request is sent around this module,
//! which judges the answer.

use vstd::prelude::*;
use crate::executor::ExecutorError;
use crate::text::{decimal, u64_decimal};

verus! {

/// The reason phrase the `http` crate gives a status code, if it knows one.
pub uninterp spec fn status_reason(code: u16) -> Option<Seq<char>>;

/// `http::StatusCode::from_u16(code)` and its `canonical_reason`: the standard reason
/// phrase of the code, for the codes the crate lists. The phrases themselves are only
/// named (`status_reason`), not listed. A code outside 100 to 999, which `from_u16`
/// refuses, has none.
#[verifier::external_body]
fn canonical_reason(code: u16) -> (r: Option<&'static str>)
    ensures
        match r {
            Some(t) => status_reason(code) == Some(t@),
            None => status_reason(code) is None,
        },
{
    http::StatusCode::from_u16(code).ok().and_then(|s| s.canonical_reason())
}

/// How a status is written: its code and reason phrase, or `<unknown status code>`.
pub open spec fn status_text(code: u16) -> Seq<char> {
    decimal(code as nat) + " "@ + match status_reason(code) {
        Some(t) => t,
        None => "<unknown status code>"@,
    }
}

/// The webhook's answer judged: a status from 200 to 299 is delivered; any other fails
/// with `HTTP <status>: <body>` (`unknown` when the body could not be read).
pub open spec fn webhook_result(code: u16, body: Option<Seq<char>>) -> Result<(), Seq<char>> {
    if 200 <= code < 300 {
        Ok(())
    } else {
        Err("HTTP "@ + status_text(code) + ": "@ + match body {
            Some(b) => b,
            None => "unknown"@,
        })
    }
}

/// Judges the webhook's answer, of status `code` and with `body` if it could be read
/// (see `webhook_result`).
pub fn webhook_outcome(code: u16, body: Option<&str>) -> (r: Result<(), ExecutorError>)
    ensures
        match webhook_result(code, match body {
            Some(b) => Some(b@),
            None => None,
        }) {
            Ok(()) => r is Ok,
            Err(m) => r matches Err(ExecutorError::WebhookFailed(t)) && t@ == m,
        },
{
    if 200 <= code && code < 300 {
        return Ok(());
    }
    let mut m = "HTTP ".to_owned();
    let digits = u64_decimal(code as u64);
    let ghost start = m@;
    let mut i: usize = 0;
    while i < digits.len()
        invariant
            i <= digits@.len(),
            m@ == start + digits@.take(i as int),
        decreases digits@.len() - i,
    {
        m.push(digits[i]);
        assert(digits@.take(i + 1) =~= digits@.take(i as int).push(digits@[i as int]));
        i = i + 1;
    }
    assert(digits@.take(digits@.len() as int) =~= digits@);
    m.append(" ");
    match canonical_reason(code) {
        Some(t) => m.append(t),
        None => m.append("<unknown status code>"),
    }
    m.append(": ");
    match body {
        Some(b) => m.append(b),
        None => m.append("unknown"),
    }
    Err(ExecutorError::WebhookFailed(m))
}

} // verus!
