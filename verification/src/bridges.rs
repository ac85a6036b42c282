//! Booth adapters. The offline booths (Wormhole, Hyperlane) compute their
//! quote here in full; for the booths that ask an HTTP quote endpoint this
//! module holds what the adapter decides and computes around the call: which
//! chains it serves, the query it sends, and the quote it makes of the reply.

pub mod wormhole;
pub mod hyperlane;
pub mod across;
pub mod allbridge;
pub mod debridge;
pub mod mayan;
pub mod stargate;
pub mod synapse;

use vstd::prelude::*;
use crate::errors::RouterError;

verus! {

/// Whether an HTTP status code reports success (200 to 299).
pub open spec fn status_ok(status: u16) -> bool {
    200 <= status <= 299
}

/// Judges the HTTP status of a booth's reply: success passes; any other
/// status is an upstream error naming the booth and the status line
/// (`status_text`, such as "502 Bad Gateway").
pub fn check_status(booth: &str, status: u16, status_text: &str) -> (r: Result<(), RouterError>)
    ensures
        status_ok(status) ==> r is Ok,
        !status_ok(status) ==> (r matches Err(RouterError::Upstream(m)) && m@ == booth@ + " "@
            + status_text@),
{
    if 200 <= status && status <= 299 {
        return Ok(());
    }
    let mut m = String::from_str(booth);
    m.append(" ");
    m.append(status_text);
    Err(RouterError::Upstream(m))
}

/// A query parameter from a key and a value.
pub fn param(key: &str, value: String) -> (r: (String, String))
    ensures
        r.0@ == key@,
        r.1@ == value@,
{
    (String::from_str(key), value)
}

/// A query parameter whose value is a literal too.
pub fn param_str(key: &str, value: &str) -> (r: (String, String))
    ensures
        r.0@ == key@,
        r.1@ == value@,
{
    (String::from_str(key), String::from_str(value))
}

} // verus!
