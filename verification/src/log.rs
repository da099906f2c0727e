//! The raw request log: one immutable record per completed proxied request.

use vstd::prelude::*;

verus! {

/// One completed request: when it started (microseconds since the Unix
/// epoch), its HTTP method and URI, the requester's IP address in string
/// form, and the elapsed time in microseconds. Appended once per request
/// and never mutated after creation.
#[derive(Debug)]
pub struct Log {
    pub timestamp: i64,
    pub req_method: String,
    pub req_uri: String,
    pub requester_ip: String,
    pub micros: u128,
}

} // verus!
