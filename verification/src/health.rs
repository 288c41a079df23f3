//! The liveness probe.

use vstd::prelude::*;

verus! {

/// The body of the answer to the liveness probe.
#[derive(Debug, Clone, Copy, PartialEq, Eq)]
pub struct HealthResponse {
    pub status: &'static str,
}

/// The answer to the liveness probe: status code 200 and the word `ok`, for
/// as long as the service is up to give it.
pub fn check() -> (r: (u16, HealthResponse))
    ensures
        r.0 == 200,
        r.1.status@ == "ok"@,
{
    (200, HealthResponse { status: "ok" })
}

} // verus!
