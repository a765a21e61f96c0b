use vstd::prelude::*;

verus! {

/// The answer of the liveness probe.
#[derive(Debug, Clone, Copy, PartialEq, Eq)]
pub struct HealthResponse {
    pub status: &'static str,
    pub code: u16,
}

} // verus!
