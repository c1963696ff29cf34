use vstd::prelude::*;

verus! {

/// A request as the orchestrator records it.
#[derive(Default)]
pub struct ServiceRequest<'a> {
    /// Request path.
    pub path: Option<&'a String>,
    /// Request UUID.
    pub uuid: String,
    /// Unix time, when the request was intercepted.
    pub request_time: u128,
    /// Unix time, when the request was answered.
    pub response_time: Option<u128>,
    /// Container that served it.
    pub container_id: Option<i32>,
}

} // verus!
