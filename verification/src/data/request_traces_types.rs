use vstd::prelude::*;

verus! {

/// The steps in the life of a request that are traced.
#[allow(non_camel_case_types)]
#[derive(Debug, Clone, Copy, PartialEq, Eq, Structural)]
pub enum ERequestTraceTypes {
    INTERCEPTED,
    FORWARDED,
    FAILED,
    RETURNED,
    FINALIZED,
}

impl ERequestTraceTypes {
    /// The id of the step in the request trace types table.
    pub open spec fn number(self) -> i32 {
        match self {
            ERequestTraceTypes::INTERCEPTED => 1,
            ERequestTraceTypes::FORWARDED => 2,
            ERequestTraceTypes::FAILED => 3,
            ERequestTraceTypes::RETURNED => 4,
            ERequestTraceTypes::FINALIZED => 5,
        }
    }

    /// The id of the step in the request trace types table.
    pub fn id(&self) -> (r: i32)
        ensures
            r == self.number(),
    {
        match self {
            ERequestTraceTypes::INTERCEPTED => 1,
            ERequestTraceTypes::FORWARDED => 2,
            ERequestTraceTypes::FAILED => 3,
            ERequestTraceTypes::RETURNED => 4,
            ERequestTraceTypes::FINALIZED => 5,
        }
    }
}

} // verus!
