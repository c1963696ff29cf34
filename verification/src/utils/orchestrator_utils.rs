use vstd::prelude::*;

verus! {

/// The code of "503 Service Unavailable", through `http::StatusCode::SERVICE_UNAVAILABLE.as_u16()`;
/// the http crate defines that constant with the code 503.
#[verifier::external_body]
pub fn service_unavailable_code() -> (code: u16)
    ensures
        code == 503,
{
    http::StatusCode::SERVICE_UNAVAILABLE.as_u16()
}

} // verus!
