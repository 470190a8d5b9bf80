//! Why a filter chain gave up on a request.
use vstd::prelude::*;

verus! {

/// The failure that ends a filter chain and selects the error response.
#[derive(Clone, Copy, Debug, PartialEq, Eq, Structural)]
pub enum Rejection {
    /// The body of the request had already been taken from its context.
    BodyUnavailable,
    /// The body stream broke off before its end.
    StreamFailure,
    /// The joined body did not decode into the requested type.
    DecodeFailure,
}

} // verus!
