//! The outcome a receiver reports for a decoded value.

use vstd::prelude::*;

verus! {

/// The application's receiver could not accept a successfully decoded
/// value; the caller answers the request with a fixed failure response
/// without inspecting anything further.
pub struct ReceiverFailed;

} // verus!
