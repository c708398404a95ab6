//! The session contract the middleware relies on.

use vstd::prelude::*;

verus! {

/// Session data that can say whether it belongs to an authenticated user.
/// The surrounding web application implements this for its session type and
/// the middleware only reads the answer: an unauthenticated request is
/// redirected to the login flow instead of reaching the protected handler.
pub trait AuthenticatedSession {
    fn is_authenticated(&self) -> bool;
}

} // verus!
