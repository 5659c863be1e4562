//! The authorization gate: caller identity against resource owner.

use crate::errors::OrderError;
use crate::ids::Uuid;
use vstd::prelude::*;

verus! {

/// The authenticated caller, as the identity provider verified it from the
/// forwarded identity header.
#[derive(Clone, Copy, PartialEq, Eq, Structural, Debug)]
pub struct AuthorizedUserHeader {
    /// UUID of the authenticated user.
    pub user_id: Uuid,
}

/// Grants access exactly when the caller is the owner; on a mismatch the
/// caller learns nothing but the denial.
pub fn authenticate_user(header: &AuthorizedUserHeader, owner_user_id: &Uuid) -> (r: Result<
    (),
    OrderError,
>)
    ensures
        r.is_ok() <==> header.user_id == *owner_user_id,
        r is Err ==> r == Result::<(), OrderError>::Err(OrderError::AuthDenied),
{
    if header.user_id.hi == owner_user_id.hi && header.user_id.lo == owner_user_id.lo {
        Ok(())
    } else {
        Err(OrderError::AuthDenied)
    }
}

} // verus!
