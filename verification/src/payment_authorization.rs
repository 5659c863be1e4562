//! Payment authorization data that can be attached to an order at placement.

use vstd::prelude::*;

verus! {

/// Payment authorization attached to an order.
///
/// The representation is open for further variants; at present only a
/// card verification code is defined.
#[derive(Clone, Copy, PartialEq, Eq, Structural, Debug)]
pub enum PaymentAuthorization {
    /// CVC/CVV number of 3-4 digits.
    CVC(u16),
}

} // verus!
