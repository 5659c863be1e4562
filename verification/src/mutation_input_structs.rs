//! The inputs of the caller-facing mutations.

use crate::ids::Uuid;
use crate::payment_authorization::PaymentAuthorization;
use vstd::prelude::*;

verus! {

/// The input of `create_order`.
#[derive(Clone, Debug)]
pub struct CreateOrderInput {
    /// UUID of the user owning the order.
    pub user_id: Uuid,
    /// One entry per order line.
    pub order_item_inputs: Vec<OrderItemInput>,
    /// UUID of the address the order ships to.
    pub shipment_address_id: Uuid,
    /// UUID of the invoice address.
    pub invoice_address_id: Uuid,
    /// UUID of the payment information to process the order with.
    pub payment_information_id: Uuid,
    /// Optional VAT number.
    pub vat_number: Option<String>,
}

/// One order line of a `create_order` input.
#[derive(Clone, Debug)]
pub struct OrderItemInput {
    /// UUID of the shopping cart item the line draws from.
    pub shopping_cart_item_id: Uuid,
    /// UUID of the shipment method the line uses.
    pub shipment_method_id: Uuid,
    /// UUIDs of the coupons to apply to the line.
    pub coupon_ids: Vec<Uuid>,
}

/// The payment authorization as the caller supplies it.
#[derive(Clone, Copy, PartialEq, Eq, Structural, Debug)]
pub struct PaymentAuthorizationInput {
    /// CVC/CVV number of 3-4 digits.
    pub cvc: Option<u16>,
}

impl PaymentAuthorizationInput {
    /// The authorization datum this input denotes, if any field is set.
    pub fn to_authorization(&self) -> (r: Option<PaymentAuthorization>)
        ensures
            r == self.authorization_spec(),
    {
        match self.cvc {
            Some(cvc) => Some(PaymentAuthorization::CVC(cvc)),
            None => None,
        }
    }

    /// What `to_authorization` returns.
    pub open spec fn authorization_spec(self) -> Option<PaymentAuthorization> {
        match self.cvc {
            Some(cvc) => Some(PaymentAuthorization::CVC(cvc)),
            None => None,
        }
    }
}

/// The input of `place_order`.
#[derive(Clone, Copy, PartialEq, Eq, Structural, Debug)]
pub struct PlaceOrderInput {
    /// UUID of the order to place.
    pub id: Uuid,
    /// Optional payment authorization data.
    pub payment_authorization: Option<PaymentAuthorizationInput>,
}

} // verus!
