//! Projected copies of foreign entities: lookup data owned elsewhere and
//! rebuilt locally from inbound events.

use crate::ids::Uuid;
use crate::money::PPM_SCALE;
use vstd::prelude::*;

verus! {

/// A product variant as projected locally: its identity, its current
/// version, and whether it is publicly visible.
#[derive(Clone, Copy, PartialEq, Eq, Structural, Debug)]
pub struct ProductVariant {
    /// UUID of the product variant.
    pub _id: Uuid,
    /// Current version of the product variant.
    pub current_version: ProductVariantVersion,
    /// Whether the product variant may appear in orders.
    pub is_publicly_visible: bool,
}

/// One immutable version of a product variant: the fields that order items
/// freeze at creation time.
#[derive(Clone, Copy, PartialEq, Eq, Structural, Debug)]
pub struct ProductVariantVersion {
    /// UUID of the product variant version.
    pub _id: Uuid,
    /// Retail price in minor currency units.
    pub price: u32,
    /// UUID of the tax rate that applies to this version.
    pub tax_rate_id: Uuid,
}

/// A product item held in inventory.
#[derive(Clone, Copy, PartialEq, Eq, Structural, Debug)]
pub struct ProductItem {
    /// UUID of the product item.
    pub _id: Uuid,
}

/// A coupon known to exist; only its identity is projected.
#[derive(Clone, Copy, PartialEq, Eq, Structural, Debug)]
pub struct Coupon {
    /// UUID of the coupon.
    pub _id: Uuid,
}

/// A tax rate with its current version embedded.
#[derive(Clone, Copy, PartialEq, Eq, Structural, Debug)]
pub struct TaxRate {
    /// UUID of the tax rate.
    pub _id: Uuid,
    /// Current version of the tax rate.
    pub current_version: TaxRateVersion,
}

/// One version of a tax rate. The rate is held in parts per million of the
/// taxed amount.
#[derive(Clone, Copy, PartialEq, Eq, Structural, Debug)]
pub struct TaxRateVersion {
    /// UUID of the tax rate version.
    pub _id: Uuid,
    /// Rate in parts per million.
    pub rate_ppm: u64,
    /// Monotonically increasing version number.
    pub version: u32,
}

/// A discount applicable to one order line: a multiplicative factor in
/// parts per million of the price it applies to.
#[derive(Clone, Copy, PartialEq, Eq, Structural, Debug)]
pub struct Discount {
    /// UUID of the discount.
    pub _id: Uuid,
    /// Multiplicative factor in parts per million; at most one million.
    pub factor_ppm: u64,
}

impl Discount {
    /// The factor stays within one million parts per million, so a discount
    /// never raises a price.
    pub open spec fn valid(self) -> bool {
        self.factor_ppm <= PPM_SCALE
    }
}

/// A shopping cart item, referenced by identity only.
#[derive(Clone, Copy, PartialEq, Eq, Structural, Debug)]
pub struct ShoppingCartItem {
    /// UUID of the shopping cart item.
    pub _id: Uuid,
}

/// A user address, referenced by identity only.
#[derive(Clone, Copy, PartialEq, Eq, Structural, Debug)]
pub struct Address {
    /// UUID of the address.
    pub _id: Uuid,
}

/// The method or provider a shipment uses.
#[derive(Clone, Copy, PartialEq, Eq, Structural, Debug)]
pub struct ShipmentMethod {
    /// UUID of the shipment method.
    pub _id: Uuid,
}

/// A user with the ordered list of that user's address ids.
#[derive(Clone, Debug)]
pub struct User {
    /// UUID of the user.
    pub _id: Uuid,
    /// UUIDs of the user's addresses, in insertion order.
    pub user_address_ids: Vec<Uuid>,
}

impl User {
    /// A user as first projected from a creation event: no addresses yet.
    pub fn from_id(id: Uuid) -> (r: User)
        ensures
            r._id == id,
            r.user_address_ids@.len() == 0,
    {
        User { _id: id, user_address_ids: Vec::new() }
    }

    /// Whether `address_id` is registered for this user.
    pub open spec fn has_address_spec(self, address_id: Uuid) -> bool {
        self.user_address_ids@.contains(address_id)
    }

    /// Looks `address_id` up in the user's address list.
    pub fn has_address(&self, address_id: &Uuid) -> (r: bool)
        ensures
            r == self.has_address_spec(*address_id),
    {
        let n = self.user_address_ids.len();
        let mut i: usize = 0;
        while i < n
            invariant
                i <= n,
                n == self.user_address_ids@.len(),
                forall|j: int| 0 <= j < i ==> self.user_address_ids@[j] != *address_id,
            decreases n - i,
        {
            if self.user_address_ids[i] == *address_id {
                return true;
            }
            i = i + 1;
        }
        false
    }
}

} // verus!
