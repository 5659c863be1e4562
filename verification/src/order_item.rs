//! Order items: one line of an order, carrying a pricing snapshot frozen at
//! creation time.

use crate::foreign_types::{
    Discount, ProductVariant, ProductVariantVersion, ShipmentMethod, ShoppingCartItem,
    TaxRateVersion,
};
use crate::ids::Uuid;
use crate::money::{compute_discounted_amount, discounted_amount};
use crate::mutation_input_structs::OrderItemInput;
use crate::order_datatypes::{CommonOrderInput, OrderDirection};
use vstd::multiset::Multiset;
use vstd::prelude::*;

verus! {

broadcast use vstd::seq_lib::group_to_multiset_ensures;

/// Non-strict ordering of discounts by identifier.
pub open spec fn discount_le(a: Discount, b: Discount) -> bool {
    a._id.lt_spec(b._id) || a._id == b._id
}

/// The sequence is sorted by discount id, duplicates allowed.
pub open spec fn discounts_sorted(s: Seq<Discount>) -> bool {
    forall|i: int, j: int| 0 <= i < j < s.len() ==> discount_le(s[i], s[j])
}

/// The sequence is sorted by discount id in descending direction.
pub open spec fn discounts_sorted_desc(s: Seq<Discount>) -> bool {
    forall|i: int, j: int| 0 <= i < j < s.len() ==> discount_le(s[j], s[i])
}

/// The sequence is strictly sorted by discount id: sorted and free of
/// duplicate ids.
pub open spec fn discounts_normalized(s: Seq<Discount>) -> bool {
    forall|i: int, j: int| 0 <= i < j < s.len() ==> s[i]._id.lt_spec(s[j]._id)
}

/// Every discount factor stays within one.
pub open spec fn discounts_valid(s: Seq<Discount>) -> bool {
    forall|i: int| 0 <= i < s.len() ==> s[i].valid()
}

/// Some discount in `s` carries the id `id`.
pub open spec fn id_covered(id: Uuid, s: Seq<Discount>) -> bool {
    exists|j: int| 0 <= j < s.len() && s[j]._id == id
}

/// The factors of a sequence of discounts, in order.
pub open spec fn factor_seq(s: Seq<Discount>) -> Seq<u64> {
    s.map_values(|d: Discount| d.factor_ppm)
}

/// The compensatable amount of a line: the price discounted by every factor,
/// floored once.
pub open spec fn item_amount_spec(price: u32, s: Seq<Discount>) -> int {
    discounted_amount(price as int, factor_seq(s))
}

/// A valid discount set never raises the price: the line amount stays
/// between zero and the frozen retail price.
pub proof fn lemma_item_amount_le_price(price: u32, s: Seq<Discount>)
    requires
        discounts_valid(s),
    ensures
        0 <= item_amount_spec(price, s) <= price,
{
    assert(forall|i: int|
        0 <= i < factor_seq(s).len() ==> #[trigger] factor_seq(s)[i] <= 1_000_000);
    crate::money::lemma_discounted_amount_le_price(price as int, factor_seq(s));
}

/// An order item: one line of an order. The pricing fields are fixed at
/// construction and never recomputed.
#[derive(Clone, Debug)]
pub struct OrderItem {
    /// OrderItem UUID.
    pub _id: Uuid,
    /// Timestamp when the order item was created, in milliseconds.
    pub created_at: i64,
    /// Product variant associated with the order item.
    pub product_variant: ProductVariant,
    /// Product variant version frozen into the order item.
    pub product_variant_version: ProductVariantVersion,
    /// Tax rate version frozen into the order item.
    pub tax_rate_version: TaxRateVersion,
    /// Shopping cart item the order item was built from.
    pub shopping_cart_item: ShoppingCartItem,
    /// Quantity of the order item.
    pub count: u64,
    /// Refundable cost of the line, fixed at construction.
    pub compensatable_amount: u64,
    /// Shipment method of the order item.
    pub shipment_method: ShipmentMethod,
    /// The discounts applied to the line, strictly ordered by id.
    pub internal_discounts: Vec<Discount>,
}

impl OrderItem {
    /// The item's internal invariant: a positive quantity, normalized valid
    /// discounts, and an amount that equals the discount formula applied to
    /// the frozen price.
    pub open spec fn wf(self) -> bool {
        &&& self.count >= 1
        &&& discounts_normalized(self.internal_discounts@)
        &&& discounts_valid(self.internal_discounts@)
        &&& self.compensatable_amount == item_amount_spec(
            self.product_variant_version.price,
            self.internal_discounts@,
        )
    }

    /// Builds an order item, computing its compensatable amount from the
    /// frozen price and the given discounts.
    pub fn new(
        id: Uuid,
        order_item_input: &OrderItemInput,
        product_variant: &ProductVariant,
        product_variant_version: &ProductVariantVersion,
        tax_rate_version: &TaxRateVersion,
        count: u64,
        internal_discounts: Vec<Discount>,
        current_timestamp: i64,
    ) -> (r: OrderItem)
        requires
            count >= 1,
            discounts_normalized(internal_discounts@),
            discounts_valid(internal_discounts@),
        ensures
            r.wf(),
            r._id == id,
            r.created_at == current_timestamp,
            r.product_variant == *product_variant,
            r.product_variant_version == *product_variant_version,
            r.tax_rate_version == *tax_rate_version,
            r.shopping_cart_item._id == order_item_input.shopping_cart_item_id,
            r.shipment_method._id == order_item_input.shipment_method_id,
            r.count == count,
            r.internal_discounts@ == internal_discounts@,
            r.compensatable_amount == item_amount_spec(
                product_variant_version.price,
                internal_discounts@,
            ),
            r.compensatable_amount <= product_variant_version.price,
    {
        let compensatable_amount = calculate_compensatable_amount(
            product_variant_version,
            &internal_discounts,
        );
        let shopping_cart_item = ShoppingCartItem { _id: order_item_input.shopping_cart_item_id };
        let shipment_method = ShipmentMethod { _id: order_item_input.shipment_method_id };
        OrderItem {
            _id: id,
            created_at: current_timestamp,
            product_variant: *product_variant,
            product_variant_version: *product_variant_version,
            tax_rate_version: *tax_rate_version,
            shopping_cart_item,
            count,
            compensatable_amount,
            shipment_method,
            internal_discounts,
        }
    }
}

/// Applies the discounts to the frozen price: `floor(price * f1 * ... * fk)`
/// with one floor at the end, so the result does not depend on the order in
/// which the factors are applied.
pub fn calculate_compensatable_amount(
    product_variant_version: &ProductVariantVersion,
    internal_discounts: &Vec<Discount>,
) -> (r: u64)
    requires
        discounts_valid(internal_discounts@),
    ensures
        r == item_amount_spec(product_variant_version.price, internal_discounts@),
        r <= product_variant_version.price,
{
    let n = internal_discounts.len();
    let mut factors: Vec<u64> = Vec::new();
    let mut i: usize = 0;
    while i < n
        invariant
            i <= n,
            n == internal_discounts@.len(),
            discounts_valid(internal_discounts@),
            factors@.len() == i,
            forall|j: int| 0 <= j < i ==> factors@[j] == internal_discounts@[j].factor_ppm,
        decreases n - i,
    {
        factors.push(internal_discounts[i].factor_ppm);
        i = i + 1;
    }
    proof {
        assert(factors@ =~= factor_seq(internal_discounts@));
    }
    compute_discounted_amount(product_variant_version.price, &factors)
}

/// The index of a least discount, by id.
fn min_discount_index(v: &Vec<Discount>) -> (r: usize)
    requires
        v@.len() > 0,
    ensures
        0 <= r < v@.len(),
        forall|j: int| 0 <= j < v@.len() ==> discount_le(v@[r as int], v@[j]),
{
    let mut best: usize = 0;
    let mut i: usize = 1;
    let n = v.len();
    while i < n
        invariant
            best < i <= n,
            n == v@.len(),
            forall|j: int| 0 <= j < i ==> discount_le(v@[best as int], v@[j]),
        decreases n - i,
    {
        if v[i]._id.lt(&v[best]._id) {
            best = i;
        }
        i = i + 1;
    }
    best
}

/// Sorts discounts ascending by id, keeping every element.
fn sort_discounts_asc(v: &Vec<Discount>) -> (r: Vec<Discount>)
    ensures
        discounts_sorted(r@),
        r@.to_multiset() == v@.to_multiset(),
        r@.len() == v@.len(),
{
    let mut rest: Vec<Discount> = Vec::new();
    let mut i: usize = 0;
    let n = v.len();
    while i < n
        invariant
            i <= n,
            n == v@.len(),
            rest@ =~= v@.subrange(0, i as int),
        decreases n - i,
    {
        rest.push(v[i]);
        proof {
            assert(rest@ =~= v@.subrange(0, i + 1));
        }
        i = i + 1;
    }
    proof {
        assert(rest@ =~= v@);
    }
    let mut out: Vec<Discount> = Vec::new();
    while rest.len() > 0
        invariant
            discounts_sorted(out@),
            out@.to_multiset().add(rest@.to_multiset()) =~= v@.to_multiset(),
            out@.len() + rest@.len() == v@.len(),
            forall|a: int, b: int|
                0 <= a < out@.len() && 0 <= b < rest@.len() ==> discount_le(out@[a], rest@[b]),
        decreases rest@.len(),
    {
        let ghost rest0 = rest@;
        let ghost out0 = out@;
        let mi = min_discount_index(&rest);
        let x = rest.remove(mi);
        out.push(x);
        proof {
            assert(out@.to_multiset() =~= out0.to_multiset().insert(x));
            assert(rest@.to_multiset() =~= rest0.to_multiset().remove(x));
            assert(rest0.to_multiset().count(x) > 0);
            assert(out@.to_multiset().add(rest@.to_multiset()) =~= v@.to_multiset());
            assert(forall|b: int|
                0 <= b < rest@.len() ==> rest0.contains(#[trigger] rest@[b])) by {
                assert(forall|b: int|
                    0 <= b < rest@.len() ==> rest@[b] == (if b < mi {
                        rest0[b]
                    } else {
                        rest0[b + 1]
                    }));
            }
            assert(forall|a: int|
                0 <= a < out@.len() ==> discount_le(#[trigger] out@[a], x));
        }
    }
    proof {
        assert(rest@.to_multiset().len() == 0);
        assert(rest@.to_multiset() =~= Multiset::<Discount>::empty());
        assert(out@.to_multiset().add(Multiset::<Discount>::empty()) =~= out@.to_multiset());
    }
    out
}

/// Sorts discounts for retrieval, ascending or descending by id as the
/// caller directs; the multiset of discounts is kept.
pub fn sort_discounts(discounts: &Vec<Discount>, order_by: &Option<CommonOrderInput>) -> (r: Vec<
    Discount,
>)
    ensures
        r@.to_multiset() == discounts@.to_multiset(),
        r@.len() == discounts@.len(),
        CommonOrderInput::effective_direction_spec(*order_by) == OrderDirection::Asc
            ==> discounts_sorted(r@),
        CommonOrderInput::effective_direction_spec(*order_by) == OrderDirection::Desc
            ==> discounts_sorted_desc(r@),
{
    let ascending = sort_discounts_asc(discounts);
    match CommonOrderInput::effective_direction(order_by) {
        OrderDirection::Asc => ascending,
        OrderDirection::Desc => {
            let mut out: Vec<Discount> = Vec::new();
            let n = ascending.len();
            let mut i: usize = 0;
            while i < n
                invariant
                    i <= n,
                    n == ascending@.len(),
                    out@.len() == i,
                    forall|j: int| 0 <= j < i ==> out@[j] == ascending@[n - 1 - j],
                decreases n - i,
            {
                out.push(ascending[n - 1 - i]);
                i = i + 1;
            }
            proof {
                assert(out@ =~= ascending@.reverse());
                ascending@.lemma_reverse_to_multiset();
            }
            out
        },
    }
}

/// Deduplicates by id and sorts strictly ascending: the canonical form of a
/// discount set. Every returned discount occurs in the input, and every
/// input id is represented in the result.
pub fn normalize_discounts(v: &Vec<Discount>) -> (r: Vec<Discount>)
    ensures
        discounts_normalized(r@),
        forall|i: int| 0 <= i < r@.len() ==> v@.contains(#[trigger] r@[i]),
        forall|i: int| 0 <= i < v@.len() ==> #[trigger] id_covered(v@[i]._id, r@),
{
    let mut rest: Vec<Discount> = Vec::new();
    let mut i: usize = 0;
    let n = v.len();
    while i < n
        invariant
            i <= n,
            n == v@.len(),
            rest@ =~= v@.subrange(0, i as int),
        decreases n - i,
    {
        rest.push(v[i]);
        proof {
            assert(rest@ =~= v@.subrange(0, i + 1));
        }
        i = i + 1;
    }
    proof {
        assert(rest@ =~= v@);
    }
    let mut out: Vec<Discount> = Vec::new();
    while rest.len() > 0
        invariant
            discounts_normalized(out@),
            forall|a: int| 0 <= a < out@.len() ==> v@.contains(#[trigger] out@[a]),
            forall|b: int| 0 <= b < rest@.len() ==> v@.contains(#[trigger] rest@[b]),
            forall|i: int|
                0 <= i < v@.len() ==> #[trigger] id_covered(v@[i]._id, out@) || id_covered(
                    v@[i]._id,
                    rest@,
                ),
            forall|a: int, b: int|
                0 <= a < out@.len() && 0 <= b < rest@.len() ==> discount_le(out@[a], rest@[b]),
        decreases rest@.len(),
    {
        let ghost rest0 = rest@;
        let ghost out0 = out@;
        let mi = min_discount_index(&rest);
        let x = rest.remove(mi);
        proof {
            assert(forall|b: int|
                0 <= b < rest@.len() ==> rest@[b] == (if b < mi {
                    rest0[b]
                } else {
                    rest0[b + 1]
                }));
        }
        let keep = if out.len() == 0 {
            true
        } else {
            let last = out.len() - 1;
            out[last]._id.lt(&x._id)
        };
        if keep {
            out.push(x);
            proof {
                // every earlier output element is strictly below the new one
                assert forall|a: int| 0 <= a < out0.len() implies out0[a]._id.lt_spec(x._id) by {
                    if a < out0.len() - 1 {
                        assert(out0[a]._id.lt_spec(out0[out0.len() - 1]._id));
                    }
                }
            }
        } else {
            proof {
                // the dropped discount's id is already represented by the
                // last element of the sorted output
                let last = out0.len() - 1;
                assert(discount_le(out0[last], x));
                assert(out0[last]._id == x._id);
            }
        }
        proof {
            let final_out = out@;
            assert forall|i: int|
                0 <= i < v@.len() implies id_covered(v@[i]._id, final_out) || id_covered(
                v@[i]._id,
                rest@,
            ) by {
                if id_covered(v@[i]._id, out0) {
                    let j = choose|j: int| 0 <= j < out0.len() && out0[j]._id == v@[i]._id;
                    assert(final_out[j]._id == v@[i]._id);
                } else if id_covered(v@[i]._id, rest0) {
                    let j = choose|j: int| 0 <= j < rest0.len() && rest0[j]._id == v@[i]._id;
                    if j == mi {
                        if keep {
                            assert(final_out[out0.len() as int]._id == v@[i]._id);
                        } else {
                            assert(final_out[out0.len() - 1]._id == v@[i]._id);
                        }
                    } else if j < mi {
                        assert(rest@[j]._id == v@[i]._id);
                    } else {
                        assert(rest@[j - 1]._id == v@[i]._id);
                    }
                }
            }
        }
    }
    out
}

/// The DTO of an order item, as carried by the order-created event.
#[derive(Clone, Debug)]
pub struct OrderItemDTO {
    /// OrderItem UUID.
    pub id: Uuid,
    /// Timestamp when the order item was created, in milliseconds.
    pub created_at: i64,
    /// UUID of the product variant.
    pub product_variant_id: Uuid,
    /// UUID of the product variant version.
    pub product_variant_version_id: Uuid,
    /// UUID of the tax rate version.
    pub tax_rate_version_id: Uuid,
    /// UUID of the shopping cart item.
    pub shopping_cart_item_id: Uuid,
    /// Quantity of the order item.
    pub count: u64,
    /// Refundable cost of the line.
    pub compensatable_amount: u64,
    /// UUID of the shipment method.
    pub shipment_method_id: Uuid,
    /// UUIDs of the applied discounts, ordered by id.
    pub discount_ids: Vec<Uuid>,
}

impl OrderItemDTO {
    /// Derives the DTO of an order item; every field reachable through the
    /// item is preserved, discounts as their ids in stored order.
    pub fn from_item(item: &OrderItem) -> (r: OrderItemDTO)
        ensures
            r.id == item._id,
            r.created_at == item.created_at,
            r.product_variant_id == item.product_variant._id,
            r.product_variant_version_id == item.product_variant_version._id,
            r.tax_rate_version_id == item.tax_rate_version._id,
            r.shopping_cart_item_id == item.shopping_cart_item._id,
            r.count == item.count,
            r.compensatable_amount == item.compensatable_amount,
            r.shipment_method_id == item.shipment_method._id,
            r.discount_ids@.len() == item.internal_discounts@.len(),
            forall|i: int|
                0 <= i < r.discount_ids@.len() ==> r.discount_ids@[i]
                    == item.internal_discounts@[i]._id,
    {
        let mut discount_ids: Vec<Uuid> = Vec::new();
        let n = item.internal_discounts.len();
        let mut i: usize = 0;
        while i < n
            invariant
                i <= n,
                n == item.internal_discounts@.len(),
                discount_ids@.len() == i,
                forall|j: int|
                    0 <= j < i ==> discount_ids@[j] == item.internal_discounts@[j]._id,
            decreases n - i,
        {
            discount_ids.push(item.internal_discounts[i]._id);
            i = i + 1;
        }
        OrderItemDTO {
            id: item._id,
            created_at: item.created_at,
            product_variant_id: item.product_variant._id,
            product_variant_version_id: item.product_variant_version._id,
            tax_rate_version_id: item.tax_rate_version._id,
            shopping_cart_item_id: item.shopping_cart_item._id,
            count: item.count,
            compensatable_amount: item.compensatable_amount,
            shipment_method_id: item.shipment_method._id,
            discount_ids,
        }
    }
}

} // verus!
