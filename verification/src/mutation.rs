//! Order construction and lifecycle: the caller-facing mutations.
//!
//! Construction validates the input against the projected reference data,
//! correlates the shopping cart, inventory and discount responses, and
//! assembles an immutable priced order snapshot in `Pending` status.
//! Placement is gated by the caller's identity and a non-strict one-hour
//! window from creation.

use crate::errors::OrderError;
use crate::foreign_types::{Address, Discount, ProductVariant, TaxRate, User};
use crate::ids::Uuid;
use crate::mutation_input_structs::{CreateOrderInput, OrderItemInput};
use crate::order::{
    calculate_compensatable_order_amount, clone_opt_string, items_total, opt_string_eq, Order,
    OrderStatus, RejectionReason,
};
use crate::order_item::OrderItem;
use crate::payment_authorization::PaymentAuthorization;
use crate::projection::{
    coupons_has, shipment_methods_has, tax_rates_has, users_has, variants_has, ProjectionState,
    ProjectionView, UserView,
};
use vstd::prelude::*;

verus! {

/// One shopping cart entry, as the cart service reports it: which product
/// variant the cart item holds, and how many.
#[derive(Clone, Copy, PartialEq, Eq, Structural, Debug)]
pub struct CartEntry {
    /// UUID of the shopping cart item.
    pub shopping_cart_item_id: Uuid,
    /// UUID of the product variant in the cart item.
    pub product_variant_id: Uuid,
    /// Quantity held in the cart item.
    pub count: u64,
}

/// Unreserved stock of one product variant, as the inventory reports it.
#[derive(Clone, Copy, PartialEq, Eq, Structural, Debug)]
pub struct StockLevel {
    /// UUID of the product variant.
    pub product_variant_id: Uuid,
    /// Number of unreserved product items.
    pub in_stock: u64,
}

/// The discounts the discount service grants for one product variant.
#[derive(Clone, Debug)]
pub struct VariantDiscounts {
    /// UUID of the product variant.
    pub product_variant_id: Uuid,
    /// The discounts applicable to that variant.
    pub discounts: Vec<Discount>,
}

/// One order line after cart resolution: the input joined with its cart
/// entry.
#[derive(Clone, Copy, PartialEq, Eq, Structural, Debug)]
pub struct ResolvedLine {
    /// UUID of the shopping cart item the line draws from.
    pub shopping_cart_item_id: Uuid,
    /// UUID of the shipment method of the line.
    pub shipment_method_id: Uuid,
    /// UUID of the product variant the cart item resolved to.
    pub product_variant_id: Uuid,
    /// Quantity, taken from the cart.
    pub count: u64,
}

/// The cart keys every entry at most once: it models a map.
pub open spec fn cart_keys_unique(s: Seq<CartEntry>) -> bool {
    forall|i: int, j: int|
        0 <= i < j < s.len() ==> s[i].shopping_cart_item_id != s[j].shopping_cart_item_id
}

/// Some cart entry has the given shopping cart item id.
pub open spec fn cart_has(s: Seq<CartEntry>, id: Uuid) -> bool {
    exists|i: int| 0 <= i < s.len() && s[i].shopping_cart_item_id == id
}

/// The cart entry with the given shopping cart item id (meaningful when
/// `cart_has` holds and the keys are unique).
pub open spec fn cart_entry(s: Seq<CartEntry>, id: Uuid) -> CartEntry {
    s[choose|i: int| 0 <= i < s.len() && s[i].shopping_cart_item_id == id]
}

/// The stock report keys every variant at most once: it models a map.
pub open spec fn stock_keys_unique(s: Seq<StockLevel>) -> bool {
    forall|i: int, j: int|
        0 <= i < j < s.len() ==> s[i].product_variant_id != s[j].product_variant_id
}

/// Some stock level is reported for the given variant.
pub open spec fn stock_has(s: Seq<StockLevel>, id: Uuid) -> bool {
    exists|i: int| 0 <= i < s.len() && s[i].product_variant_id == id
}

/// The stock level of the given variant (meaningful when `stock_has` holds
/// and the keys are unique).
pub open spec fn stock_entry(s: Seq<StockLevel>, id: Uuid) -> StockLevel {
    s[choose|i: int| 0 <= i < s.len() && s[i].product_variant_id == id]
}

/// The projected product variant with the given id (meaningful when
/// `variants_has` holds and the projection is well formed).
pub open spec fn variant_entry(s: Seq<ProductVariant>, id: Uuid) -> ProductVariant {
    s[choose|i: int| 0 <= i < s.len() && s[i]._id == id]
}

/// The projected tax rate with the given id (meaningful when
/// `tax_rates_has` holds and the projection is well formed).
pub open spec fn tax_rate_entry(s: Seq<TaxRate>, id: Uuid) -> TaxRate {
    s[choose|i: int| 0 <= i < s.len() && s[i]._id == id]
}

/// The address list of the projected user with the given id; empty when no
/// such user is projected.
pub open spec fn user_addresses(users: Seq<UserView>, user_id: Uuid) -> Seq<Uuid> {
    if users_has(users, user_id) {
        users[choose|i: int| 0 <= i < users.len() && users[i]._id == user_id].user_address_ids
    } else {
        Seq::empty()
    }
}

/// Finds the cart entry for one shopping cart item id.
fn find_cart_entry(cart: &Vec<CartEntry>, id: &Uuid) -> (r: Option<CartEntry>)
    requires
        cart_keys_unique(cart@),
    ensures
        match r {
            Some(e) => cart_has(cart@, *id) && e == cart_entry(cart@, *id),
            None => !cart_has(cart@, *id),
        },
{
    let n = cart.len();
    let mut i: usize = 0;
    while i < n
        invariant
            i <= n,
            n == cart@.len(),
            cart_keys_unique(cart@),
            forall|j: int| 0 <= j < i ==> cart@[j].shopping_cart_item_id != *id,
        decreases n - i,
    {
        if cart[i].shopping_cart_item_id == *id {
            proof {
                assert(cart_has(cart@, *id));
                let w = choose|k: int|
                    0 <= k < cart@.len() && cart@[k].shopping_cart_item_id == *id;
                assert(cart@[w].shopping_cart_item_id == *id);
                assert(w == i);
            }
            return Some(cart[i]);
        }
        i = i + 1;
    }
    None
}

/// Finds the reported stock level for one product variant.
fn find_stock_level(stock: &Vec<StockLevel>, id: &Uuid) -> (r: Option<StockLevel>)
    requires
        stock_keys_unique(stock@),
    ensures
        match r {
            Some(e) => stock_has(stock@, *id) && e == stock_entry(stock@, *id),
            None => !stock_has(stock@, *id),
        },
{
    let n = stock.len();
    let mut i: usize = 0;
    while i < n
        invariant
            i <= n,
            n == stock@.len(),
            stock_keys_unique(stock@),
            forall|j: int| 0 <= j < i ==> stock@[j].product_variant_id != *id,
        decreases n - i,
    {
        if stock[i].product_variant_id == *id {
            proof {
                assert(stock_has(stock@, *id));
                let w = choose|k: int|
                    0 <= k < stock@.len() && stock@[k].product_variant_id == *id;
                assert(stock@[w].product_variant_id == *id);
                assert(w == i);
            }
            return Some(stock[i]);
        }
        i = i + 1;
    }
    None
}

/// Every reference the input names exists in the projection, the input has
/// at least one line, and both addresses are registered for the user.
pub open spec fn input_references_valid(p: ProjectionView, input: CreateOrderInput) -> bool {
    &&& input.order_item_inputs@.len() > 0
    &&& users_has(p.users, input.user_id)
    &&& user_addresses(p.users, input.user_id).contains(input.shipment_address_id)
    &&& user_addresses(p.users, input.user_id).contains(input.invoice_address_id)
    &&& forall|i: int|
        0 <= i < input.order_item_inputs@.len() ==> shipment_methods_has(
            p.shipment_methods,
            #[trigger] input.order_item_inputs@[i].shipment_method_id,
        )
    &&& forall|i: int, j: int|
        0 <= i < input.order_item_inputs@.len() && 0 <= j
            < input.order_item_inputs@[i].coupon_ids@.len() ==> coupons_has(
            p.coupons,
            #[trigger] input.order_item_inputs@[i].coupon_ids@[j],
        )
}

/// Checks the input's references against the projection: the user, every
/// shipment method, every coupon, and both addresses must be known, and the
/// input must hold at least one line. Rejected inputs are invalid order
/// data.
pub fn validate_order_input(projection: &ProjectionState, input: &CreateOrderInput) -> (r: Result<
    (),
    OrderError,
>)
    requires
        projection.wf(),
    ensures
        r.is_ok() <==> input_references_valid(projection@, *input),
        r is Err ==> r == Result::<(), OrderError>::Err(OrderError::InvalidOrderData),
{
    if input.order_item_inputs.len() == 0 {
        return Err(OrderError::InvalidOrderData);
    }
    let user_index = match projection.find_user_index(&input.user_id) {
        Some(idx) => idx,
        None => {
            return Err(OrderError::InvalidOrderData);
        },
    };
    proof {
        let w = choose|k: int|
            0 <= k < projection@.users.len() && projection@.users[k]._id == input.user_id;
        assert(projection@.users[w]._id == input.user_id);
        assert(w == user_index);
        let ua = projection@.users[user_index as int].user_address_ids;
        assert(user_addresses(projection@.users, input.user_id) == ua);
    }
    if !projection.users[user_index].has_address(&input.shipment_address_id) {
        return Err(OrderError::InvalidOrderData);
    }
    if !projection.users[user_index].has_address(&input.invoice_address_id) {
        return Err(OrderError::InvalidOrderData);
    }
    let n = input.order_item_inputs.len();
    let mut i: usize = 0;
    while i < n
        invariant
            i <= n,
            n == input.order_item_inputs@.len(),
            projection.wf(),
            forall|k: int|
                0 <= k < i ==> shipment_methods_has(
                    projection@.shipment_methods,
                    #[trigger] input.order_item_inputs@[k].shipment_method_id,
                ),
            forall|k: int, j: int|
                0 <= k < i && 0 <= j < input.order_item_inputs@[k].coupon_ids@.len()
                    ==> coupons_has(
                    projection@.coupons,
                    #[trigger] input.order_item_inputs@[k].coupon_ids@[j],
                ),
        decreases n - i,
    {
        if !projection.has_shipment_method(&input.order_item_inputs[i].shipment_method_id) {
            return Err(OrderError::InvalidOrderData);
        }
        let m = input.order_item_inputs[i].coupon_ids.len();
        let mut j: usize = 0;
        while j < m
            invariant
                j <= m,
                i < n,
                n == input.order_item_inputs@.len(),
                m == input.order_item_inputs@[i as int].coupon_ids@.len(),
                projection.wf(),
                forall|l: int|
                    0 <= l < j ==> coupons_has(
                        projection@.coupons,
                        #[trigger] input.order_item_inputs@[i as int].coupon_ids@[l],
                    ),
            decreases m - j,
        {
            if !projection.has_coupon(&input.order_item_inputs[i].coupon_ids[j]) {
                return Err(OrderError::InvalidOrderData);
            }
            j = j + 1;
        }
        i = i + 1;
    }
    Ok(())
}

/// Every input line resolves against the cart to an entry with a positive
/// count, and no two lines resolve to the same product variant.
pub open spec fn cart_resolvable(inputs: Seq<OrderItemInput>, cart: Seq<CartEntry>) -> bool {
    &&& forall|i: int|
        0 <= i < inputs.len() ==> cart_has(cart, #[trigger] inputs[i].shopping_cart_item_id)
    &&& forall|i: int|
        0 <= i < inputs.len() ==> cart_entry(
            cart,
            #[trigger] inputs[i].shopping_cart_item_id,
        ).count >= 1
    &&& forall|i: int, j: int|
        0 <= i < j < inputs.len() ==> cart_entry(cart, inputs[i].shopping_cart_item_id)
            .product_variant_id != cart_entry(cart, inputs[j].shopping_cart_item_id)
            .product_variant_id
}

/// Resolves each input line against the cart. Any line whose cart item is
/// missing or empty, and any two lines resolving to the same product
/// variant, reject the order as invalid order data.
pub fn resolve_cart_lines(inputs: &Vec<OrderItemInput>, cart: &Vec<CartEntry>) -> (r: Result<
    Vec<ResolvedLine>,
    OrderError,
>)
    requires
        cart_keys_unique(cart@),
    ensures
        r.is_ok() <==> cart_resolvable(inputs@, cart@),
        r matches Ok(lines) ==> {
            &&& lines@.len() == inputs@.len()
            &&& forall|i: int|
                0 <= i < lines@.len() ==> #[trigger] lines@[i] == resolved_line_spec(
                    inputs@[i],
                    cart@,
                )
        },
        r is Err ==> r == Result::<Vec<ResolvedLine>, OrderError>::Err(
            OrderError::InvalidOrderData,
        ),
{
    let n = inputs.len();
    let mut lines: Vec<ResolvedLine> = Vec::new();
    let mut i: usize = 0;
    while i < n
        invariant
            i <= n,
            n == inputs@.len(),
            cart_keys_unique(cart@),
            lines@.len() == i,
            forall|k: int|
                0 <= k < i ==> cart_has(cart@, #[trigger] inputs@[k].shopping_cart_item_id),
            forall|k: int|
                0 <= k < i ==> cart_entry(
                    cart@,
                    #[trigger] inputs@[k].shopping_cart_item_id,
                ).count >= 1,
            forall|k: int|
                0 <= k < i ==> #[trigger] lines@[k] == resolved_line_spec(inputs@[k], cart@),
            forall|k: int, l: int|
                0 <= k < l < i ==> lines@[k].product_variant_id != lines@[l].product_variant_id,
        decreases n - i,
    {
        let entry = match find_cart_entry(cart, &inputs[i].shopping_cart_item_id) {
            Some(e) => e,
            None => {
                return Err(OrderError::InvalidOrderData);
            },
        };
        if entry.count == 0 {
            return Err(OrderError::InvalidOrderData);
        }
        // a product variant may appear in an order only once
        let mut k: usize = 0;
        while k < i
            invariant
                k <= i,
                i < n,
                n == inputs@.len(),
                lines@.len() == i,
                entry == cart_entry(cart@, inputs@[i as int].shopping_cart_item_id),
                forall|l: int|
                    0 <= l < i ==> #[trigger] lines@[l] == resolved_line_spec(inputs@[l], cart@),
                forall|l: int|
                    0 <= l < k ==> #[trigger] lines@[l].product_variant_id
                        != entry.product_variant_id,
            decreases i - k,
        {
            if lines[k].product_variant_id == entry.product_variant_id {
                proof {
                    assert(lines@[k as int] == resolved_line_spec(inputs@[k as int], cart@));
                    assert(!cart_resolvable(inputs@, cart@));
                }
                return Err(OrderError::InvalidOrderData);
            }
            k = k + 1;
        }
        lines.push(
            ResolvedLine {
                shopping_cart_item_id: inputs[i].shopping_cart_item_id,
                shipment_method_id: inputs[i].shipment_method_id,
                product_variant_id: entry.product_variant_id,
                count: entry.count,
            },
        );
        i = i + 1;
    }
    proof {
        assert forall|k: int, l: int| 0 <= k < l < inputs@.len() implies cart_entry(
            cart@,
            inputs@[k].shopping_cart_item_id,
        ).product_variant_id != cart_entry(cart@, inputs@[l].shopping_cart_item_id)
            .product_variant_id by {
            assert(lines@[k].product_variant_id != lines@[l].product_variant_id);
        }
    }
    Ok(lines)
}

/// The resolved form of one input line: its cart entry joined in.
pub open spec fn resolved_line_spec(input: OrderItemInput, cart: Seq<CartEntry>) -> ResolvedLine {
    ResolvedLine {
        shopping_cart_item_id: input.shopping_cart_item_id,
        shipment_method_id: input.shipment_method_id,
        product_variant_id: cart_entry(cart, input.shopping_cart_item_id).product_variant_id,
        count: cart_entry(cart, input.shopping_cart_item_id).count,
    }
}

/// The inventory reported a stock level for every ordered variant.
pub open spec fn all_stock_known(lines: Seq<ResolvedLine>, stock: Seq<StockLevel>) -> bool {
    forall|i: int| 0 <= i < lines.len() ==> stock_has(stock, #[trigger] lines[i].product_variant_id)
}

/// Every ordered variant has at least the requested quantity in stock.
pub open spec fn all_available(lines: Seq<ResolvedLine>, stock: Seq<StockLevel>) -> bool {
    forall|i: int|
        0 <= i < lines.len() ==> stock_entry(stock, #[trigger] lines[i].product_variant_id).in_stock
            >= lines[i].count
}

/// Checks that every ordered variant is projected and publicly visible; an
/// unknown or hidden variant makes the order invalid. The check runs
/// before the inventory is consulted.
pub fn check_variants_visible(projection: &ProjectionState, lines: &Vec<ResolvedLine>) -> (r:
    Result<(), OrderError>)
    requires
        projection.wf(),
    ensures
        r.is_ok() <==> all_variants_visible(projection@.product_variants, lines@),
        r is Err ==> r == Result::<(), OrderError>::Err(OrderError::InvalidOrderData),
{
    let n = lines.len();
    let mut i: usize = 0;
    while i < n
        invariant
            i <= n,
            n == lines@.len(),
            projection.wf(),
            forall|k: int|
                0 <= k < i ==> variants_has(
                    projection@.product_variants,
                    #[trigger] lines@[k].product_variant_id,
                ) && variant_entry(
                    projection@.product_variants,
                    lines@[k].product_variant_id,
                ).is_publicly_visible,
        decreases n - i,
    {
        match projection.find_variant_index(&lines[i].product_variant_id) {
            Some(idx) => {
                proof {
                    let w = choose|k: int|
                        0 <= k < projection@.product_variants.len()
                            && projection@.product_variants[k]._id == lines@[
                            i as int
                        ].product_variant_id;
                    assert(projection@.product_variants[w]._id == lines@[
                        i as int
                    ].product_variant_id);
                    assert(w == idx);
                }
                if !self_variant(projection, idx).is_publicly_visible {
                    return Err(OrderError::InvalidOrderData);
                }
            },
            None => {
                return Err(OrderError::InvalidOrderData);
            },
        }
        i = i + 1;
    }
    Ok(())
}

/// Checks the inventory response against the requested quantities. A
/// variant missing from the response is a malformed response; a variant
/// with too little stock fails the reservation.
pub fn check_product_variant_availability(
    lines: &Vec<ResolvedLine>,
    stock: &Vec<StockLevel>,
) -> (r: Result<(), OrderError>)
    requires
        stock_keys_unique(stock@),
    ensures
        r.is_ok() <==> all_stock_known(lines@, stock@) && all_available(lines@, stock@),
        r == Result::<(), OrderError>::Err(OrderError::ExternalServiceError) <==> !all_stock_known(
            lines@,
            stock@,
        ),
        r == Result::<(), OrderError>::Err(OrderError::InventoryReservationFailed)
            <==> all_stock_known(lines@, stock@) && !all_available(lines@, stock@),
{
    let n = lines.len();
    let mut i: usize = 0;
    while i < n
        invariant
            i <= n,
            n == lines@.len(),
            stock_keys_unique(stock@),
            forall|k: int|
                0 <= k < i ==> stock_has(stock@, #[trigger] lines@[k].product_variant_id),
        decreases n - i,
    {
        if find_stock_level(stock, &lines[i].product_variant_id).is_none() {
            return Err(OrderError::ExternalServiceError);
        }
        i = i + 1;
    }
    let mut i: usize = 0;
    while i < n
        invariant
            i <= n,
            n == lines@.len(),
            stock_keys_unique(stock@),
            all_stock_known(lines@, stock@),
            forall|k: int|
                0 <= k < i ==> stock_entry(
                    stock@,
                    #[trigger] lines@[k].product_variant_id,
                ).in_stock >= lines@[k].count,
        decreases n - i,
    {
        match find_stock_level(stock, &lines[i].product_variant_id) {
            Some(level) => {
                if level.in_stock < lines[i].count {
                    return Err(OrderError::InventoryReservationFailed);
                }
            },
            None => {
                return Err(OrderError::ExternalServiceError);
            },
        }
        i = i + 1;
    }
    Ok(())
}

/// One order line joined with the projected snapshot it freezes: the
/// variant, its current version, and the current version of its tax rate.
#[derive(Clone, Copy, PartialEq, Eq, Structural, Debug)]
pub struct PricedLine {
    /// The resolved order line.
    pub line: ResolvedLine,
    /// The projected product variant.
    pub product_variant: ProductVariant,
    /// The variant's current version at assembly time.
    pub product_variant_version: crate::foreign_types::ProductVariantVersion,
    /// The current version of the version's tax rate at assembly time.
    pub tax_rate_version: crate::foreign_types::TaxRateVersion,
}

/// Every ordered variant is projected and publicly visible.
pub open spec fn all_variants_visible(p: Seq<ProductVariant>, lines: Seq<ResolvedLine>) -> bool {
    forall|i: int|
        0 <= i < lines.len() ==> variants_has(p, #[trigger] lines[i].product_variant_id)
            && variant_entry(p, lines[i].product_variant_id).is_publicly_visible
}

/// The tax rate of every ordered variant's current version is projected.
pub open spec fn all_tax_rates_known(
    trs: Seq<TaxRate>,
    p: Seq<ProductVariant>,
    lines: Seq<ResolvedLine>,
) -> bool {
    forall|i: int|
        0 <= i < lines.len() ==> tax_rates_has(
            trs,
            variant_entry(p, #[trigger] lines[i].product_variant_id).current_version.tax_rate_id,
        )
}

/// The snapshot one line freezes at assembly time.
pub open spec fn priced_line_spec(
    p: Seq<ProductVariant>,
    trs: Seq<TaxRate>,
    line: ResolvedLine,
) -> PricedLine {
    let variant = variant_entry(p, line.product_variant_id);
    PricedLine {
        line,
        product_variant: variant,
        product_variant_version: variant.current_version,
        tax_rate_version: tax_rate_entry(trs, variant.current_version.tax_rate_id).current_version,
    }
}

/// Joins each resolved line with the projected variant, version and tax
/// rate snapshot. A variant that is unknown or not publicly visible makes
/// the order invalid; a missing tax rate is a missing entity.
pub fn price_order_lines(projection: &ProjectionState, lines: &Vec<ResolvedLine>) -> (r: Result<
    Vec<PricedLine>,
    OrderError,
>)
    requires
        projection.wf(),
    ensures
        r.is_ok() <==> all_variants_visible(projection@.product_variants, lines@)
            && all_tax_rates_known(projection@.tax_rates, projection@.product_variants, lines@),
        r == Result::<Vec<PricedLine>, OrderError>::Err(OrderError::InvalidOrderData)
            <==> !all_variants_visible(projection@.product_variants, lines@),
        r == Result::<Vec<PricedLine>, OrderError>::Err(OrderError::NotFound)
            <==> all_variants_visible(projection@.product_variants, lines@) && !all_tax_rates_known(
            projection@.tax_rates,
            projection@.product_variants,
            lines@,
        ),
        r matches Ok(priced) ==> {
            &&& priced@.len() == lines@.len()
            &&& forall|i: int|
                0 <= i < priced@.len() ==> #[trigger] priced@[i] == priced_line_spec(
                    projection@.product_variants,
                    projection@.tax_rates,
                    lines@[i],
                )
        },
{
    let n = lines.len();
    let mut i: usize = 0;
    while i < n
        invariant
            i <= n,
            n == lines@.len(),
            projection.wf(),
            forall|k: int|
                0 <= k < i ==> variants_has(
                    projection@.product_variants,
                    #[trigger] lines@[k].product_variant_id,
                ) && variant_entry(
                    projection@.product_variants,
                    lines@[k].product_variant_id,
                ).is_publicly_visible,
        decreases n - i,
    {
        match projection.find_variant_index(&lines[i].product_variant_id) {
            Some(idx) => {
                proof {
                    let w = choose|k: int|
                        0 <= k < projection@.product_variants.len()
                            && projection@.product_variants[k]._id == lines@[
                            i as int
                        ].product_variant_id;
                    assert(projection@.product_variants[w]._id == lines@[
                        i as int
                    ].product_variant_id);
                    assert(w == idx);
                }
                if !self_variant(projection, idx).is_publicly_visible {
                    return Err(OrderError::InvalidOrderData);
                }
            },
            None => {
                return Err(OrderError::InvalidOrderData);
            },
        }
        i = i + 1;
    }
    let mut priced: Vec<PricedLine> = Vec::new();
    let mut i: usize = 0;
    while i < n
        invariant
            i <= n,
            n == lines@.len(),
            projection.wf(),
            all_variants_visible(projection@.product_variants, lines@),
            priced@.len() == i,
            forall|k: int|
                0 <= k < i ==> tax_rates_has(
                    projection@.tax_rates,
                    variant_entry(
                        projection@.product_variants,
                        #[trigger] lines@[k].product_variant_id,
                    ).current_version.tax_rate_id,
                ),
            forall|k: int|
                0 <= k < i ==> #[trigger] priced@[k] == priced_line_spec(
                    projection@.product_variants,
                    projection@.tax_rates,
                    lines@[k],
                ),
        decreases n - i,
    {
        let variant = match projection.find_variant_index(&lines[i].product_variant_id) {
            Some(idx) => {
                proof {
                    let w = choose|k: int|
                        0 <= k < projection@.product_variants.len()
                            && projection@.product_variants[k]._id == lines@[
                            i as int
                        ].product_variant_id;
                    assert(projection@.product_variants[w]._id == lines@[
                        i as int
                    ].product_variant_id);
                    assert(w == idx);
                }
                self_variant(projection, idx)
            },
            None => {
                return Err(OrderError::InvalidOrderData);
            },
        };
        let tax_rate = match projection.find_tax_rate_index(&variant.current_version.tax_rate_id) {
            Some(idx) => {
                proof {
                    let w = choose|k: int|
                        0 <= k < projection@.tax_rates.len() && projection@.tax_rates[k]._id
                            == variant.current_version.tax_rate_id;
                    assert(projection@.tax_rates[w]._id == variant.current_version.tax_rate_id);
                    assert(w == idx);
                }
                self_tax_rate(projection, idx)
            },
            None => {
                return Err(OrderError::NotFound);
            },
        };
        priced.push(
            PricedLine {
                line: lines[i],
                product_variant: variant,
                product_variant_version: variant.current_version,
                tax_rate_version: tax_rate.current_version,
            },
        );
        i = i + 1;
    }
    Ok(priced)
}

/// Reads one projected product variant.
fn self_variant(projection: &ProjectionState, idx: usize) -> (r: ProductVariant)
    requires
        idx < projection@.product_variants.len(),
    ensures
        r == projection@.product_variants[idx as int],
{
    projection.product_variants[idx]
}

/// Reads one projected tax rate.
fn self_tax_rate(projection: &ProjectionState, idx: usize) -> (r: TaxRate)
    requires
        idx < projection@.tax_rates.len(),
    ensures
        r == projection@.tax_rates[idx as int],
{
    projection.tax_rates[idx]
}

/// The undiscounted order amount handed to the discount query: the sum of
/// `retail_price * count` over all lines, with no discounts and no fees.
pub open spec fn order_amount_spec(s: Seq<PricedLine>) -> int
    decreases s.len(),
{
    if s.len() == 0 {
        0
    } else {
        order_amount_spec(s.drop_last()) + s.last().product_variant_version.price
            * s.last().line.count
    }
}

/// Computes the undiscounted order amount for the discount query. Not to
/// be confused with the compensatable order amount, which has the
/// discounts applied.
pub fn calculate_order_amount(priced: &Vec<PricedLine>) -> (r: u128)
    requires
        priced@.len() <= u32::MAX,
    ensures
        r == order_amount_spec(priced@),
{
    let mut acc: u128 = 0;
    let n = priced.len();
    let mut i: usize = 0;
    proof {
        assert(priced@.subrange(0, 0) =~= Seq::<PricedLine>::empty());
    }
    while i < n
        invariant
            i <= n,
            n == priced@.len(),
            n <= u32::MAX,
            acc == order_amount_spec(priced@.subrange(0, i as int)),
            acc <= i * 0x1_0000_0000_0000_0000_0000_0000u128,
        decreases n - i,
    {
        proof {
            assert(priced@.subrange(0, i + 1).drop_last() =~= priced@.subrange(0, i as int));
        }
        let price: u128 = priced[i].product_variant_version.price as u128;
        let count: u128 = priced[i].line.count as u128;
        proof {
            assert(price * count < 0x1_0000_0000_0000_0000_0000_0000) by (nonlinear_arith)
                requires
                    price <= 0xffff_ffffu128,
                    count <= 0xffff_ffff_ffff_ffffu128,
            ;
        }
        acc = acc + price * count;
        i = i + 1;
    }
    proof {
        assert(priced@.subrange(0, n as int) =~= priced@);
    }
    acc
}

/// One line of the applicable-discounts query: the variant, the quantity,
/// and the coupons the caller wants applied.
#[derive(Clone, Debug)]
pub struct DiscountQueryLine {
    /// UUID of the product variant.
    pub product_variant_id: Uuid,
    /// Quantity planned to order.
    pub count: u64,
    /// UUIDs of the coupons to apply.
    pub coupon_ids: Vec<Uuid>,
}

/// Builds the per-variant input of the applicable-discounts query from the
/// resolved lines and the coupons of the matching input lines.
pub fn build_find_applicable_discounts_product_variant_input(
    inputs: &Vec<OrderItemInput>,
    lines: &Vec<ResolvedLine>,
) -> (r: Vec<DiscountQueryLine>)
    requires
        inputs@.len() == lines@.len(),
    ensures
        r@.len() == lines@.len(),
        forall|i: int|
            0 <= i < r@.len() ==> {
                &&& (#[trigger] r@[i]).product_variant_id == lines@[i].product_variant_id
                &&& r@[i].count == lines@[i].count
                &&& r@[i].coupon_ids@ == inputs@[i].coupon_ids@
            },
{
    let mut out: Vec<DiscountQueryLine> = Vec::new();
    let n = lines.len();
    let mut i: usize = 0;
    while i < n
        invariant
            i <= n,
            n == lines@.len(),
            inputs@.len() == lines@.len(),
            out@.len() == i,
            forall|k: int|
                0 <= k < i ==> {
                    &&& (#[trigger] out@[k]).product_variant_id == lines@[k].product_variant_id
                    &&& out@[k].count == lines@[k].count
                    &&& out@[k].coupon_ids@ == inputs@[k].coupon_ids@
                },
        decreases n - i,
    {
        out.push(
            DiscountQueryLine {
                product_variant_id: lines[i].product_variant_id,
                count: lines[i].count,
                coupon_ids: crate::projection::copy_uuids(&inputs[i].coupon_ids),
            },
        );
        i = i + 1;
    }
    out
}

/// One line of the shipment-fees query: a product variant version with its
/// quantity and shipment method.
#[derive(Clone, Copy, PartialEq, Eq, Structural, Debug)]
pub struct ShipmentFeeQueryItem {
    /// UUID of the product variant version.
    pub product_variant_version_id: Uuid,
    /// Quantity planned to order.
    pub quantity: u64,
    /// UUID of the shipment method.
    pub shipment_method_id: Uuid,
}

/// Builds the shipment-fees query input from the priced lines. The quoted
/// fee is not folded into any amount: the caller issues the query and the
/// result is deliberately left unused.
pub fn build_calculate_shipment_fees_input(priced: &Vec<PricedLine>) -> (r: Vec<
    ShipmentFeeQueryItem,
>)
    ensures
        r@.len() == priced@.len(),
        forall|i: int|
            0 <= i < r@.len() ==> {
                &&& (#[trigger] r@[i]).product_variant_version_id
                    == priced@[i].product_variant_version._id
                &&& r@[i].quantity == priced@[i].line.count
                &&& r@[i].shipment_method_id == priced@[i].line.shipment_method_id
            },
{
    let mut out: Vec<ShipmentFeeQueryItem> = Vec::new();
    let n = priced.len();
    let mut i: usize = 0;
    while i < n
        invariant
            i <= n,
            n == priced@.len(),
            out@.len() == i,
            forall|k: int|
                0 <= k < i ==> {
                    &&& (#[trigger] out@[k]).product_variant_version_id
                        == priced@[k].product_variant_version._id
                    &&& out@[k].quantity == priced@[k].line.count
                    &&& out@[k].shipment_method_id == priced@[k].line.shipment_method_id
                },
        decreases n - i,
    {
        out.push(
            ShipmentFeeQueryItem {
                product_variant_version_id: priced[i].product_variant_version._id,
                quantity: priced[i].line.count,
                shipment_method_id: priced[i].line.shipment_method_id,
            },
        );
        i = i + 1;
    }
    out
}

/// The discount response keys every variant at most once: it models a map.
pub open spec fn discounts_keys_unique(s: Seq<VariantDiscounts>) -> bool {
    forall|i: int, j: int|
        0 <= i < j < s.len() ==> s[i].product_variant_id != s[j].product_variant_id
}

/// The response holds an entry for the given variant.
pub open spec fn discounts_has(s: Seq<VariantDiscounts>, id: Uuid) -> bool {
    exists|i: int| 0 <= i < s.len() && s[i].product_variant_id == id
}

/// The discounts the response grants to the given variant (meaningful when
/// `discounts_has` holds and the keys are unique).
pub open spec fn variant_discounts_of(s: Seq<VariantDiscounts>, id: Uuid) -> Seq<Discount> {
    s[choose|i: int| 0 <= i < s.len() && s[i].product_variant_id == id].discounts@
}

/// Finds the index of the response entry for one variant.
fn find_variant_discounts(variant_discounts: &Vec<VariantDiscounts>, id: &Uuid) -> (r: Option<
    usize,
>)
    requires
        discounts_keys_unique(variant_discounts@),
    ensures
        match r {
            Some(i) => i < variant_discounts@.len() && discounts_has(variant_discounts@, *id)
                && variant_discounts@[i as int].discounts@ == variant_discounts_of(
                variant_discounts@,
                *id,
            ),
            None => !discounts_has(variant_discounts@, *id),
        },
{
    let n = variant_discounts.len();
    let mut i: usize = 0;
    while i < n
        invariant
            i <= n,
            n == variant_discounts@.len(),
            discounts_keys_unique(variant_discounts@),
            forall|j: int| 0 <= j < i ==> variant_discounts@[j].product_variant_id != *id,
        decreases n - i,
    {
        if variant_discounts[i].product_variant_id == *id {
            proof {
                assert(discounts_has(variant_discounts@, *id));
                let w = choose|k: int|
                    0 <= k < variant_discounts@.len() && variant_discounts@[k].product_variant_id
                        == *id;
                assert(variant_discounts@[w].product_variant_id == *id);
                assert(w == i);
            }
            return Some(i);
        }
        i = i + 1;
    }
    None
}

/// The response grants every ordered variant a discount list whose factors
/// all stay within one.
pub open spec fn discounts_usable(
    priced: Seq<PricedLine>,
    variant_discounts: Seq<VariantDiscounts>,
) -> bool {
    forall|i: int|
        0 <= i < priced.len() ==> discounts_has(
            variant_discounts,
            #[trigger] priced[i].line.product_variant_id,
        ) && crate::order_item::discounts_valid(
            variant_discounts_of(variant_discounts, priced[i].line.product_variant_id),
        )
}

/// What the zip guarantees of each constructed order item.
pub open spec fn zipped_item_spec(
    item: crate::order_item::OrderItem,
    item_id: Uuid,
    priced: PricedLine,
    variant_discounts: Seq<VariantDiscounts>,
    current_timestamp: i64,
) -> bool {
    &&& item._id == item_id
    &&& item.created_at == current_timestamp
    &&& item.product_variant == priced.product_variant
    &&& item.product_variant_version == priced.product_variant_version
    &&& item.tax_rate_version == priced.tax_rate_version
    &&& item.shopping_cart_item._id == priced.line.shopping_cart_item_id
    &&& item.shipment_method._id == priced.line.shipment_method_id
    &&& item.count == priced.line.count
    &&& item.wf()
    &&& item.compensatable_amount <= priced.product_variant_version.price
    &&& forall|k: int|
        0 <= k < item.internal_discounts@.len() ==> variant_discounts_of(
            variant_discounts,
            priced.line.product_variant_id,
        ).contains(#[trigger] item.internal_discounts@[k])
    &&& forall|k: int|
        0 <= k < variant_discounts_of(variant_discounts, priced.line.product_variant_id).len()
            ==> crate::order_item::id_covered(
            #[trigger] variant_discounts_of(
                variant_discounts,
                priced.line.product_variant_id,
            )[k]._id,
            item.internal_discounts@,
        )
}

/// Builds the order items from the priced lines and the discount response.
/// Each line's discounts are deduplicated by id and ordered
/// deterministically; each item's compensatable amount is the frozen price
/// under the product of its discount factors. A line whose variant is
/// missing from the response, or whose factors exceed one, is a malformed
/// response.
pub fn zip_to_internal_order_items(
    inputs: &Vec<OrderItemInput>,
    priced: &Vec<PricedLine>,
    variant_discounts: &Vec<VariantDiscounts>,
    item_ids: &Vec<Uuid>,
    current_timestamp: i64,
) -> (r: Result<Vec<crate::order_item::OrderItem>, OrderError>)
    requires
        discounts_keys_unique(variant_discounts@),
        inputs@.len() == priced@.len(),
        item_ids@.len() == priced@.len(),
        forall|i: int|
            0 <= i < priced@.len() ==> (#[trigger] priced@[i]).line.shopping_cart_item_id
                == inputs@[i].shopping_cart_item_id && priced@[i].line.shipment_method_id
                == inputs@[i].shipment_method_id,
        forall|i: int| 0 <= i < priced@.len() ==> (#[trigger] priced@[i]).line.count >= 1,
    ensures
        r.is_ok() <==> discounts_usable(priced@, variant_discounts@),
        r is Err ==> r == Result::<Vec<crate::order_item::OrderItem>, OrderError>::Err(
            OrderError::ExternalServiceError,
        ),
        r matches Ok(items) ==> {
            &&& items@.len() == priced@.len()
            &&& forall|i: int|
                0 <= i < items@.len() ==> zipped_item_spec(
                    #[trigger] items@[i],
                    item_ids@[i],
                    priced@[i],
                    variant_discounts@,
                    current_timestamp,
                )
        },
{
    let n = priced.len();
    let mut items: Vec<crate::order_item::OrderItem> = Vec::new();
    let mut i: usize = 0;
    while i < n
        invariant
            i <= n,
            n == priced@.len(),
            discounts_keys_unique(variant_discounts@),
            inputs@.len() == priced@.len(),
            item_ids@.len() == priced@.len(),
            forall|k: int|
                0 <= k < priced@.len() ==> (#[trigger] priced@[k]).line.shopping_cart_item_id
                    == inputs@[k].shopping_cart_item_id && priced@[k].line.shipment_method_id
                    == inputs@[k].shipment_method_id,
            forall|k: int| 0 <= k < priced@.len() ==> (#[trigger] priced@[k]).line.count >= 1,
            items@.len() == i,
            forall|k: int|
                0 <= k < i ==> discounts_has(
                    variant_discounts@,
                    #[trigger] priced@[k].line.product_variant_id,
                ) && crate::order_item::discounts_valid(
                    variant_discounts_of(variant_discounts@, priced@[k].line.product_variant_id),
                ),
            forall|k: int|
                0 <= k < i ==> zipped_item_spec(
                    #[trigger] items@[k],
                    item_ids@[k],
                    priced@[k],
                    variant_discounts@,
                    current_timestamp,
                ),
        decreases n - i,
    {
        let di = match find_variant_discounts(variant_discounts, &priced[i].line.product_variant_id)
             {
            Some(di) => di,
            None => {
                proof {
                    assert(!discounts_has(
                        variant_discounts@,
                        priced@[i as int].line.product_variant_id,
                    ));
                    assert(!discounts_usable(priced@, variant_discounts@));
                }
                return Err(OrderError::ExternalServiceError);
            },
        };
        // a factor above one million parts per million would raise the
        // price: such a response is malformed
        let m = variant_discounts[di].discounts.len();
        let mut j: usize = 0;
        while j < m
            invariant
                j <= m,
                i < n,
                n == priced@.len(),
                di < variant_discounts@.len(),
                m == variant_discounts@[di as int].discounts@.len(),
                variant_discounts@[di as int].discounts@ == variant_discounts_of(
                    variant_discounts@,
                    priced@[i as int].line.product_variant_id,
                ),
                forall|l: int|
                    0 <= l < j ==> (#[trigger] variant_discounts@[di as int].discounts@[l]).valid(),
            decreases m - j,
        {
            if variant_discounts[di].discounts[j].factor_ppm > crate::money::PPM_SCALE {
                proof {
                    let pv = priced@[i as int].line.product_variant_id;
                    assert(!(variant_discounts_of(variant_discounts@, pv)[j as int]).valid());
                    assert(!crate::order_item::discounts_valid(
                        variant_discounts_of(variant_discounts@, pv),
                    ));
                    assert(!discounts_usable(priced@, variant_discounts@));
                }
                return Err(OrderError::ExternalServiceError);
            }
            j = j + 1;
        }
        let normalized = crate::order_item::normalize_discounts(&variant_discounts[di].discounts);
        proof {
            let source = variant_discounts@[di as int].discounts@;
            assert forall|k: int|
                0 <= k < normalized@.len() implies (#[trigger] normalized@[k]).valid() by {
                assert(source.contains(normalized@[k]));
                let w = choose|j: int| 0 <= j < source.len() && source[j] == normalized@[k];
                assert(source[w].valid());
            }
        }
        let item = crate::order_item::OrderItem::new(
            item_ids[i],
            &inputs[i],
            &priced[i].product_variant,
            &priced[i].product_variant_version,
            &priced[i].tax_rate_version,
            priced[i].line.count,
            normalized,
            current_timestamp,
        );
        items.push(item);
        i = i + 1;
    }
    Ok(items)
}

/// The pending window: an order may be placed for one hour after creation,
/// the bound included.
pub const PENDING_TIMEOUT_MS: i64 = 3_600_000;

/// Placement at `created_at + PENDING_TIMEOUT_MS` is still accepted; one
/// millisecond later is not.
pub open spec fn within_pending_window(created_at: i64, now: i64) -> bool {
    now <= created_at + PENDING_TIMEOUT_MS
}

/// The resolved form of every input line.
pub open spec fn resolved_lines_spec(inputs: Seq<OrderItemInput>, cart: Seq<CartEntry>) -> Seq<
    ResolvedLine,
> {
    inputs.map_values(|inp: OrderItemInput| resolved_line_spec(inp, cart))
}

/// The priced form of every resolved line.
pub open spec fn priced_lines_spec(p: ProjectionView, lines: Seq<ResolvedLine>) -> Seq<
    PricedLine,
> {
    lines.map_values(|l: ResolvedLine| priced_line_spec(p.product_variants, p.tax_rates, l))
}

/// The error `create_order` reports, in the order the checks run; `None`
/// exactly when the order is accepted.
pub open spec fn create_order_error(
    p: ProjectionView,
    input: CreateOrderInput,
    identity: Uuid,
    cart: Seq<CartEntry>,
    stock: Seq<StockLevel>,
    variant_discounts: Seq<VariantDiscounts>,
) -> Option<OrderError> {
    if identity != input.user_id {
        Some(OrderError::AuthDenied)
    } else if input.order_item_inputs@.len() > u32::MAX {
        Some(OrderError::InvalidOrderData)
    } else if !input_references_valid(p, input) {
        Some(OrderError::InvalidOrderData)
    } else if !cart_resolvable(input.order_item_inputs@, cart) {
        Some(OrderError::InvalidOrderData)
    } else {
        let lines = resolved_lines_spec(input.order_item_inputs@, cart);
        if !all_variants_visible(p.product_variants, lines) {
            Some(OrderError::InvalidOrderData)
        } else if !all_stock_known(lines, stock) {
            Some(OrderError::ExternalServiceError)
        } else if !all_available(lines, stock) {
            Some(OrderError::InventoryReservationFailed)
        } else if !all_tax_rates_known(p.tax_rates, p.product_variants, lines) {
            Some(OrderError::NotFound)
        } else if !discounts_usable(priced_lines_spec(p, lines), variant_discounts) {
            Some(OrderError::ExternalServiceError)
        } else {
            None
        }
    }
}

/// Everything a freshly created order promises.
pub open spec fn created_order_spec(
    o: Order,
    p: ProjectionView,
    input: CreateOrderInput,
    cart: Seq<CartEntry>,
    variant_discounts: Seq<VariantDiscounts>,
    order_id: Uuid,
    item_ids: Seq<Uuid>,
    current_timestamp: i64,
) -> bool {
    &&& o.wf()
    &&& o._id == order_id
    &&& o.user._id == input.user_id
    &&& o.created_at == current_timestamp
    &&& o.order_status == OrderStatus::Pending
    &&& o.placed_at is None
    &&& o.rejection_reason is None
    &&& o.shipment_address._id == input.shipment_address_id
    &&& o.invoice_address._id == input.invoice_address_id
    &&& o.payment_information_id == input.payment_information_id
    &&& o.payment_authorization is None
    &&& opt_string_eq(o.vat_number, input.vat_number)
    &&& o.internal_order_items@.len() == input.order_item_inputs@.len()
    &&& forall|i: int|
        0 <= i < o.internal_order_items@.len() ==> zipped_item_spec(
            #[trigger] o.internal_order_items@[i],
            item_ids[i],
            priced_line_spec(
                p.product_variants,
                p.tax_rates,
                resolved_line_spec(input.order_item_inputs@[i], cart),
            ),
            variant_discounts,
            current_timestamp,
        )
    &&& o.compensatable_order_amount == items_total(o.internal_order_items@)
}

/// The caller-facing order mutations.
pub struct Mutation;

impl Mutation {
    /// Creates an order in `Pending` status from the caller's input, the
    /// projected reference data, and the cart, inventory and discount
    /// responses. The caller draws the fresh identifiers and the creation
    /// timestamp, fetches each response, and persists the result; this
    /// function makes every decision.
    ///
    /// The order is accepted exactly when the caller owns it, every named
    /// reference is projected, every line resolves to a distinct in-stock
    /// publicly visible variant, and the responses are well formed. The
    /// shipment fee quoted during assembly (see
    /// `build_calculate_shipment_fees_input`) is deliberately not part of
    /// any amount.
    pub fn create_order(
        &self,
        projection: &ProjectionState,
        input: &CreateOrderInput,
        identity: &Uuid,
        cart: &Vec<CartEntry>,
        stock: &Vec<StockLevel>,
        variant_discounts: &Vec<VariantDiscounts>,
        order_id: Uuid,
        item_ids: &Vec<Uuid>,
        current_timestamp: i64,
    ) -> (r: Result<Order, OrderError>)
        requires
            projection.wf(),
            cart_keys_unique(cart@),
            stock_keys_unique(stock@),
            discounts_keys_unique(variant_discounts@),
            item_ids@.len() == input.order_item_inputs@.len(),
        ensures
            r.is_ok() <==> create_order_error(
                projection@,
                *input,
                *identity,
                cart@,
                stock@,
                variant_discounts@,
            ) is None,
            r matches Err(e) ==> Some(e) == create_order_error(
                projection@,
                *input,
                *identity,
                cart@,
                stock@,
                variant_discounts@,
            ),
            r matches Ok(o) ==> created_order_spec(
                o,
                projection@,
                *input,
                cart@,
                variant_discounts@,
                order_id,
                item_ids@,
                current_timestamp,
            ),
    {
        if !(identity.hi == input.user_id.hi && identity.lo == input.user_id.lo) {
            return Err(OrderError::AuthDenied);
        }
        if input.order_item_inputs.len() > 0xffff_ffffusize {
            return Err(OrderError::InvalidOrderData);
        }
        match validate_order_input(projection, input) {
            Ok(()) => {},
            Err(e) => {
                return Err(e);
            },
        }
        let lines = match resolve_cart_lines(&input.order_item_inputs, cart) {
            Ok(lines) => lines,
            Err(e) => {
                return Err(e);
            },
        };
        proof {
            assert(lines@ =~= resolved_lines_spec(input.order_item_inputs@, cart@));
        }
        match check_variants_visible(projection, &lines) {
            Ok(()) => {},
            Err(e) => {
                return Err(e);
            },
        }
        match check_product_variant_availability(&lines, stock) {
            Ok(()) => {},
            Err(e) => {
                return Err(e);
            },
        }
        let priced = match price_order_lines(projection, &lines) {
            Ok(priced) => priced,
            Err(e) => {
                return Err(e);
            },
        };
        proof {
            assert(priced@ =~= priced_lines_spec(projection@, lines@));
        }
        let internal_order_items = match zip_to_internal_order_items(
            &input.order_item_inputs,
            &priced,
            variant_discounts,
            item_ids,
            current_timestamp,
        ) {
            Ok(items) => items,
            Err(e) => {
                return Err(e);
            },
        };
        proof {
            assert forall|i: int|
                0 <= i < internal_order_items@.len() implies (
            #[trigger] internal_order_items@[i]).compensatable_amount <= u32::MAX by {
                assert(zipped_item_spec(
                    internal_order_items@[i],
                    item_ids@[i],
                    priced@[i],
                    variant_discounts@,
                    current_timestamp,
                ));
            }
        }
        let compensatable_order_amount = calculate_compensatable_order_amount(
            &internal_order_items,
        );
        let order = Order {
            _id: order_id,
            user: User::from_id(input.user_id),
            created_at: current_timestamp,
            order_status: OrderStatus::Pending,
            placed_at: None,
            rejection_reason: None,
            internal_order_items,
            shipment_address: Address { _id: input.shipment_address_id },
            invoice_address: Address { _id: input.invoice_address_id },
            compensatable_order_amount,
            payment_information_id: input.payment_information_id,
            payment_authorization: None,
            vat_number: clone_opt_string(&input.vat_number),
        };
        proof {
            assert forall|i: int| 0 <= i < input.order_item_inputs@.len() implies variants_has(
                projection@.product_variants,
                resolved_line_spec(#[trigger] input.order_item_inputs@[i], cart@)
                    .product_variant_id,
            ) by {
                assert(lines@[i] == resolved_line_spec(input.order_item_inputs@[i], cart@));
                assert(variants_has(projection@.product_variants, lines@[i].product_variant_id));
            }
            assert forall|i: int|
                0 <= i < order.internal_order_items@.len() implies (
            #[trigger] order.internal_order_items@[i]).product_variant == variant_entry(
                projection@.product_variants,
                resolved_line_spec(input.order_item_inputs@[i], cart@).product_variant_id,
            ) by {
                assert(zipped_item_spec(
                    order.internal_order_items@[i],
                    item_ids@[i],
                    priced@[i],
                    variant_discounts@,
                    current_timestamp,
                ));
                assert(priced@[i] == priced_line_spec(
                    projection@.product_variants,
                    projection@.tax_rates,
                    lines@[i],
                ));
            }
            lemma_created_order_unique_variants(order, projection@, *input, cart@);
        }
        Ok(order)
    }

    /// As `create_order`, drawing the fresh identifiers and the creation
    /// timestamp from the environment.
    pub fn create_order_now(
        &self,
        projection: &ProjectionState,
        input: &CreateOrderInput,
        identity: &Uuid,
        cart: &Vec<CartEntry>,
        stock: &Vec<StockLevel>,
        variant_discounts: &Vec<VariantDiscounts>,
    ) -> (r: Result<Order, OrderError>)
        requires
            projection.wf(),
            cart_keys_unique(cart@),
            stock_keys_unique(stock@),
            discounts_keys_unique(variant_discounts@),
        ensures
            r.is_ok() <==> create_order_error(
                projection@,
                *input,
                *identity,
                cart@,
                stock@,
                variant_discounts@,
            ) is None,
            r matches Err(e) ==> Some(e) == create_order_error(
                projection@,
                *input,
                *identity,
                cart@,
                stock@,
                variant_discounts@,
            ),
            r matches Ok(o) ==> created_order_spec(
                o,
                projection@,
                *input,
                cart@,
                variant_discounts@,
                o._id,
                o.internal_order_items@.map_values(|it: OrderItem| it._id),
                o.created_at,
            ),
    {
        let order_id = crate::external::random_uuid();
        let current_timestamp = crate::external::now_millis();
        let mut item_ids: Vec<Uuid> = Vec::new();
        let n = input.order_item_inputs.len();
        let mut i: usize = 0;
        while i < n
            invariant
                i <= n,
                item_ids@.len() == i,
            decreases n - i,
        {
            item_ids.push(crate::external::random_uuid());
            i = i + 1;
        }
        let r = self.create_order(
            projection,
            input,
            identity,
            cart,
            stock,
            variant_discounts,
            order_id,
            &item_ids,
            current_timestamp,
        );
        proof {
            if r is Ok {
                let o = r.unwrap();
                assert(o.internal_order_items@.map_values(|it: OrderItem| it._id) =~= item_ids@);
            }
        }
        r
    }

    /// As `place_order`, reading the placement instant from the
    /// environment; a successful placement's timestamp lies within the
    /// pending window.
    pub fn place_order_now(
        &self,
        order: Order,
        identity: &Uuid,
        payment_authorization: Option<PaymentAuthorization>,
    ) -> (r: (Order, Result<(), OrderError>))
        requires
            order.wf(),
            order.order_status == OrderStatus::Pending,
        ensures
            r.1 == Result::<(), OrderError>::Err(OrderError::AuthDenied) <==> *identity
                != order.user._id,
            *identity != order.user._id ==> r.0 == order,
            r.1 == Result::<(), OrderError>::Ok(()) ==> {
                &&& r.0.order_status == OrderStatus::Placed
                &&& r.0.placed_at is Some
                &&& within_pending_window(order.created_at, r.0.placed_at.unwrap())
                &&& r.0.payment_authorization == payment_authorization
                &&& place_keeps_content(r.0, order)
                &&& r.0.wf()
            },
            r.1 == Result::<(), OrderError>::Err(OrderError::TimeoutRejected) ==> {
                &&& r.0.order_status == OrderStatus::Rejected
                &&& r.0.rejection_reason == Some(RejectionReason::Timeout)
                &&& place_keeps_content(r.0, order)
                &&& r.0.wf()
            },
            r.1 is Ok || r.1 == Result::<(), OrderError>::Err(OrderError::AuthDenied) || r.1
                == Result::<(), OrderError>::Err(OrderError::TimeoutRejected),
    {
        let current_timestamp = crate::external::now_millis();
        self.place_order(order, identity, payment_authorization, current_timestamp)
    }

    /// Places a pending order, or rejects it when the window has elapsed.
    ///
    /// The first component of the result is the order as it must be stored
    /// after the call: unchanged on an authorization failure, placed with
    /// the authorization attached when the call came within the window,
    /// and rejected with a timeout reason afterwards. Placement at exactly
    /// the window bound is accepted.
    pub fn place_order(
        &self,
        order: Order,
        identity: &Uuid,
        payment_authorization: Option<PaymentAuthorization>,
        current_timestamp: i64,
    ) -> (r: (Order, Result<(), OrderError>))
        requires
            order.wf(),
            order.order_status == OrderStatus::Pending,
        ensures
            *identity != order.user._id ==> r == (order, Result::<(), OrderError>::Err(
                OrderError::AuthDenied,
            )),
            *identity == order.user._id && within_pending_window(order.created_at, current_timestamp)
                ==> {
                &&& r.1 == Result::<(), OrderError>::Ok(())
                &&& r.0.order_status == OrderStatus::Placed
                &&& r.0.placed_at == Some(current_timestamp)
                &&& r.0.payment_authorization == payment_authorization
                &&& place_keeps_content(r.0, order)
                &&& r.0.wf()
            },
            *identity == order.user._id && !within_pending_window(
                order.created_at,
                current_timestamp,
            ) ==> {
                &&& r.1 == Result::<(), OrderError>::Err(OrderError::TimeoutRejected)
                &&& r.0.order_status == OrderStatus::Rejected
                &&& r.0.rejection_reason == Some(RejectionReason::Timeout)
                &&& r.0.placed_at is None
                &&& r.0.payment_authorization == order.payment_authorization
                &&& place_keeps_content(r.0, order)
                &&& r.0.wf()
            },
    {
        if !(identity.hi == order.user._id.hi && identity.lo == order.user._id.lo) {
            return (order, Err(OrderError::AuthDenied));
        }
        let within = (current_timestamp as i128) <= (order.created_at as i128) + (
        PENDING_TIMEOUT_MS as i128);
        let Order {
            _id,
            user,
            created_at,
            order_status: _,
            placed_at: _,
            rejection_reason: _,
            internal_order_items,
            shipment_address,
            invoice_address,
            compensatable_order_amount,
            payment_information_id,
            payment_authorization: previous_authorization,
            vat_number,
        } = order;
        if within {
            let placed = Order {
                _id,
                user,
                created_at,
                order_status: OrderStatus::Placed,
                placed_at: Some(current_timestamp),
                rejection_reason: None,
                internal_order_items,
                shipment_address,
                invoice_address,
                compensatable_order_amount,
                payment_information_id,
                payment_authorization,
                vat_number,
            };
            (placed, Ok(()))
        } else {
            let rejected = Order {
                _id,
                user,
                created_at,
                order_status: OrderStatus::Rejected,
                placed_at: None,
                rejection_reason: Some(RejectionReason::Timeout),
                internal_order_items,
                shipment_address,
                invoice_address,
                compensatable_order_amount,
                payment_information_id,
                payment_authorization: previous_authorization,
                vat_number,
            };
            (rejected, Err(OrderError::TimeoutRejected))
        }
    }
}

/// The fields placement never touches: identity, ownership, the creation
/// timestamp, the items with their frozen pricing, the addresses, the
/// total, the payment information and the VAT number.
pub open spec fn place_keeps_content(after: Order, before: Order) -> bool {
    &&& after._id == before._id
    &&& after.user == before.user
    &&& after.created_at == before.created_at
    &&& after.internal_order_items == before.internal_order_items
    &&& after.shipment_address == before.shipment_address
    &&& after.invoice_address == before.invoice_address
    &&& after.compensatable_order_amount == before.compensatable_order_amount
    &&& after.payment_information_id == before.payment_information_id
    &&& after.vat_number == before.vat_number
}

/// Immutable pricing: an order's items are untouched by placement, and
/// every item's compensatable amount equals the discount formula applied
/// to the price frozen into the item at creation. No later state of the
/// projection appears: whatever versions, prices or discounts change
/// afterwards, the stored amounts stand.
pub proof fn lemma_pricing_immutable(before: Order, after: Order)
    requires
        before.wf(),
        place_keeps_content(after, before),
    ensures
        after.internal_order_items == before.internal_order_items,
        forall|i: int|
            0 <= i < after.internal_order_items@.len() ==> (
            #[trigger] after.internal_order_items@[i]).compensatable_amount
                == crate::order_item::item_amount_spec(
                after.internal_order_items@[i].product_variant_version.price,
                after.internal_order_items@[i].internal_discounts@,
            ),
        after.compensatable_order_amount == before.compensatable_order_amount,
{
    assert forall|i: int|
        0 <= i < after.internal_order_items@.len() implies (
    #[trigger] after.internal_order_items@[i]).compensatable_amount
        == crate::order_item::item_amount_spec(
        after.internal_order_items@[i].product_variant_version.price,
        after.internal_order_items@[i].internal_discounts@,
    ) by {
        assert(before.internal_order_items@[i].wf());
    }
}

/// The items of a freshly assembled order are unique by product variant.
proof fn lemma_created_order_unique_variants(
    o: Order,
    p: ProjectionView,
    input: CreateOrderInput,
    cart: Seq<CartEntry>,
)
    requires
        cart_resolvable(input.order_item_inputs@, cart),
        o.internal_order_items@.len() == input.order_item_inputs@.len(),
        forall|i: int|
            0 <= i < o.internal_order_items@.len()
                ==> (#[trigger] o.internal_order_items@[i]).product_variant == variant_entry(
                p.product_variants,
                resolved_line_spec(input.order_item_inputs@[i], cart).product_variant_id,
            ),
        forall|i: int|
            0 <= i < input.order_item_inputs@.len() ==> variants_has(
                p.product_variants,
                resolved_line_spec(#[trigger] input.order_item_inputs@[i], cart)
                    .product_variant_id,
            ),
    ensures
        crate::order::items_unique_by_variant(o.internal_order_items@),
{
    assert forall|i: int, j: int|
        0 <= i < j < o.internal_order_items@.len() implies o.internal_order_items@[i]
        .product_variant._id != o.internal_order_items@[j].product_variant._id by {
        let pv_i = resolved_line_spec(input.order_item_inputs@[i], cart).product_variant_id;
        let pv_j = resolved_line_spec(input.order_item_inputs@[j], cart).product_variant_id;
        assert(pv_i != pv_j);
        assert(variant_entry(p.product_variants, pv_i)._id == pv_i);
        assert(variant_entry(p.product_variants, pv_j)._id == pv_j);
    }
}

} // verus!
