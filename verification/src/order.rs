//! The order aggregate: lifecycle status, frozen pricing, and the DTO that
//! the order-created event carries.

use crate::errors::OrderError;
use crate::foreign_types::{Address, User};
use crate::ids::Uuid;
use crate::order_item::{OrderItem, OrderItemDTO};
use crate::payment_authorization::PaymentAuthorization;
use vstd::prelude::*;

verus! {

/// Lifecycle status of an order.
#[derive(Clone, Copy, PartialEq, Eq, Structural, Debug)]
pub enum OrderStatus {
    /// Initial status; an order stays placeable for at most one hour.
    Pending,
    /// Terminal status of a successful placement.
    Placed,
    /// Terminal status of a rejected order.
    Rejected,
}

impl OrderStatus {
    /// The stable wire name of the status.
    pub fn as_str(&self) -> (r: &'static str)
        ensures
            *self == OrderStatus::Pending ==> r@ == "PENDING"@,
            *self == OrderStatus::Placed ==> r@ == "PLACED"@,
            *self == OrderStatus::Rejected ==> r@ == "REJECTED"@,
    {
        match self {
            OrderStatus::Pending => "PENDING",
            OrderStatus::Placed => "PLACED",
            OrderStatus::Rejected => "REJECTED",
        }
    }
}

/// Why an order was rejected.
#[derive(Clone, Copy, PartialEq, Eq, Structural, Debug)]
pub enum RejectionReason {
    /// The order was rejected for invalid content.
    InvalidOrderData,
    /// The inventory could not reserve the ordered items.
    InventoryReservationFailed,
    /// Placement was attempted after the pending window elapsed.
    Timeout,
}

/// The sum of the compensatable amounts of a sequence of order items.
pub open spec fn items_total(items: Seq<OrderItem>) -> int
    decreases items.len(),
{
    if items.len() == 0 {
        0
    } else {
        items_total(items.drop_last()) + items.last().compensatable_amount
    }
}

/// No two items of the sequence share a product variant.
pub open spec fn items_unique_by_variant(items: Seq<OrderItem>) -> bool {
    forall|i: int, j: int|
        0 <= i < j < items.len() ==> items[i].product_variant._id != items[j].product_variant._id
}

/// An order: the durable aggregate owned by this service.
#[derive(Clone, Debug)]
pub struct Order {
    /// Order UUID.
    pub _id: Uuid,
    /// User owning the order, as snapshotted at creation.
    pub user: User,
    /// Timestamp when the order was created, in milliseconds.
    pub created_at: i64,
    /// The status of the order.
    pub order_status: OrderStatus,
    /// Timestamp of placement, in milliseconds; set exactly when placed.
    pub placed_at: Option<i64>,
    /// The rejection reason; set exactly when rejected.
    pub rejection_reason: Option<RejectionReason>,
    /// The order's items.
    pub internal_order_items: Vec<OrderItem>,
    /// Address the order ships to.
    pub shipment_address: Address,
    /// Address of the invoice.
    pub invoice_address: Address,
    /// Total compensatable amount: the sum of the items' amounts, fixed at
    /// creation.
    pub compensatable_order_amount: u64,
    /// UUID of the payment information the order is processed with.
    pub payment_information_id: Uuid,
    /// Payment authorization attached at placement, if any.
    pub payment_authorization: Option<PaymentAuthorization>,
    /// Optional VAT number.
    pub vat_number: Option<String>,
}

impl Order {
    /// The aggregate invariant: status fields are coupled to the status,
    /// the items are non-empty and unique by product variant, every item is
    /// well formed, and the order total is the sum of the item amounts.
    pub open spec fn wf(self) -> bool {
        &&& self.placed_at.is_some() <==> self.order_status == OrderStatus::Placed
        &&& self.rejection_reason.is_some() <==> self.order_status == OrderStatus::Rejected
        &&& self.internal_order_items@.len() > 0
        &&& items_unique_by_variant(self.internal_order_items@)
        &&& forall|i: int|
            0 <= i < self.internal_order_items@.len()
                ==> #[trigger] self.internal_order_items@[i].wf()
        &&& self.compensatable_order_amount == items_total(self.internal_order_items@)
    }
}

/// Sum consistency: a well-formed order's total compensatable amount is
/// exactly the sum of its items' compensatable amounts.
pub proof fn lemma_sum_consistency(o: Order)
    requires
        o.wf(),
    ensures
        o.compensatable_order_amount == items_total(o.internal_order_items@),
{
}

/// Status-field coupling: a well-formed order carries a placement
/// timestamp exactly when it is placed, and a rejection reason exactly
/// when it is rejected.
pub proof fn lemma_status_field_coupling(o: Order)
    requires
        o.wf(),
    ensures
        o.placed_at.is_some() <==> o.order_status == OrderStatus::Placed,
        o.rejection_reason.is_some() <==> o.order_status == OrderStatus::Rejected,
{
}

/// Sums the compensatable amounts of the given order items.
pub fn calculate_compensatable_order_amount(order_items: &Vec<OrderItem>) -> (r: u64)
    requires
        order_items@.len() <= u32::MAX,
        forall|i: int|
            0 <= i < order_items@.len() ==> #[trigger] order_items@[i].compensatable_amount
                <= u32::MAX,
    ensures
        r == items_total(order_items@),
{
    let mut acc: u64 = 0;
    let n = order_items.len();
    let mut i: usize = 0;
    proof {
        assert(order_items@.subrange(0, 0) =~= Seq::<OrderItem>::empty());
    }
    while i < n
        invariant
            i <= n,
            n == order_items@.len(),
            n <= u32::MAX,
            forall|j: int|
                0 <= j < order_items@.len() ==> #[trigger] order_items@[j].compensatable_amount
                    <= u32::MAX,
            acc == items_total(order_items@.subrange(0, i as int)),
            acc <= i * 0xffff_ffffu64,
        decreases n - i,
    {
        proof {
            assert(order_items@.subrange(0, i + 1).drop_last() =~= order_items@.subrange(
                0,
                i as int,
            ));
        }
        acc = acc + order_items[i].compensatable_amount;
        i = i + 1;
    }
    proof {
        assert(order_items@.subrange(0, n as int) =~= order_items@);
    }
    acc
}

/// The DTO of an order, carried by the order-created event.
#[derive(Clone, Debug)]
pub struct OrderDTO {
    /// Order UUID.
    pub id: Uuid,
    /// UUID of the user owning the order.
    pub user_id: Uuid,
    /// Timestamp when the order was created, in milliseconds.
    pub created_at: i64,
    /// The status of the order.
    pub order_status: OrderStatus,
    /// Timestamp of placement, in milliseconds.
    pub placed_at: i64,
    /// The rejection reason, if the order was rejected.
    pub rejection_reason: Option<RejectionReason>,
    /// DTOs of the order's items.
    pub order_items: Vec<OrderItemDTO>,
    /// UUID of the address the order ships to.
    pub shipment_address_id: Uuid,
    /// UUID of the invoice address.
    pub invoice_address_id: Uuid,
    /// Total compensatable amount of the order.
    pub compensatable_order_amount: u64,
    /// UUID of the payment information.
    pub payment_information_id: Uuid,
    /// Payment authorization attached at placement, if any.
    pub payment_authorization: Option<PaymentAuthorization>,
    /// Optional VAT number.
    pub vat_number: Option<String>,
}

/// Two optional strings hold the same text.
pub open spec fn opt_string_eq(a: Option<String>, b: Option<String>) -> bool {
    match (a, b) {
        (Option::None, Option::None) => true,
        (Option::Some(x), Option::Some(y)) => x@ == y@,
        _ => false,
    }
}

/// Copies an optional string.
pub fn clone_opt_string(a: &Option<String>) -> (r: Option<String>)
    ensures
        opt_string_eq(r, *a),
{
    match a {
        Some(s) => Some(s.clone()),
        None => None,
    }
}

/// Whether an order item DTO carries exactly the fields of the given item.
pub open spec fn item_dto_matches(dto: OrderItemDTO, item: OrderItem) -> bool {
    &&& dto.id == item._id
    &&& dto.created_at == item.created_at
    &&& dto.product_variant_id == item.product_variant._id
    &&& dto.product_variant_version_id == item.product_variant_version._id
    &&& dto.tax_rate_version_id == item.tax_rate_version._id
    &&& dto.shopping_cart_item_id == item.shopping_cart_item._id
    &&& dto.count == item.count
    &&& dto.compensatable_amount == item.compensatable_amount
    &&& dto.shipment_method_id == item.shipment_method._id
    &&& dto.discount_ids@.len() == item.internal_discounts@.len()
    &&& forall|i: int|
        0 <= i < dto.discount_ids@.len() ==> dto.discount_ids@[i]
            == item.internal_discounts@[i]._id
}

impl OrderDTO {
    /// Derives the DTO of an order. Fails exactly when the order has no
    /// placement timestamp, since only placed orders are published.
    pub fn from_order(order: &Order) -> (r: Result<OrderDTO, OrderError>)
        ensures
            r.is_ok() <==> order.placed_at.is_some(),
            r matches Ok(dto) ==> {
                &&& dto.id == order._id
                &&& dto.user_id == order.user._id
                &&& dto.created_at == order.created_at
                &&& dto.order_status == order.order_status
                &&& Some(dto.placed_at) == order.placed_at
                &&& dto.rejection_reason == order.rejection_reason
                &&& dto.order_items@.len() == order.internal_order_items@.len()
                &&& forall|i: int|
                    0 <= i < dto.order_items@.len() ==> item_dto_matches(
                        #[trigger] dto.order_items@[i],
                        order.internal_order_items@[i],
                    )
                &&& dto.shipment_address_id == order.shipment_address._id
                &&& dto.invoice_address_id == order.invoice_address._id
                &&& dto.compensatable_order_amount == order.compensatable_order_amount
                &&& dto.payment_information_id == order.payment_information_id
                &&& dto.payment_authorization == order.payment_authorization
                &&& opt_string_eq(dto.vat_number, order.vat_number)
            },
            r is Err ==> r == Result::<OrderDTO, OrderError>::Err(OrderError::InvalidOrderData),
    {
        let placed_at: i64 = match order.placed_at {
            Some(t) => t,
            None => {
                return Err(OrderError::InvalidOrderData);
            },
        };
        let mut order_items: Vec<OrderItemDTO> = Vec::new();
        let n = order.internal_order_items.len();
        let mut i: usize = 0;
        while i < n
            invariant
                i <= n,
                n == order.internal_order_items@.len(),
                order_items@.len() == i,
                forall|j: int|
                    0 <= j < i ==> item_dto_matches(
                        #[trigger] order_items@[j],
                        order.internal_order_items@[j],
                    ),
            decreases n - i,
        {
            let dto = OrderItemDTO::from_item(&order.internal_order_items[i]);
            order_items.push(dto);
            i = i + 1;
        }
        Ok(OrderDTO {
            id: order._id,
            user_id: order.user._id,
            created_at: order.created_at,
            order_status: order.order_status,
            placed_at,
            rejection_reason: order.rejection_reason,
            order_items,
            shipment_address_id: order.shipment_address._id,
            invoice_address_id: order.invoice_address._id,
            compensatable_order_amount: order.compensatable_order_amount,
            payment_information_id: order.payment_information_id,
            payment_authorization: order.payment_authorization,
            vat_number: clone_opt_string(&order.vat_number),
        })
    }
}

} // verus!
