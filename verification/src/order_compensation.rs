//! The compensation engine: consumes shipment-failure events, refuses
//! double compensation, and records the refundable amount computed from the
//! frozen per-item snapshots.

use crate::errors::OrderError;
use crate::ids::Uuid;
use crate::order::Order;
use crate::order_item::OrderItem;
use vstd::prelude::*;

verus! {

/// A recorded monetary compensation for a subset of an order's items.
#[derive(Clone, Debug)]
pub struct OrderCompensation {
    /// OrderCompensation UUID.
    pub _id: Uuid,
    /// UUID of the compensated order.
    pub order_id: Uuid,
    /// UUIDs of the compensated order items.
    pub order_item_ids: Vec<Uuid>,
    /// Timestamp when the compensation was triggered, in milliseconds.
    pub triggered_at: i64,
    /// Amount to compensate, in minor currency units.
    pub amount_to_compensate: u64,
}

/// The DTO of a compensation, carried by the compensation-created event.
#[derive(Clone, Copy, PartialEq, Eq, Structural, Debug)]
pub struct OrderCompensationDTO {
    /// OrderCompensation UUID.
    pub id: Uuid,
    /// Amount to compensate, in minor currency units.
    pub amount_to_compensate: u64,
}

impl OrderCompensationDTO {
    /// Derives the DTO of a compensation record.
    pub fn from_compensation(value: &OrderCompensation) -> (r: OrderCompensationDTO)
        ensures
            r.id == value._id,
            r.amount_to_compensate == value.amount_to_compensate,
    {
        OrderCompensationDTO { id: value._id, amount_to_compensate: value.amount_to_compensate }
    }
}

/// The payload of a `shipment/shipment/creation-failed` event.
#[derive(Clone, Debug)]
pub struct ShipmentFailedEventData {
    /// UUID of the order whose shipment failed.
    pub order_id: Uuid,
    /// UUIDs of the order items of the failed shipment.
    pub order_item_ids: Vec<Uuid>,
}

/// Some existing compensation record contains the given order item.
pub open spec fn item_compensated(comps: Seq<OrderCompensation>, item_id: Uuid) -> bool {
    exists|i: int| 0 <= i < comps.len() && comps[i].order_item_ids@.contains(item_id)
}

/// Some requested order item already has a compensation record.
pub open spec fn any_already_compensated(comps: Seq<OrderCompensation>, ids: Seq<Uuid>) -> bool {
    exists|j: int| 0 <= j < ids.len() && item_compensated(comps, ids[j])
}

/// The amount owed for the requested items: the sum of the frozen
/// compensatable amounts of the order's items whose ids are requested.
/// Requesting no items owes nothing.
pub open spec fn compensable_amount_spec(items: Seq<OrderItem>, ids: Seq<Uuid>) -> int
    decreases items.len(),
{
    if items.len() == 0 {
        0
    } else {
        compensable_amount_spec(items.drop_last(), ids) + if ids.contains(items.last()._id) {
            items.last().compensatable_amount as int
        } else {
            0
        }
    }
}

/// Whether a list of identifiers holds the given one.
fn contains_uuid(v: &Vec<Uuid>, id: &Uuid) -> (r: bool)
    ensures
        r == v@.contains(*id),
{
    let n = v.len();
    let mut i: usize = 0;
    while i < n
        invariant
            i <= n,
            n == v@.len(),
            forall|j: int| 0 <= j < i ==> v@[j] != *id,
        decreases n - i,
    {
        if v[i] == *id {
            return true;
        }
        i = i + 1;
    }
    false
}

/// Sums the compensatable amounts of the order's items that are requested.
fn calculate_amount_to_compensate(items: &Vec<OrderItem>, ids: &Vec<Uuid>) -> (r: u64)
    requires
        items@.len() <= u32::MAX,
        forall|i: int|
            0 <= i < items@.len() ==> (#[trigger] items@[i]).compensatable_amount <= u32::MAX,
    ensures
        r == compensable_amount_spec(items@, ids@),
{
    let mut acc: u64 = 0;
    let n = items.len();
    let mut i: usize = 0;
    proof {
        assert(items@.subrange(0, 0) =~= Seq::<OrderItem>::empty());
    }
    while i < n
        invariant
            i <= n,
            n == items@.len(),
            n <= u32::MAX,
            forall|j: int|
                0 <= j < items@.len() ==> (#[trigger] items@[j]).compensatable_amount <= u32::MAX,
            acc == compensable_amount_spec(items@.subrange(0, i as int), ids@),
            acc <= i * 0xffff_ffffu64,
        decreases n - i,
    {
        proof {
            assert(items@.subrange(0, i + 1).drop_last() =~= items@.subrange(0, i as int));
        }
        if contains_uuid(ids, &items[i]._id) {
            acc = acc + items[i].compensatable_amount;
        }
        i = i + 1;
    }
    proof {
        assert(items@.subrange(0, n as int) =~= items@);
    }
    acc
}

/// Refuses the request if any requested item already has a compensation
/// record, across all orders.
pub fn verify_items_uncompensated(
    compensations: &Vec<OrderCompensation>,
    order_item_ids: &Vec<Uuid>,
) -> (r: Result<(), OrderError>)
    ensures
        r.is_ok() <==> !any_already_compensated(compensations@, order_item_ids@),
        r is Err ==> r == Result::<(), OrderError>::Err(OrderError::AlreadyCompensated),
{
    let n = order_item_ids.len();
    let mut i: usize = 0;
    while i < n
        invariant
            i <= n,
            n == order_item_ids@.len(),
            forall|j: int|
                0 <= j < i ==> !item_compensated(compensations@, #[trigger] order_item_ids@[j]),
        decreases n - i,
    {
        let m = compensations.len();
        let mut k: usize = 0;
        while k < m
            invariant
                k <= m,
                i < n,
                n == order_item_ids@.len(),
                m == compensations@.len(),
                forall|l: int|
                    0 <= l < k ==> !compensations@[l].order_item_ids@.contains(
                        order_item_ids@[i as int],
                    ),
            decreases m - k,
        {
            if contains_uuid(&compensations[k].order_item_ids, &order_item_ids[i]) {
                proof {
                    assert(item_compensated(compensations@, order_item_ids@[i as int]));
                    assert(any_already_compensated(compensations@, order_item_ids@));
                }
                return Err(OrderError::AlreadyCompensated);
            }
            k = k + 1;
        }
        i = i + 1;
    }
    Ok(())
}

/// Handles one shipment-failure event: verifies the order exists and no
/// requested item was compensated before, sums the frozen amounts of the
/// requested items, and produces the compensation record to persist and
/// publish. An event naming no items is accepted and owes nothing.
///
/// The order's status is never altered by compensation.
pub fn compensate_order(
    maybe_order: Option<&Order>,
    compensations: &Vec<OrderCompensation>,
    data: &ShipmentFailedEventData,
    fresh_id: Uuid,
    current_timestamp: i64,
) -> (r: Result<OrderCompensation, OrderError>)
    requires
        maybe_order matches Some(o) ==> o.wf() && o.internal_order_items@.len() <= u32::MAX,
    ensures
        r == Result::<OrderCompensation, OrderError>::Err(OrderError::NotFound) <==> maybe_order
            is None,
        r == Result::<OrderCompensation, OrderError>::Err(OrderError::AlreadyCompensated)
            <==> maybe_order is Some && any_already_compensated(
            compensations@,
            data.order_item_ids@,
        ),
        r.is_ok() <==> maybe_order is Some && !any_already_compensated(
            compensations@,
            data.order_item_ids@,
        ),
        r matches Ok(c) ==> {
            &&& c._id == fresh_id
            &&& c.order_id == data.order_id
            &&& c.order_item_ids@ == data.order_item_ids@
            &&& c.triggered_at == current_timestamp
            &&& c.amount_to_compensate == compensable_amount_spec(
                maybe_order.unwrap().internal_order_items@,
                data.order_item_ids@,
            )
        },
{
    let order = match maybe_order {
        Some(order) => order,
        None => {
            return Err(OrderError::NotFound);
        },
    };
    match verify_items_uncompensated(compensations, &data.order_item_ids) {
        Ok(()) => {},
        Err(e) => {
            return Err(e);
        },
    }
    proof {
        assert forall|i: int|
            0 <= i < order.internal_order_items@.len() implies (
        #[trigger] order.internal_order_items@[i]).compensatable_amount <= u32::MAX by {
            assert(order.internal_order_items@[i].wf());
            crate::order_item::lemma_item_amount_le_price(
                order.internal_order_items@[i].product_variant_version.price,
                order.internal_order_items@[i].internal_discounts@,
            );
        }
    }
    let amount_to_compensate = calculate_amount_to_compensate(
        &order.internal_order_items,
        &data.order_item_ids,
    );
    Ok(
        OrderCompensation {
            _id: fresh_id,
            order_id: data.order_id,
            order_item_ids: crate::projection::copy_uuids(&data.order_item_ids),
            triggered_at: current_timestamp,
            amount_to_compensate,
        },
    )
}

/// Two lists of order item ids share no element.
pub open spec fn ids_disjoint(a: Seq<Uuid>, b: Seq<Uuid>) -> bool {
    forall|k: int| 0 <= k < a.len() ==> !b.contains(#[trigger] a[k])
}

/// No order item appears in two compensation records: each item is
/// compensated at most once.
pub open spec fn compensations_disjoint(comps: Seq<OrderCompensation>) -> bool {
    forall|i: int, j: int|
        0 <= i < j < comps.len() ==> ids_disjoint(
            comps[i].order_item_ids@,
            comps[j].order_item_ids@,
        )
}

/// At-most-once compensation: appending a record that the engine accepted
/// (no requested item compensated before) keeps every order item in at
/// most one compensation record.
pub proof fn lemma_compensation_at_most_once(comps: Seq<OrderCompensation>, c: OrderCompensation)
    requires
        compensations_disjoint(comps),
        !any_already_compensated(comps, c.order_item_ids@),
    ensures
        compensations_disjoint(comps.push(c)),
{
    let all = comps.push(c);
    assert forall|i: int, j: int| 0 <= i < j < all.len() implies ids_disjoint(
        all[i].order_item_ids@,
        all[j].order_item_ids@,
    ) by {
        if j < comps.len() {
            assert(ids_disjoint(comps[i].order_item_ids@, comps[j].order_item_ids@));
        } else {
            assert(all[j] == c);
            assert forall|k: int|
                0 <= k < all[i].order_item_ids@.len() implies !c.order_item_ids@.contains(
                #[trigger] all[i].order_item_ids@[k],
            ) by {
                if c.order_item_ids@.contains(all[i].order_item_ids@[k]) {
                    let m = choose|m: int|
                        0 <= m < c.order_item_ids@.len() && c.order_item_ids@[m] == all[
                            i
                        ].order_item_ids@[k];
                    assert(comps[i].order_item_ids@.contains(c.order_item_ids@[m]));
                    assert(item_compensated(comps, c.order_item_ids@[m]));
                    assert(any_already_compensated(comps, c.order_item_ids@));
                }
            }
        }
    }
}

} // verus!
