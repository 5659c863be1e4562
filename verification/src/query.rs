//! The caller-facing queries over the stored orders, each gated by the
//! caller's identity.

use crate::errors::OrderError;
use crate::ids::Uuid;
use crate::order::Order;
use crate::order_item::OrderItem;
use vstd::prelude::*;

verus! {

/// The store keys orders by id: no two stored orders share one.
pub open spec fn orders_unique_by_id(orders: Seq<Order>) -> bool {
    forall|i: int, j: int| 0 <= i < j < orders.len() ==> orders[i]._id != orders[j]._id
}

/// Some stored order has the given id.
pub open spec fn orders_has(orders: Seq<Order>, id: Uuid) -> bool {
    exists|i: int| 0 <= i < orders.len() && orders[i]._id == id
}

/// The store holds each order item id at most once, across all orders:
/// item identifiers are globally unique.
pub open spec fn order_items_unique_across(orders: Seq<Order>) -> bool {
    forall|i: int, j: int, k: int, l: int|
        #![trigger orders[i].internal_order_items@[j], orders[k].internal_order_items@[l]]
        0 <= i < orders.len() && 0 <= j < orders[i].internal_order_items@.len() && 0 <= k
            < orders.len() && 0 <= l < orders[k].internal_order_items@.len() && (i != k || j != l)
            ==> orders[i].internal_order_items@[j]._id != orders[k].internal_order_items@[l]._id
}

/// Some stored order holds an item with the given id.
pub open spec fn order_item_located(orders: Seq<Order>, item_id: Uuid) -> bool {
    exists|i: int, j: int|
        0 <= i < orders.len() && 0 <= j < orders[i].internal_order_items@.len()
            && orders[i].internal_order_items@[j]._id == item_id
}

/// Keeps the orders owned by `user_id`.
pub open spec fn owned_by(user_id: Uuid) -> spec_fn(Order) -> bool {
    |o: Order| o.user._id == user_id
}

/// The stored orders of one user, in stored order.
pub open spec fn user_orders(orders: Seq<Order>, user_id: Uuid) -> Seq<Order> {
    orders.filter(owned_by(user_id))
}

/// The orders a list of references points at.
pub open spec fn deref_orders(list: Seq<&Order>) -> Seq<Order> {
    list.map_values(|o: &Order| *o)
}

/// Looks an order up by id; the first stored order with that id.
pub fn query_order<'a>(orders: &'a Vec<Order>, id: &Uuid) -> (r: Result<&'a Order, OrderError>)
    ensures
        r.is_ok() <==> orders_has(orders@, *id),
        r matches Ok(o) ==> exists|i: int|
            0 <= i < orders@.len() && *o == orders@[i] && o._id == *id,
        r is Err ==> r == Result::<&'a Order, OrderError>::Err(OrderError::NotFound),
{
    let n = orders.len();
    let mut i: usize = 0;
    while i < n
        invariant
            i <= n,
            n == orders@.len(),
            forall|j: int| 0 <= j < i ==> orders@[j]._id != *id,
        decreases n - i,
    {
        if orders[i]._id.hi == id.hi && orders[i]._id.lo == id.lo {
            proof {
                assert(orders@[i as int]._id == *id);
            }
            return Ok(&orders[i]);
        }
        i = i + 1;
    }
    Err(OrderError::NotFound)
}

/// The caller-facing queries.
pub struct Query;

impl Query {
    /// Retrieves an order by id. The caller must own it: an existing order
    /// of another user is refused, a missing one is not found.
    pub fn order<'a>(&self, orders: &'a Vec<Order>, id: &Uuid, identity: &Uuid) -> (r: Result<
        &'a Order,
        OrderError,
    >)
        requires
            orders_unique_by_id(orders@),
        ensures
            r matches Ok(o) ==> {
                &&& exists|i: int| 0 <= i < orders@.len() && *o == orders@[i]
                &&& o._id == *id
                &&& o.user._id == *identity
            },
            r is Err <==> !orders_has(orders@, *id) || exists|i: int|
                0 <= i < orders@.len() && (#[trigger] orders@[i])._id == *id && orders@[i].user._id
                    != *identity,
            r == Result::<&'a Order, OrderError>::Err(OrderError::NotFound) <==> !orders_has(
                orders@,
                *id,
            ),
            r == Result::<&'a Order, OrderError>::Err(OrderError::AuthDenied) <==> exists|i: int|
                0 <= i < orders@.len() && (#[trigger] orders@[i])._id == *id && orders@[i].user._id
                    != *identity,
    {
        let order = match query_order(orders, id) {
            Ok(order) => order,
            Err(e) => {
                return Err(e);
            },
        };
        if order.user._id.hi == identity.hi && order.user._id.lo == identity.lo {
            proof {
                let k = choose|k: int| 0 <= k < orders@.len() && *order == orders@[k];
                assert forall|i: int|
                    0 <= i < orders@.len() && (#[trigger] orders@[i])._id == *id implies orders@[
                    i
                ].user._id == *identity by {
                    assert(orders@[k]._id == *id);
                    assert(i == k);
                }
            }
            Ok(order)
        } else {
            proof {
                let i = choose|i: int| 0 <= i < orders@.len() && *order == orders@[i];
                assert(orders@[i]._id == *id && orders@[i].user._id != *identity);
            }
            Err(OrderError::AuthDenied)
        }
    }

    /// Retrieves an order item by id; the identity is checked against the
    /// user owning the containing order.
    pub fn order_item<'a>(
        &self,
        orders: &'a Vec<Order>,
        id: &Uuid,
        identity: &Uuid,
    ) -> (r: Result<&'a OrderItem, OrderError>)
        requires
            order_items_unique_across(orders@),
        ensures
            r matches Ok(item) ==> {
                &&& item._id == *id
                &&& exists|i: int, j: int|
                    0 <= i < orders@.len() && 0 <= j < orders@[i].internal_order_items@.len()
                        && *item == orders@[i].internal_order_items@[j] && orders@[i].user._id
                        == *identity
            },
            r is Ok <==> exists|i: int, j: int|
                0 <= i < orders@.len() && 0 <= j < orders@[i].internal_order_items@.len()
                    && orders@[i].internal_order_items@[j]._id == *id && orders@[i].user._id
                    == *identity,
            r == Result::<&'a OrderItem, OrderError>::Err(OrderError::AuthDenied) <==> exists|
                i: int,
                j: int,
            |
                0 <= i < orders@.len() && 0 <= j < orders@[i].internal_order_items@.len()
                    && orders@[i].internal_order_items@[j]._id == *id && orders@[i].user._id
                    != *identity,
            r == Result::<&'a OrderItem, OrderError>::Err(OrderError::NotFound)
                <==> !order_item_located(orders@, *id),
    {
        let n = orders.len();
        let mut i: usize = 0;
        while i < n
            invariant
                i <= n,
                n == orders@.len(),
                order_items_unique_across(orders@),
                forall|a: int, b: int|
                    0 <= a < i && 0 <= b < orders@[a].internal_order_items@.len()
                        ==> orders@[a].internal_order_items@[b]._id != *id,
            decreases n - i,
        {
            let items = &orders[i].internal_order_items;
            let m = items.len();
            let mut j: usize = 0;
            while j < m
                invariant
                    j <= m,
                    i < n,
                    n == orders@.len(),
                    order_items_unique_across(orders@),
                    m == orders@[i as int].internal_order_items@.len(),
                    items@ == orders@[i as int].internal_order_items@,
                    forall|b: int|
                        0 <= b < j ==> orders@[i as int].internal_order_items@[b]._id != *id,
                decreases m - j,
            {
                if items[j]._id.hi == id.hi && items[j]._id.lo == id.lo {
                    proof {
                        assert(orders@[i as int].internal_order_items@[j as int]._id == *id);
                        assert(order_item_located(orders@, *id));
                        // the id is held nowhere else, so the containing
                        // order alone decides ownership
                        assert forall|k: int, l: int|
                            0 <= k < orders@.len() && 0 <= l < orders@[
                            k
                        ].internal_order_items@.len() && (#[trigger] orders@[
                            k
                        ].internal_order_items@[l])._id == *id implies k == i && l == j by {
                            if k != i || l != j {
                                assert(orders@[k].internal_order_items@[l]._id != orders@[
                                    i as int
                                ].internal_order_items@[j as int]._id);
                            }
                        }
                    }
                    if orders[i].user._id.hi == identity.hi && orders[i].user._id.lo
                        == identity.lo {
                        return Ok(&items[j]);
                    } else {
                        return Err(OrderError::AuthDenied);
                    }
                }
                j = j + 1;
            }
            i = i + 1;
        }
        Err(OrderError::NotFound)
    }

    /// Lists the orders a user owns, in stored order. The authorization
    /// gate admits only the owner; paging over the result is the caller's
    /// concern.
    pub fn list_user_orders<'a>(
        &self,
        orders: &'a Vec<Order>,
        user_id: &Uuid,
        identity: &Uuid,
    ) -> (r: Result<Vec<&'a Order>, OrderError>)
        ensures
            r.is_ok() <==> *identity == *user_id,
            r is Err ==> r == Result::<Vec<&'a Order>, OrderError>::Err(OrderError::AuthDenied),
            r matches Ok(list) ==> deref_orders(list@) == user_orders(orders@, *user_id),
    {
        if !(identity.hi == user_id.hi && identity.lo == user_id.lo) {
            return Err(OrderError::AuthDenied);
        }
        let mut out: Vec<&'a Order> = Vec::new();
        let n = orders.len();
        let mut i: usize = 0;
        proof {
            reveal(Seq::filter);
            assert(deref_orders(out@) =~= user_orders(orders@.subrange(0, 0), *user_id));
        }
        while i < n
            invariant
                i <= n,
                n == orders@.len(),
                deref_orders(out@) =~= user_orders(orders@.subrange(0, i as int), *user_id),
            decreases n - i,
        {
            let ghost prefix = orders@.subrange(0, i as int);
            let ghost before = out@;
            if orders[i].user._id.hi == user_id.hi && orders[i].user._id.lo == user_id.lo {
                out.push(&orders[i]);
                proof {
                    assert(deref_orders(out@) =~= deref_orders(before).push(orders@[i as int]));
                }
            }
            proof {
                reveal(Seq::filter);
                assert(orders@.subrange(0, i + 1).drop_last() =~= prefix);
                assert(orders@.subrange(0, i + 1).last() == orders@[i as int]);
            }
            i = i + 1;
        }
        proof {
            assert(orders@.subrange(0, n as int) =~= orders@);
        }
        Ok(out)
    }
}

} // verus!
