//! The create and place flow on concrete values.

use order_core::errors::OrderError;
use order_core::foreign_types::{
    Coupon, Discount, ProductVariant, ProductVariantVersion, ShipmentMethod, TaxRate,
    TaxRateVersion, User,
};
use order_core::ids::Uuid;
use order_core::mutation::{CartEntry, Mutation, StockLevel, VariantDiscounts, PENDING_TIMEOUT_MS};
use order_core::mutation_input_structs::{CreateOrderInput, OrderItemInput};
use order_core::order::{Order, OrderStatus, RejectionReason};
use order_core::payment_authorization::PaymentAuthorization;
use order_core::projection::ProjectionState;

fn uid(lo: u64) -> Uuid {
    Uuid::new(0, lo)
}

fn projection() -> ProjectionState {
    let mut p = ProjectionState::new();
    p.users.push(User {
        _id: uid(1),
        user_address_ids: vec![uid(3)],
    });
    p.product_variants.push(ProductVariant {
        _id: uid(2),
        current_version: ProductVariantVersion {
            _id: uid(0x20),
            price: 1000,
            tax_rate_id: uid(7),
        },
        is_publicly_visible: true,
    });
    p.tax_rates.push(TaxRate {
        _id: uid(7),
        current_version: TaxRateVersion {
            _id: uid(0x71),
            rate_ppm: 190_000,
            version: 1,
        },
    });
    p.shipment_methods.push(ShipmentMethod { _id: uid(5) });
    p.coupons.push(Coupon { _id: uid(9) });
    p
}

fn input() -> CreateOrderInput {
    CreateOrderInput {
        user_id: uid(1),
        order_item_inputs: vec![OrderItemInput {
            shopping_cart_item_id: uid(0xC),
            shipment_method_id: uid(5),
            coupon_ids: vec![],
        }],
        shipment_address_id: uid(3),
        invoice_address_id: uid(3),
        payment_information_id: uid(4),
        vat_number: None,
    }
}

fn cart() -> Vec<CartEntry> {
    vec![CartEntry {
        shopping_cart_item_id: uid(0xC),
        product_variant_id: uid(2),
        count: 3,
    }]
}

fn stock(n: u64) -> Vec<StockLevel> {
    vec![StockLevel {
        product_variant_id: uid(2),
        in_stock: n,
    }]
}

fn no_discounts() -> Vec<VariantDiscounts> {
    vec![VariantDiscounts {
        product_variant_id: uid(2),
        discounts: vec![],
    }]
}

fn create(
    discounts: Vec<VariantDiscounts>,
    stock_level: u64,
) -> Result<Order, OrderError> {
    Mutation.create_order(
        &projection(),
        &input(),
        &uid(1),
        &cart(),
        &stock(stock_level),
        &discounts,
        uid(0xA),
        &vec![uid(0xB)],
        0,
    )
}

#[test]
fn happy_path_create() {
    let order = create(no_discounts(), 5).unwrap();
    assert_eq!(order._id, uid(0xA));
    assert_eq!(order.user._id, uid(1));
    assert_eq!(order.order_status, OrderStatus::Pending);
    assert!(order.placed_at.is_none());
    assert!(order.rejection_reason.is_none());
    assert_eq!(order.internal_order_items.len(), 1);
    assert_eq!(order.internal_order_items[0].compensatable_amount, 1000);
    assert_eq!(order.internal_order_items[0].count, 3);
    assert_eq!(order.compensatable_order_amount, 1000);
    assert_eq!(order.shipment_address._id, uid(3));
    assert_eq!(order.invoice_address._id, uid(3));
    assert_eq!(order.payment_information_id, uid(4));
}

#[test]
fn stock_shortfall_is_reservation_failure() {
    let r = create(no_discounts(), 2);
    assert_eq!(r.err().unwrap(), OrderError::InventoryReservationFailed);
}

#[test]
fn discount_composition_is_order_independent() {
    let a = Discount {
        _id: uid(0x30),
        factor_ppm: 900_000,
    };
    let b = Discount {
        _id: uid(0x31),
        factor_ppm: 500_000,
    };
    let forward = create(
        vec![VariantDiscounts {
            product_variant_id: uid(2),
            discounts: vec![a, b],
        }],
        5,
    )
    .unwrap();
    let backward = create(
        vec![VariantDiscounts {
            product_variant_id: uid(2),
            discounts: vec![b, a],
        }],
        5,
    )
    .unwrap();
    assert_eq!(forward.internal_order_items[0].compensatable_amount, 450);
    assert_eq!(backward.internal_order_items[0].compensatable_amount, 450);
    assert_eq!(forward.compensatable_order_amount, 450);
}

#[test]
fn zero_discount_factor_zeroes_the_item() {
    let z = Discount {
        _id: uid(0x32),
        factor_ppm: 0,
    };
    let order = create(
        vec![VariantDiscounts {
            product_variant_id: uid(2),
            discounts: vec![z],
        }],
        5,
    )
    .unwrap();
    assert_eq!(order.internal_order_items[0].compensatable_amount, 0);
    assert_eq!(order.compensatable_order_amount, 0);
    assert_eq!(order.order_status, OrderStatus::Pending);
}

#[test]
fn empty_order_is_rejected() {
    let mut empty = input();
    empty.order_item_inputs = vec![];
    let r = Mutation.create_order(
        &projection(),
        &empty,
        &uid(1),
        &cart(),
        &stock(5),
        &no_discounts(),
        uid(0xA),
        &vec![],
        0,
    );
    assert_eq!(r.err().unwrap(), OrderError::InvalidOrderData);
}

#[test]
fn duplicate_variant_is_rejected() {
    let mut doubled = input();
    doubled.order_item_inputs = vec![
        OrderItemInput {
            shopping_cart_item_id: uid(0xC),
            shipment_method_id: uid(5),
            coupon_ids: vec![],
        },
        OrderItemInput {
            shopping_cart_item_id: uid(0xD),
            shipment_method_id: uid(5),
            coupon_ids: vec![],
        },
    ];
    let two_entries = vec![
        CartEntry {
            shopping_cart_item_id: uid(0xC),
            product_variant_id: uid(2),
            count: 1,
        },
        CartEntry {
            shopping_cart_item_id: uid(0xD),
            product_variant_id: uid(2),
            count: 2,
        },
    ];
    let r = Mutation.create_order(
        &projection(),
        &doubled,
        &uid(1),
        &two_entries,
        &stock(5),
        &no_discounts(),
        uid(0xA),
        &vec![uid(0xB), uid(0xE)],
        0,
    );
    assert_eq!(r.err().unwrap(), OrderError::InvalidOrderData);
}

#[test]
fn create_denied_for_other_identity() {
    let r = Mutation.create_order(
        &projection(),
        &input(),
        &uid(99),
        &cart(),
        &stock(5),
        &no_discounts(),
        uid(0xA),
        &vec![uid(0xB)],
        0,
    );
    assert_eq!(r.err().unwrap(), OrderError::AuthDenied);
}

#[test]
fn place_at_window_bound_is_accepted() {
    let order = create(no_discounts(), 5).unwrap();
    let (placed, outcome) = Mutation.place_order(
        order,
        &uid(1),
        Some(PaymentAuthorization::CVC(123)),
        PENDING_TIMEOUT_MS,
    );
    assert!(outcome.is_ok());
    assert_eq!(placed.order_status, OrderStatus::Placed);
    assert_eq!(placed.placed_at, Some(PENDING_TIMEOUT_MS));
    assert_eq!(
        placed.payment_authorization,
        Some(PaymentAuthorization::CVC(123))
    );
    assert_eq!(placed.compensatable_order_amount, 1000);
}

#[test]
fn place_past_window_rejects_with_timeout() {
    let order = create(no_discounts(), 5).unwrap();
    let (rejected, outcome) = Mutation.place_order(order, &uid(1), None, PENDING_TIMEOUT_MS + 1);
    assert_eq!(outcome.err().unwrap(), OrderError::TimeoutRejected);
    assert_eq!(rejected.order_status, OrderStatus::Rejected);
    assert_eq!(rejected.rejection_reason, Some(RejectionReason::Timeout));
    assert!(rejected.placed_at.is_none());
}

#[test]
fn place_denied_for_other_identity() {
    let order = create(no_discounts(), 5).unwrap();
    let (unchanged, outcome) = Mutation.place_order(order, &uid(2), None, 10);
    assert_eq!(outcome.err().unwrap(), OrderError::AuthDenied);
    assert_eq!(unchanged.order_status, OrderStatus::Pending);
}

#[test]
fn unknown_coupon_is_invalid_order_data() {
    let mut with_coupon = input();
    with_coupon.order_item_inputs[0].coupon_ids = vec![uid(0x99)];
    let r = Mutation.create_order(
        &projection(),
        &with_coupon,
        &uid(1),
        &cart(),
        &stock(5),
        &no_discounts(),
        uid(0xA),
        &vec![uid(0xB)],
        0,
    );
    assert_eq!(r.err().unwrap(), OrderError::InvalidOrderData);
}

#[test]
fn known_coupon_is_accepted() {
    let mut with_coupon = input();
    with_coupon.order_item_inputs[0].coupon_ids = vec![uid(9)];
    let r = Mutation.create_order(
        &projection(),
        &with_coupon,
        &uid(1),
        &cart(),
        &stock(5),
        &no_discounts(),
        uid(0xA),
        &vec![uid(0xB)],
        0,
    );
    assert!(r.is_ok());
}

#[test]
fn invisible_variant_is_invalid_order_data() {
    let mut p = projection();
    p.product_variants[0].is_publicly_visible = false;
    let r = Mutation.create_order(
        &p,
        &input(),
        &uid(1),
        &cart(),
        &stock(5),
        &no_discounts(),
        uid(0xA),
        &vec![uid(0xB)],
        0,
    );
    assert_eq!(r.err().unwrap(), OrderError::InvalidOrderData);
}

#[test]
fn hidden_variant_outweighs_missing_stock() {
    // a variant failing both the visibility and the inventory checks is
    // reported as invalid order data: visibility is examined first
    let mut p = projection();
    p.product_variants[0].is_publicly_visible = false;
    let r = Mutation.create_order(
        &p,
        &input(),
        &uid(1),
        &cart(),
        &vec![],
        &no_discounts(),
        uid(0xA),
        &vec![uid(0xB)],
        0,
    );
    assert_eq!(r.err().unwrap(), OrderError::InvalidOrderData);
}

#[test]
fn missing_cart_item_is_invalid_order_data() {
    let r = Mutation.create_order(
        &projection(),
        &input(),
        &uid(1),
        &vec![],
        &stock(5),
        &no_discounts(),
        uid(0xA),
        &vec![uid(0xB)],
        0,
    );
    assert_eq!(r.err().unwrap(), OrderError::InvalidOrderData);
}

#[test]
fn missing_stock_entry_is_external_error() {
    let r = Mutation.create_order(
        &projection(),
        &input(),
        &uid(1),
        &cart(),
        &vec![],
        &no_discounts(),
        uid(0xA),
        &vec![uid(0xB)],
        0,
    );
    assert_eq!(r.err().unwrap(), OrderError::ExternalServiceError);
}

#[test]
fn missing_discount_entry_is_external_error() {
    let r = create(vec![], 5);
    assert_eq!(r.err().unwrap(), OrderError::ExternalServiceError);
}

#[test]
fn environment_drawn_create_and_place() {
    let created = Mutation
        .create_order_now(
            &projection(),
            &input(),
            &uid(1),
            &cart(),
            &stock(5),
            &no_discounts(),
        )
        .unwrap();
    assert_eq!(created.order_status, OrderStatus::Pending);
    assert_eq!(created.compensatable_order_amount, 1000);
    let (placed, outcome) = Mutation.place_order_now(created, &uid(1), None);
    assert!(outcome.is_ok());
    assert_eq!(placed.order_status, OrderStatus::Placed);
}
