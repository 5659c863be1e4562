//! The compensation engine on concrete values.

use order_core::errors::OrderError;
use order_core::event_service::on_shipment_creation_failed_event;
use order_core::foreign_types::{
    Address, ProductVariant, ProductVariantVersion, ShipmentMethod, ShoppingCartItem,
    TaxRateVersion, User,
};
use order_core::ids::Uuid;
use order_core::order::{Order, OrderStatus};
use order_core::order_compensation::{
    compensate_order, verify_items_uncompensated, ShipmentFailedEventData,
};
use order_core::order_item::OrderItem;

fn uid(lo: u64) -> Uuid {
    Uuid::new(0, lo)
}

fn item(id: u64, amount: u64) -> OrderItem {
    OrderItem {
        _id: uid(id),
        created_at: 0,
        product_variant: ProductVariant {
            _id: uid(0x100 + id),
            current_version: ProductVariantVersion {
                _id: uid(0x200 + id),
                price: amount as u32,
                tax_rate_id: uid(7),
            },
            is_publicly_visible: true,
        },
        product_variant_version: ProductVariantVersion {
            _id: uid(0x200 + id),
            price: amount as u32,
            tax_rate_id: uid(7),
        },
        tax_rate_version: TaxRateVersion {
            _id: uid(0x71),
            rate_ppm: 190_000,
            version: 1,
        },
        shopping_cart_item: ShoppingCartItem { _id: uid(0x300 + id) },
        count: 1,
        compensatable_amount: amount,
        shipment_method: ShipmentMethod { _id: uid(5) },
        internal_discounts: vec![],
    }
}

fn placed_order() -> Order {
    Order {
        _id: uid(0xA),
        user: User {
            _id: uid(1),
            user_address_ids: vec![],
        },
        created_at: 0,
        order_status: OrderStatus::Placed,
        placed_at: Some(10),
        rejection_reason: None,
        internal_order_items: vec![item(0x11, 700), item(0x12, 300)],
        shipment_address: Address { _id: uid(3) },
        invoice_address: Address { _id: uid(3) },
        compensatable_order_amount: 1000,
        payment_information_id: uid(4),
        payment_authorization: None,
        vat_number: None,
    }
}

#[test]
fn first_compensation_succeeds() {
    let order = placed_order();
    let data = ShipmentFailedEventData {
        order_id: uid(0xA),
        order_item_ids: vec![uid(0x11)],
    };
    let c = compensate_order(Some(&order), &vec![], &data, uid(0xC1), 20).unwrap();
    assert_eq!(c._id, uid(0xC1));
    assert_eq!(c.order_id, uid(0xA));
    assert_eq!(c.order_item_ids, vec![uid(0x11)]);
    assert_eq!(c.triggered_at, 20);
    assert_eq!(c.amount_to_compensate, 700);
}

#[test]
fn double_compensation_is_refused() {
    let order = placed_order();
    let first = ShipmentFailedEventData {
        order_id: uid(0xA),
        order_item_ids: vec![uid(0x11)],
    };
    let c1 = compensate_order(Some(&order), &vec![], &first, uid(0xC1), 20).unwrap();
    let second = ShipmentFailedEventData {
        order_id: uid(0xA),
        order_item_ids: vec![uid(0x11), uid(0x12)],
    };
    let r = compensate_order(Some(&order), &vec![c1], &second, uid(0xC2), 30);
    assert_eq!(r.err().unwrap(), OrderError::AlreadyCompensated);
}

#[test]
fn disjoint_compensation_still_succeeds() {
    let order = placed_order();
    let first = ShipmentFailedEventData {
        order_id: uid(0xA),
        order_item_ids: vec![uid(0x11)],
    };
    let c1 = compensate_order(Some(&order), &vec![], &first, uid(0xC1), 20).unwrap();
    let second = ShipmentFailedEventData {
        order_id: uid(0xA),
        order_item_ids: vec![uid(0x12)],
    };
    let c2 = compensate_order(Some(&order), &vec![c1], &second, uid(0xC2), 30).unwrap();
    assert_eq!(c2.amount_to_compensate, 300);
}

#[test]
fn empty_item_list_is_trivially_accepted() {
    let order = placed_order();
    let data = ShipmentFailedEventData {
        order_id: uid(0xA),
        order_item_ids: vec![],
    };
    let c = compensate_order(Some(&order), &vec![], &data, uid(0xC1), 20).unwrap();
    assert_eq!(c.amount_to_compensate, 0);
}

#[test]
fn shipment_failure_handler_checks_its_topic() {
    let order = placed_order();
    let data = ShipmentFailedEventData {
        order_id: uid(0xA),
        order_item_ids: vec![uid(0x11)],
    };
    let ok = on_shipment_creation_failed_event(
        Some(&order),
        &vec![],
        "shipment/shipment/creation-failed",
        &data,
        uid(0xC1),
        20,
    );
    let (response, compensation) = ok.unwrap();
    assert_eq!(response.status, 0);
    assert_eq!(compensation.amount_to_compensate, 700);
    let wrong_topic = on_shipment_creation_failed_event(
        Some(&order),
        &vec![],
        "shipment/shipment/created",
        &data,
        uid(0xC1),
        20,
    );
    assert_eq!(wrong_topic.err().unwrap(), OrderError::ExternalServiceError);
    let missing = on_shipment_creation_failed_event(
        None,
        &vec![],
        "shipment/shipment/creation-failed",
        &data,
        uid(0xC1),
        20,
    );
    assert_eq!(missing.err().unwrap(), OrderError::NotFound);
}

#[test]
fn missing_order_is_not_found() {
    let data = ShipmentFailedEventData {
        order_id: uid(0xA),
        order_item_ids: vec![uid(0x11)],
    };
    let r = compensate_order(None, &vec![], &data, uid(0xC1), 20);
    assert_eq!(r.err().unwrap(), OrderError::NotFound);
}

#[test]
fn uncompensated_check_sees_cross_order_records() {
    let order = placed_order();
    let data = ShipmentFailedEventData {
        order_id: uid(0xA),
        order_item_ids: vec![uid(0x11)],
    };
    let c1 = compensate_order(Some(&order), &vec![], &data, uid(0xC1), 20).unwrap();
    // the record blocks the item id under any order id
    assert!(verify_items_uncompensated(&vec![c1], &vec![uid(0x11)]).is_err());
    let c1b = compensate_order(Some(&order), &vec![], &data, uid(0xC1), 20).unwrap();
    assert!(verify_items_uncompensated(&vec![c1b], &vec![uid(0x13)]).is_ok());
}
