//! Queries, authorization, DTO derivation and the small lookup tables.

use order_core::authentication::{authenticate_user, AuthorizedUserHeader};
use order_core::errors::OrderError;
use order_core::foreign_types::{
    Address, Discount, ProductVariant, ProductVariantVersion, ShipmentMethod, ShoppingCartItem,
    TaxRateVersion, User,
};
use order_core::ids::Uuid;
use order_core::order::{Order, OrderDTO, OrderStatus};
use order_core::order_datatypes::{
    CommonOrderField, CommonOrderInput, OrderDirection, OrderOrderField,
};
use order_core::order_item::{sort_discounts, OrderItem, OrderItemDTO};
use order_core::query::Query;

fn uid(lo: u64) -> Uuid {
    Uuid::new(0, lo)
}

fn item(id: u64, amount: u64) -> OrderItem {
    OrderItem {
        _id: uid(id),
        created_at: 5,
        product_variant: ProductVariant {
            _id: uid(0x100 + id),
            current_version: ProductVariantVersion {
                _id: uid(0x200 + id),
                price: amount as u32,
                tax_rate_id: uid(7),
            },
            is_publicly_visible: true,
        },
        product_variant_version: ProductVariantVersion {
            _id: uid(0x200 + id),
            price: amount as u32,
            tax_rate_id: uid(7),
        },
        tax_rate_version: TaxRateVersion {
            _id: uid(0x71),
            rate_ppm: 190_000,
            version: 1,
        },
        shopping_cart_item: ShoppingCartItem { _id: uid(0x300 + id) },
        count: 2,
        compensatable_amount: amount,
        shipment_method: ShipmentMethod { _id: uid(5) },
        internal_discounts: vec![Discount { _id: uid(0x30), factor_ppm: 500_000 }],
    }
}

fn placed_order() -> Order {
    Order {
        _id: uid(0xA),
        user: User {
            _id: uid(1),
            user_address_ids: vec![],
        },
        created_at: 0,
        order_status: OrderStatus::Placed,
        placed_at: Some(42),
        rejection_reason: None,
        internal_order_items: vec![item(0x11, 700)],
        shipment_address: Address { _id: uid(3) },
        invoice_address: Address { _id: uid(4) },
        compensatable_order_amount: 700,
        payment_information_id: uid(6),
        payment_authorization: None,
        vat_number: Some("DE123456789".to_string()),
    }
}

#[test]
fn order_query_checks_ownership() {
    let orders = vec![placed_order()];
    let found = Query.order(&orders, &uid(0xA), &uid(1)).unwrap();
    assert_eq!(found._id, uid(0xA));
    let denied = Query.order(&orders, &uid(0xA), &uid(2));
    assert_eq!(denied.err().unwrap(), OrderError::AuthDenied);
    let missing = Query.order(&orders, &uid(0xB), &uid(1));
    assert_eq!(missing.err().unwrap(), OrderError::NotFound);
}

#[test]
fn order_item_query_checks_containing_order() {
    let orders = vec![placed_order()];
    let found = Query.order_item(&orders, &uid(0x11), &uid(1)).unwrap();
    assert_eq!(found._id, uid(0x11));
    let denied = Query.order_item(&orders, &uid(0x11), &uid(2));
    assert_eq!(denied.err().unwrap(), OrderError::AuthDenied);
    let missing = Query.order_item(&orders, &uid(0x99), &uid(1));
    assert_eq!(missing.err().unwrap(), OrderError::NotFound);
}

#[test]
fn listing_orders_is_owner_gated() {
    let mut other = placed_order();
    other._id = uid(0xB);
    other.user._id = uid(2);
    let orders = vec![placed_order(), other];
    let own = Query.list_user_orders(&orders, &uid(1), &uid(1)).unwrap();
    assert_eq!(own.len(), 1);
    assert_eq!(own[0]._id, uid(0xA));
    let none_owned = Query.list_user_orders(&orders, &uid(3), &uid(3)).unwrap();
    assert!(none_owned.is_empty());
    let denied = Query.list_user_orders(&orders, &uid(1), &uid(2));
    assert_eq!(denied.err().unwrap(), OrderError::AuthDenied);
}

#[test]
fn authentication_gate_is_owner_equality() {
    let header = AuthorizedUserHeader { user_id: uid(1) };
    assert!(authenticate_user(&header, &uid(1)).is_ok());
    assert_eq!(
        authenticate_user(&header, &uid(2)).err().unwrap(),
        OrderError::AuthDenied
    );
}

#[test]
fn order_dto_preserves_every_field() {
    let order = placed_order();
    let dto = OrderDTO::from_order(&order).unwrap();
    assert_eq!(dto.id, uid(0xA));
    assert_eq!(dto.user_id, uid(1));
    assert_eq!(dto.created_at, 0);
    assert_eq!(dto.order_status, OrderStatus::Placed);
    assert_eq!(dto.placed_at, 42);
    assert!(dto.rejection_reason.is_none());
    assert_eq!(dto.shipment_address_id, uid(3));
    assert_eq!(dto.invoice_address_id, uid(4));
    assert_eq!(dto.compensatable_order_amount, 700);
    assert_eq!(dto.payment_information_id, uid(6));
    assert_eq!(dto.vat_number, Some("DE123456789".to_string()));
    assert_eq!(dto.order_items.len(), 1);
    let line = &dto.order_items[0];
    assert_eq!(line.id, uid(0x11));
    assert_eq!(line.created_at, 5);
    assert_eq!(line.product_variant_id, uid(0x111));
    assert_eq!(line.product_variant_version_id, uid(0x211));
    assert_eq!(line.tax_rate_version_id, uid(0x71));
    assert_eq!(line.shopping_cart_item_id, uid(0x311));
    assert_eq!(line.count, 2);
    assert_eq!(line.compensatable_amount, 700);
    assert_eq!(line.shipment_method_id, uid(5));
    assert_eq!(line.discount_ids, vec![uid(0x30)]);
}

#[test]
fn order_dto_needs_a_placement_timestamp() {
    let mut pending = placed_order();
    pending.order_status = OrderStatus::Pending;
    pending.placed_at = None;
    let r = OrderDTO::from_order(&pending);
    assert!(r.is_err());
}

#[test]
fn item_dto_matches_item() {
    let it = item(0x11, 700);
    let dto = OrderItemDTO::from_item(&it);
    assert_eq!(dto.id, it._id);
    assert_eq!(dto.compensatable_amount, 700);
    assert_eq!(dto.discount_ids, vec![uid(0x30)]);
}

#[test]
fn discount_sorting_follows_the_direction() {
    let a = Discount { _id: uid(1), factor_ppm: 1 };
    let b = Discount { _id: uid(2), factor_ppm: 2 };
    let c = Discount { _id: uid(3), factor_ppm: 3 };
    let unsorted = vec![b, c, a];
    let asc = sort_discounts(&unsorted, &None);
    assert_eq!(asc[0]._id, uid(1));
    assert_eq!(asc[1]._id, uid(2));
    assert_eq!(asc[2]._id, uid(3));
    let desc_input = Some(CommonOrderInput {
        direction: Some(OrderDirection::Desc),
        field: Some(CommonOrderField::Id),
    });
    let desc = sort_discounts(&unsorted, &desc_input);
    assert_eq!(desc[0]._id, uid(3));
    assert_eq!(desc[2]._id, uid(1));
}

#[test]
fn status_and_field_names_are_stable() {
    assert_eq!(OrderStatus::Pending.as_str(), "PENDING");
    assert_eq!(OrderStatus::Placed.as_str(), "PLACED");
    assert_eq!(OrderStatus::Rejected.as_str(), "REJECTED");
    assert_eq!(OrderOrderField::Id.as_str(), "_id");
    assert_eq!(OrderOrderField::UserId.as_str(), "user._id");
    assert_eq!(OrderOrderField::CreatedAt.as_str(), "created_at");
    assert_eq!(CommonOrderField::Id.as_str(), "_id");
    assert_eq!(OrderDirection::Asc.to_i32(), 1);
    assert_eq!(OrderDirection::Desc.to_i32(), -1);
}

#[test]
fn error_kind_names_are_stable() {
    assert_eq!(OrderError::AuthDenied.kind_name(), "auth_denied");
    assert_eq!(OrderError::NotFound.kind_name(), "not_found");
    assert_eq!(OrderError::InvalidOrderData.kind_name(), "invalid_order_data");
    assert_eq!(
        OrderError::InventoryReservationFailed.kind_name(),
        "inventory_reservation_failed"
    );
    assert_eq!(OrderError::TimeoutRejected.kind_name(), "timeout_rejected");
    assert_eq!(
        OrderError::AlreadyCompensated.kind_name(),
        "already_compensated"
    );
    assert_eq!(
        OrderError::ExternalServiceError.kind_name(),
        "external_service_error"
    );
    assert_eq!(OrderError::StorageError.kind_name(), "storage_error");
}
