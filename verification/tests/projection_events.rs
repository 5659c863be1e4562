//! The reference projection under inbound events, including redelivery.

use order_core::event_service::{
    bytes_eq, list_topic_subscriptions, on_id_creation_event,
    on_product_variant_update_event, on_product_variant_version_creation_event,
    on_tax_rate_version_creation_event, on_user_address_archived_event,
    on_user_address_creation_event, parse_visibility, ProductVariantVersionEventData,
    TaxRateVersionEventData, UpdateProductVariantEventData, UserAddressEventData, UuidEventData,
};
use order_core::ids::Uuid;
use order_core::projection::{ProjectionEvent, ProjectionState};

fn uid(lo: u64) -> Uuid {
    Uuid::new(0, lo)
}

#[test]
fn user_creation_is_idempotent() {
    let mut state = ProjectionState::new();
    state.apply_event(&ProjectionEvent::UserCreated { id: uid(1) });
    assert_eq!(state.users.len(), 1);
    state.apply_event(&ProjectionEvent::UserCreated { id: uid(1) });
    assert_eq!(state.users.len(), 1);
    assert_eq!(state.users[0]._id, uid(1));
    assert!(state.users[0].user_address_ids.is_empty());
}

#[test]
fn address_create_and_archive() {
    let mut state = ProjectionState::new();
    state.apply_event(&ProjectionEvent::UserCreated { id: uid(1) });
    state.apply_event(&ProjectionEvent::UserAddressCreated { id: uid(3), user_id: uid(1) });
    assert_eq!(state.users[0].user_address_ids, vec![uid(3)]);
    // redelivery appends nothing
    state.apply_event(&ProjectionEvent::UserAddressCreated { id: uid(3), user_id: uid(1) });
    assert_eq!(state.users[0].user_address_ids, vec![uid(3)]);
    state.apply_event(&ProjectionEvent::UserAddressArchived { id: uid(3), user_id: uid(1) });
    assert!(state.users[0].user_address_ids.is_empty());
    // archiving an absent address is a no-op
    state.apply_event(&ProjectionEvent::UserAddressArchived { id: uid(3), user_id: uid(1) });
    assert!(state.users[0].user_address_ids.is_empty());
}

#[test]
fn variant_version_rollover_and_visibility() {
    let mut state = ProjectionState::new();
    state.apply_event(&ProjectionEvent::ProductVariantVersionCreated {
        id: uid(0x20),
        retail_price: 1000,
        tax_rate_id: uid(7),
        product_variant_id: uid(2),
    });
    assert_eq!(state.product_variants.len(), 1);
    assert!(state.product_variants[0].is_publicly_visible);
    assert_eq!(state.product_variants[0].current_version._id, uid(0x20));
    // a later version rolls the pointer over, keeping visibility
    state.apply_event(&ProjectionEvent::ProductVariantUpdated {
        id: uid(2),
        is_publicly_visible: false,
    });
    state.apply_event(&ProjectionEvent::ProductVariantVersionCreated {
        id: uid(0x21),
        retail_price: 1100,
        tax_rate_id: uid(7),
        product_variant_id: uid(2),
    });
    assert_eq!(state.product_variants.len(), 1);
    assert_eq!(state.product_variants[0].current_version._id, uid(0x21));
    assert_eq!(state.product_variants[0].current_version.price, 1100);
    assert!(!state.product_variants[0].is_publicly_visible);
}

#[test]
fn tax_rate_version_upserts() {
    let mut state = ProjectionState::new();
    state.apply_event(&ProjectionEvent::TaxRateVersionCreated {
        id: uid(0x71),
        rate_ppm: 190_000,
        version: 1,
        tax_rate_id: uid(7),
    });
    assert_eq!(state.tax_rates.len(), 1);
    state.apply_event(&ProjectionEvent::TaxRateVersionCreated {
        id: uid(0x72),
        rate_ppm: 200_000,
        version: 2,
        tax_rate_id: uid(7),
    });
    assert_eq!(state.tax_rates.len(), 1);
    assert_eq!(state.tax_rates[0].current_version._id, uid(0x72));
    assert_eq!(state.tax_rates[0].current_version.rate_ppm, 200_000);
}

#[test]
fn id_creation_handler_routes_by_topic() {
    let mut state = ProjectionState::new();
    let data = UuidEventData { id: uid(9) };
    let ok = on_id_creation_event(&mut state, "discount/coupon/created", &data);
    assert_eq!(ok.unwrap().status, 0);
    assert_eq!(state.coupons.len(), 1);
    let ok = on_id_creation_event(&mut state, "shipment/shipment-method/created", &data);
    assert!(ok.is_ok());
    assert_eq!(state.shipment_methods.len(), 1);
    let ok = on_id_creation_event(&mut state, "user/user/created", &data);
    assert!(ok.is_ok());
    assert_eq!(state.users.len(), 1);
    let bad = on_id_creation_event(&mut state, "order/order/created", &data);
    assert!(bad.is_err());
}

#[test]
fn specific_handlers_check_their_topic() {
    let mut state = ProjectionState::new();
    let pvv = ProductVariantVersionEventData {
        id: uid(0x20),
        retail_price: 1000,
        tax_rate_id: uid(7),
        product_variant_id: uid(2),
    };
    assert!(on_product_variant_version_creation_event(
        &mut state,
        "catalog/product-variant-version/created",
        &pvv
    )
    .is_ok());
    assert!(on_product_variant_version_creation_event(&mut state, "nonsense", &pvv).is_err());
    let trv = TaxRateVersionEventData {
        id: uid(0x71),
        rate_ppm: 190_000,
        version: 1,
        tax_rate_id: uid(7),
    };
    assert!(on_tax_rate_version_creation_event(
        &mut state,
        "tax/tax-rate-version/created",
        &trv
    )
    .is_ok());
    let addr = UserAddressEventData { id: uid(3), user_id: uid(9) };
    assert!(on_user_address_creation_event(
        &mut state,
        "address/user-address/created",
        &addr
    )
    .is_ok());
    assert!(on_user_address_archived_event(
        &mut state,
        "address/user-address/archived",
        &addr
    )
    .is_ok());
    let upd = UpdateProductVariantEventData {
        id: uid(2),
        is_publicly_visible: b"False".to_vec(),
    };
    assert!(on_product_variant_update_event(
        &mut state,
        "catalog/product-variant/updated",
        &upd
    )
    .is_ok());
    let junk = UpdateProductVariantEventData {
        id: uid(2),
        is_publicly_visible: b"maybe".to_vec(),
    };
    assert!(on_product_variant_update_event(
        &mut state,
        "catalog/product-variant/updated",
        &junk
    )
    .is_err());
}

#[test]
fn visibility_text_is_parsed_case_insensitively() {
    assert_eq!(parse_visibility(&b"true".to_vec()), Some(true));
    assert_eq!(parse_visibility(&b"TRUE".to_vec()), Some(true));
    assert_eq!(parse_visibility(&b"True".to_vec()), Some(true));
    assert_eq!(parse_visibility(&b"false".to_vec()), Some(false));
    assert_eq!(parse_visibility(&b"FaLsE".to_vec()), Some(false));
    assert_eq!(parse_visibility(&b"yes".to_vec()), None);
    assert_eq!(parse_visibility(&b"".to_vec()), None);
}

#[test]
fn subscription_manifest_lists_every_topic() {
    let subs = list_topic_subscriptions();
    assert_eq!(subs.len(), 9);
    for sub in subs.iter() {
        assert_eq!(sub.pubsubname, "pubsub");
    }
    assert_eq!(subs[0].topic, "catalog/product-variant/updated");
    assert_eq!(subs[1].topic, "catalog/product-variant-version/created");
    assert_eq!(subs[2].topic, "discount/coupon/created");
    assert_eq!(subs[2].route, "/on-id-creation-event");
    assert_eq!(subs[3].topic, "tax/tax-rate-version/created");
    assert_eq!(subs[4].topic, "shipment/shipment-method/created");
    assert_eq!(subs[5].topic, "user/user/created");
    assert_eq!(subs[6].topic, "address/user-address/created");
    assert_eq!(subs[7].topic, "address/user-address/archived");
    assert_eq!(subs[8].topic, "shipment/shipment/creation-failed");
    assert_eq!(subs[8].route, "/on-shipment-creation-failed-event");
}

#[test]
fn byte_equality_compares_contents() {
    assert!(bytes_eq("user/user/created", "user/user/created"));
    assert!(!bytes_eq("user/user/created", "user/user/create"));
    assert!(!bytes_eq("a", "b"));
}
