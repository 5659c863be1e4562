//! Encoding then decoding event payloads yields the original values.

use order_core::codec::{
    decode_product_variant_version_event, decode_shipment_failed_event,
    decode_tax_rate_version_event, decode_update_product_variant_event, decode_user_address_event,
    decode_uuid_event, encode_product_variant_version_event, encode_shipment_failed_event,
    encode_tax_rate_version_event, encode_update_product_variant_event,
    encode_user_address_event, encode_uuid_event,
};
use order_core::event_service::{
    ProductVariantVersionEventData, TaxRateVersionEventData, UpdateProductVariantEventData,
    UserAddressEventData, UuidEventData,
};
use order_core::ids::{parse_uuid_text, uuid_text, Uuid};
use order_core::order_compensation::ShipmentFailedEventData;

fn uid(hi: u64, lo: u64) -> Uuid {
    Uuid::new(hi, lo)
}

#[test]
fn uuid_text_is_hyphenated_lowercase() {
    let u = uid(0x0123456789abcdef, 0xfedcba9876543210);
    let text = uuid_text(&u);
    assert_eq!(
        String::from_utf8(text).unwrap(),
        "01234567-89ab-cdef-fedc-ba9876543210"
    );
    let zero = uid(0, 0);
    assert_eq!(
        String::from_utf8(uuid_text(&zero)).unwrap(),
        "00000000-0000-0000-0000-000000000000"
    );
}

#[test]
fn uuid_text_round_trips() {
    let u = uid(0x0123456789abcdef, 0xfedcba9876543210);
    let text = uuid_text(&u);
    assert_eq!(parse_uuid_text(&text, 0), Some(u));
    // uppercase digits are not canonical and are refused
    let upper = b"01234567-89AB-CDEF-FEDC-BA9876543210".to_vec();
    assert_eq!(parse_uuid_text(&upper, 0), None);
}

#[test]
fn uuid_event_round_trips() {
    let d = UuidEventData { id: uid(0, 9) };
    let bytes = encode_uuid_event(&d);
    assert_eq!(
        String::from_utf8(bytes.clone()).unwrap(),
        "{\"id\":\"00000000-0000-0000-0000-000000000009\"}"
    );
    assert_eq!(decode_uuid_event(&bytes), Some(d));
    // a corrupted byte is refused
    let mut bad = bytes.clone();
    bad[0] = b'[';
    assert_eq!(decode_uuid_event(&bad), None);
}

#[test]
fn user_address_event_round_trips() {
    let d = UserAddressEventData {
        id: uid(1, 3),
        user_id: uid(2, 1),
    };
    let bytes = encode_user_address_event(&d);
    assert_eq!(decode_user_address_event(&bytes), Some(d));
}

#[test]
fn product_variant_version_event_round_trips() {
    let d = ProductVariantVersionEventData {
        id: uid(0, 0x20),
        retail_price: 1000,
        tax_rate_id: uid(0, 7),
        product_variant_id: uid(0, 2),
    };
    let bytes = encode_product_variant_version_event(&d);
    let text = String::from_utf8(bytes.clone()).unwrap();
    assert!(text.contains("\"retailPrice\":0000001000,"));
    assert_eq!(decode_product_variant_version_event(&bytes), Some(d));
}

#[test]
fn tax_rate_version_event_round_trips() {
    let d = TaxRateVersionEventData {
        id: uid(0, 0x71),
        rate_ppm: 190_000,
        version: 3,
        tax_rate_id: uid(0, 7),
    };
    let bytes = encode_tax_rate_version_event(&d);
    assert_eq!(decode_tax_rate_version_event(&bytes), Some(d));
}

#[test]
fn update_product_variant_event_round_trips() {
    let d = UpdateProductVariantEventData {
        id: uid(0, 2),
        is_publicly_visible: b"true".to_vec(),
    };
    let bytes = encode_update_product_variant_event(&d);
    let decoded = decode_update_product_variant_event(&bytes).unwrap();
    assert_eq!(decoded.id, d.id);
    assert_eq!(decoded.is_publicly_visible, d.is_publicly_visible);
}

#[test]
fn shipment_failed_event_round_trips() {
    let d = ShipmentFailedEventData {
        order_id: uid(0, 0xA),
        order_item_ids: vec![uid(0, 0x11), uid(0, 0x12)],
    };
    let bytes = encode_shipment_failed_event(&d);
    let decoded = decode_shipment_failed_event(&bytes).unwrap();
    assert_eq!(decoded.order_id, d.order_id);
    assert_eq!(decoded.order_item_ids, d.order_item_ids);

    let empty = ShipmentFailedEventData {
        order_id: uid(0, 0xA),
        order_item_ids: vec![],
    };
    let bytes = encode_shipment_failed_event(&empty);
    let decoded = decode_shipment_failed_event(&bytes).unwrap();
    assert!(decoded.order_item_ids.is_empty());

    let one = ShipmentFailedEventData {
        order_id: uid(0, 0xA),
        order_item_ids: vec![uid(0, 0x11)],
    };
    let bytes = encode_shipment_failed_event(&one);
    let decoded = decode_shipment_failed_event(&bytes).unwrap();
    assert_eq!(decoded.order_item_ids, vec![uid(0, 0x11)]);
}
