//! The inbound event endpoints: the subscription manifest, the event
//! envelope and payload shapes, and one handler per routed topic. Each
//! handler applies its event to the projection exactly as the spec-level
//! transition says, and refuses a topic it does not serve so the broker
//! redelivers.

use crate::errors::OrderError;
use crate::ids::Uuid;
use crate::projection::{spec_apply, ProjectionEvent, ProjectionState};
use vstd::string::StringSliceAdditionalSpecFns;
use vstd::prelude::*;

verus! {

/// One subscription: the broker routes the topic to the given route.
#[derive(Clone, Debug)]
pub struct Pubsub {
    /// Name of the pub/sub component.
    pub pubsubname: String,
    /// Topic to subscribe to.
    pub topic: String,
    /// Delivery route for the topic.
    pub route: String,
}

/// The reply to a delivered event; status zero acknowledges it.
#[derive(Clone, Copy, PartialEq, Eq, Structural, Debug)]
pub struct TopicEventResponse {
    /// Zero for success; anything else asks for redelivery.
    pub status: u8,
}

impl TopicEventResponse {
    /// The acknowledging response.
    pub fn ok() -> (r: TopicEventResponse)
        ensures
            r.status == 0,
    {
        TopicEventResponse { status: 0 }
    }
}

/// An inbound event envelope: the topic and the topic-specific payload.
#[derive(Clone, Debug)]
pub struct Event<T> {
    /// The topic the event was published on.
    pub topic: String,
    /// The payload.
    pub data: T,
}

/// Payload of the creation events that carry only an id: coupons, shipment
/// methods and users.
#[derive(Clone, Copy, PartialEq, Eq, Structural, Debug)]
pub struct UuidEventData {
    /// UUID of the created entity.
    pub id: Uuid,
}

/// Payload of `catalog/product-variant-version/created`.
#[derive(Clone, Copy, PartialEq, Eq, Structural, Debug)]
pub struct ProductVariantVersionEventData {
    /// UUID of the product variant version.
    pub id: Uuid,
    /// Retail price in minor currency units.
    pub retail_price: u32,
    /// UUID of the tax rate of the version.
    pub tax_rate_id: Uuid,
    /// UUID of the owning product variant.
    pub product_variant_id: Uuid,
}

/// Payload of `tax/tax-rate-version/created`. The rate is held in parts
/// per million.
#[derive(Clone, Copy, PartialEq, Eq, Structural, Debug)]
pub struct TaxRateVersionEventData {
    /// UUID of the tax rate version.
    pub id: Uuid,
    /// Rate in parts per million.
    pub rate_ppm: u64,
    /// Monotonically increasing version number.
    pub version: u32,
    /// UUID of the owning tax rate.
    pub tax_rate_id: Uuid,
}

/// Payload of the user-address created and archived events.
#[derive(Clone, Copy, PartialEq, Eq, Structural, Debug)]
pub struct UserAddressEventData {
    /// UUID of the user address.
    pub id: Uuid,
    /// UUID of the owning user.
    pub user_id: Uuid,
}

/// Payload of `catalog/product-variant/updated`. The visibility arrives as
/// text on the wire and is parsed case-insensitively.
#[derive(Clone, Debug)]
pub struct UpdateProductVariantEventData {
    /// UUID of the product variant to update.
    pub id: Uuid,
    /// New visibility, as the wire carries it: the bytes of `true` or
    /// `false` in any casing.
    pub is_publicly_visible: Vec<u8>,
}

/// Payload of `shipment/shipment/status-updated`.
#[derive(Clone, Debug)]
pub struct ShipmentStatusUpdatedEventData {
    /// UUID of the order of the shipment.
    pub order_id: Uuid,
    /// UUIDs of the order items of the shipment.
    pub order_item_ids: Vec<Uuid>,
    /// New status of the shipment.
    pub status: ShipmentStatus,
}

/// Status of a shipment, as shipment events report it.
#[derive(Clone, Copy, PartialEq, Eq, Structural, Debug)]
pub enum ShipmentStatus {
    /// The shipment is not yet under way.
    Pending,
    /// The shipment is under way.
    InProgress,
    /// The shipment arrived.
    Delivered,
    /// The shipment failed.
    Failed,
}

/// Whether two strings hold the same bytes.
pub fn bytes_eq(a: &str, b: &str) -> (r: bool)
    ensures
        r == (a.spec_bytes() == b.spec_bytes()),
{
    let ab = a.as_bytes();
    let bb = b.as_bytes();
    if ab.len() != bb.len() {
        return false;
    }
    let n = ab.len();
    let mut i: usize = 0;
    while i < n
        invariant
            i <= n,
            n == ab@.len(),
            ab@ == a.spec_bytes(),
            bb@ == b.spec_bytes(),
            ab@.len() == bb@.len(),
            forall|j: int| 0 <= j < i ==> ab@[j] == bb@[j],
        decreases n - i,
    {
        if ab[i] != bb[i] {
            return false;
        }
        i = i + 1;
    }
    proof {
        assert(ab@ =~= bb@);
    }
    true
}

/// The subscription manifest: every topic this service handles, with its
/// delivery route.
pub fn list_topic_subscriptions() -> (r: Vec<Pubsub>)
    ensures
        r@.len() == 9,
        forall|i: int| 0 <= i < r@.len() ==> (#[trigger] r@[i].pubsubname)@ == "pubsub"@,
        r@[0].topic@ == "catalog/product-variant/updated"@,
        r@[0].route@ == "/on-product-variant-updated-event"@,
        r@[1].topic@ == "catalog/product-variant-version/created"@,
        r@[1].route@ == "/on-product-variant-version-creation-event"@,
        r@[2].topic@ == "discount/coupon/created"@,
        r@[2].route@ == "/on-id-creation-event"@,
        r@[3].topic@ == "tax/tax-rate-version/created"@,
        r@[3].route@ == "/on-tax-rate-version-creation-event"@,
        r@[4].topic@ == "shipment/shipment-method/created"@,
        r@[4].route@ == "/on-id-creation-event"@,
        r@[5].topic@ == "user/user/created"@,
        r@[5].route@ == "/on-id-creation-event"@,
        r@[6].topic@ == "address/user-address/created"@,
        r@[6].route@ == "/on-user-address-creation-event"@,
        r@[7].topic@ == "address/user-address/archived"@,
        r@[7].route@ == "/on-user-address-archived-event"@,
        r@[8].topic@ == "shipment/shipment/creation-failed"@,
        r@[8].route@ == "/on-shipment-creation-failed-event"@,
{
    let mut subscriptions: Vec<Pubsub> = Vec::new();
    subscriptions.push(
        Pubsub {
            pubsubname: "pubsub".to_owned(),
            topic: "catalog/product-variant/updated".to_owned(),
            route: "/on-product-variant-updated-event".to_owned(),
        },
    );
    subscriptions.push(
        Pubsub {
            pubsubname: "pubsub".to_owned(),
            topic: "catalog/product-variant-version/created".to_owned(),
            route: "/on-product-variant-version-creation-event".to_owned(),
        },
    );
    subscriptions.push(
        Pubsub {
            pubsubname: "pubsub".to_owned(),
            topic: "discount/coupon/created".to_owned(),
            route: "/on-id-creation-event".to_owned(),
        },
    );
    subscriptions.push(
        Pubsub {
            pubsubname: "pubsub".to_owned(),
            topic: "tax/tax-rate-version/created".to_owned(),
            route: "/on-tax-rate-version-creation-event".to_owned(),
        },
    );
    subscriptions.push(
        Pubsub {
            pubsubname: "pubsub".to_owned(),
            topic: "shipment/shipment-method/created".to_owned(),
            route: "/on-id-creation-event".to_owned(),
        },
    );
    subscriptions.push(
        Pubsub {
            pubsubname: "pubsub".to_owned(),
            topic: "user/user/created".to_owned(),
            route: "/on-id-creation-event".to_owned(),
        },
    );
    subscriptions.push(
        Pubsub {
            pubsubname: "pubsub".to_owned(),
            topic: "address/user-address/created".to_owned(),
            route: "/on-user-address-creation-event".to_owned(),
        },
    );
    subscriptions.push(
        Pubsub {
            pubsubname: "pubsub".to_owned(),
            topic: "address/user-address/archived".to_owned(),
            route: "/on-user-address-archived-event".to_owned(),
        },
    );
    subscriptions.push(
        Pubsub {
            pubsubname: "pubsub".to_owned(),
            topic: "shipment/shipment/creation-failed".to_owned(),
            route: "/on-shipment-creation-failed-event".to_owned(),
        },
    );
    subscriptions
}

/// Which id-only creation event a topic denotes, in the order the handler
/// tests the topics.
pub open spec fn id_creation_event_of(topic: &str, id: Uuid) -> ProjectionEvent {
    if topic.spec_bytes() == "discount/coupon/created".spec_bytes() {
        ProjectionEvent::CouponCreated { id }
    } else if topic.spec_bytes() == "shipment/shipment-method/created".spec_bytes() {
        ProjectionEvent::ShipmentMethodCreated { id }
    } else {
        ProjectionEvent::UserCreated { id }
    }
}

/// Handles the id-only creation events: coupons, shipment methods and
/// users. An unrecognized topic is refused so the broker redelivers.
pub fn on_id_creation_event(
    state: &mut ProjectionState,
    topic: &str,
    data: &UuidEventData,
) -> (r: Result<TopicEventResponse, OrderError>)
    requires
        old(state).wf(),
    ensures
        final(state).wf(),
        r.is_ok() <==> (topic.spec_bytes() == "discount/coupon/created".spec_bytes()
            || topic.spec_bytes() == "shipment/shipment-method/created".spec_bytes()
            || topic.spec_bytes() == "user/user/created".spec_bytes()),
        r matches Ok(resp) ==> resp.status == 0,
        r is Err ==> r == Result::<TopicEventResponse, OrderError>::Err(
            OrderError::ExternalServiceError,
        ) && final(state)@ == old(state)@,
        r.is_ok() ==> final(state)@ == spec_apply(
            old(state)@,
            id_creation_event_of(topic, data.id),
        ),
{
    if bytes_eq(topic, "discount/coupon/created") {
        state.apply_event(&ProjectionEvent::CouponCreated { id: data.id });
        Ok(TopicEventResponse::ok())
    } else if bytes_eq(topic, "shipment/shipment-method/created") {
        state.apply_event(&ProjectionEvent::ShipmentMethodCreated { id: data.id });
        Ok(TopicEventResponse::ok())
    } else if bytes_eq(topic, "user/user/created") {
        state.apply_event(&ProjectionEvent::UserCreated { id: data.id });
        Ok(TopicEventResponse::ok())
    } else {
        Err(OrderError::ExternalServiceError)
    }
}

/// Handles `catalog/product-variant-version/created`.
pub fn on_product_variant_version_creation_event(
    state: &mut ProjectionState,
    topic: &str,
    data: &ProductVariantVersionEventData,
) -> (r: Result<TopicEventResponse, OrderError>)
    requires
        old(state).wf(),
    ensures
        final(state).wf(),
        r.is_ok() <==> topic.spec_bytes() == "catalog/product-variant-version/created".spec_bytes(),
        r matches Ok(resp) ==> resp.status == 0,
        r is Err ==> r == Result::<TopicEventResponse, OrderError>::Err(
            OrderError::ExternalServiceError,
        ) && final(state)@ == old(state)@,
        r.is_ok() ==> final(state)@ == spec_apply(
            old(state)@,
            ProjectionEvent::ProductVariantVersionCreated {
                id: data.id,
                retail_price: data.retail_price,
                tax_rate_id: data.tax_rate_id,
                product_variant_id: data.product_variant_id,
            },
        ),
{
    if bytes_eq(topic, "catalog/product-variant-version/created") {
        state.apply_event(
            &ProjectionEvent::ProductVariantVersionCreated {
                id: data.id,
                retail_price: data.retail_price,
                tax_rate_id: data.tax_rate_id,
                product_variant_id: data.product_variant_id,
            },
        );
        Ok(TopicEventResponse::ok())
    } else {
        Err(OrderError::ExternalServiceError)
    }
}

/// `true` in any casing.
pub open spec fn spells_true(s: Seq<u8>) -> bool {
    s.len() == 4 && (s[0] == 116u8 || s[0] == 84u8) && (s[1] == 114u8 || s[1] == 82u8) && (s[2]
        == 117u8 || s[2] == 85u8) && (s[3] == 101u8 || s[3] == 69u8)
}

/// `false` in any casing.
pub open spec fn spells_false(s: Seq<u8>) -> bool {
    s.len() == 5 && (s[0] == 102u8 || s[0] == 70u8) && (s[1] == 97u8 || s[1] == 65u8) && (s[2]
        == 108u8 || s[2] == 76u8) && (s[3] == 115u8 || s[3] == 83u8) && (s[4] == 101u8 || s[4]
        == 69u8)
}

/// Parses the wire form of the visibility flag: `true` or `false`,
/// case-insensitively; anything else is refused.
pub fn parse_visibility(b: &Vec<u8>) -> (r: Option<bool>)
    ensures
        r == Some(true) <==> spells_true(b@),
        r == Some(false) <==> spells_false(b@),
        r is None <==> !spells_true(b@) && !spells_false(b@),
{
    if b.len() == 4 {
        if (b[0] == 116 || b[0] == 84) && (b[1] == 114 || b[1] == 82) && (b[2] == 117 || b[2]
            == 85) && (b[3] == 101 || b[3] == 69) {
            return Some(true);
        }
        None
    } else if b.len() == 5 {
        if (b[0] == 102 || b[0] == 70) && (b[1] == 97 || b[1] == 65) && (b[2] == 108 || b[2] == 76)
            && (b[3] == 115 || b[3] == 83) && (b[4] == 101 || b[4] == 69) {
            return Some(false);
        }
        None
    } else {
        None
    }
}

/// Handles `catalog/product-variant/updated`. A visibility value that is
/// neither `true` nor `false` is refused.
pub fn on_product_variant_update_event(
    state: &mut ProjectionState,
    topic: &str,
    data: &UpdateProductVariantEventData,
) -> (r: Result<TopicEventResponse, OrderError>)
    requires
        old(state).wf(),
    ensures
        final(state).wf(),
        r.is_ok() <==> topic.spec_bytes() == "catalog/product-variant/updated".spec_bytes() && (
        spells_true(data.is_publicly_visible@) || spells_false(data.is_publicly_visible@)),
        r matches Ok(resp) ==> resp.status == 0,
        r is Err ==> r == Result::<TopicEventResponse, OrderError>::Err(
            OrderError::ExternalServiceError,
        ) && final(state)@ == old(state)@,
        r.is_ok() ==> final(state)@ == spec_apply(
            old(state)@,
            ProjectionEvent::ProductVariantUpdated {
                id: data.id,
                is_publicly_visible: spells_true(data.is_publicly_visible@),
            },
        ),
{
    if bytes_eq(topic, "catalog/product-variant/updated") {
        match parse_visibility(&data.is_publicly_visible) {
            Some(visible) => {
                state.apply_event(
                    &ProjectionEvent::ProductVariantUpdated {
                        id: data.id,
                        is_publicly_visible: visible,
                    },
                );
                Ok(TopicEventResponse::ok())
            },
            None => Err(OrderError::ExternalServiceError),
        }
    } else {
        Err(OrderError::ExternalServiceError)
    }
}

/// Handles `tax/tax-rate-version/created`.
pub fn on_tax_rate_version_creation_event(
    state: &mut ProjectionState,
    topic: &str,
    data: &TaxRateVersionEventData,
) -> (r: Result<TopicEventResponse, OrderError>)
    requires
        old(state).wf(),
    ensures
        final(state).wf(),
        r.is_ok() <==> topic.spec_bytes() == "tax/tax-rate-version/created".spec_bytes(),
        r matches Ok(resp) ==> resp.status == 0,
        r is Err ==> r == Result::<TopicEventResponse, OrderError>::Err(
            OrderError::ExternalServiceError,
        ) && final(state)@ == old(state)@,
        r.is_ok() ==> final(state)@ == spec_apply(
            old(state)@,
            ProjectionEvent::TaxRateVersionCreated {
                id: data.id,
                rate_ppm: data.rate_ppm,
                version: data.version,
                tax_rate_id: data.tax_rate_id,
            },
        ),
{
    if bytes_eq(topic, "tax/tax-rate-version/created") {
        state.apply_event(
            &ProjectionEvent::TaxRateVersionCreated {
                id: data.id,
                rate_ppm: data.rate_ppm,
                version: data.version,
                tax_rate_id: data.tax_rate_id,
            },
        );
        Ok(TopicEventResponse::ok())
    } else {
        Err(OrderError::ExternalServiceError)
    }
}

/// Handles `address/user-address/created`.
pub fn on_user_address_creation_event(
    state: &mut ProjectionState,
    topic: &str,
    data: &UserAddressEventData,
) -> (r: Result<TopicEventResponse, OrderError>)
    requires
        old(state).wf(),
    ensures
        final(state).wf(),
        r.is_ok() <==> topic.spec_bytes() == "address/user-address/created".spec_bytes(),
        r matches Ok(resp) ==> resp.status == 0,
        r is Err ==> r == Result::<TopicEventResponse, OrderError>::Err(
            OrderError::ExternalServiceError,
        ) && final(state)@ == old(state)@,
        r.is_ok() ==> final(state)@ == spec_apply(
            old(state)@,
            ProjectionEvent::UserAddressCreated { id: data.id, user_id: data.user_id },
        ),
{
    if bytes_eq(topic, "address/user-address/created") {
        state.apply_event(&ProjectionEvent::UserAddressCreated { id: data.id, user_id: data.user_id });
        Ok(TopicEventResponse::ok())
    } else {
        Err(OrderError::ExternalServiceError)
    }
}

/// Handles `address/user-address/archived`.
pub fn on_user_address_archived_event(
    state: &mut ProjectionState,
    topic: &str,
    data: &UserAddressEventData,
) -> (r: Result<TopicEventResponse, OrderError>)
    requires
        old(state).wf(),
    ensures
        final(state).wf(),
        r.is_ok() <==> topic.spec_bytes() == "address/user-address/archived".spec_bytes(),
        r matches Ok(resp) ==> resp.status == 0,
        r is Err ==> r == Result::<TopicEventResponse, OrderError>::Err(
            OrderError::ExternalServiceError,
        ) && final(state)@ == old(state)@,
        r.is_ok() ==> final(state)@ == spec_apply(
            old(state)@,
            ProjectionEvent::UserAddressArchived { id: data.id, user_id: data.user_id },
        ),
{
    if bytes_eq(topic, "address/user-address/archived") {
        state.apply_event(
            &ProjectionEvent::UserAddressArchived { id: data.id, user_id: data.user_id },
        );
        Ok(TopicEventResponse::ok())
    } else {
        Err(OrderError::ExternalServiceError)
    }
}

/// Handles `shipment/shipment/creation-failed`: verifies and computes the
/// compensation for the failed items. The caller looks the order and the
/// existing compensation records up, and persists and publishes the
/// returned record. An unrecognized topic is refused so the broker
/// redelivers; the order's status is never altered.
pub fn on_shipment_creation_failed_event(
    maybe_order: Option<&crate::order::Order>,
    compensations: &Vec<crate::order_compensation::OrderCompensation>,
    topic: &str,
    data: &crate::order_compensation::ShipmentFailedEventData,
    fresh_id: Uuid,
    current_timestamp: i64,
) -> (r: Result<
    (TopicEventResponse, crate::order_compensation::OrderCompensation),
    OrderError,
>)
    requires
        maybe_order matches Some(o) ==> o.wf() && o.internal_order_items@.len() <= u32::MAX,
    ensures
        r.is_ok() <==> topic.spec_bytes() == "shipment/shipment/creation-failed".spec_bytes()
            && maybe_order is Some && !crate::order_compensation::any_already_compensated(
            compensations@,
            data.order_item_ids@,
        ),
        topic.spec_bytes() != "shipment/shipment/creation-failed".spec_bytes() ==> r
            == Result::<
            (TopicEventResponse, crate::order_compensation::OrderCompensation),
            OrderError,
        >::Err(OrderError::ExternalServiceError),
        topic.spec_bytes() == "shipment/shipment/creation-failed".spec_bytes() ==> {
            &&& r == Result::<
                (TopicEventResponse, crate::order_compensation::OrderCompensation),
                OrderError,
            >::Err(OrderError::NotFound) <==> maybe_order is None
            &&& r == Result::<
                (TopicEventResponse, crate::order_compensation::OrderCompensation),
                OrderError,
            >::Err(OrderError::AlreadyCompensated) <==> maybe_order is Some
                && crate::order_compensation::any_already_compensated(
                compensations@,
                data.order_item_ids@,
            )
        },
        r matches Ok(pair) ==> {
            &&& pair.0.status == 0
            &&& pair.1._id == fresh_id
            &&& pair.1.order_id == data.order_id
            &&& pair.1.order_item_ids@ == data.order_item_ids@
            &&& pair.1.triggered_at == current_timestamp
            &&& pair.1.amount_to_compensate == crate::order_compensation::compensable_amount_spec(
                maybe_order.unwrap().internal_order_items@,
                data.order_item_ids@,
            )
        },
{
    if bytes_eq(topic, "shipment/shipment/creation-failed") {
        match crate::order_compensation::compensate_order(
            maybe_order,
            compensations,
            data,
            fresh_id,
            current_timestamp,
        ) {
            Ok(compensation) => Ok((TopicEventResponse::ok(), compensation)),
            Err(e) => Err(e),
        }
    } else {
        Err(OrderError::ExternalServiceError)
    }
}

} // verus!
