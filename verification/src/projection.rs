//! The reference projection: an eventually-consistent local copy of foreign
//! entities, rebuilt purely from inbound events.
//!
//! Each event's effect is defined as a spec-level transition on the
//! projected state; the executable application is proved to implement it,
//! and every transition is proved idempotent under redelivery of the same
//! event.

use crate::foreign_types::{
    Coupon, ProductVariant, ProductVariantVersion, ShipmentMethod, TaxRate, TaxRateVersion, User,
};
use crate::ids::Uuid;
use vstd::pervasive::VecAdditionalExecFns;
use vstd::prelude::*;

verus! {

/// Spec-level twin of `User`: the address list as a sequence.
#[verifier::ext_equal]
pub ghost struct UserView {
    /// UUID of the user.
    pub _id: Uuid,
    /// The user's address ids, in insertion order.
    pub user_address_ids: Seq<Uuid>,
}

impl View for User {
    type V = UserView;

    open spec fn view(&self) -> UserView {
        UserView { _id: self._id, user_address_ids: self.user_address_ids@ }
    }
}

/// Spec-level view of the whole projected state.
#[verifier::ext_equal]
pub ghost struct ProjectionView {
    /// Projected users.
    pub users: Seq<UserView>,
    /// Projected product variants.
    pub product_variants: Seq<ProductVariant>,
    /// Projected tax rates.
    pub tax_rates: Seq<TaxRate>,
    /// Projected coupons.
    pub coupons: Seq<Coupon>,
    /// Projected shipment methods.
    pub shipment_methods: Seq<ShipmentMethod>,
}

/// The projected state: local lookup copies of foreign entities, keyed by
/// id within each collection.
#[derive(Clone, Debug)]
pub struct ProjectionState {
    /// Projected users.
    pub users: Vec<User>,
    /// Projected product variants.
    pub product_variants: Vec<ProductVariant>,
    /// Projected tax rates.
    pub tax_rates: Vec<TaxRate>,
    /// Projected coupons.
    pub coupons: Vec<Coupon>,
    /// Projected shipment methods.
    pub shipment_methods: Vec<ShipmentMethod>,
}

impl View for ProjectionState {
    type V = ProjectionView;

    open spec fn view(&self) -> ProjectionView {
        ProjectionView {
            users: self.users@.map_values(|u: User| u@),
            product_variants: self.product_variants@,
            tax_rates: self.tax_rates@,
            coupons: self.coupons@,
            shipment_methods: self.shipment_methods@,
        }
    }
}

impl ProjectionState {
    /// An empty projection: nothing has been received yet.
    pub fn new() -> (r: ProjectionState)
        ensures
            r@.users.len() == 0,
            r@.product_variants.len() == 0,
            r@.tax_rates.len() == 0,
            r@.coupons.len() == 0,
            r@.shipment_methods.len() == 0,
    {
        ProjectionState {
            users: Vec::new(),
            product_variants: Vec::new(),
            tax_rates: Vec::new(),
            coupons: Vec::new(),
            shipment_methods: Vec::new(),
        }
    }
}

/// Some user in `s` has the id `id`.
pub open spec fn users_has(s: Seq<UserView>, id: Uuid) -> bool {
    exists|i: int| 0 <= i < s.len() && s[i]._id == id
}

/// Some coupon in `s` has the id `id`.
pub open spec fn coupons_has(s: Seq<Coupon>, id: Uuid) -> bool {
    exists|i: int| 0 <= i < s.len() && s[i]._id == id
}

/// Some shipment method in `s` has the id `id`.
pub open spec fn shipment_methods_has(s: Seq<ShipmentMethod>, id: Uuid) -> bool {
    exists|i: int| 0 <= i < s.len() && s[i]._id == id
}

/// Some product variant in `s` has the id `id`.
pub open spec fn variants_has(s: Seq<ProductVariant>, id: Uuid) -> bool {
    exists|i: int| 0 <= i < s.len() && s[i]._id == id
}

/// Some tax rate in `s` has the id `id`.
pub open spec fn tax_rates_has(s: Seq<TaxRate>, id: Uuid) -> bool {
    exists|i: int| 0 <= i < s.len() && s[i]._id == id
}

/// Effect of `user/user/created`: create the user with an empty address
/// list; a user already present is left unchanged.
pub open spec fn spec_user_created(s: Seq<UserView>, id: Uuid) -> Seq<UserView> {
    if users_has(s, id) {
        s
    } else {
        s.push(UserView { _id: id, user_address_ids: Seq::empty() })
    }
}

/// Effect of `discount/coupon/created`; idempotent.
pub open spec fn spec_coupon_created(s: Seq<Coupon>, id: Uuid) -> Seq<Coupon> {
    if coupons_has(s, id) {
        s
    } else {
        s.push(Coupon { _id: id })
    }
}

/// Effect of `shipment/shipment-method/created`; idempotent.
pub open spec fn spec_shipment_method_created(s: Seq<ShipmentMethod>, id: Uuid) -> Seq<
    ShipmentMethod,
> {
    if shipment_methods_has(s, id) {
        s
    } else {
        s.push(ShipmentMethod { _id: id })
    }
}

/// Effect of `address/user-address/created` on one user: append the address
/// id unless it is already present.
pub open spec fn spec_user_add_address(u: UserView, address_id: Uuid) -> UserView {
    if u.user_address_ids.contains(address_id) {
        u
    } else {
        UserView { _id: u._id, user_address_ids: u.user_address_ids.push(address_id) }
    }
}

/// Effect of `address/user-address/created`: the owning user's list grows
/// by the address id (no-op if present or if the user is unknown).
pub open spec fn spec_address_created(s: Seq<UserView>, user_id: Uuid, address_id: Uuid) -> Seq<
    UserView,
> {
    s.map_values(
        |u: UserView|
            if u._id == user_id {
                spec_user_add_address(u, address_id)
            } else {
                u
            },
    )
}

/// Keeps every address other than `id`.
pub open spec fn keeps_other_than(id: Uuid) -> spec_fn(Uuid) -> bool {
    |a: Uuid| a != id
}

/// An address list with every occurrence of `id` removed.
pub open spec fn without_address(l: Seq<Uuid>, id: Uuid) -> Seq<Uuid> {
    l.filter(keeps_other_than(id))
}

/// Effect of `address/user-address/archived` on one user: every occurrence
/// of the address id leaves the list.
pub open spec fn spec_user_remove_address(u: UserView, address_id: Uuid) -> UserView {
    UserView { _id: u._id, user_address_ids: without_address(u.user_address_ids, address_id) }
}

/// Effect of `address/user-address/archived` (no-op if absent or if the
/// user is unknown).
pub open spec fn spec_address_archived(s: Seq<UserView>, user_id: Uuid, address_id: Uuid) -> Seq<
    UserView,
> {
    s.map_values(
        |u: UserView|
            if u._id == user_id {
                spec_user_remove_address(u, address_id)
            } else {
                u
            },
    )
}

/// Effect of `catalog/product-variant-version/created`: roll the owning
/// variant's current version over, or create the variant as publicly
/// visible if it is not yet known.
pub open spec fn spec_variant_version_created(
    s: Seq<ProductVariant>,
    variant_id: Uuid,
    version: ProductVariantVersion,
) -> Seq<ProductVariant> {
    if variants_has(s, variant_id) {
        s.map_values(
            |p: ProductVariant|
                if p._id == variant_id {
                    ProductVariant {
                        _id: p._id,
                        current_version: version,
                        is_publicly_visible: p.is_publicly_visible,
                    }
                } else {
                    p
                },
        )
    } else {
        s.push(
            ProductVariant { _id: variant_id, current_version: version, is_publicly_visible: true },
        )
    }
}

/// Effect of `catalog/product-variant/updated`: set the variant's
/// visibility (no-op if the variant is unknown).
pub open spec fn spec_variant_updated(s: Seq<ProductVariant>, id: Uuid, visible: bool) -> Seq<
    ProductVariant,
> {
    s.map_values(
        |p: ProductVariant|
            if p._id == id {
                ProductVariant {
                    _id: p._id,
                    current_version: p.current_version,
                    is_publicly_visible: visible,
                }
            } else {
                p
            },
    )
}

/// Effect of `tax/tax-rate-version/created`: upsert the owning tax rate and
/// set its current version.
pub open spec fn spec_tax_rate_version_created(
    s: Seq<TaxRate>,
    tax_rate_id: Uuid,
    version: TaxRateVersion,
) -> Seq<TaxRate> {
    if tax_rates_has(s, tax_rate_id) {
        s.map_values(
            |t: TaxRate|
                if t._id == tax_rate_id {
                    TaxRate { _id: t._id, current_version: version }
                } else {
                    t
                },
        )
    } else {
        s.push(TaxRate { _id: tax_rate_id, current_version: version })
    }
}

/// One inbound event, as routed to the projection.
#[derive(Clone, Debug)]
pub enum ProjectionEvent {
    /// `user/user/created`.
    UserCreated { id: Uuid },
    /// `discount/coupon/created`.
    CouponCreated { id: Uuid },
    /// `shipment/shipment-method/created`.
    ShipmentMethodCreated { id: Uuid },
    /// `address/user-address/created`.
    UserAddressCreated { id: Uuid, user_id: Uuid },
    /// `address/user-address/archived`.
    UserAddressArchived { id: Uuid, user_id: Uuid },
    /// `catalog/product-variant-version/created`.
    ProductVariantVersionCreated {
        id: Uuid,
        retail_price: u32,
        tax_rate_id: Uuid,
        product_variant_id: Uuid,
    },
    /// `catalog/product-variant/updated`.
    ProductVariantUpdated { id: Uuid, is_publicly_visible: bool },
    /// `tax/tax-rate-version/created`.
    TaxRateVersionCreated { id: Uuid, rate_ppm: u64, version: u32, tax_rate_id: Uuid },
}

/// The effect of one event on the projected state.
pub open spec fn spec_apply(v: ProjectionView, e: ProjectionEvent) -> ProjectionView {
    match e {
        ProjectionEvent::UserCreated { id } => ProjectionView {
            users: spec_user_created(v.users, id),
            ..v
        },
        ProjectionEvent::CouponCreated { id } => ProjectionView {
            coupons: spec_coupon_created(v.coupons, id),
            ..v
        },
        ProjectionEvent::ShipmentMethodCreated { id } => ProjectionView {
            shipment_methods: spec_shipment_method_created(v.shipment_methods, id),
            ..v
        },
        ProjectionEvent::UserAddressCreated { id, user_id } => ProjectionView {
            users: spec_address_created(v.users, user_id, id),
            ..v
        },
        ProjectionEvent::UserAddressArchived { id, user_id } => ProjectionView {
            users: spec_address_archived(v.users, user_id, id),
            ..v
        },
        ProjectionEvent::ProductVariantVersionCreated {
            id,
            retail_price,
            tax_rate_id,
            product_variant_id,
        } => ProjectionView {
            product_variants: spec_variant_version_created(
                v.product_variants,
                product_variant_id,
                ProductVariantVersion { _id: id, price: retail_price, tax_rate_id },
            ),
            ..v
        },
        ProjectionEvent::ProductVariantUpdated { id, is_publicly_visible } => ProjectionView {
            product_variants: spec_variant_updated(v.product_variants, id, is_publicly_visible),
            ..v
        },
        ProjectionEvent::TaxRateVersionCreated { id, rate_ppm, version, tax_rate_id } => ProjectionView {
            tax_rates: spec_tax_rate_version_created(
                v.tax_rates,
                tax_rate_id,
                TaxRateVersion { _id: id, rate_ppm, version },
            ),
            ..v
        },
    }
}

/// Each projected collection holds at most one entry per id.
pub open spec fn view_wf(v: ProjectionView) -> bool {
    &&& forall|i: int, j: int| 0 <= i < j < v.users.len() ==> v.users[i]._id != v.users[j]._id
    &&& forall|i: int, j: int|
        0 <= i < j < v.product_variants.len() ==> v.product_variants[i]._id
            != v.product_variants[j]._id
    &&& forall|i: int, j: int|
        0 <= i < j < v.tax_rates.len() ==> v.tax_rates[i]._id != v.tax_rates[j]._id
    &&& forall|i: int, j: int| 0 <= i < j < v.coupons.len() ==> v.coupons[i]._id != v.coupons[j]._id
    &&& forall|i: int, j: int|
        0 <= i < j < v.shipment_methods.len() ==> v.shipment_methods[i]._id
            != v.shipment_methods[j]._id
}

/// Copies a list of identifiers.
pub fn copy_uuids(v: &Vec<Uuid>) -> (r: Vec<Uuid>)
    ensures
        r@ == v@,
{
    let mut out: Vec<Uuid> = Vec::new();
    let n = v.len();
    let mut i: usize = 0;
    while i < n
        invariant
            i <= n,
            n == v@.len(),
            out@ =~= v@.subrange(0, i as int),
        decreases n - i,
    {
        out.push(v[i]);
        proof {
            assert(out@ =~= v@.subrange(0, i + 1));
        }
        i = i + 1;
    }
    proof {
        assert(out@ =~= v@);
    }
    out
}

/// Builds the list with every occurrence of `id` removed.
pub fn remove_uuid(v: &Vec<Uuid>, id: &Uuid) -> (r: Vec<Uuid>)
    ensures
        r@ == without_address(v@, *id),
{
    let mut out: Vec<Uuid> = Vec::new();
    let n = v.len();
    let mut i: usize = 0;
    proof {
        reveal(Seq::filter);
        assert(out@ =~= without_address(v@.subrange(0, 0), *id));
    }
    while i < n
        invariant
            i <= n,
            n == v@.len(),
            out@ =~= without_address(v@.subrange(0, i as int), *id),
        decreases n - i,
    {
        let ghost prefix = v@.subrange(0, i as int);
        if !(v[i] == *id) {
            out.push(v[i]);
        }
        proof {
            reveal(Seq::filter);
            assert(v@.subrange(0, i + 1).drop_last() =~= prefix);
            assert(v@.subrange(0, i + 1).last() == v@[i as int]);
        }
        i = i + 1;
    }
    proof {
        assert(v@.subrange(0, n as int) =~= v@);
    }
    out
}

impl ProjectionState {
    /// Each collection holds at most one entry per id.
    pub open spec fn wf(self) -> bool {
        view_wf(self@)
    }

    /// The index of the user with the given id, if any.
    pub fn find_user_index(&self, id: &Uuid) -> (r: Option<usize>)
        ensures
            match r {
                Some(i) => i < self@.users.len() && self@.users[i as int]._id == *id,
                None => !users_has(self@.users, *id),
            },
    {
        let n = self.users.len();
        let mut i: usize = 0;
        while i < n
            invariant
                i <= n,
                n == self.users@.len(),
                forall|j: int| 0 <= j < i ==> self@.users[j]._id != *id,
            decreases n - i,
        {
            if self.users[i]._id == *id {
                proof {
                    assert(self@.users[i as int]._id == *id);
                }
                return Some(i);
            }
            i = i + 1;
        }
        None
    }

    /// The index of the product variant with the given id, if any.
    pub fn find_variant_index(&self, id: &Uuid) -> (r: Option<usize>)
        ensures
            match r {
                Some(i) => i < self@.product_variants.len() && self@.product_variants[i as int]._id
                    == *id,
                None => !variants_has(self@.product_variants, *id),
            },
    {
        let n = self.product_variants.len();
        let mut i: usize = 0;
        while i < n
            invariant
                i <= n,
                n == self.product_variants@.len(),
                forall|j: int| 0 <= j < i ==> self@.product_variants[j]._id != *id,
            decreases n - i,
        {
            if self.product_variants[i]._id == *id {
                return Some(i);
            }
            i = i + 1;
        }
        None
    }

    /// The index of the tax rate with the given id, if any.
    pub fn find_tax_rate_index(&self, id: &Uuid) -> (r: Option<usize>)
        ensures
            match r {
                Some(i) => i < self@.tax_rates.len() && self@.tax_rates[i as int]._id == *id,
                None => !tax_rates_has(self@.tax_rates, *id),
            },
    {
        let n = self.tax_rates.len();
        let mut i: usize = 0;
        while i < n
            invariant
                i <= n,
                n == self.tax_rates@.len(),
                forall|j: int| 0 <= j < i ==> self@.tax_rates[j]._id != *id,
            decreases n - i,
        {
            if self.tax_rates[i]._id == *id {
                return Some(i);
            }
            i = i + 1;
        }
        None
    }

    /// Whether a coupon with the given id is projected.
    pub fn has_coupon(&self, id: &Uuid) -> (r: bool)
        ensures
            r == coupons_has(self@.coupons, *id),
    {
        let n = self.coupons.len();
        let mut i: usize = 0;
        while i < n
            invariant
                i <= n,
                n == self.coupons@.len(),
                forall|j: int| 0 <= j < i ==> self@.coupons[j]._id != *id,
            decreases n - i,
        {
            if self.coupons[i]._id == *id {
                return true;
            }
            i = i + 1;
        }
        false
    }

    /// Applies one inbound event to the projected state. The effect is
    /// exactly the spec-level transition, and redelivering the same event
    /// leaves the state unchanged (see `lemma_apply_idempotent`).
    pub fn apply_event(&mut self, event: &ProjectionEvent)
        requires
            old(self).wf(),
        ensures
            final(self)@ == spec_apply(old(self)@, *event),
            final(self).wf(),
    {
        let ghost pre = self@;
        let ghost target = spec_apply(self@, *event);
        match event {
            ProjectionEvent::UserCreated { id } => {
                match self.find_user_index(id) {
                    Some(_) => {
                        proof {
                            assert(self@.users =~= target.users);
                        }
                    },
                    None => {
                        self.users.push(User::from_id(*id));
                        proof {
                            assert(self@.users =~~= pre.users.push(
                                UserView { _id: *id, user_address_ids: Seq::empty() },
                            ));
                            assert(self@.users =~~= target.users);
                        }
                    },
                }
            },
            ProjectionEvent::CouponCreated { id } => {
                if !self.has_coupon(id) {
                    self.coupons.push(Coupon { _id: *id });
                }
                proof {
                    assert(self@.coupons =~= target.coupons);
                }
            },
            ProjectionEvent::ShipmentMethodCreated { id } => {
                if !self.has_shipment_method(id) {
                    self.shipment_methods.push(ShipmentMethod { _id: *id });
                }
                proof {
                    assert(self@.shipment_methods =~= target.shipment_methods);
                }
            },
            ProjectionEvent::UserAddressCreated { id, user_id } => {
                match self.find_user_index(user_id) {
                    Some(idx) => {
                        if !self.users[idx].has_address(id) {
                            let mut addrs = copy_uuids(&self.users[idx].user_address_ids);
                            addrs.push(*id);
                            let updated = User { _id: *user_id, user_address_ids: addrs };
                            self.users.set(idx, updated);
                        }
                        proof {
                            assert forall|k: int| 0 <= k < self@.users.len() implies self@.users[k]
                                == target.users[k] by {
                                if k != idx {
                                    assert(pre.users[k]._id != *user_id);
                                }
                            }
                            assert(self@.users =~= target.users);
                        }
                    },
                    None => {
                        proof {
                            assert forall|k: int| 0 <= k < self@.users.len() implies self@.users[k]
                                == target.users[k] by {
                                assert(pre.users[k]._id != *user_id);
                            }
                            assert(self@.users =~= target.users);
                        }
                    },
                }
            },
            ProjectionEvent::UserAddressArchived { id, user_id } => {
                match self.find_user_index(user_id) {
                    Some(idx) => {
                        let filtered = remove_uuid(&self.users[idx].user_address_ids, id);
                        let updated = User { _id: *user_id, user_address_ids: filtered };
                        self.users.set(idx, updated);
                        proof {
                            assert forall|k: int| 0 <= k < self@.users.len() implies self@.users[k]
                                == target.users[k] by {
                                if k != idx {
                                    assert(pre.users[k]._id != *user_id);
                                }
                            }
                            assert(self@.users =~= target.users);
                        }
                    },
                    None => {
                        proof {
                            assert forall|k: int| 0 <= k < self@.users.len() implies self@.users[k]
                                == target.users[k] by {
                                assert(pre.users[k]._id != *user_id);
                            }
                            assert(self@.users =~= target.users);
                        }
                    },
                }
            },
            ProjectionEvent::ProductVariantVersionCreated {
                id,
                retail_price,
                tax_rate_id,
                product_variant_id,
            } => {
                let version = ProductVariantVersion {
                    _id: *id,
                    price: *retail_price,
                    tax_rate_id: *tax_rate_id,
                };
                match self.find_variant_index(product_variant_id) {
                    Some(idx) => {
                        let existing = self.product_variants[idx];
                        self.product_variants.set(
                            idx,
                            ProductVariant {
                                _id: existing._id,
                                current_version: version,
                                is_publicly_visible: existing.is_publicly_visible,
                            },
                        );
                        proof {
                            assert forall|k: int|
                                0 <= k < self@.product_variants.len() implies self@
                                .product_variants[k] == target.product_variants[k] by {
                                if k != idx {
                                    assert(pre.product_variants[k]._id != *product_variant_id);
                                }
                            }
                            assert(self@.product_variants =~= target.product_variants);
                        }
                    },
                    None => {
                        self.product_variants.push(
                            ProductVariant {
                                _id: *product_variant_id,
                                current_version: version,
                                is_publicly_visible: true,
                            },
                        );
                        proof {
                            assert(self@.product_variants =~= target.product_variants);
                        }
                    },
                }
            },
            ProjectionEvent::ProductVariantUpdated { id, is_publicly_visible } => {
                match self.find_variant_index(id) {
                    Some(idx) => {
                        let existing = self.product_variants[idx];
                        self.product_variants.set(
                            idx,
                            ProductVariant {
                                _id: existing._id,
                                current_version: existing.current_version,
                                is_publicly_visible: *is_publicly_visible,
                            },
                        );
                        proof {
                            assert forall|k: int|
                                0 <= k < self@.product_variants.len() implies self@
                                .product_variants[k] == target.product_variants[k] by {
                                if k != idx {
                                    assert(pre.product_variants[k]._id != *id);
                                }
                            }
                            assert(self@.product_variants =~= target.product_variants);
                        }
                    },
                    None => {
                        proof {
                            assert forall|k: int|
                                0 <= k < self@.product_variants.len() implies self@
                                .product_variants[k] == target.product_variants[k] by {
                                assert(pre.product_variants[k]._id != *id);
                            }
                            assert(self@.product_variants =~= target.product_variants);
                        }
                    },
                }
            },
            ProjectionEvent::TaxRateVersionCreated { id, rate_ppm, version, tax_rate_id } => {
                let trv = TaxRateVersion { _id: *id, rate_ppm: *rate_ppm, version: *version };
                match self.find_tax_rate_index(tax_rate_id) {
                    Some(idx) => {
                        let existing = self.tax_rates[idx];
                        self.tax_rates.set(
                            idx,
                            TaxRate { _id: existing._id, current_version: trv },
                        );
                        proof {
                            assert forall|k: int|
                                0 <= k < self@.tax_rates.len() implies self@.tax_rates[k]
                                == target.tax_rates[k] by {
                                if k != idx {
                                    assert(pre.tax_rates[k]._id != *tax_rate_id);
                                }
                            }
                            assert(self@.tax_rates =~= target.tax_rates);
                        }
                    },
                    None => {
                        self.tax_rates.push(TaxRate { _id: *tax_rate_id, current_version: trv });
                        proof {
                            assert(self@.tax_rates =~= target.tax_rates);
                        }
                    },
                }
            },
        }
        proof {
            assert(self@ == target);
            lemma_apply_preserves_wf(pre, *event);
        }
    }

    /// Whether a shipment method with the given id is projected.
    pub fn has_shipment_method(&self, id: &Uuid) -> (r: bool)
        ensures
            r == shipment_methods_has(self@.shipment_methods, *id),
    {
        let n = self.shipment_methods.len();
        let mut i: usize = 0;
        while i < n
            invariant
                i <= n,
                n == self.shipment_methods@.len(),
                forall|j: int| 0 <= j < i ==> self@.shipment_methods[j]._id != *id,
            decreases n - i,
        {
            if self.shipment_methods[i]._id == *id {
                return true;
            }
            i = i + 1;
        }
        false
    }
}

/// A sequence whose elements all satisfy the predicate is its own filtrate.
proof fn lemma_filter_all_satisfying<A>(s: Seq<A>, pred: spec_fn(A) -> bool)
    requires
        forall|i: int| 0 <= i < s.len() ==> pred(#[trigger] s[i]),
    ensures
        s.filter(pred) =~= s,
    decreases s.len(),
{
    reveal(Seq::filter);
    if s.len() > 0 {
        assert(forall|i: int| 0 <= i < s.drop_last().len() ==> pred(#[trigger] s.drop_last()[i]));
        lemma_filter_all_satisfying(s.drop_last(), pred);
    }
}

/// Removing an address twice removes it once: the filtrate is stable.
proof fn lemma_without_address_idempotent(l: Seq<Uuid>, id: Uuid)
    ensures
        without_address(without_address(l, id), id) == without_address(l, id),
{
    let pred = keeps_other_than(id);
    assert forall|i: int| 0 <= i < l.filter(pred).len() implies pred(#[trigger] l.filter(pred)[i]) by {
        l.lemma_filter_pred(pred, i);
    }
    lemma_filter_all_satisfying(l.filter(pred), pred);
    assert(without_address(without_address(l, id), id) =~= without_address(l, id));
}

/// Redelivering the same event leaves the projected state unchanged: the
/// spec-level transition of every event is idempotent.
pub proof fn lemma_apply_idempotent(v: ProjectionView, e: ProjectionEvent)
    ensures
        spec_apply(spec_apply(v, e), e) == spec_apply(v, e),
{
    let once = spec_apply(v, e);
    let twice = spec_apply(once, e);
    match e {
        ProjectionEvent::UserCreated { id } => {
            if !users_has(v.users, id) {
                assert(once.users[v.users.len() as int]._id == id);
                assert(users_has(once.users, id));
            }
            assert(twice.users =~= once.users);
        },
        ProjectionEvent::CouponCreated { id } => {
            if !coupons_has(v.coupons, id) {
                assert(once.coupons[v.coupons.len() as int]._id == id);
                assert(coupons_has(once.coupons, id));
            }
            assert(twice.coupons =~= once.coupons);
        },
        ProjectionEvent::ShipmentMethodCreated { id } => {
            if !shipment_methods_has(v.shipment_methods, id) {
                assert(once.shipment_methods[v.shipment_methods.len() as int]._id == id);
                assert(shipment_methods_has(once.shipment_methods, id));
            }
            assert(twice.shipment_methods =~= once.shipment_methods);
        },
        ProjectionEvent::UserAddressCreated { id, user_id } => {
            assert forall|k: int| 0 <= k < twice.users.len() implies twice.users[k]
                == once.users[k] by {
                let u = v.users[k];
                if u._id == user_id && !u.user_address_ids.contains(id) {
                    assert(u.user_address_ids.push(id)[u.user_address_ids.len() as int] == id);
                    assert(u.user_address_ids.push(id).contains(id));
                }
            }
            assert(twice.users =~= once.users);
        },
        ProjectionEvent::UserAddressArchived { id, user_id } => {
            assert forall|k: int| 0 <= k < twice.users.len() implies twice.users[k]
                == once.users[k] by {
                let u = v.users[k];
                if u._id == user_id {
                    lemma_without_address_idempotent(u.user_address_ids, id);
                }
            }
            assert(twice.users =~= once.users);
        },
        ProjectionEvent::ProductVariantVersionCreated {
            id,
            retail_price,
            tax_rate_id,
            product_variant_id,
        } => {
            let version = ProductVariantVersion { _id: id, price: retail_price, tax_rate_id };
            if variants_has(v.product_variants, product_variant_id) {
                let w = choose|i: int|
                    0 <= i < v.product_variants.len() && v.product_variants[i]._id
                        == product_variant_id;
                assert(once.product_variants[w]._id == product_variant_id);
                assert(variants_has(once.product_variants, product_variant_id));
            } else {
                assert(once.product_variants[v.product_variants.len() as int]._id
                    == product_variant_id);
                assert(variants_has(once.product_variants, product_variant_id));
            }
            assert(twice.product_variants =~= once.product_variants);
        },
        ProjectionEvent::ProductVariantUpdated { id, is_publicly_visible } => {
            assert(twice.product_variants =~= once.product_variants);
        },
        ProjectionEvent::TaxRateVersionCreated { id, rate_ppm, version, tax_rate_id } => {
            let trv = TaxRateVersion { _id: id, rate_ppm, version };
            if tax_rates_has(v.tax_rates, tax_rate_id) {
                let w = choose|i: int|
                    0 <= i < v.tax_rates.len() && v.tax_rates[i]._id == tax_rate_id;
                assert(once.tax_rates[w]._id == tax_rate_id);
                assert(tax_rates_has(once.tax_rates, tax_rate_id));
            } else {
                assert(once.tax_rates[v.tax_rates.len() as int]._id == tax_rate_id);
                assert(tax_rates_has(once.tax_rates, tax_rate_id));
            }
            assert(twice.tax_rates =~= once.tax_rates);
        },
    }
}

/// Every transition keeps each collection unique by id.
pub proof fn lemma_apply_preserves_wf(v: ProjectionView, e: ProjectionEvent)
    requires
        view_wf(v),
    ensures
        view_wf(spec_apply(v, e)),
{
    let next = spec_apply(v, e);
    match e {
        ProjectionEvent::UserCreated { id } => {
            if !users_has(v.users, id) {
                assert(forall|i: int| 0 <= i < v.users.len() ==> #[trigger] v.users[i]._id != id);
            }
        },
        ProjectionEvent::CouponCreated { id } => {
            if !coupons_has(v.coupons, id) {
                assert(forall|i: int|
                    0 <= i < v.coupons.len() ==> #[trigger] v.coupons[i]._id != id);
            }
        },
        ProjectionEvent::ShipmentMethodCreated { id } => {
            if !shipment_methods_has(v.shipment_methods, id) {
                assert(forall|i: int|
                    0 <= i < v.shipment_methods.len() ==> #[trigger] v.shipment_methods[i]._id
                        != id);
            }
        },
        ProjectionEvent::UserAddressCreated { id, user_id } => {
            assert(forall|k: int|
                0 <= k < next.users.len() ==> #[trigger] next.users[k]._id == v.users[k]._id);
        },
        ProjectionEvent::UserAddressArchived { id, user_id } => {
            assert(forall|k: int|
                0 <= k < next.users.len() ==> #[trigger] next.users[k]._id == v.users[k]._id);
        },
        ProjectionEvent::ProductVariantVersionCreated {
            id,
            retail_price,
            tax_rate_id,
            product_variant_id,
        } => {
            if variants_has(v.product_variants, product_variant_id) {
                assert(forall|k: int|
                    0 <= k < next.product_variants.len()
                        ==> #[trigger] next.product_variants[k]._id
                        == v.product_variants[k]._id);
            } else {
                assert(forall|i: int|
                    0 <= i < v.product_variants.len() ==> #[trigger] v.product_variants[i]._id
                        != product_variant_id);
            }
        },
        ProjectionEvent::ProductVariantUpdated { id, is_publicly_visible } => {
            assert(forall|k: int|
                0 <= k < next.product_variants.len() ==> #[trigger] next.product_variants[k]._id
                    == v.product_variants[k]._id);
        },
        ProjectionEvent::TaxRateVersionCreated { id, rate_ppm, version, tax_rate_id } => {
            if tax_rates_has(v.tax_rates, tax_rate_id) {
                assert(forall|k: int|
                    0 <= k < next.tax_rates.len() ==> #[trigger] next.tax_rates[k]._id
                        == v.tax_rates[k]._id);
            } else {
                assert(forall|i: int|
                    0 <= i < v.tax_rates.len() ==> #[trigger] v.tax_rates[i]._id != tax_rate_id);
            }
        },
    }
}

} // verus!

