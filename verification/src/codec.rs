//! The canonical event-data codec.
//!
//! Each payload is laid out as a single JSON object with the fields in a
//! fixed order, identifiers in the hyphenated lowercase form, and numbers
//! as fixed-width decimal digit runs. Encoding then decoding any payload
//! yields the original value; the decoders accept exactly the canonical
//! form.

use crate::ids::{parse_uuid_text, push_uuid_text, uuid_chars, Uuid};
use vstd::arithmetic::div_mod::{
    lemma_fundamental_div_mod, lemma_fundamental_div_mod_converse_div,
    lemma_fundamental_div_mod_converse_mod,
};
use vstd::prelude::*;
use vstd::string::StringSliceAdditionalSpecFns;

verus! {

/// Ten raised to the `k`-th power.
pub open spec fn pow10(k: nat) -> int
    decreases k,
{
    if k == 0 {
        1
    } else {
        10 * pow10((k - 1) as nat)
    }
}

/// The powers of ten the canonical widths use.
pub proof fn lemma_pow10_values()
    ensures
        pow10(10) == 10_000_000_000,
        pow10(20) == 100_000_000_000_000_000_000,
{
    assert(pow10(0) == 1);
    assert(pow10(1) == 10);
    assert(pow10(2) == 100);
    assert(pow10(3) == 1000);
    assert(pow10(4) == 10_000);
    assert(pow10(5) == 100_000);
    assert(pow10(6) == 1_000_000);
    assert(pow10(7) == 10_000_000);
    assert(pow10(8) == 100_000_000);
    assert(pow10(9) == 1_000_000_000);
    assert(pow10(10) == 10_000_000_000);
    assert(pow10(11) == 100_000_000_000);
    assert(pow10(12) == 1_000_000_000_000);
    assert(pow10(13) == 10_000_000_000_000);
    assert(pow10(14) == 100_000_000_000_000);
    assert(pow10(15) == 1_000_000_000_000_000);
    assert(pow10(16) == 10_000_000_000_000_000);
    assert(pow10(17) == 100_000_000_000_000_000);
    assert(pow10(18) == 1_000_000_000_000_000_000);
    assert(pow10(19) == 10_000_000_000_000_000_000);
    assert(pow10(20) == 100_000_000_000_000_000_000);
}

pub proof fn lemma_pow10_pos(k: nat)
    ensures
        pow10(k) >= 1,
    decreases k,
{
    if k > 0 {
        lemma_pow10_pos((k - 1) as nat);
    }
}

pub proof fn lemma_pow10_increases(a: nat, b: nat)
    requires
        a <= b,
    ensures
        pow10(a) <= pow10(b),
    decreases b,
{
    if a < b {
        lemma_pow10_increases(a, (b - 1) as nat);
        lemma_pow10_pos((b - 1) as nat);
    }
}

/// The low `k` decimal digits of `x`, most significant first.
pub open spec fn dec_digits(x: int, k: nat) -> Seq<u8>
    decreases k,
{
    if k == 0 {
        Seq::empty()
    } else {
        dec_digits(x / 10, (k - 1) as nat).push((48 + x % 10) as u8)
    }
}

/// A decimal digit byte.
pub open spec fn is_dec_digit(c: u8) -> bool {
    48 <= c <= 57
}

/// Every byte of a fixed-width decimal run is a digit.
pub proof fn lemma_dec_digits_are_digits(x: int, k: nat)
    requires
        x >= 0,
    ensures
        forall|j: int| 0 <= j < k ==> is_dec_digit(#[trigger] dec_digits(x, k)[j]),
        dec_digits(x, k).len() == k,
    decreases k,
{
    if k > 0 {
        lemma_dec_digits_are_digits(x / 10, (k - 1) as nat);
        vstd::arithmetic::div_mod::lemma_mod_division_less_than_divisor(x, 10);
        vstd::arithmetic::div_mod::lemma_div_pos_is_pos(x, 10);
        assert forall|j: int| 0 <= j < k implies is_dec_digit(#[trigger] dec_digits(x, k)[j]) by {
            if j < k - 1 {
                assert(dec_digits(x, k)[j] == dec_digits(x / 10, (k - 1) as nat)[j]);
            } else {
                assert(dec_digits(x, k)[j] == (48 + x % 10) as u8);
            }
        }
    }
}

/// Fixed-width decimal runs are unambiguous.
pub proof fn lemma_dec_digits_injective(a: int, b: int, k: nat)
    requires
        0 <= a < pow10(k),
        0 <= b < pow10(k),
        dec_digits(a, k) == dec_digits(b, k),
    ensures
        a == b,
    decreases k,
{
    if k == 0 {
        lemma_pow10_pos(k);
    } else {
        let ka = (k - 1) as nat;
        lemma_dec_digits_are_digits(a, k);
        lemma_dec_digits_are_digits(b, k);
        assert(dec_digits(a, k).last() == (48 + a % 10) as u8);
        assert(dec_digits(b, k).last() == (48 + b % 10) as u8);
        lemma_fundamental_div_mod(a, 10);
        lemma_fundamental_div_mod(b, 10);
        vstd::arithmetic::div_mod::lemma_mod_division_less_than_divisor(a, 10);
        vstd::arithmetic::div_mod::lemma_mod_division_less_than_divisor(b, 10);
        assert(a % 10 == b % 10);
        assert(dec_digits(a, k).drop_last() =~= dec_digits(a / 10, ka));
        assert(dec_digits(b, k).drop_last() =~= dec_digits(b / 10, ka));
        assert(a / 10 < pow10(ka) && b / 10 < pow10(ka)) by {
            assert(pow10(k) == 10 * pow10(ka));
            vstd::arithmetic::div_mod::lemma_multiply_divide_lt(a, 10, pow10(ka));
            vstd::arithmetic::div_mod::lemma_multiply_divide_lt(b, 10, pow10(ka));
        }
        vstd::arithmetic::div_mod::lemma_div_pos_is_pos(a, 10);
        vstd::arithmetic::div_mod::lemma_div_pos_is_pos(b, 10);
        lemma_dec_digits_injective(a / 10, b / 10, ka);
    }
}

/// Appends the low `k` decimal digits of `x`, most significant first.
pub fn push_dec(out: &mut Vec<u8>, x: u64, k: usize)
    requires
        k <= 20,
    ensures
        final(out)@ == old(out)@ + dec_digits(x as int, k as nat),
    decreases k,
{
    if k == 0 {
        proof {
            assert(out@ =~= out@ + dec_digits(x as int, 0));
        }
    } else {
        let ghost pre = out@;
        push_dec(out, x / 10, k - 1);
        let c: u8 = 48 + ((x % 10) as u8);
        out.push(c);
        proof {
            assert(c == (48 + (x as int) % 10) as u8);
            assert(pre + dec_digits(x as int / 10, (k - 1) as nat).push(
                (48 + (x as int) % 10) as u8,
            ) =~= (pre + dec_digits(x as int / 10, (k - 1) as nat)).push(
                (48 + (x as int) % 10) as u8,
            ));
        }
    }
}

/// Reads exactly `k` decimal digits at `i` into a value that fits a
/// machine word. A successful parse consumes exactly the canonical run of
/// the returned value, and the canonical run of any fitting value parses
/// back to it.
pub fn parse_dec_run(buf: &Vec<u8>, i: usize, k: usize) -> (r: Option<u64>)
    requires
        k <= 20,
    ensures
        r matches Some(v) ==> i + k <= buf@.len() && 0 <= v < pow10(k as nat) && buf@.subrange(
            i as int,
            i + k,
        ) == dec_digits(v as int, k as nat),
        forall|v: u64|
            i + k <= buf@.len() && v < pow10(k as nat) && buf@.subrange(i as int, i + k)
                == dec_digits(v as int, k as nat) ==> r == Some(v),
{
    let n = buf.len();
    if n < k || i > n - k {
        return None;
    }
    let mut acc: u128 = 0;
    let mut j: usize = 0;
    proof {
        lemma_pow10_values();
        assert(buf@.subrange(i as int, i as int) =~= dec_digits(0, 0));
    }
    while j < k
        invariant
            j <= k,
            k <= 20,
            n == buf@.len(),
            i + k <= n,
            0 <= acc < pow10(j as nat),
            pow10(j as nat) <= pow10(20),
            pow10(20) == 100_000_000_000_000_000_000,
            buf@.subrange(i as int, i + j) == dec_digits(acc as int, j as nat),
        decreases k - j,
    {
        let c: u8 = buf[i + j];
        if !(48 <= c && c <= 57) {
            proof {
                assert forall|v: u64|
                    i + k <= buf@.len() && v < pow10(k as nat) && buf@.subrange(i as int, i + k)
                        == dec_digits(v as int, k as nat) implies false by {
                    lemma_dec_digits_are_digits(v as int, k as nat);
                    assert(buf@[i + j] == dec_digits(v as int, k as nat)[j as int]);
                }
            }
            return None;
        }
        let d: u128 = (c - 48) as u128;
        let ghost acc0 = acc as int;
        proof {
            lemma_pow10_values();
            assert(pow10((j + 1) as nat) == 10 * pow10(j as nat));
            lemma_pow10_increases(j as nat + 1, 20);
        }
        acc = acc * 10 + d;
        j = j + 1;
        proof {
            assert(acc as int / 10 == acc0 && acc as int % 10 == d) by {
                lemma_fundamental_div_mod_converse_div(acc as int, 10, acc0, d as int);
                lemma_fundamental_div_mod_converse_mod(acc as int, 10, acc0, d as int);
            }
            assert(buf@.subrange(i as int, i + j) =~= buf@.subrange(i as int, i + j - 1).push(c));
            assert(dec_digits(acc as int, j as nat) == dec_digits(acc0, (j - 1) as nat).push(
                (48 + acc as int % 10) as u8,
            ));
        }
    }
    if acc > 0xffff_ffff_ffff_ffffu128 {
        proof {
            assert forall|v: u64|
                i + k <= buf@.len() && v < pow10(k as nat) && buf@.subrange(i as int, i + k)
                    == dec_digits(v as int, k as nat) implies false by {
                lemma_dec_digits_injective(acc as int, v as int, k as nat);
            }
        }
        return None;
    }
    let v: u64 = acc as u64;
    proof {
        assert forall|v0: u64|
            i + k <= buf@.len() && v0 < pow10(k as nat) && buf@.subrange(i as int, i + k)
                == dec_digits(v0 as int, k as nat) implies v0 == v by {
            lemma_dec_digits_injective(acc as int, v0 as int, k as nat);
        }
    }
    Some(v)
}

/// Appends the bytes of a literal.
pub fn push_lit(out: &mut Vec<u8>, s: &str)
    ensures
        final(out)@ == old(out)@ + s.spec_bytes(),
{
    let ghost pre = out@;
    let bytes = s.as_bytes();
    let n = bytes.len();
    let mut i: usize = 0;
    while i < n
        invariant
            i <= n,
            n == bytes@.len(),
            bytes@ == s.spec_bytes(),
            out@ =~= pre + bytes@.subrange(0, i as int),
        decreases n - i,
    {
        out.push(bytes[i]);
        proof {
            assert(pre + bytes@.subrange(0, i + 1) =~= (pre + bytes@.subrange(0, i as int)).push(
                bytes@[i as int],
            ));
        }
        i = i + 1;
    }
    proof {
        assert(bytes@.subrange(0, n as int) =~= bytes@);
    }
}

/// Expects the bytes of a literal at `i`: succeeds exactly when they stand
/// there, and then consumes exactly them.
pub fn expect_lit(buf: &Vec<u8>, i: usize, s: &str) -> (r: Option<usize>)
    ensures
        r matches Some(j) ==> {
            &&& j == i + s.spec_bytes().len()
            &&& j <= buf@.len()
            &&& buf@.subrange(i as int, j as int) == s.spec_bytes()
        },
        r is Some <==> i + s.spec_bytes().len() <= buf@.len() && buf@.subrange(
            i as int,
            i + s.spec_bytes().len(),
        ) == s.spec_bytes(),
{
    let bytes = s.as_bytes();
    let m = bytes.len();
    let n = buf.len();
    if n < m || i > n - m {
        return None;
    }
    let mut j: usize = 0;
    while j < m
        invariant
            j <= m,
            m == bytes@.len(),
            n == buf@.len(),
            i + m <= n,
            bytes@ == s.spec_bytes(),
            forall|l: int| 0 <= l < j ==> buf@[i + l] == bytes@[l],
        decreases m - j,
    {
        if buf[i + j] != bytes[j] {
            proof {
                assert(buf@.subrange(i as int, i + m)[j as int] != s.spec_bytes()[j as int]);
            }
            return None;
        }
        j = j + 1;
    }
    proof {
        assert(buf@.subrange(i as int, i + m) =~= bytes@);
    }
    Some(i + m)
}

/// The canonical bytes of an id-only creation payload.
pub open spec fn uuid_event_bytes(d: crate::event_service::UuidEventData) -> Seq<u8> {
    "{\"id\":\"".spec_bytes() + uuid_chars(d.id) + "\"}".spec_bytes()
}

/// Encodes an id-only creation payload.
pub fn encode_uuid_event(d: &crate::event_service::UuidEventData) -> (r: Vec<u8>)
    ensures
        r@ == uuid_event_bytes(*d),
{
    let mut out: Vec<u8> = Vec::new();
    push_lit(&mut out, "{\"id\":\"");
    push_uuid_text(&mut out, &d.id);
    push_lit(&mut out, "\"}");
    proof {
        assert(out@ =~= uuid_event_bytes(*d));
    }
    out
}

/// Decodes an id-only creation payload: accepts exactly the canonical
/// encoding, and decoding an encoded payload yields it back.
pub fn decode_uuid_event(buf: &Vec<u8>) -> (r: Option<crate::event_service::UuidEventData>)
    ensures
        r matches Some(d) ==> buf@ == uuid_event_bytes(d),
        forall|d0: crate::event_service::UuidEventData| buf@ == uuid_event_bytes(d0) ==> r == Some(
            d0,
        ),
{
    let total_len = buf.len();
    proof {
        assert forall|d0: crate::event_service::UuidEventData|
            buf@ == uuid_event_bytes(d0) implies {
            &&& buf@.subrange(0, "{\"id\":\"".spec_bytes().len() as int) == "{\"id\":\"".spec_bytes()
            &&& buf@.subrange(
                "{\"id\":\"".spec_bytes().len() as int,
                "{\"id\":\"".spec_bytes().len() as int + 36,
            ) == uuid_chars(d0.id)
            &&& buf@.subrange(
                "{\"id\":\"".spec_bytes().len() as int + 36,
                buf@.len() as int,
            ) == "\"}".spec_bytes()
            &&& buf@.len() == "{\"id\":\"".spec_bytes().len() as int + 36 + "\"}".spec_bytes().len()
        } by {
            crate::ids::lemma_uuid_chars_len(d0.id);
            assert(buf@.subrange(0, "{\"id\":\"".spec_bytes().len() as int)
                =~= "{\"id\":\"".spec_bytes());
            assert(buf@.subrange(
                "{\"id\":\"".spec_bytes().len() as int,
                "{\"id\":\"".spec_bytes().len() as int + 36,
            ) =~= uuid_chars(d0.id));
            assert(buf@.subrange("{\"id\":\"".spec_bytes().len() as int + 36, buf@.len() as int)
                =~= "\"}".spec_bytes());
        }
    }
    let j1 = match expect_lit(buf, 0, "{\"id\":\"") {
        Some(j) => j,
        None => {
            return None;
        },
    };
    let id = match parse_uuid_text(buf, j1) {
        Some(u) => u,
        None => {
            return None;
        },
    };
    let j2 = j1 + 36;
    let j3 = match expect_lit(buf, j2, "\"}") {
        Some(j) => j,
        None => {
            return None;
        },
    };
    if j3 != buf.len() {
        return None;
    }
    let d = crate::event_service::UuidEventData { id };
    proof {
        assert(buf@ =~= uuid_event_bytes(d));
    }
    Some(d)
}

/// The canonical bytes of a user-address payload.
pub open spec fn user_address_event_bytes(d: crate::event_service::UserAddressEventData) -> Seq<
    u8,
> {
    "{\"id\":\"".spec_bytes() + uuid_chars(d.id) + "\",\"userId\":\"".spec_bytes() + uuid_chars(
        d.user_id,
    ) + "\"}".spec_bytes()
}

/// Encodes a user-address payload.
pub fn encode_user_address_event(d: &crate::event_service::UserAddressEventData) -> (r: Vec<u8>)
    ensures
        r@ == user_address_event_bytes(*d),
{
    let mut out: Vec<u8> = Vec::new();
    push_lit(&mut out, "{\"id\":\"");
    push_uuid_text(&mut out, &d.id);
    push_lit(&mut out, "\",\"userId\":\"");
    push_uuid_text(&mut out, &d.user_id);
    push_lit(&mut out, "\"}");
    proof {
        assert(out@ =~= user_address_event_bytes(*d));
    }
    out
}

/// Decodes a user-address payload: accepts exactly the canonical encoding.
#[verifier::rlimit(100)]
#[verifier::spinoff_prover]
pub fn decode_user_address_event(buf: &Vec<u8>) -> (r: Option<
    crate::event_service::UserAddressEventData,
>)
    ensures
        r matches Some(d) ==> buf@ == user_address_event_bytes(d),
        forall|d0: crate::event_service::UserAddressEventData|
            buf@ == user_address_event_bytes(d0) ==> r == Some(d0),
{
    let total_len = buf.len();
    proof {
        let l1 = "{\"id\":\"".spec_bytes().len() as int;
        let l2 = "\",\"userId\":\"".spec_bytes().len() as int;
        assert forall|d0: crate::event_service::UserAddressEventData|
            buf@ == user_address_event_bytes(d0) implies {
            &&& buf@.subrange(0, l1) == "{\"id\":\"".spec_bytes()
            &&& buf@.subrange(l1, l1 + 36) == uuid_chars(d0.id)
            &&& buf@.subrange(l1 + 36, l1 + 36 + l2) == "\",\"userId\":\"".spec_bytes()
            &&& buf@.subrange(l1 + 36 + l2, l1 + 36 + l2 + 36) == uuid_chars(d0.user_id)
            &&& buf@.subrange(l1 + 36 + l2 + 36, buf@.len() as int) == "\"}".spec_bytes()
            &&& buf@.len() == l1 + 36 + l2 + 36 + "\"}".spec_bytes().len()
        } by {
            crate::ids::lemma_uuid_chars_len(d0.id);
            crate::ids::lemma_uuid_chars_len(d0.user_id);
            assert(buf@.subrange(0, l1) =~= "{\"id\":\"".spec_bytes());
            assert(buf@.subrange(l1, l1 + 36) =~= uuid_chars(d0.id));
            assert(buf@.subrange(l1 + 36, l1 + 36 + l2) =~= "\",\"userId\":\"".spec_bytes());
            assert(buf@.subrange(l1 + 36 + l2, l1 + 36 + l2 + 36) =~= uuid_chars(d0.user_id));
            assert(buf@.subrange(l1 + 36 + l2 + 36, buf@.len() as int) =~= "\"}".spec_bytes());
        }
    }
    let j1 = match expect_lit(buf, 0, "{\"id\":\"") {
        Some(j) => j,
        None => {
            return None;
        },
    };
    let id = match parse_uuid_text(buf, j1) {
        Some(u) => u,
        None => {
            return None;
        },
    };
    let j2 = match expect_lit(buf, j1 + 36, "\",\"userId\":\"") {
        Some(j) => j,
        None => {
            return None;
        },
    };
    let user_id = match parse_uuid_text(buf, j2) {
        Some(u) => u,
        None => {
            return None;
        },
    };
    let j3 = match expect_lit(buf, j2 + 36, "\"}") {
        Some(j) => j,
        None => {
            return None;
        },
    };
    if j3 != buf.len() {
        return None;
    }
    let d = crate::event_service::UserAddressEventData { id, user_id };
    proof {
        assert(buf@ =~= user_address_event_bytes(d));
    }
    Some(d)
}

/// The canonical bytes of a product-variant-version payload. The price is
/// a fixed-width decimal run.
pub open spec fn product_variant_version_event_bytes(
    d: crate::event_service::ProductVariantVersionEventData,
) -> Seq<u8> {
    "{\"id\":\"".spec_bytes() + uuid_chars(d.id) + "\",\"retailPrice\":".spec_bytes() + dec_digits(
        d.retail_price as int,
        10,
    ) + ",\"taxRateId\":\"".spec_bytes() + uuid_chars(d.tax_rate_id)
        + "\",\"productVariantId\":\"".spec_bytes() + uuid_chars(d.product_variant_id)
        + "\"}".spec_bytes()
}

/// Encodes a product-variant-version payload.
pub fn encode_product_variant_version_event(
    d: &crate::event_service::ProductVariantVersionEventData,
) -> (r: Vec<u8>)
    ensures
        r@ == product_variant_version_event_bytes(*d),
{
    let mut out: Vec<u8> = Vec::new();
    push_lit(&mut out, "{\"id\":\"");
    push_uuid_text(&mut out, &d.id);
    push_lit(&mut out, "\",\"retailPrice\":");
    push_dec(&mut out, d.retail_price as u64, 10);
    push_lit(&mut out, ",\"taxRateId\":\"");
    push_uuid_text(&mut out, &d.tax_rate_id);
    push_lit(&mut out, "\",\"productVariantId\":\"");
    push_uuid_text(&mut out, &d.product_variant_id);
    push_lit(&mut out, "\"}");
    proof {
        assert(out@ =~= product_variant_version_event_bytes(*d));
    }
    out
}


/// The pieces of a canonical product-variant-version payload.
proof fn lemma_pvv_event_pieces(buf: Seq<u8>, d0: crate::event_service::ProductVariantVersionEventData)
    requires
        buf == product_variant_version_event_bytes(d0),
    ensures
        ({
            let l1 = "{\"id\":\"".spec_bytes().len() as int;
            let l2 = "\",\"retailPrice\":".spec_bytes().len() as int;
            let l3 = ",\"taxRateId\":\"".spec_bytes().len() as int;
            let l4 = "\",\"productVariantId\":\"".spec_bytes().len() as int;
            &&& buf.subrange(0, l1) == "{\"id\":\"".spec_bytes()
            &&& buf.subrange(l1, l1 + 36) == uuid_chars(d0.id)
            &&& buf.subrange(l1 + 36, l1 + 36 + l2) == "\",\"retailPrice\":".spec_bytes()
            &&& buf.subrange(l1 + 36 + l2, l1 + 46 + l2) == dec_digits(d0.retail_price as int, 10)
            &&& buf.subrange(l1 + 46 + l2, l1 + 46 + l2 + l3) == ",\"taxRateId\":\"".spec_bytes()
            &&& buf.subrange(l1 + 46 + l2 + l3, l1 + 82 + l2 + l3) == uuid_chars(d0.tax_rate_id)
            &&& buf.subrange(l1 + 82 + l2 + l3, l1 + 82 + l2 + l3 + l4)
                == "\",\"productVariantId\":\"".spec_bytes()
            &&& buf.subrange(l1 + 82 + l2 + l3 + l4, l1 + 118 + l2 + l3 + l4) == uuid_chars(
                d0.product_variant_id,
            )
            &&& buf.subrange(l1 + 118 + l2 + l3 + l4, buf.len() as int) == "\"}".spec_bytes()
            &&& buf.len() == l1 + 118 + l2 + l3 + l4 + "\"}".spec_bytes().len()
        }),
{
    let l1 = "{\"id\":\"".spec_bytes().len() as int;
    let l2 = "\",\"retailPrice\":".spec_bytes().len() as int;
    let l3 = ",\"taxRateId\":\"".spec_bytes().len() as int;
    let l4 = "\",\"productVariantId\":\"".spec_bytes().len() as int;
    crate::ids::lemma_uuid_chars_len(d0.id);
    crate::ids::lemma_uuid_chars_len(d0.tax_rate_id);
    crate::ids::lemma_uuid_chars_len(d0.product_variant_id);
    lemma_dec_digits_are_digits(d0.retail_price as int, 10);
    assert(buf.subrange(0, l1) =~= "{\"id\":\"".spec_bytes());
    assert(buf.subrange(l1, l1 + 36) =~= uuid_chars(d0.id));
    assert(buf.subrange(l1 + 36, l1 + 36 + l2) =~= "\",\"retailPrice\":".spec_bytes());
    assert(buf.subrange(l1 + 36 + l2, l1 + 46 + l2) =~= dec_digits(d0.retail_price as int, 10));
    assert(buf.subrange(l1 + 46 + l2, l1 + 46 + l2 + l3) =~= ",\"taxRateId\":\"".spec_bytes());
    assert(buf.subrange(l1 + 46 + l2 + l3, l1 + 82 + l2 + l3) =~= uuid_chars(d0.tax_rate_id));
    assert(buf.subrange(l1 + 82 + l2 + l3, l1 + 82 + l2 + l3 + l4)
        =~= "\",\"productVariantId\":\"".spec_bytes());
    assert(buf.subrange(l1 + 82 + l2 + l3 + l4, l1 + 118 + l2 + l3 + l4) =~= uuid_chars(
        d0.product_variant_id,
    ));
    assert(buf.subrange(l1 + 118 + l2 + l3 + l4, buf.len() as int) =~= "\"}".spec_bytes());
}

/// The pieces of a canonical tax-rate-version payload.
proof fn lemma_trv_event_pieces(buf: Seq<u8>, d0: crate::event_service::TaxRateVersionEventData)
    requires
        buf == tax_rate_version_event_bytes(d0),
    ensures
        ({
            let l1 = "{\"id\":\"".spec_bytes().len() as int;
            let l2 = "\",\"ratePpm\":".spec_bytes().len() as int;
            let l3 = ",\"version\":".spec_bytes().len() as int;
            let l4 = ",\"taxRateId\":\"".spec_bytes().len() as int;
            &&& buf.subrange(0, l1) == "{\"id\":\"".spec_bytes()
            &&& buf.subrange(l1, l1 + 36) == uuid_chars(d0.id)
            &&& buf.subrange(l1 + 36, l1 + 36 + l2) == "\",\"ratePpm\":".spec_bytes()
            &&& buf.subrange(l1 + 36 + l2, l1 + 56 + l2) == dec_digits(d0.rate_ppm as int, 20)
            &&& buf.subrange(l1 + 56 + l2, l1 + 56 + l2 + l3) == ",\"version\":".spec_bytes()
            &&& buf.subrange(l1 + 56 + l2 + l3, l1 + 66 + l2 + l3) == dec_digits(
                d0.version as int,
                10,
            )
            &&& buf.subrange(l1 + 66 + l2 + l3, l1 + 66 + l2 + l3 + l4)
                == ",\"taxRateId\":\"".spec_bytes()
            &&& buf.subrange(l1 + 66 + l2 + l3 + l4, l1 + 102 + l2 + l3 + l4) == uuid_chars(
                d0.tax_rate_id,
            )
            &&& buf.subrange(l1 + 102 + l2 + l3 + l4, buf.len() as int) == "\"}".spec_bytes()
            &&& buf.len() == l1 + 102 + l2 + l3 + l4 + "\"}".spec_bytes().len()
        }),
{
    let l1 = "{\"id\":\"".spec_bytes().len() as int;
    let l2 = "\",\"ratePpm\":".spec_bytes().len() as int;
    let l3 = ",\"version\":".spec_bytes().len() as int;
    let l4 = ",\"taxRateId\":\"".spec_bytes().len() as int;
    crate::ids::lemma_uuid_chars_len(d0.id);
    crate::ids::lemma_uuid_chars_len(d0.tax_rate_id);
    lemma_dec_digits_are_digits(d0.rate_ppm as int, 20);
    lemma_dec_digits_are_digits(d0.version as int, 10);
    assert(buf.subrange(0, l1) =~= "{\"id\":\"".spec_bytes());
    assert(buf.subrange(l1, l1 + 36) =~= uuid_chars(d0.id));
    assert(buf.subrange(l1 + 36, l1 + 36 + l2) =~= "\",\"ratePpm\":".spec_bytes());
    assert(buf.subrange(l1 + 36 + l2, l1 + 56 + l2) =~= dec_digits(d0.rate_ppm as int, 20));
    assert(buf.subrange(l1 + 56 + l2, l1 + 56 + l2 + l3) =~= ",\"version\":".spec_bytes());
    assert(buf.subrange(l1 + 56 + l2 + l3, l1 + 66 + l2 + l3) =~= dec_digits(
        d0.version as int,
        10,
    ));
    assert(buf.subrange(l1 + 66 + l2 + l3, l1 + 66 + l2 + l3 + l4)
        =~= ",\"taxRateId\":\"".spec_bytes());
    assert(buf.subrange(l1 + 66 + l2 + l3 + l4, l1 + 102 + l2 + l3 + l4) =~= uuid_chars(
        d0.tax_rate_id,
    ));
    assert(buf.subrange(l1 + 102 + l2 + l3 + l4, buf.len() as int) =~= "\"}".spec_bytes());
}


/// Reassembles a canonical product-variant-version payload from its
/// pieces.
proof fn lemma_pvv_event_assemble(buf: Seq<u8>, d: crate::event_service::ProductVariantVersionEventData)
    requires
        ({
            let l1 = "{\"id\":\"".spec_bytes().len() as int;
            let l2 = "\",\"retailPrice\":".spec_bytes().len() as int;
            let l3 = ",\"taxRateId\":\"".spec_bytes().len() as int;
            let l4 = "\",\"productVariantId\":\"".spec_bytes().len() as int;
            &&& buf.subrange(0, l1) == "{\"id\":\"".spec_bytes()
            &&& buf.subrange(l1, l1 + 36) == uuid_chars(d.id)
            &&& buf.subrange(l1 + 36, l1 + 36 + l2) == "\",\"retailPrice\":".spec_bytes()
            &&& buf.subrange(l1 + 36 + l2, l1 + 46 + l2) == dec_digits(d.retail_price as int, 10)
            &&& buf.subrange(l1 + 46 + l2, l1 + 46 + l2 + l3) == ",\"taxRateId\":\"".spec_bytes()
            &&& buf.subrange(l1 + 46 + l2 + l3, l1 + 82 + l2 + l3) == uuid_chars(d.tax_rate_id)
            &&& buf.subrange(l1 + 82 + l2 + l3, l1 + 82 + l2 + l3 + l4)
                == "\",\"productVariantId\":\"".spec_bytes()
            &&& buf.subrange(l1 + 82 + l2 + l3 + l4, l1 + 118 + l2 + l3 + l4) == uuid_chars(
                d.product_variant_id,
            )
            &&& buf.subrange(l1 + 118 + l2 + l3 + l4, buf.len() as int) == "\"}".spec_bytes()
            &&& buf.len() == l1 + 118 + l2 + l3 + l4 + "\"}".spec_bytes().len()
        }),
    ensures
        buf == product_variant_version_event_bytes(d),
{
    crate::ids::lemma_uuid_chars_len(d.id);
    crate::ids::lemma_uuid_chars_len(d.tax_rate_id);
    crate::ids::lemma_uuid_chars_len(d.product_variant_id);
    lemma_dec_digits_are_digits(d.retail_price as int, 10);
    assert(buf =~= product_variant_version_event_bytes(d));
}

/// Decodes a product-variant-version payload: accepts exactly the
/// canonical encoding. A price that does not fit the stored width is
/// refused.
#[verifier::rlimit(100)]
#[verifier::spinoff_prover]
pub fn decode_product_variant_version_event(buf: &Vec<u8>) -> (r: Option<
    crate::event_service::ProductVariantVersionEventData,
>)
    ensures
        r matches Some(d) ==> buf@ == product_variant_version_event_bytes(d),
        forall|d0: crate::event_service::ProductVariantVersionEventData|
            buf@ == product_variant_version_event_bytes(d0) ==> r == Some(d0),
{
    let total_len = buf.len();
    proof {
        lemma_pow10_values();
        let l1 = "{\"id\":\"".spec_bytes().len() as int;
        let l2 = "\",\"retailPrice\":".spec_bytes().len() as int;
        let l3 = ",\"taxRateId\":\"".spec_bytes().len() as int;
        let l4 = "\",\"productVariantId\":\"".spec_bytes().len() as int;
        assert forall|d0: crate::event_service::ProductVariantVersionEventData|
            buf@ == product_variant_version_event_bytes(d0) implies {
            &&& buf@.subrange(0, l1) == "{\"id\":\"".spec_bytes()
            &&& buf@.subrange(l1, l1 + 36) == uuid_chars(d0.id)
            &&& buf@.subrange(l1 + 36, l1 + 36 + l2) == "\",\"retailPrice\":".spec_bytes()
            &&& buf@.subrange(l1 + 36 + l2, l1 + 46 + l2) == dec_digits(d0.retail_price as int, 10)
            &&& buf@.subrange(l1 + 46 + l2, l1 + 46 + l2 + l3) == ",\"taxRateId\":\"".spec_bytes()
            &&& buf@.subrange(l1 + 46 + l2 + l3, l1 + 82 + l2 + l3) == uuid_chars(d0.tax_rate_id)
            &&& buf@.subrange(l1 + 82 + l2 + l3, l1 + 82 + l2 + l3 + l4)
                == "\",\"productVariantId\":\"".spec_bytes()
            &&& buf@.subrange(l1 + 82 + l2 + l3 + l4, l1 + 118 + l2 + l3 + l4) == uuid_chars(
                d0.product_variant_id,
            )
            &&& buf@.subrange(l1 + 118 + l2 + l3 + l4, buf@.len() as int) == "\"}".spec_bytes()
            &&& buf@.len() == l1 + 118 + l2 + l3 + l4 + "\"}".spec_bytes().len()
        } by {
            lemma_pvv_event_pieces(buf@, d0);
        }
    }
    let j1 = match expect_lit(buf, 0, "{\"id\":\"") {
        Some(j) => j,
        None => {
            return None;
        },
    };
    let id = match parse_uuid_text(buf, j1) {
        Some(u) => u,
        None => {
            return None;
        },
    };
    let j2 = match expect_lit(buf, j1 + 36, "\",\"retailPrice\":") {
        Some(j) => j,
        None => {
            return None;
        },
    };
    let price64 = match parse_dec_run(buf, j2, 10) {
        Some(v) => v,
        None => {
            return None;
        },
    };
    if price64 > 0xffff_ffffu64 {
        proof {
            lemma_pow10_values();
            assert forall|d0: crate::event_service::ProductVariantVersionEventData|
                buf@ == product_variant_version_event_bytes(d0) implies false by {
                lemma_dec_digits_injective(price64 as int, d0.retail_price as int, 10);
            }
        }
        return None;
    }
    let retail_price: u32 = price64 as u32;
    let j3 = match expect_lit(buf, j2 + 10, ",\"taxRateId\":\"") {
        Some(j) => j,
        None => {
            return None;
        },
    };
    let tax_rate_id = match parse_uuid_text(buf, j3) {
        Some(u) => u,
        None => {
            return None;
        },
    };
    let j4 = match expect_lit(buf, j3 + 36, "\",\"productVariantId\":\"") {
        Some(j) => j,
        None => {
            return None;
        },
    };
    let product_variant_id = match parse_uuid_text(buf, j4) {
        Some(u) => u,
        None => {
            return None;
        },
    };
    let j5 = match expect_lit(buf, j4 + 36, "\"}") {
        Some(j) => j,
        None => {
            return None;
        },
    };
    if j5 != buf.len() {
        return None;
    }
    let d = crate::event_service::ProductVariantVersionEventData {
        id,
        retail_price,
        tax_rate_id,
        product_variant_id,
    };
    proof {
        lemma_pvv_event_assemble(buf@, d);
    }
    Some(d)
}

/// The canonical bytes of a tax-rate-version payload. The rate is carried
/// in parts per million as a fixed-width decimal run.
pub open spec fn tax_rate_version_event_bytes(
    d: crate::event_service::TaxRateVersionEventData,
) -> Seq<u8> {
    "{\"id\":\"".spec_bytes() + uuid_chars(d.id) + "\",\"ratePpm\":".spec_bytes() + dec_digits(
        d.rate_ppm as int,
        20,
    ) + ",\"version\":".spec_bytes() + dec_digits(d.version as int, 10)
        + ",\"taxRateId\":\"".spec_bytes() + uuid_chars(d.tax_rate_id) + "\"}".spec_bytes()
}

/// Encodes a tax-rate-version payload.
pub fn encode_tax_rate_version_event(
    d: &crate::event_service::TaxRateVersionEventData,
) -> (r: Vec<u8>)
    ensures
        r@ == tax_rate_version_event_bytes(*d),
{
    let mut out: Vec<u8> = Vec::new();
    push_lit(&mut out, "{\"id\":\"");
    push_uuid_text(&mut out, &d.id);
    push_lit(&mut out, "\",\"ratePpm\":");
    push_dec(&mut out, d.rate_ppm, 20);
    push_lit(&mut out, ",\"version\":");
    push_dec(&mut out, d.version as u64, 10);
    push_lit(&mut out, ",\"taxRateId\":\"");
    push_uuid_text(&mut out, &d.tax_rate_id);
    push_lit(&mut out, "\"}");
    proof {
        assert(out@ =~= tax_rate_version_event_bytes(*d));
    }
    out
}

/// Decodes a tax-rate-version payload: accepts exactly the canonical
/// encoding.
#[verifier::rlimit(80)]
pub fn decode_tax_rate_version_event(buf: &Vec<u8>) -> (r: Option<
    crate::event_service::TaxRateVersionEventData,
>)
    ensures
        r matches Some(d) ==> buf@ == tax_rate_version_event_bytes(d),
        forall|d0: crate::event_service::TaxRateVersionEventData|
            buf@ == tax_rate_version_event_bytes(d0) ==> r == Some(d0),
{
    let total_len = buf.len();
    proof {
        lemma_pow10_values();
        let l1 = "{\"id\":\"".spec_bytes().len() as int;
        let l2 = "\",\"ratePpm\":".spec_bytes().len() as int;
        let l3 = ",\"version\":".spec_bytes().len() as int;
        let l4 = ",\"taxRateId\":\"".spec_bytes().len() as int;
        assert forall|d0: crate::event_service::TaxRateVersionEventData|
            buf@ == tax_rate_version_event_bytes(d0) implies {
            &&& buf@.subrange(0, l1) == "{\"id\":\"".spec_bytes()
            &&& buf@.subrange(l1, l1 + 36) == uuid_chars(d0.id)
            &&& buf@.subrange(l1 + 36, l1 + 36 + l2) == "\",\"ratePpm\":".spec_bytes()
            &&& buf@.subrange(l1 + 36 + l2, l1 + 56 + l2) == dec_digits(d0.rate_ppm as int, 20)
            &&& buf@.subrange(l1 + 56 + l2, l1 + 56 + l2 + l3) == ",\"version\":".spec_bytes()
            &&& buf@.subrange(l1 + 56 + l2 + l3, l1 + 66 + l2 + l3) == dec_digits(
                d0.version as int,
                10,
            )
            &&& buf@.subrange(l1 + 66 + l2 + l3, l1 + 66 + l2 + l3 + l4)
                == ",\"taxRateId\":\"".spec_bytes()
            &&& buf@.subrange(l1 + 66 + l2 + l3 + l4, l1 + 102 + l2 + l3 + l4) == uuid_chars(
                d0.tax_rate_id,
            )
            &&& buf@.subrange(l1 + 102 + l2 + l3 + l4, buf@.len() as int) == "\"}".spec_bytes()
            &&& buf@.len() == l1 + 102 + l2 + l3 + l4 + "\"}".spec_bytes().len()
        } by {
            lemma_trv_event_pieces(buf@, d0);
        }
    }
    let j1 = match expect_lit(buf, 0, "{\"id\":\"") {
        Some(j) => j,
        None => {
            return None;
        },
    };
    let id = match parse_uuid_text(buf, j1) {
        Some(u) => u,
        None => {
            return None;
        },
    };
    let j2 = match expect_lit(buf, j1 + 36, "\",\"ratePpm\":") {
        Some(j) => j,
        None => {
            return None;
        },
    };
    let rate_ppm = match parse_dec_run(buf, j2, 20) {
        Some(v) => v,
        None => {
            return None;
        },
    };
    let j3 = match expect_lit(buf, j2 + 20, ",\"version\":") {
        Some(j) => j,
        None => {
            return None;
        },
    };
    let version64 = match parse_dec_run(buf, j3, 10) {
        Some(v) => v,
        None => {
            return None;
        },
    };
    if version64 > 0xffff_ffffu64 {
        proof {
            lemma_pow10_values();
            assert forall|d0: crate::event_service::TaxRateVersionEventData|
                buf@ == tax_rate_version_event_bytes(d0) implies false by {
                lemma_dec_digits_injective(version64 as int, d0.version as int, 10);
            }
        }
        return None;
    }
    let version: u32 = version64 as u32;
    let j4 = match expect_lit(buf, j3 + 10, ",\"taxRateId\":\"") {
        Some(j) => j,
        None => {
            return None;
        },
    };
    let tax_rate_id = match parse_uuid_text(buf, j4) {
        Some(u) => u,
        None => {
            return None;
        },
    };
    let j5 = match expect_lit(buf, j4 + 36, "\"}") {
        Some(j) => j,
        None => {
            return None;
        },
    };
    if j5 != buf.len() {
        return None;
    }
    let d = crate::event_service::TaxRateVersionEventData { id, rate_ppm, version, tax_rate_id };
    proof {
        lemma_pow10_values();
        assert(rate_ppm < pow10(20)) by {
            lemma_pow10_increases(16, 20);
        }
        assert(buf@ =~= tax_rate_version_event_bytes(d));
    }
    Some(d)
}

/// The canonical bytes of a product-variant-update payload: the raw wire
/// text of the visibility flag stands between quotes, so the form is only
/// defined for flag text free of quote bytes.
pub open spec fn update_product_variant_event_bytes(
    d: crate::event_service::UpdateProductVariantEventData,
) -> Seq<u8> {
    "{\"id\":\"".spec_bytes() + uuid_chars(d.id) + "\",\"isPubliclyVisible\":\"".spec_bytes()
        + d.is_publicly_visible@ + seq![34u8] + "}".spec_bytes()
}

/// The flag text holds no quote byte.
pub open spec fn quote_free(s: Seq<u8>) -> bool {
    forall|i: int| 0 <= i < s.len() ==> s[i] != 34u8
}

/// Encodes a product-variant-update payload.
pub fn encode_update_product_variant_event(
    d: &crate::event_service::UpdateProductVariantEventData,
) -> (r: Vec<u8>)
    ensures
        r@ == update_product_variant_event_bytes(*d),
{
    let mut out: Vec<u8> = Vec::new();
    push_lit(&mut out, "{\"id\":\"");
    push_uuid_text(&mut out, &d.id);
    push_lit(&mut out, "\",\"isPubliclyVisible\":\"");
    let n = d.is_publicly_visible.len();
    let ghost mid = out@;
    let mut i: usize = 0;
    while i < n
        invariant
            i <= n,
            n == d.is_publicly_visible@.len(),
            out@ =~= mid + d.is_publicly_visible@.subrange(0, i as int),
        decreases n - i,
    {
        out.push(d.is_publicly_visible[i]);
        proof {
            assert(mid + d.is_publicly_visible@.subrange(0, i + 1) =~= (mid
                + d.is_publicly_visible@.subrange(0, i as int)).push(
                d.is_publicly_visible@[i as int],
            ));
        }
        i = i + 1;
    }
    proof {
        assert(d.is_publicly_visible@.subrange(0, n as int) =~= d.is_publicly_visible@);
    }
    out.push(34);
    push_lit(&mut out, "}");
    proof {
        assert(out@ =~= update_product_variant_event_bytes(*d));
    }
    out
}

/// Decodes a product-variant-update payload: accepts exactly the
/// canonical encodings, whose flag text is quote-free by construction.
pub fn decode_update_product_variant_event(buf: &Vec<u8>) -> (r: Option<
    crate::event_service::UpdateProductVariantEventData,
>)
    ensures
        r matches Some(d) ==> buf@ == update_product_variant_event_bytes(d) && quote_free(
            d.is_publicly_visible@,
        ),
        forall|d0: crate::event_service::UpdateProductVariantEventData|
            buf@ == update_product_variant_event_bytes(d0) && quote_free(d0.is_publicly_visible@)
                ==> (r matches Some(d) && d.id == d0.id && d.is_publicly_visible@
                == d0.is_publicly_visible@),
{
    let total_len = buf.len();
    proof {
        let l1 = "{\"id\":\"".spec_bytes().len() as int;
        let l2 = "\",\"isPubliclyVisible\":\"".spec_bytes().len() as int;
        assert forall|d0: crate::event_service::UpdateProductVariantEventData|
            buf@ == update_product_variant_event_bytes(d0) && quote_free(
                d0.is_publicly_visible@,
            ) implies {
            let m = d0.is_publicly_visible@.len() as int;
            &&& buf@.subrange(0, l1) == "{\"id\":\"".spec_bytes()
            &&& buf@.subrange(l1, l1 + 36) == uuid_chars(d0.id)
            &&& buf@.subrange(l1 + 36, l1 + 36 + l2) == "\",\"isPubliclyVisible\":\"".spec_bytes()
            &&& buf@.subrange(l1 + 36 + l2, l1 + 36 + l2 + m) == d0.is_publicly_visible@
            &&& buf@[l1 + 36 + l2 + m] == 34u8
            &&& buf@.subrange(l1 + 37 + l2 + m, buf@.len() as int) == "}".spec_bytes()
            &&& buf@.len() == l1 + 37 + l2 + m + "}".spec_bytes().len()
        } by {
            crate::ids::lemma_uuid_chars_len(d0.id);
            let m = d0.is_publicly_visible@.len() as int;
            assert(buf@.subrange(0, l1) =~= "{\"id\":\"".spec_bytes());
            assert(buf@.subrange(l1, l1 + 36) =~= uuid_chars(d0.id));
            assert(buf@.subrange(l1 + 36, l1 + 36 + l2)
                =~= "\",\"isPubliclyVisible\":\"".spec_bytes());
            assert(buf@.subrange(l1 + 36 + l2, l1 + 36 + l2 + m) =~= d0.is_publicly_visible@);
            assert(buf@.subrange(l1 + 37 + l2 + m, buf@.len() as int) =~= "}".spec_bytes());
        }
    }
    let j1 = match expect_lit(buf, 0, "{\"id\":\"") {
        Some(j) => j,
        None => {
            return None;
        },
    };
    let id = match parse_uuid_text(buf, j1) {
        Some(u) => u,
        None => {
            return None;
        },
    };
    let j2 = match expect_lit(buf, j1 + 36, "\",\"isPubliclyVisible\":\"") {
        Some(j) => j,
        None => {
            return None;
        },
    };
    // the flag text runs to the next quote
    let mut k: usize = j2;
    while k < total_len && buf[k] != 34
        invariant
            j2 <= k <= total_len,
            total_len == buf@.len(),
            forall|l: int| j2 <= l < k ==> buf@[l] != 34u8,
        decreases total_len - k,
    {
        k = k + 1;
    }
    let mut is_publicly_visible: Vec<u8> = Vec::new();
    let mut i: usize = j2;
    while i < k
        invariant
            j2 <= i <= k <= total_len,
            total_len == buf@.len(),
            is_publicly_visible@ =~= buf@.subrange(j2 as int, i as int),
        decreases k - i,
    {
        is_publicly_visible.push(buf[i]);
        proof {
            assert(is_publicly_visible@ =~= buf@.subrange(j2 as int, i + 1));
        }
        i = i + 1;
    }
    if k >= total_len {
        return None;
    }
    let j3 = match expect_lit(buf, k + 1, "}") {
        Some(j) => j,
        None => {
            return None;
        },
    };
    if j3 != total_len {
        return None;
    }
    let d = crate::event_service::UpdateProductVariantEventData { id, is_publicly_visible };
    proof {
        assert(d.is_publicly_visible@ == buf@.subrange(j2 as int, k as int));
        assert forall|l: int|
            0 <= l < d.is_publicly_visible@.len() implies d.is_publicly_visible@[l] != 34u8 by {
            assert(d.is_publicly_visible@[l] == buf@[j2 + l]);
        }
        assert(buf@[k as int] == 34u8);
        assert(buf@ =~= update_product_variant_event_bytes(d));
    }
    Some(d)
}

/// The canonical bytes of a list of quoted identifiers, separated by
/// commas.
pub open spec fn ids_array_bytes(ids: Seq<Uuid>) -> Seq<u8>
    decreases ids.len(),
{
    if ids.len() == 0 {
        Seq::empty()
    } else if ids.len() == 1 {
        seq![34u8] + uuid_chars(ids[0]) + seq![34u8]
    } else {
        ids_array_bytes(ids.drop_last()) + seq![44u8] + seq![34u8] + uuid_chars(ids.last())
            + seq![34u8]
    }
}

/// The canonical bytes of a shipment-failure payload.
pub open spec fn shipment_failed_event_bytes(
    d: crate::order_compensation::ShipmentFailedEventData,
) -> Seq<u8> {
    "{\"orderId\":\"".spec_bytes() + uuid_chars(d.order_id) + "\",\"orderItemIds\":[".spec_bytes()
        + ids_array_bytes(d.order_item_ids@) + seq![93u8] + "}".spec_bytes()
}

/// Encodes a shipment-failure payload.
pub fn encode_shipment_failed_event(
    d: &crate::order_compensation::ShipmentFailedEventData,
) -> (r: Vec<u8>)
    ensures
        r@ == shipment_failed_event_bytes(*d),
{
    let mut out: Vec<u8> = Vec::new();
    push_lit(&mut out, "{\"orderId\":\"");
    push_uuid_text(&mut out, &d.order_id);
    push_lit(&mut out, "\",\"orderItemIds\":[");
    let ghost mid = out@;
    let n = d.order_item_ids.len();
    let mut i: usize = 0;
    while i < n
        invariant
            i <= n,
            n == d.order_item_ids@.len(),
            out@ =~= mid + ids_array_bytes(d.order_item_ids@.subrange(0, i as int)),
        decreases n - i,
    {
        let ghost sofar = d.order_item_ids@.subrange(0, i as int);
        if i > 0 {
            out.push(44);
        }
        out.push(34);
        push_uuid_text(&mut out, &d.order_item_ids[i]);
        out.push(34);
        proof {
            let next = d.order_item_ids@.subrange(0, i + 1);
            assert(next.drop_last() =~= sofar);
            assert(next.last() == d.order_item_ids@[i as int]);
            if i == 0 {
                assert(out@ =~= mid + ids_array_bytes(next));
            } else {
                assert(out@ =~= mid + ids_array_bytes(next));
            }
        }
        i = i + 1;
    }
    proof {
        assert(d.order_item_ids@.subrange(0, n as int) =~= d.order_item_ids@);
    }
    out.push(93);
    push_lit(&mut out, "}");
    proof {
        assert(out@ =~= shipment_failed_event_bytes(*d));
    }
    out
}


/// The length of a canonical identifier list: thirty-eight bytes per item
/// plus a comma between neighbours.
pub proof fn lemma_ids_array_len(ids: Seq<Uuid>)
    ensures
        ids.len() == 0 ==> ids_array_bytes(ids).len() == 0,
        ids.len() > 0 ==> ids_array_bytes(ids).len() == 39 * ids.len() - 1,
    decreases ids.len(),
{
    if ids.len() == 1 {
        crate::ids::lemma_uuid_chars_len(ids[0]);
    } else if ids.len() > 1 {
        lemma_ids_array_len(ids.drop_last());
        crate::ids::lemma_uuid_chars_len(ids.last());
    }
}

/// A non-empty canonical identifier list opens with a quote.
pub proof fn lemma_ids_array_first(ids: Seq<Uuid>)
    requires
        ids.len() > 0,
    ensures
        ids_array_bytes(ids).len() > 0,
        ids_array_bytes(ids)[0] == 34u8,
    decreases ids.len(),
{
    lemma_ids_array_len(ids);
    if ids.len() > 1 {
        lemma_ids_array_first(ids.drop_last());
        lemma_ids_array_len(ids.drop_last());
    }
}

/// Splitting a canonical identifier list at an interior position exposes
/// the separating comma.
pub proof fn lemma_ids_array_split(ids: Seq<Uuid>, m: int)
    requires
        0 < m < ids.len(),
    ensures
        ids_array_bytes(ids) == ids_array_bytes(ids.subrange(0, m)) + seq![44u8]
            + ids_array_bytes(ids.subrange(m, ids.len() as int)),
    decreases ids.len(),
{
    if m == ids.len() - 1 {
        assert(ids.drop_last() =~= ids.subrange(0, m));
        let tail = ids.subrange(m, ids.len() as int);
        assert(tail.len() == 1);
        assert(tail[0] == ids.last());
        assert(ids_array_bytes(tail) =~= seq![34u8] + uuid_chars(ids.last()) + seq![34u8]);
        assert(ids_array_bytes(ids) =~= ids_array_bytes(ids.subrange(0, m)) + seq![44u8]
            + ids_array_bytes(tail));
    } else {
        lemma_ids_array_split(ids.drop_last(), m);
        assert(ids.drop_last().subrange(0, m) =~= ids.subrange(0, m));
        let midl = ids.drop_last().subrange(m, ids.len() - 1);
        let full = ids.subrange(m, ids.len() as int);
        assert(full.drop_last() =~= midl);
        assert(full.len() >= 2);
        assert(full.last() == ids.last());
        assert(ids_array_bytes(full) == ids_array_bytes(midl) + seq![44u8] + seq![34u8]
            + uuid_chars(ids.last()) + seq![34u8]);
        assert(ids_array_bytes(ids) =~= ids_array_bytes(ids.subrange(0, m)) + seq![44u8]
            + ids_array_bytes(full));
    }
}

/// The pieces of a canonical shipment-failure payload.
proof fn lemma_shipment_failed_pieces(
    buf: Seq<u8>,
    d0: crate::order_compensation::ShipmentFailedEventData,
)
    requires
        buf == shipment_failed_event_bytes(d0),
    ensures
        ({
            let l1 = "{\"orderId\":\"".spec_bytes().len() as int;
            let l2 = "\",\"orderItemIds\":[".spec_bytes().len() as int;
            let start = l1 + 36 + l2;
            let alen = ids_array_bytes(d0.order_item_ids@).len() as int;
            &&& buf.subrange(0, l1) == "{\"orderId\":\"".spec_bytes()
            &&& buf.subrange(l1, l1 + 36) == uuid_chars(d0.order_id)
            &&& buf.subrange(l1 + 36, start) == "\",\"orderItemIds\":[".spec_bytes()
            &&& buf.subrange(start, start + alen) == ids_array_bytes(d0.order_item_ids@)
            &&& buf[start + alen] == 93u8
            &&& buf.subrange(start + alen + 1, buf.len() as int) == "}".spec_bytes()
            &&& buf.len() == start + alen + 1 + "}".spec_bytes().len()
        }),
{
    let l1 = "{\"orderId\":\"".spec_bytes().len() as int;
    let l2 = "\",\"orderItemIds\":[".spec_bytes().len() as int;
    let start = l1 + 36 + l2;
    let alen = ids_array_bytes(d0.order_item_ids@).len() as int;
    crate::ids::lemma_uuid_chars_len(d0.order_id);
    assert(buf.subrange(0, l1) =~= "{\"orderId\":\"".spec_bytes());
    assert(buf.subrange(l1, l1 + 36) =~= uuid_chars(d0.order_id));
    assert(buf.subrange(l1 + 36, start) =~= "\",\"orderItemIds\":[".spec_bytes());
    assert(buf.subrange(start, start + alen) =~= ids_array_bytes(d0.order_item_ids@));
    assert(buf.subrange(start + alen + 1, buf.len() as int) =~= "}".spec_bytes());
}


/// A quoted identifier stands at `at`.
pub open spec fn item_stands_at(buf: Seq<u8>, at: int, id: Uuid) -> bool {
    &&& at + 38 <= buf.len()
    &&& buf[at] == 34u8
    &&& buf.subrange(at + 1, at + 37) == uuid_chars(id)
    &&& buf[at + 37] == 34u8
}

/// The pieces of a canonical shipment-failure payload, anchored at the
/// fixed offsets the decoder walks.
pub open spec fn shipment_pieces_at(
    buf: Seq<u8>,
    d0: crate::order_compensation::ShipmentFailedEventData,
) -> bool {
    let l1 = "{\"orderId\":\"".spec_bytes().len() as int;
    let l2 = "\",\"orderItemIds\":[".spec_bytes().len() as int;
    let start = l1 + 36 + l2;
    let alen = ids_array_bytes(d0.order_item_ids@).len() as int;
    &&& buf.subrange(0, l1) == "{\"orderId\":\"".spec_bytes()
    &&& buf.subrange(l1, l1 + 36) == uuid_chars(d0.order_id)
    &&& buf.subrange(l1 + 36, start) == "\",\"orderItemIds\":[".spec_bytes()
    &&& buf.subrange(start, start + alen) == ids_array_bytes(d0.order_item_ids@)
    &&& buf[start + alen] == 93u8
    &&& buf.subrange(start + alen + 1, buf.len() as int) == "}".spec_bytes()
    &&& buf.len() == start + alen + 1 + "}".spec_bytes().len()
}

/// Where the next identifier of a candidate payload stands: at item `m`
/// the decoder sits `39 * m` bytes into the list, the quoted identifier
/// spans the next thirty-eight bytes, and a comma follows exactly when
/// more items remain.
proof fn lemma_candidate_item_layout(
    buf: Seq<u8>,
    d0: crate::order_compensation::ShipmentFailedEventData,
    list_start: int,
    m: int,
)
    requires
        shipment_pieces_at(buf, d0),
        list_start == "{\"orderId\":\"".spec_bytes().len() + 36
            + "\",\"orderItemIds\":[".spec_bytes().len(),
        0 <= m < d0.order_item_ids@.len(),
    ensures
        item_stands_at(buf, list_start + 39 * m, d0.order_item_ids@[m]),
        m + 1 < d0.order_item_ids@.len() ==> buf[list_start + 39 * m + 38] == 44u8
            && item_stands_at(buf, list_start + 39 * (m + 1), d0.order_item_ids@[m + 1]),
        m + 1 == d0.order_item_ids@.len() ==> buf[list_start + 39 * m + 38] != 44u8,
{
    let ids = d0.order_item_ids@;
    let arr = ids_array_bytes(ids);
    lemma_ids_array_len(ids);
    lemma_item_in_array(buf, ids, list_start, m);
    if m + 1 < ids.len() {
        lemma_item_in_array(buf, ids, list_start, m + 1);
        // the byte between two items is the separating comma
        lemma_ids_array_split(ids, m + 1);
        lemma_ids_array_len(ids.subrange(0, m + 1));
        let head = ids_array_bytes(ids.subrange(0, m + 1));
        assert(arr[head.len() as int] == 44u8) by {
            assert(arr == head + seq![44u8] + ids_array_bytes(
                ids.subrange(m + 1, ids.len() as int),
            ));
        }
        assert(buf[list_start + 39 * m + 38] == arr[39 * m + 38]);
    } else {
        // the final item is followed by the list's closing byte
        assert(buf[list_start + 39 * m + 38] == buf[list_start + arr.len() as int]);
        assert(buf[list_start + arr.len() as int] == 93u8);
    }
}

/// Item `m` of a candidate list stands `39 * m` bytes into the list.
proof fn lemma_item_in_array(buf: Seq<u8>, ids: Seq<Uuid>, list_start: int, m: int)
    requires
        0 <= m < ids.len(),
        0 <= list_start,
        list_start + ids_array_bytes(ids).len() <= buf.len(),
        buf.subrange(list_start, list_start + ids_array_bytes(ids).len() as int)
            == ids_array_bytes(ids),
    ensures
        item_stands_at(buf, list_start + 39 * m, ids[m]),
{
    let arr = ids_array_bytes(ids);
    lemma_ids_array_len(ids);
    crate::ids::lemma_uuid_chars_len(ids[m]);
    // locate the item inside the list bytes
    let item = seq![34u8] + uuid_chars(ids[m]) + seq![34u8];
    assert(arr.subrange(39 * m, 39 * m + 38) == item) by {
        if ids.len() == 1 {
            assert(arr.subrange(0, 38) =~= item);
        } else if m == 0 {
            lemma_ids_array_split(ids, 1);
            let head = ids_array_bytes(ids.subrange(0, 1));
            assert(head =~= seq![34u8] + uuid_chars(ids.subrange(0, 1)[0]) + seq![34u8]);
            assert(ids.subrange(0, 1)[0] == ids[0]);
            assert(arr.subrange(0, 38) =~= item);
        } else if m == ids.len() - 1 {
            lemma_ids_array_split(ids, m);
            let head = ids_array_bytes(ids.subrange(0, m));
            lemma_ids_array_len(ids.subrange(0, m));
            let tail = ids_array_bytes(ids.subrange(m, ids.len() as int));
            assert(tail =~= seq![34u8] + uuid_chars(ids.subrange(m, ids.len() as int)[0])
                + seq![34u8]);
            assert(ids.subrange(m, ids.len() as int)[0] == ids[m]);
            assert(arr.subrange(39 * m, 39 * m + 38) =~= item);
        } else {
            lemma_ids_array_split(ids, m);
            let head = ids_array_bytes(ids.subrange(0, m));
            lemma_ids_array_len(ids.subrange(0, m));
            let tail_ids = ids.subrange(m, ids.len() as int);
            lemma_ids_array_split(tail_ids, 1);
            let first = ids_array_bytes(tail_ids.subrange(0, 1));
            assert(first =~= seq![34u8] + uuid_chars(tail_ids.subrange(0, 1)[0]) + seq![34u8]);
            assert(tail_ids.subrange(0, 1)[0] == ids[m]);
            assert(arr.subrange(39 * m, 39 * m + 38) =~= item);
        }
    }
    assert(39 * m + 38 <= arr.len());
    assert forall|o: int| 0 <= o < 38 implies buf[list_start + 39 * m + o] == item[o] by {
        assert(buf[list_start + 39 * m + o] == buf.subrange(
            list_start,
            list_start + arr.len() as int,
        )[39 * m + o]);
        assert(arr[39 * m + o] == arr.subrange(39 * m, 39 * m + 38)[o]);
    }
    assert(item[0] == 34u8);
    assert(item[37] == 34u8);
    assert(buf[list_start + 39 * m] == 34u8);
    assert(buf[list_start + 39 * m + 37] == 34u8);
    assert forall|q: int|
        0 <= q < 36 implies buf.subrange(list_start + 39 * m + 1, list_start + 39 * m + 37)[q]
        == uuid_chars(ids[m])[q] by {
        assert(item[1 + q] == uuid_chars(ids[m])[q]);
        assert(buf[list_start + 39 * m + 1 + q] == item[1 + q]);
    }
    assert(buf.subrange(list_start + 39 * m + 1, list_start + 39 * m + 37) =~= uuid_chars(
        ids[m],
    ));
}

/// Reads the identifier list of a shipment-failure payload, starting at
/// the opening of the list. The list of any canonical payload is read in
/// full and exactly.
#[verifier::rlimit(100)]
#[verifier::spinoff_prover]
fn parse_order_item_id_array(buf: &Vec<u8>, j2: usize) -> (r: Option<(Vec<Uuid>, usize)>)
    requires
        j2 == "{\"orderId\":\"".spec_bytes().len() + 36
            + "\",\"orderItemIds\":[".spec_bytes().len(),
        j2 <= buf@.len(),
    ensures
        r matches Some(pair) ==> j2 <= pair.1 <= buf@.len() && buf@.subrange(
            j2 as int,
            pair.1 as int,
        ) == ids_array_bytes(pair.0@),
        forall|d0: crate::order_compensation::ShipmentFailedEventData|
            buf@ == shipment_failed_event_bytes(d0) ==> (r matches Some(pair) && pair.0@
                == d0.order_item_ids@),
{
    let total_len = buf.len();
    let mut order_item_ids: Vec<Uuid> = Vec::new();
    let mut at: usize = j2;
    proof {
        assert(buf@.subrange(j2 as int, at as int) =~= ids_array_bytes(order_item_ids@));
        assert forall|d0: crate::order_compensation::ShipmentFailedEventData|
            buf@ == shipment_failed_event_bytes(d0) implies (d0.order_item_ids@.len() > 0 ==> buf@[
            j2 as int
        ] == 34u8) && (d0.order_item_ids@.len() == 0 ==> j2 < buf@.len() && buf@[j2 as int]
            == 93u8) && order_item_ids@ == d0.order_item_ids@.subrange(0, 0) by {
            lemma_shipment_failed_pieces(buf@, d0);
            let start = j2 as int;
            let arr = ids_array_bytes(d0.order_item_ids@);
            if d0.order_item_ids@.len() > 0 {
                lemma_ids_array_first(d0.order_item_ids@);
                assert(buf@[start] == buf@.subrange(start, start + arr.len() as int)[0]);
            }
            assert(order_item_ids@ =~= d0.order_item_ids@.subrange(0, 0));
        }
    }
    if at < total_len && buf[at] == 34 {
        loop
            invariant_except_break
                j2 <= at < total_len,
                total_len == buf@.len(),
                j2 == "{\"orderId\":\"".spec_bytes().len() + 36
                    + "\",\"orderItemIds\":[".spec_bytes().len(),
                buf@[at as int] == 34u8,
                order_item_ids@.len() == 0 ==> at == j2,
                order_item_ids@.len() > 0 ==> buf@.subrange(j2 as int, at as int)
                    =~= ids_array_bytes(order_item_ids@) + seq![44u8],
                at == j2 + 39 * order_item_ids@.len(),
                forall|d0: crate::order_compensation::ShipmentFailedEventData|
                    buf@ == shipment_failed_event_bytes(d0) ==> (order_item_ids@.len()
                        < d0.order_item_ids@.len() && order_item_ids@
                        == d0.order_item_ids@.subrange(0, order_item_ids@.len() as int)),
            ensures
                j2 <= at <= total_len,
                total_len == buf@.len(),
                buf@.subrange(j2 as int, at as int) =~= ids_array_bytes(order_item_ids@),
                forall|d0: crate::order_compensation::ShipmentFailedEventData|
                    buf@ == shipment_failed_event_bytes(d0) ==> order_item_ids@
                        == d0.order_item_ids@,
            decreases total_len - at,
        {
            let ghost sofar = order_item_ids@;
            proof {
                assert forall|d0: crate::order_compensation::ShipmentFailedEventData|
                    buf@ == shipment_failed_event_bytes(d0) implies item_stands_at(
                    buf@,
                    at as int,
                    d0.order_item_ids@[sofar.len() as int],
                ) && (sofar.len() + 1 < d0.order_item_ids@.len() ==> buf@[at + 38] == 44u8
                    && item_stands_at(
                    buf@,
                    at + 39,
                    d0.order_item_ids@[sofar.len() as int + 1],
                )) && (sofar.len() + 1 == d0.order_item_ids@.len() ==> buf@[at + 38] != 44u8) by {
                    lemma_shipment_failed_pieces(buf@, d0);
                    lemma_candidate_item_layout(buf@, d0, j2 as int, sofar.len() as int);
                    if sofar.len() + 1 < d0.order_item_ids@.len() {
                        lemma_candidate_item_layout(buf@, d0, j2 as int, sofar.len() as int + 1);
                    }
                }
            }
            let id = match parse_uuid_text(buf, at + 1) {
                Some(u) => u,
                None => {
                    return None;
                },
            };
            if at + 37 >= total_len || buf[at + 37] != 34 {
                return None;
            }
            order_item_ids.push(id);
            proof {
                let next = order_item_ids@;
                assert(next.drop_last() =~= sofar);
                assert(buf@.subrange(j2 as int, at + 38) =~= ids_array_bytes(next)) by {
                    crate::ids::lemma_uuid_chars_len(id);
                    assert(buf@.subrange(at + 1, at + 37) == uuid_chars(id));
                    if sofar.len() == 0 {
                        assert(buf@.subrange(j2 as int, at + 38) =~= seq![34u8] + uuid_chars(id)
                            + seq![34u8]);
                    } else {
                        assert(buf@.subrange(j2 as int, at + 38) =~= ids_array_bytes(sofar)
                            + seq![44u8] + seq![34u8] + uuid_chars(id) + seq![34u8]);
                    }
                }
                assert forall|d0: crate::order_compensation::ShipmentFailedEventData|
                    buf@ == shipment_failed_event_bytes(d0) implies next
                    == d0.order_item_ids@.subrange(0, next.len() as int) by {
                    assert(buf@.subrange(at + 1, at + 37) == uuid_chars(
                        d0.order_item_ids@[sofar.len() as int],
                    ));
                    assert(id == d0.order_item_ids@[sofar.len() as int]);
                    assert(next =~= d0.order_item_ids@.subrange(0, next.len() as int));
                }
            }
            if at + 38 < total_len && buf[at + 38] == 44 {
                // a further identifier follows the comma
                if at + 39 < total_len && buf[at + 39] == 34 {
                    let ghost consumed = buf@.subrange(j2 as int, at + 38);
                    at = at + 39;
                    proof {
                        assert(buf@.subrange(j2 as int, at as int) =~= consumed.push(44u8));
                        assert(buf@.subrange(j2 as int, at as int) =~= ids_array_bytes(
                            order_item_ids@,
                        ) + seq![44u8]);
                    }
                } else {
                    proof {
                        assert forall|d0: crate::order_compensation::ShipmentFailedEventData|
                            buf@ != shipment_failed_event_bytes(d0) by {
                            if buf@ == shipment_failed_event_bytes(d0) {
                                assert(order_item_ids@.len() < d0.order_item_ids@.len());
                            }
                        }
                    }
                    return None;
                }
            } else {
                at = at + 38;
                break;
            }
        }
    } else {
        proof {
            assert forall|d0: crate::order_compensation::ShipmentFailedEventData|
                buf@ == shipment_failed_event_bytes(d0) implies order_item_ids@
                == d0.order_item_ids@ by {
                if d0.order_item_ids@.len() > 0 {
                    lemma_shipment_failed_pieces(buf@, d0);
                    assert(buf@[j2 as int] == 34u8);
                }
                assert(order_item_ids@ =~= d0.order_item_ids@);
            }
        }
    }
    Some((order_item_ids, at))
}

/// Decodes a shipment-failure payload: accepts exactly the canonical
/// encodings, and decoding an encoded payload yields it back.
#[verifier::rlimit(100)]
#[verifier::spinoff_prover]
pub fn decode_shipment_failed_event(buf: &Vec<u8>) -> (r: Option<
    crate::order_compensation::ShipmentFailedEventData,
>)
    ensures
        r matches Some(d) ==> buf@ == shipment_failed_event_bytes(d),
        forall|d0: crate::order_compensation::ShipmentFailedEventData|
            buf@ == shipment_failed_event_bytes(d0) ==> (r matches Some(d) && d.order_id
                == d0.order_id && d.order_item_ids@ == d0.order_item_ids@),
{
    proof {
        assert forall|d0: crate::order_compensation::ShipmentFailedEventData|
            buf@ == shipment_failed_event_bytes(d0) implies shipment_pieces_at(buf@, d0) by {
            lemma_shipment_failed_pieces(buf@, d0);
        }
    }
    let total_len = buf.len();
    let j1 = match expect_lit(buf, 0, "{\"orderId\":\"") {
        Some(j) => j,
        None => {
            return None;
        },
    };
    let order_id = match parse_uuid_text(buf, j1) {
        Some(u) => u,
        None => {
            return None;
        },
    };
    let j2 = match expect_lit(buf, j1 + 36, "\",\"orderItemIds\":[") {
        Some(j) => j,
        None => {
            return None;
        },
    };
    let (order_item_ids, at) = match parse_order_item_id_array(buf, j2) {
        Some(pair) => pair,
        None => {
            return None;
        },
    };
    proof {
        assert forall|d0: crate::order_compensation::ShipmentFailedEventData|
            shipment_pieces_at(buf@, d0) && order_item_ids@ == d0.order_item_ids@ implies at
            == j2 + ids_array_bytes(d0.order_item_ids@).len() by {
            lemma_ids_array_len(d0.order_item_ids@);
            lemma_ids_array_len(order_item_ids@);
        }
    }
    if at >= total_len || buf[at] != 93 {
        return None;
    }
    let j3 = match expect_lit(buf, at + 1, "}") {
        Some(j) => j,
        None => {
            return None;
        },
    };
    if j3 != total_len {
        return None;
    }
    let d = crate::order_compensation::ShipmentFailedEventData { order_id, order_item_ids };
    proof {
        assert(buf@ =~= shipment_failed_event_bytes(d));
    }
    Some(d)
}

} // verus!
