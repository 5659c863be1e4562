//! Exact discount arithmetic on unsigned minor currency units.
//!
//! A discount carries a multiplicative factor given in parts per million.
//! The compensatable amount of a line is `floor(price * f1 * ... * fk)`
//! where each `fi` is `factor_ppm / 1_000_000`: a single floor of the exact
//! rational product. The product is computed exactly with a little-endian
//! base-1'000'000 limb number, so no precision is lost however many
//! discounts apply.

use vstd::arithmetic::div_mod::{
    lemma_fundamental_div_mod, lemma_fundamental_div_mod_converse_div,
};
use vstd::arithmetic::mul::{lemma_mul_inequality, lemma_mul_is_distributive_add,
    lemma_mul_is_distributive_sub, lemma_mul_is_associative, lemma_mul_is_commutative,
    lemma_mul_nonnegative,
};
use vstd::prelude::*;

verus! {

/// One million: the denominator of every discount factor.
pub const PPM_SCALE: u64 = 1_000_000;

/// The value of a little-endian sequence of base-1'000'000 limbs.
pub open spec fn limbs_val(s: Seq<u64>) -> int
    decreases s.len(),
{
    if s.len() == 0 {
        0
    } else {
        s[0] + 1_000_000 * limbs_val(s.drop_first())
    }
}

/// Every limb is a proper base-1'000'000 digit.
pub open spec fn limbs_wf(s: Seq<u64>) -> bool {
    forall|i: int| 0 <= i < s.len() ==> s[i] < 1_000_000
}

/// 1'000'000 raised to the `k`-th power.
pub open spec fn pow_scale(k: nat) -> int
    decreases k,
{
    if k == 0 {
        1
    } else {
        1_000_000 * pow_scale((k - 1) as nat)
    }
}

pub proof fn lemma_pow_scale_pos(k: nat)
    ensures
        pow_scale(k) >= 1,
    decreases k,
{
    if k > 0 {
        lemma_pow_scale_pos((k - 1) as nat);
    }
}

/// Appending a limb adds its value scaled by the current width.
pub proof fn lemma_limbs_val_push(s: Seq<u64>, x: u64)
    ensures
        limbs_val(s.push(x)) == limbs_val(s) + pow_scale(s.len()) * x,
    decreases s.len(),
{
    if s.len() == 0 {
        assert(s.push(x).drop_first() =~= Seq::<u64>::empty());
        assert(pow_scale(s.len()) * x == x) by {
            vstd::arithmetic::mul::lemma_mul_basics(x as int);
            lemma_mul_is_commutative(pow_scale(s.len()), x as int);
        }
        assert(s.push(x).len() == 1);
        assert(s.push(x)[0] == x);
        assert(limbs_val(s.push(x).drop_first()) == 0);
        assert(limbs_val(s.push(x)) == s.push(x)[0] + 1_000_000 * limbs_val(
            s.push(x).drop_first(),
        ));
        assert(limbs_val(s.push(x)) == x);
        assert(limbs_val(s.push(x)) == limbs_val(s) + pow_scale(s.len()) * x);
    } else {
        assert(s.push(x).drop_first() =~= s.drop_first().push(x));
        lemma_limbs_val_push(s.drop_first(), x);
        assert(limbs_val(s.push(x)) == s[0] + 1_000_000 * (limbs_val(s.drop_first())
            + pow_scale((s.len() - 1) as nat) * x));
        assert(1_000_000 * (limbs_val(s.drop_first()) + pow_scale((s.len() - 1) as nat) * x)
            == 1_000_000 * limbs_val(s.drop_first()) + 1_000_000 * (pow_scale((s.len() - 1) as nat)
            * x)) by {
            lemma_mul_is_distributive_add(
                1_000_000,
                limbs_val(s.drop_first()),
                pow_scale((s.len() - 1) as nat) * x,
            );
        }
        assert(1_000_000 * (pow_scale((s.len() - 1) as nat) * x) == pow_scale(s.len()) * x) by {
            lemma_mul_is_associative(1_000_000, pow_scale((s.len() - 1) as nat), x as int);
        }
        assert(limbs_val(s) == s[0] + 1_000_000 * limbs_val(s.drop_first()));
        assert(limbs_val(s.push(x)) == limbs_val(s) + pow_scale(s.len()) * x);
    }
}

/// A limb number is never negative.
pub proof fn lemma_limbs_val_nonneg(s: Seq<u64>)
    ensures
        limbs_val(s) >= 0,
    decreases s.len(),
{
    if s.len() > 0 {
        lemma_limbs_val_nonneg(s.drop_first());
        lemma_mul_nonnegative(1_000_000, limbs_val(s.drop_first()));
    }
}

/// Builds the limb number that holds the value `x`.
pub fn limbs_from_u64(x: u64) -> (r: Vec<u64>)
    ensures
        limbs_val(r@) == x,
        limbs_wf(r@),
{
    let mut out: Vec<u64> = Vec::new();
    let mut rest: u64 = x;
    while rest > 0
        invariant
            limbs_val(out@) + pow_scale(out@.len()) * rest == x,
            limbs_val(out@) >= 0,
            pow_scale(out@.len()) >= 1,
            limbs_wf(out@),
        decreases rest,
    {
        let ghost out0 = out@;
        let ghost r0 = rest as int;
        let ghost p0 = pow_scale(out0.len());
        let digit: u64 = rest % 1_000_000;
        out.push(digit);
        rest = rest / 1_000_000;
        proof {
            lemma_limbs_val_push(out0, digit);
            lemma_fundamental_div_mod(r0, 1_000_000);
            assert(p0 * r0 == p0 * (1_000_000 * (r0 / 1_000_000)) + p0 * (r0 % 1_000_000)) by {
                lemma_mul_is_distributive_add(p0, 1_000_000 * (r0 / 1_000_000), r0 % 1_000_000);
            }
            assert(p0 * (1_000_000 * (r0 / 1_000_000)) == (p0 * 1_000_000) * (r0 / 1_000_000)) by {
                lemma_mul_is_associative(p0, 1_000_000, r0 / 1_000_000);
            }
            assert(pow_scale(out@.len()) == p0 * 1_000_000) by {
                lemma_mul_is_commutative(p0, 1_000_000);
            }
        }
    }
    proof {
        assert(pow_scale(out@.len()) * 0 == 0) by {
            lemma_mul_is_commutative(pow_scale(out@.len()), 0);
        }
    }
    out
}

/// Multiplies a limb number in place by a scalar below one million.
pub fn limbs_mul_small(limbs: &Vec<u64>, m: u64) -> (r: Vec<u64>)
    requires
        limbs_wf(limbs@),
        m <= 1_000_000,
    ensures
        limbs_val(r@) == limbs_val(limbs@) * m,
        limbs_wf(r@),
        r@.len() >= limbs@.len(),
{
    let mut out: Vec<u64> = Vec::new();
    let mut carry: u64 = 0;
    let n = limbs.len();
    let mut i: usize = 0;
    while i < n
        invariant
            i <= n,
            n == limbs@.len(),
            out@.len() == i,
            limbs_wf(limbs@),
            limbs_wf(out@),
            m <= 1_000_000,
            carry <= m,
            limbs_val(out@) + pow_scale(i as nat) * carry == limbs_val(limbs@.subrange(0, i as int))
                * m,
        decreases n - i,
    {
        let ghost out0 = out@;
        let ghost c0 = carry as int;
        let ghost p0 = pow_scale(i as nat);
        proof {
            assert(limbs@[i as int] * m <= 999_999 * 1_000_000) by {
                lemma_mul_inequality(limbs@[i as int] as int, 999_999, m as int);
                lemma_mul_inequality(m as int, 1_000_000, 999_999);
                lemma_mul_is_commutative(999_999, m as int);
            }
        }
        let t: u64 = limbs[i] * m + carry;
        let digit: u64 = t % 1_000_000;
        out.push(digit);
        carry = t / 1_000_000;
        proof {
            lemma_limbs_val_push(out0, digit);
            lemma_fundamental_div_mod(t as int, 1_000_000);
            assert(limbs@.subrange(0, i + 1).drop_last() =~= limbs@.subrange(0, i as int));
            lemma_limbs_val_drop_last(limbs@.subrange(0, i + 1));
            // new sum = old out value + p0 * digit + p0 * 1'000'000 * carry'
            assert(pow_scale((i + 1) as nat) * (t / 1_000_000) == p0 * (1_000_000 * (t
                / 1_000_000))) by {
                lemma_mul_is_associative(p0, 1_000_000, (t / 1_000_000) as int);
            }
            assert(p0 * (t % 1_000_000) + p0 * (1_000_000 * (t / 1_000_000)) == p0 * t) by {
                lemma_mul_is_distributive_add(p0, (t % 1_000_000) as int, 1_000_000 * (t / 1_000_000));
            }
            // p0 * t == p0 * (limbs[i] * m) + p0 * c0
            assert(p0 * t == p0 * (limbs@[i as int] * m) + p0 * c0) by {
                lemma_mul_is_distributive_add(p0, limbs@[i as int] * m, c0);
            }
            // subrange value grows by p0 * limbs[i]
            assert((limbs_val(limbs@.subrange(0, i as int)) + p0 * limbs@[i as int]) * m
                == limbs_val(limbs@.subrange(0, i as int)) * m + (p0 * limbs@[i as int]) * m) by {
                lemma_mul_is_distributive_add_other_way(
                    m as int,
                    limbs_val(limbs@.subrange(0, i as int)),
                    p0 * limbs@[i as int],
                );
            }
            assert((p0 * limbs@[i as int]) * m == p0 * (limbs@[i as int] * m)) by {
                lemma_mul_is_associative(p0, limbs@[i as int] as int, m as int);
            }
            // carry bound: t <= (B-1)m + m implies t / B <= m
            assert(t / 1_000_000 <= m) by {
                assert(t <= 1_000_000 * m) by {
                    assert(limbs@[i as int] * m <= 999_999 * m) by {
                        lemma_mul_inequality(limbs@[i as int] as int, 999_999, m as int);
                    }
                    assert(999_999 * m + m == 1_000_000 * m) by {
                        lemma_mul_is_distributive_add_other_way(m as int, 999_999, 1);
                    }
                }
                assert((1_000_000 * m) / 1_000_000 == m) by {
                    vstd::arithmetic::div_mod::lemma_div_multiples_vanish(m as int, 1_000_000);
                }
                vstd::arithmetic::div_mod::lemma_div_is_ordered(
                    t as int,
                    1_000_000 * m,
                    1_000_000,
                );
            }
        }
        i = i + 1;
    }
    proof {
        assert(limbs@.subrange(0, n as int) =~= limbs@);
    }
    if carry > 0 {
        // a factor of exactly one million can leave a carry of one million,
        // which takes two limbs
        let ghost out0 = out@;
        let low: u64 = carry % 1_000_000;
        let high: u64 = carry / 1_000_000;
        out.push(low);
        proof {
            lemma_limbs_val_push(out0, low);
        }
        if high > 0 {
            let ghost out1 = out@;
            out.push(high);
            proof {
                lemma_limbs_val_push(out1, high);
                lemma_fundamental_div_mod(carry as int, 1_000_000);
                assert(pow_scale(out1.len()) == pow_scale(out0.len()) * 1_000_000) by {
                    lemma_mul_is_commutative(pow_scale(out0.len()), 1_000_000);
                }
                assert(pow_scale(out0.len()) * carry == pow_scale(out0.len()) * low + (pow_scale(
                    out0.len(),
                ) * 1_000_000) * high) by {
                    lemma_mul_is_distributive_add(
                        pow_scale(out0.len()),
                        low as int,
                        1_000_000 * high,
                    );
                    lemma_mul_is_associative(pow_scale(out0.len()), 1_000_000, high as int);
                }
            }
        } else {
            proof {
                lemma_fundamental_div_mod(carry as int, 1_000_000);
            }
        }
    } else {
        proof {
            assert(pow_scale(out@.len()) * 0 == 0) by {
                lemma_mul_is_commutative(pow_scale(out@.len()), 0);
            }
        }
    }
    out
}

/// Dropping the last limb subtracts its scaled value.
pub proof fn lemma_limbs_val_drop_last(s: Seq<u64>)
    requires
        s.len() > 0,
    ensures
        limbs_val(s) == limbs_val(s.drop_last()) + pow_scale((s.len() - 1) as nat) * s.last(),
{
    assert(s =~= s.drop_last().push(s.last()));
    lemma_limbs_val_push(s.drop_last(), s.last());
}

/// Distribution with the scalar on the right.
proof fn lemma_mul_is_distributive_add_other_way(x: int, y: int, z: int)
    ensures
        (y + z) * x == y * x + z * x,
{
    lemma_mul_is_commutative(y + z, x);
    lemma_mul_is_distributive_add(x, y, z);
    lemma_mul_is_commutative(y, x);
    lemma_mul_is_commutative(z, x);
}

/// Splitting a limb number at `k`: the low `k` limbs hold the value modulo
/// the `k`-th power of the base, the rest holds the quotient.
pub proof fn lemma_limbs_val_split(s: Seq<u64>, k: int)
    requires
        0 <= k <= s.len(),
    ensures
        limbs_val(s) == limbs_val(s.subrange(0, k)) + pow_scale(k as nat) * limbs_val(
            s.subrange(k, s.len() as int),
        ),
    decreases k,
{
    if k == 0 {
        assert(s.subrange(0, s.len() as int) =~= s);
        assert(limbs_val(s.subrange(0, 0)) == 0);
    } else {
        assert(s.subrange(0, k).drop_first() =~= s.drop_first().subrange(0, k - 1));
        assert(s.subrange(k, s.len() as int) =~= s.drop_first().subrange(
            k - 1,
            s.drop_first().len() as int,
        ));
        lemma_limbs_val_split(s.drop_first(), k - 1);
        let low = limbs_val(s.drop_first().subrange(0, k - 1));
        let high = limbs_val(s.drop_first().subrange(k - 1, s.drop_first().len() as int));
        assert(1_000_000 * (low + pow_scale((k - 1) as nat) * high) == 1_000_000 * low + 1_000_000
            * (pow_scale((k - 1) as nat) * high)) by {
            lemma_mul_is_distributive_add(1_000_000, low, pow_scale((k - 1) as nat) * high);
        }
        assert(1_000_000 * (pow_scale((k - 1) as nat) * high) == pow_scale(k as nat) * high) by {
            lemma_mul_is_associative(1_000_000, pow_scale((k - 1) as nat), high);
        }
    }
}

/// The low limbs of a well-formed number stay below the matching power.
pub proof fn lemma_limbs_val_bound(s: Seq<u64>)
    requires
        limbs_wf(s),
    ensures
        0 <= limbs_val(s) < pow_scale(s.len()),
    decreases s.len(),
{
    if s.len() == 0 {
    } else {
        lemma_limbs_val_bound(s.drop_first());
        let rest = limbs_val(s.drop_first());
        assert(1_000_000 * rest <= 1_000_000 * (pow_scale((s.len() - 1) as nat) - 1)) by {
            lemma_mul_inequality(rest, pow_scale((s.len() - 1) as nat) - 1, 1_000_000);
            lemma_mul_is_commutative(rest, 1_000_000);
            lemma_mul_is_commutative(pow_scale((s.len() - 1) as nat) - 1, 1_000_000);
        }
        assert(1_000_000 * (pow_scale((s.len() - 1) as nat) - 1) == pow_scale(s.len()) - 1_000_000)
            by {
            lemma_mul_is_distributive_sub(1_000_000, pow_scale((s.len() - 1) as nat), 1);
        }
        lemma_mul_nonnegative(1_000_000, rest);
    }
}

/// The product of a sequence of factors given in parts per million.
pub open spec fn factors_product(fs: Seq<u64>) -> int
    decreases fs.len(),
{
    if fs.len() == 0 {
        1
    } else {
        fs[0] * factors_product(fs.drop_first())
    }
}

/// `floor(price * f1 * ... * fk / 1_000_000^k)`: the exact discounted value
/// of `price` under the factors `fs`, floored once at the end.
pub open spec fn discounted_amount(price: int, fs: Seq<u64>) -> int {
    (price * factors_product(fs)) / pow_scale(fs.len())
}

pub proof fn lemma_factors_product_push(fs: Seq<u64>, x: u64)
    ensures
        factors_product(fs.push(x)) == factors_product(fs) * x,
    decreases fs.len(),
{
    if fs.len() == 0 {
        assert(fs.push(x).drop_first() =~= Seq::<u64>::empty());
        assert(factors_product(fs.push(x)) == x * factors_product(Seq::<u64>::empty()));
        assert(factors_product(fs) * x == x) by {
            vstd::arithmetic::mul::lemma_mul_basics(x as int);
            lemma_mul_is_commutative(factors_product(fs), x as int);
        }
        assert(x * factors_product(Seq::<u64>::empty()) == x) by {
            vstd::arithmetic::mul::lemma_mul_basics(x as int);
        }
    } else {
        assert(fs.push(x).drop_first() =~= fs.drop_first().push(x));
        lemma_factors_product_push(fs.drop_first(), x);
        lemma_mul_is_associative(
            fs[0] as int,
            factors_product(fs.drop_first()),
            x as int,
        );
    }
}

/// A product of factors each at most one million stays within the matching
/// power of one million, and is never negative.
pub proof fn lemma_factors_product_bound(fs: Seq<u64>)
    requires
        forall|i: int| 0 <= i < fs.len() ==> fs[i] <= 1_000_000,
    ensures
        0 <= factors_product(fs) <= pow_scale(fs.len()),
    decreases fs.len(),
{
    if fs.len() > 0 {
        assert(forall|i: int|
            0 <= i < fs.drop_first().len() ==> fs.drop_first()[i] <= 1_000_000);
        lemma_factors_product_bound(fs.drop_first());
        let rest = factors_product(fs.drop_first());
        lemma_mul_nonnegative(fs[0] as int, rest);
        assert(fs[0] * rest <= 1_000_000 * rest) by {
            lemma_mul_inequality(fs[0] as int, 1_000_000, rest);
            lemma_mul_is_commutative(fs[0] as int, rest);
            lemma_mul_is_commutative(1_000_000, rest);
        }
        assert(1_000_000 * rest <= 1_000_000 * pow_scale((fs.len() - 1) as nat)) by {
            lemma_mul_inequality(rest, pow_scale((fs.len() - 1) as nat), 1_000_000);
            lemma_mul_is_commutative(rest, 1_000_000);
            lemma_mul_is_commutative(pow_scale((fs.len() - 1) as nat), 1_000_000);
        }
    }
}

pub proof fn lemma_pow_scale_increases(a: nat, b: nat)
    requires
        a <= b,
    ensures
        pow_scale(a) <= pow_scale(b),
    decreases b,
{
    if a < b {
        lemma_pow_scale_increases(a, (b - 1) as nat);
        lemma_pow_scale_pos((b - 1) as nat);
    }
}

/// Valid factors never raise a price: the discounted amount stays between
/// zero and the undiscounted price.
pub proof fn lemma_discounted_amount_le_price(price: int, fs: Seq<u64>)
    requires
        price >= 0,
        forall|i: int| 0 <= i < fs.len() ==> fs[i] <= 1_000_000,
    ensures
        0 <= discounted_amount(price, fs) <= price,
{
    let prod = factors_product(fs);
    lemma_factors_product_bound(fs);
    lemma_pow_scale_pos(fs.len());
    assert(price * prod <= price * pow_scale(fs.len() as nat)) by {
        lemma_mul_inequality(prod, pow_scale(fs.len() as nat), price);
        lemma_mul_is_commutative(prod, price);
        lemma_mul_is_commutative(pow_scale(fs.len() as nat), price);
    }
    assert((price * pow_scale(fs.len() as nat)) / pow_scale(fs.len() as nat) == price) by {
        vstd::arithmetic::div_mod::lemma_div_multiples_vanish(price, pow_scale(fs.len() as nat));
        lemma_mul_is_commutative(price, pow_scale(fs.len() as nat));
    }
    vstd::arithmetic::div_mod::lemma_div_is_ordered(
        price * prod,
        price * pow_scale(fs.len() as nat),
        pow_scale(fs.len() as nat),
    );
    lemma_mul_nonnegative(price, prod);
    vstd::arithmetic::div_mod::lemma_div_pos_is_pos(price * prod, pow_scale(fs.len() as nat));
}

/// Computes `floor(price * f1 * ... * fk / 1_000_000^k)` exactly.
///
/// The result never exceeds the undiscounted price, since every factor is
/// at most one million parts per million.
pub fn compute_discounted_amount(price: u32, factors: &Vec<u64>) -> (r: u64)
    requires
        forall|i: int| 0 <= i < factors@.len() ==> factors@[i] <= 1_000_000,
    ensures
        r == discounted_amount(price as int, factors@),
        r <= price,
{
    let mut limbs: Vec<u64> = limbs_from_u64(price as u64);
    let n = factors.len();
    let mut i: usize = 0;
    proof {
        assert(factors@.subrange(0, 0) =~= Seq::<u64>::empty());
        assert(price * 1 == price as int);
    }
    while i < n
        invariant
            i <= n,
            n == factors@.len(),
            forall|j: int| 0 <= j < factors@.len() ==> factors@[j] <= 1_000_000,
            limbs_wf(limbs@),
            limbs_val(limbs@) == price * factors_product(factors@.subrange(0, i as int)),
        decreases n - i,
    {
        let ghost pre = factors@.subrange(0, i as int);
        limbs = limbs_mul_small(&limbs, factors[i]);
        proof {
            assert(factors@.subrange(0, i + 1) =~= pre.push(factors@[i as int]));
            lemma_factors_product_push(pre, factors@[i as int]);
            lemma_mul_is_associative(
                price as int,
                factors_product(pre),
                factors@[i as int] as int,
            );
        }
        i = i + 1;
    }
    let ghost full = factors@;
    proof {
        assert(factors@.subrange(0, n as int) =~= full);
    }
    // Dropping the k lowest limbs divides by the k-th power of the base.
    let k = if n < limbs.len() {
        n
    } else {
        limbs.len()
    };
    let mut high: Vec<u64> = Vec::new();
    let mut j: usize = k;
    while j < limbs.len()
        invariant
            k <= j <= limbs@.len(),
            high@ =~= limbs@.subrange(k as int, j as int),
        decreases limbs@.len() - j,
    {
        high.push(limbs[j]);
        proof {
            assert(high@ =~= limbs@.subrange(k as int, j + 1));
        }
        j = j + 1;
    }
    proof {
        let total = limbs_val(limbs@);
        let prod = factors_product(full);
        lemma_factors_product_bound(full);
        lemma_limbs_val_split(limbs@, k as int);
        lemma_limbs_val_bound(limbs@.subrange(0, k as int));
        assert(limbs_wf(high@));
        lemma_limbs_val_bound(high@);
        lemma_limbs_val_nonneg(high@);
        if k < n {
            // every limb was already consumed: the whole value sits below
            // the divisor, so the quotient is zero
            lemma_pow_scale_increases(k as nat, n as nat);
            lemma_limbs_val_bound(limbs@);
            assert(high@ =~= Seq::<u64>::empty());
            vstd::arithmetic::div_mod::lemma_basic_div(total, pow_scale(n as nat));
        } else {
            assert(pow_scale(n as nat) * limbs_val(high@) == limbs_val(high@) * pow_scale(
                n as nat,
            )) by {
                lemma_mul_is_commutative(pow_scale(n as nat), limbs_val(high@));
            }
            lemma_fundamental_div_mod_converse_div(
                total,
                pow_scale(n as nat),
                limbs_val(high@),
                limbs_val(limbs@.subrange(0, k as int)),
            );
        }
        // the result is bounded by the undiscounted price
        assert(price * prod <= price * pow_scale(n as nat)) by {
            lemma_mul_inequality(prod, pow_scale(n as nat), price as int);
            lemma_mul_is_commutative(prod, price as int);
            lemma_mul_is_commutative(pow_scale(n as nat), price as int);
        }
        lemma_pow_scale_pos(n as nat);
        assert((price * pow_scale(n as nat)) / pow_scale(n as nat) == price as int) by {
            vstd::arithmetic::div_mod::lemma_div_multiples_vanish(
                price as int,
                pow_scale(n as nat),
            );
            lemma_mul_is_commutative(price as int, pow_scale(n as nat));
        }
        vstd::arithmetic::div_mod::lemma_div_is_ordered(
            price * prod,
            price * pow_scale(n as nat),
            pow_scale(n as nat),
        );
        lemma_mul_nonnegative(price as int, prod);
        vstd::arithmetic::div_mod::lemma_div_pos_is_pos(price * prod, pow_scale(n as nat));
    }
    limbs_to_u64(&high)
}

/// Reads a limb number back into a machine word.
pub fn limbs_to_u64(limbs: &Vec<u64>) -> (r: u64)
    requires
        limbs_wf(limbs@),
        limbs_val(limbs@) <= u64::MAX,
    ensures
        r == limbs_val(limbs@),
{
    let mut acc: u64 = 0;
    let n = limbs.len();
    let mut j: usize = n;
    proof {
        assert(limbs@.subrange(n as int, n as int) =~= Seq::<u64>::empty());
    }
    while j > 0
        invariant
            j <= n,
            n == limbs@.len(),
            limbs_wf(limbs@),
            limbs_val(limbs@) <= u64::MAX,
            acc == limbs_val(limbs@.subrange(j as int, n as int)),
        decreases j,
    {
        let ghost tail = limbs@.subrange(j as int, n as int);
        proof {
            assert(limbs@.subrange(j - 1, n as int).drop_first() =~= tail);
            // the suffix value is bounded by the whole value
            lemma_limbs_val_split(limbs@, j - 1);
            lemma_limbs_val_bound(limbs@.subrange(0, j - 1));
            lemma_limbs_val_nonneg(limbs@.subrange(j - 1, n as int));
            lemma_pow_scale_pos((j - 1) as nat);
            let suffix = limbs_val(limbs@.subrange(j - 1, n as int));
            assert(pow_scale((j - 1) as nat) * suffix <= limbs_val(limbs@));
            assert(suffix <= pow_scale((j - 1) as nat) * suffix) by {
                lemma_mul_inequality(1, pow_scale((j - 1) as nat), suffix);
                lemma_mul_is_commutative(pow_scale((j - 1) as nat), suffix);
            }
        }
        acc = acc * 1_000_000 + limbs[j - 1];
        j = j - 1;
    }
    proof {
        assert(limbs@.subrange(0, n as int) =~= limbs@);
    }
    acc
}

} // verus!
