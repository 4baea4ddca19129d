use vstd::prelude::*;
use vstd::arithmetic::power::{pow, lemma_pow_positive, lemma_pow_distributes, lemma_pow_adds};
use crate::bignat::{limbs_value, limbs_pow, mul_small, limbs_ge};
use vstd::arithmetic::div_mod::{lemma_fundamental_div_mod, lemma_fundamental_div_mod_converse, lemma_mod_pos_bound};
use vstd::arithmetic::mul::lemma_mul_inequality;

verus! {

/// Shape of the level curve: leaving level `L` costs `base_xp * factor^L`
/// experience, rounded to the nearest integer (halves round up), where the
/// growth factor is the fraction `factor_num / factor_den`.
#[derive(Clone, Copy, Debug, PartialEq, Eq)]
pub struct LevelCurve {
    pub base_xp: u32,
    pub factor_num: u32,
    pub factor_den: u32,
}

impl LevelCurve {
    /// A usable curve: a positive base and a growth factor of at least one,
    /// so that the cost never falls as levels rise.
    pub open spec fn wf(&self) -> bool {
        &&& self.base_xp > 0
        &&& self.factor_den > 0
        &&& self.factor_num >= self.factor_den
    }

    /// Builds a curve, refusing parameters under which the cost could fall
    /// from one level to the next or be zero.
    pub fn new(base_xp: u32, factor_num: u32, factor_den: u32) -> (r: Option<LevelCurve>)
        ensures
            r.is_some() <==> (base_xp > 0 && factor_den > 0 && factor_num >= factor_den),
            r matches Some(c) ==> c.wf() && c.base_xp == base_xp && c.factor_num == factor_num
                && c.factor_den == factor_den,
    {
        if base_xp > 0 && factor_den > 0 && factor_num >= factor_den {
            Some(LevelCurve { base_xp, factor_num, factor_den })
        } else {
            None
        }
    }
}

/// The exact experience cost attached to `level`: `base * (num/den)^level`
/// rounded half up, i.e. `floor((2 * base * num^level + den^level) / (2 * den^level))`.
pub open spec fn required_xp(c: LevelCurve, level: nat) -> int {
    (2 * c.base_xp * pow(c.factor_num as int, level) + pow(c.factor_den as int, level))
        / (2 * pow(c.factor_den as int, level))
}

/// Whether the cost of `level` can be stated as a 64-bit amount.
pub open spec fn cost_fits(c: LevelCurve, level: nat) -> bool {
    required_xp(c, level) <= u64::MAX
}

/// A power of the smaller base never exceeds the same power of the larger.
pub proof fn lemma_pow_base_le(a: nat, b: nat, e: nat)
    requires
        a <= b,
    ensures
        0 <= pow(a as int, e) <= pow(b as int, e),
    decreases e,
{
    reveal(pow);
    if e > 0 {
        lemma_pow_base_le(a, b, (e - 1) as nat);
        let pa = pow(a as int, (e - 1) as nat);
        let pb = pow(b as int, (e - 1) as nat);
        assert(pow(a as int, e) == a * pa);
        assert(pow(b as int, e) == b * pb);
        assert(0 <= a * pa <= b * pb) by (nonlinear_arith)
            requires 0 <= a <= b, 0 <= pa <= pb;
    }
}

/// On a usable curve every level costs at least the base amount, and so at
/// least one point of experience.
pub proof fn lemma_required_at_least_base(c: LevelCurve, level: nat)
    requires
        c.wf(),
    ensures
        required_xp(c, level) >= c.base_xp >= 1,
{
    let pn = pow(c.factor_num as int, level);
    let pd = pow(c.factor_den as int, level);
    lemma_pow_base_le(c.factor_den as nat, c.factor_num as nat, level);
    lemma_pow_positive(c.factor_den as int, level);
    let b = c.base_xp as int;
    assert(2 * b * pn + pd >= b * (2 * pd)) by (nonlinear_arith)
        requires b >= 1, pn >= pd, pd > 0;
    assert((2 * b * pn + pd) / (2 * pd) >= b) by (nonlinear_arith)
        requires 2 * b * pn + pd >= b * (2 * pd), pd > 0;
}

/// The cost of a level depends on nothing but the base amount and the value
/// of the growth factor: two curves with the same base whose fractions denote
/// the same factor charge the same for every level.
pub proof fn lemma_cost_determined_by_parameters(c1: LevelCurve, c2: LevelCurve, level: nat)
    requires
        c1.factor_den > 0,
        c2.factor_den > 0,
        c1.base_xp == c2.base_xp,
        c1.factor_num * c2.factor_den == c2.factor_num * c1.factor_den,
    ensures
        required_xp(c1, level) == required_xp(c2, level),
{
    let (n1, d1, n2, d2) = (c1.factor_num as int, c1.factor_den as int, c2.factor_num as int, c2.factor_den as int);
    lemma_pow_distributes(n1, d2, level);
    lemma_pow_distributes(n2, d1, level);
    assert(n1 * d2 == n2 * d1);
    lemma_pow_positive(d1, level);
    lemma_pow_positive(d2, level);
    let (pn1, pd1, pn2, pd2) = (pow(n1, level), pow(d1, level), pow(n2, level), pow(d2, level));
    assert(pn1 * pd2 == pn2 * pd1);
    let b = c1.base_xp as int;
    let x1 = 2 * b * pn1 + pd1;
    let y1 = 2 * pd1;
    let x2 = 2 * b * pn2 + pd2;
    let y2 = 2 * pd2;
    assert(x1 * y2 == x2 * y1) by (nonlinear_arith)
        requires pn1 * pd2 == pn2 * pd1, x1 == 2 * b * pn1 + pd1, y1 == 2 * pd1,
            x2 == 2 * b * pn2 + pd2, y2 == 2 * pd2;
    let q = x1 / y1;
    let r1 = x1 % y1;
    lemma_pow_base_le(0, n1 as nat, level);
    assert(x1 >= 0) by (nonlinear_arith)
        requires x1 == 2 * b * pn1 + pd1, b >= 0, pn1 >= 0, pd1 > 0;
    lemma_fundamental_div_mod(x1, y1);
    lemma_mod_pos_bound(x1, y1);
    assert(x1 == q * y1 + r1 && 0 <= r1 < y1) by (nonlinear_arith)
        requires x1 == y1 * q + r1, 0 <= r1 < y1;
    assert(x2 == q * y2 + (r1 * y2) / y1 && 0 <= (r1 * y2) / y1 < y2 && (r1 * y2) % y1 == 0) by (nonlinear_arith)
        requires x1 * y2 == x2 * y1, x1 == q * y1 + r1, 0 <= r1 < y1, y1 > 0, y2 > 0;
    lemma_fundamental_div_mod_converse(x2, y2, q, (r1 * y2) / y1);
}

/// On a usable curve a higher level never costs less than a lower one.
pub proof fn lemma_required_monotone(c: LevelCurve, lo: nat, hi: nat)
    requires
        c.wf(),
        lo <= hi,
    ensures
        required_xp(c, lo) <= required_xp(c, hi),
{
    let (n, d) = (c.factor_num as int, c.factor_den as int);
    let k = (hi - lo) as nat;
    lemma_pow_adds(n, lo, k);
    lemma_pow_adds(d, lo, k);
    lemma_pow_base_le(d as nat, n as nat, k);
    lemma_pow_base_le(d as nat, n as nat, lo);
    lemma_pow_positive(d, lo);
    lemma_pow_positive(d, k);
    let (an, ad, kn, kd) = (pow(n, lo), pow(d, lo), pow(n, k), pow(d, k));
    let b = c.base_xp as int;
    let x1 = 2 * b * an + ad;
    let y1 = 2 * ad;
    let x2 = 2 * b * (an * kn) + ad * kd;
    let y2 = 2 * (ad * kd);
    assert(pow(n, hi) == an * kn && pow(d, hi) == ad * kd);
    assert(x1 * y2 <= x2 * y1) by (nonlinear_arith)
        requires x1 == 2 * b * an + ad, y1 == 2 * ad, x2 == 2 * b * (an * kn) + ad * kd,
            y2 == 2 * (ad * kd), b >= 0, an >= 0, ad > 0, kd > 0, kd <= kn;
    assert(x1 >= 0 && y1 > 0 && y2 > 0) by (nonlinear_arith)
        requires x1 == 2 * b * an + ad, y1 == 2 * ad, y2 == 2 * (ad * kd), b >= 0, an >= 0, ad > 0, kd > 0;
    let q = x1 / y1;
    lemma_fundamental_div_mod(x1, y1);
    lemma_mod_pos_bound(x1, y1);
    assert(q * y2 <= x2) by (nonlinear_arith)
        requires x1 * y2 <= x2 * y1, x1 == y1 * q + x1 % y1, 0 <= x1 % y1, y1 > 0, y2 > 0;
    lemma_fundamental_div_mod(x2, y2);
    lemma_mod_pos_bound(x2, y2);
    assert(q <= x2 / y2) by (nonlinear_arith)
        requires q * y2 <= x2, x2 == y2 * (x2 / y2) + x2 % y2, x2 % y2 < y2, y2 > 0;
}

/// The cost of a level is at least `t` exactly when twice the base times
/// `num^level` reaches `2 t - 1` times `den^level`.
proof fn lemma_cost_at_least(c: LevelCurve, level: nat, t: int)
    requires
        c.wf(),
    ensures
        (required_xp(c, level) >= t) == (2 * c.base_xp * pow(c.factor_num as int, level)
            >= (2 * t - 1) * pow(c.factor_den as int, level)),
{
    let pn = pow(c.factor_num as int, level);
    let pd = pow(c.factor_den as int, level);
    lemma_pow_base_le(0, c.factor_num as nat, level);
    lemma_pow_positive(c.factor_den as int, level);
    let x = 2 * c.base_xp * pn + pd;
    let y = 2 * pd;
    assert(x >= 0) by (nonlinear_arith)
        requires x == 2 * c.base_xp * pn + pd, pn >= 0, pd > 0;
    lemma_fundamental_div_mod(x, y);
    lemma_mod_pos_bound(x, y);
    let q = x / y;
    assert((q >= t) == (x >= t * y)) by (nonlinear_arith)
        requires x == y * q + x % y, 0 <= x % y < y;
    assert((x >= t * y) == (2 * c.base_xp * pn >= (2 * t - 1) * pd)) by (nonlinear_arith)
        requires x == 2 * c.base_xp * pn + pd, y == 2 * pd;
}

/// Decides whether the cost of `level` is at least `t`, from the exact
/// powers of the factor's numerator and denominator.
fn cost_at_least(curve: &LevelCurve, level: u32, scaled_num: &Vec<u32>, den_pow: &Vec<u32>, t: u128) -> (r: bool)
    requires
        curve.wf(),
        1 <= t <= 0x1_0000_0000_0000_0000,
        limbs_value(scaled_num@) == 2 * curve.base_xp * pow(curve.factor_num as int, level as nat),
        limbs_value(den_pow@) == pow(curve.factor_den as int, level as nat),
    ensures
        r == (required_xp(*curve, level as nat) >= t),
{
    let rhs = mul_small(den_pow, 2 * t - 1);
    proof {
        lemma_cost_at_least(*curve, level as nat, t as int);
        let pd = pow(curve.factor_den as int, level as nat);
        assert(pd * (2 * t - 1) == (2 * t - 1) * pd) by (nonlinear_arith);
    }
    limbs_ge(scaled_num, &rhs)
}

/// Experience needed to leave `level` under `curve`, or `None` where the
/// amount exceeds what a `u64` holds.
pub fn xp_required_for_level(curve: &LevelCurve, level: u32) -> (r: Option<u64>)
    requires
        curve.wf(),
    ensures
        r.is_some() <==> cost_fits(*curve, level as nat),
        r matches Some(v) ==> v == required_xp(*curve, level as nat),
{
    let num_pow = limbs_pow(curve.factor_num, level);
    let scaled_num = mul_small(&num_pow, 2 * (curve.base_xp as u128));
    let den_pow = limbs_pow(curve.factor_den, level);
    proof {
        let pn = pow(curve.factor_num as int, level as nat);
        let b = curve.base_xp as int;
        assert(pn * (2 * b) == 2 * b * pn) by (nonlinear_arith);
        lemma_required_at_least_base(*curve, level as nat);
    }
    if cost_at_least(curve, level, &scaled_num, &den_pow, 0x1_0000_0000_0000_0000) {
        return None;
    }
    let mut lo: u128 = 0;
    let mut hi: u128 = 0x1_0000_0000_0000_0000;
    while hi - lo > 1
        invariant
            curve.wf(),
            lo < hi <= 0x1_0000_0000_0000_0000,
            lo <= required_xp(*curve, level as nat) < hi,
            limbs_value(scaled_num@) == 2 * curve.base_xp * pow(curve.factor_num as int, level as nat),
            limbs_value(den_pow@) == pow(curve.factor_den as int, level as nat),
        decreases hi - lo,
    {
        let mid = lo + (hi - lo) / 2;
        if cost_at_least(curve, level, &scaled_num, &den_pow, mid) {
            lo = mid;
        } else {
            hi = mid;
        }
    }
    Some(lo as u64)
}

} // verus!
