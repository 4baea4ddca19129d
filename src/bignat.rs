use vstd::prelude::*;
use vstd::arithmetic::power::pow;

verus! {

/// Weight of limb `i` in a little-endian base-2^32 number: `2^(32 i)`.
pub open spec fn limb_weight(i: nat) -> nat
    decreases i,
{
    if i == 0 {
        1
    } else {
        4294967296 * limb_weight((i - 1) as nat)
    }
}

/// The natural number that the little-endian base-2^32 limbs `s` denote.
pub open spec fn limbs_value(s: Seq<u32>) -> nat
    decreases s.len(),
{
    if s.len() == 0 {
        0
    } else {
        limbs_value(s.drop_last()) + (s.last() as nat) * limb_weight((s.len() - 1) as nat)
    }
}

proof fn lemma_weight_positive(i: nat)
    ensures
        limb_weight(i) >= 1,
    decreases i,
{
    if i > 0 {
        lemma_weight_positive((i - 1) as nat);
    }
}

proof fn lemma_push(s: Seq<u32>, x: u32)
    ensures
        limbs_value(s.push(x)) == limbs_value(s) + x * limb_weight(s.len()),
{
    assert(s.push(x).drop_last() =~= s);
}

proof fn lemma_take_next(s: Seq<u32>, i: int)
    requires
        0 <= i < s.len(),
    ensures
        limbs_value(s.take(i + 1)) == limbs_value(s.take(i)) + s[i] * limb_weight(i as nat),
{
    assert(s.take(i + 1).drop_last() =~= s.take(i));
}

proof fn lemma_below_weight(s: Seq<u32>)
    ensures
        limbs_value(s) < limb_weight(s.len()),
    decreases s.len(),
{
    if s.len() > 0 {
        lemma_below_weight(s.drop_last());
        let v = limbs_value(s.drop_last()) as int;
        let w = limb_weight((s.len() - 1) as nat) as int;
        let x = s.last() as int;
        assert(v + x * w < 4294967296 * w) by (nonlinear_arith)
            requires 0 <= v < w, 0 <= x < 4294967296;
    }
}

/// The limbs of `a` times the factor `m`.
pub fn mul_small(a: &Vec<u32>, m: u128) -> (r: Vec<u32>)
    requires
        m <= 0x4_0000_0000_0000_0000,
    ensures
        limbs_value(r@) == limbs_value(a@) * m,
{
    let mut r: Vec<u32> = Vec::new();
    let mut carry: u128 = 0;
    let mut i: usize = 0;
    assert(a@.take(0) =~= Seq::<u32>::empty());
    assert(limbs_value(a@.take(0)) == 0);
    assert(limbs_value(r@) == 0);
    while i < a.len()
        invariant
            i <= a.len(),
            r@.len() == i,
            m <= 0x4_0000_0000_0000_0000,
            carry < 0x8_0000_0000_0000_0000,
            limbs_value(r@) + carry * limb_weight(i as nat) == limbs_value(a@.take(i as int)) * m,
        decreases a.len() - i,
    {
        let x = a[i];
        assert((x as int) * (m as int) <= 4294967295 * 0x4_0000_0000_0000_0000) by (nonlinear_arith)
            requires 0 <= x <= 4294967295, 0 <= m <= 0x4_0000_0000_0000_0000;
        let cur: u128 = (x as u128) * m + carry;
        let limb = (cur % 4294967296) as u32;
        let next: u128 = cur / 4294967296;
        proof {
            lemma_push(r@, limb);
            lemma_take_next(a@, i as int);
            let w = limb_weight(i as nat) as int;
            let v = limbs_value(r@) as int;
            let ai = limbs_value(a@.take(i as int)) as int;
            assert(cur == limb + 4294967296 * next);
            assert(v + limb * w + next * (4294967296 * w) == (ai + x * w) * m) by (nonlinear_arith)
                requires v + carry * w == ai * m, cur == limb + 4294967296 * next, cur == x * m + carry;
        }
        r.push(limb);
        carry = next;
        i = i + 1;
    }
    assert(a@.take(a.len() as int) =~= a@);
    while carry > 0
        invariant
            limbs_value(r@) + carry * limb_weight(r@.len()) == limbs_value(a@) * m,
        decreases carry,
    {
        let limb = (carry % 4294967296) as u32;
        let next: u128 = carry / 4294967296;
        proof {
            lemma_push(r@, limb);
            let w = limb_weight(r@.len()) as int;
            assert(carry == limb + 4294967296 * next);
            assert(limb * w + next * (4294967296 * w) == carry * w) by (nonlinear_arith)
                requires carry == limb + 4294967296 * next;
        }
        r.push(limb);
        carry = next;
    }
    r
}

/// `a` followed by zero limbs up to length `len`: the same number.
fn padded(a: &Vec<u32>, len: usize) -> (r: Vec<u32>)
    requires
        a.len() <= len,
    ensures
        r.len() == len,
        limbs_value(r@) == limbs_value(a@),
{
    let mut r: Vec<u32> = Vec::new();
    let mut i: usize = 0;
    while i < len
        invariant
            a.len() <= len,
            i <= len,
            r@.len() == i,
            limbs_value(r@) == limbs_value(a@.take(if i <= a.len() { i as int } else { a.len() as int })),
        decreases len - i,
    {
        proof {
            if i < a.len() {
                lemma_push(r@, a@[i as int]);
                lemma_take_next(a@, i as int);
            } else {
                lemma_push(r@, 0);
            }
        }
        if i < a.len() {
            r.push(a[i]);
        } else {
            r.push(0);
        }
        i = i + 1;
    }
    assert(a@.take(a.len() as int) =~= a@);
    r
}

/// Whether the number of `a` is at least that of `b`.
pub fn limbs_ge(a: &Vec<u32>, b: &Vec<u32>) -> (r: bool)
    ensures
        r == (limbs_value(a@) >= limbs_value(b@)),
{
    let n = if a.len() >= b.len() { a.len() } else { b.len() };
    let x = padded(a, n);
    let y = padded(b, n);
    let mut i: usize = n;
    let ghost mut h: int = 0;
    assert(x@.take(n as int) =~= x@);
    assert(y@.take(n as int) =~= y@);
    while i > 0
        invariant
            i <= n,
            x@.len() == n,
            y@.len() == n,
            limbs_value(x@) == limbs_value(a@),
            limbs_value(y@) == limbs_value(b@),
            limbs_value(x@) == limbs_value(x@.take(i as int)) + h,
            limbs_value(y@) == limbs_value(y@.take(i as int)) + h,
        decreases i,
    {
        let k = i - 1;
        proof {
            lemma_take_next(x@, k as int);
            lemma_take_next(y@, k as int);
            lemma_below_weight(x@.take(k as int));
            lemma_below_weight(y@.take(k as int));
        }
        let xk = x[k];
        let yk = y[k];
        if xk != yk {
            proof {
                let w = limb_weight(k as nat) as int;
                let vx = limbs_value(x@.take(k as int)) as int;
                let vy = limbs_value(y@.take(k as int)) as int;
                assert(x@[k as int] == xk && y@[k as int] == yk);
                assert(limbs_value(x@.take(i as int)) == vx + xk * w);
                assert(limbs_value(y@.take(i as int)) == vy + yk * w);
                if xk > yk {
                    assert(vx + xk * w > vy + yk * w) by (nonlinear_arith)
                        requires xk > yk, vx >= 0, 0 <= vy < w;
                    assert(limbs_value(x@) > limbs_value(y@));
                } else {
                    assert(vy + yk * w > vx + xk * w) by (nonlinear_arith)
                        requires yk > xk, vy >= 0, 0 <= vx < w;
                    assert(limbs_value(x@) < limbs_value(y@));
                }
            }
            return xk > yk;
        }
        proof {
            h = h + xk * limb_weight(k as nat);
        }
        i = k;
    }
    assert(x@.take(0) =~= Seq::<u32>::empty());
    assert(y@.take(0) =~= Seq::<u32>::empty());
    true
}

/// `base^e` as limbs.
pub fn limbs_pow(base: u32, e: u32) -> (r: Vec<u32>)
    ensures
        limbs_value(r@) == pow(base as int, e as nat),
{
    let mut r: Vec<u32> = Vec::new();
    proof {
        lemma_push(r@, 1);
        reveal(pow);
    }
    r.push(1);
    let mut i: u32 = 0;
    while i < e
        invariant
            i <= e,
            limbs_value(r@) == pow(base as int, i as nat),
        decreases e - i,
    {
        let prev: Ghost<nat> = Ghost(limbs_value(r@));
        r = mul_small(&r, base as u128);
        proof {
            reveal(pow);
            assert(pow(base as int, (i + 1) as nat) == base * pow(base as int, i as nat));
            assert(prev@ * base == base * prev@) by (nonlinear_arith);
        }
        i = i + 1;
    }
    r
}

} // verus!
