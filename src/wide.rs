//! Fixed-width natural numbers of eight 64-bit limbs, for the products and
//! sums of the matching that do not fit in `u128`.
use vstd::prelude::*;

verus! {

/// Number of 64-bit limbs in a `Wide`.
pub const LIMBS: usize = 8;

/// The value of one limb position step.
pub open spec fn base() -> nat {
    0x1_0000_0000_0000_0000
}

/// The weight of limb `i`: base to the power `i`.
pub open spec fn place(i: nat) -> nat
    decreases i,
{
    if i == 0 {
        1
    } else {
        base() * place((i - 1) as nat)
    }
}

/// The value of the lowest `i` limbs of `s`, least significant first.
pub open spec fn val_upto(s: Seq<u64>, i: nat) -> nat
    decreases i,
{
    if i == 0 {
        0
    } else {
        val_upto(s, (i - 1) as nat) + s[i - 1] as nat * place((i - 1) as nat)
    }
}

/// A natural number below `place(LIMBS)`, as little-endian limbs.
pub struct Wide {
    pub limbs: Vec<u64>,
}

impl Wide {
    pub open spec fn wf(&self) -> bool {
        self.limbs.len() == LIMBS
    }

    pub open spec fn value(&self) -> nat {
        val_upto(self.limbs@, LIMBS as nat)
    }
}

pub proof fn lemma_place_add(a: nat, b: nat)
    ensures
        place(a + b) == place(a) * place(b),
    decreases b,
{
    if b > 0 {
        lemma_place_add(a, (b - 1) as nat);
        assert(place(a + b) == base() * place((a + b - 1) as nat));
        assert(place(b) == base() * place((b - 1) as nat));
        assert(base() * (place(a) * place((b - 1) as nat)) == place(a) * (base() * place(
            (b - 1) as nat,
        ))) by (nonlinear_arith);
    } else {
        assert(place(0) == 1);
        assert(a + b == a);
    }
}

pub proof fn lemma_place_values()
    ensures
        place(1) == base(),
        place(2) == 0x1_0000_0000_0000_0000_0000_0000_0000_0000,
        place(2) == u128::MAX + 1,
{
    assert(place(1) == base() * place(0));
    assert(place(2) == base() * place(1));
}

pub proof fn lemma_place_pos(i: nat)
    ensures
        place(i) >= 1,
    decreases i,
{
    if i > 0 {
        lemma_place_pos((i - 1) as nat);
        assert(base() * place((i - 1) as nat) >= 1) by (nonlinear_arith)
            requires
                place((i - 1) as nat) >= 1,
        ;
    }
}

pub proof fn lemma_place_mono(i: nat, j: nat)
    requires
        i <= j,
    ensures
        place(i) <= place(j),
{
    lemma_place_add(i, (j - i) as nat);
    lemma_place_pos((j - i) as nat);
    lemma_place_pos(i);
    assert(place(i) <= place(i) * place((j - i) as nat)) by (nonlinear_arith)
        requires
            place((j - i) as nat) >= 1,
    ;
}

proof fn lemma_val_bound(s: Seq<u64>, i: nat)
    requires
        i <= s.len(),
    ensures
        val_upto(s, i) < place(i),
    decreases i,
{
    if i > 0 {
        let k = (i - 1) as nat;
        lemma_val_bound(s, k);
        let p = place(k);
        assert(val_upto(s, k) + s[k as int] as nat * p < base() * p) by (nonlinear_arith)
            requires
                val_upto(s, k) < p,
                s[k as int] < base(),
        ;
    }
}

proof fn lemma_val_agree(s: Seq<u64>, t: Seq<u64>, i: nat)
    requires
        i <= s.len(),
        i <= t.len(),
        forall|j: int| 0 <= j < i ==> s[j] == t[j],
    ensures
        val_upto(s, i) == val_upto(t, i),
    decreases i,
{
    if i > 0 {
        lemma_val_agree(s, t, (i - 1) as nat);
    }
}

proof fn lemma_val_zeros(s: Seq<u64>, from: nat, to: nat)
    requires
        from <= to <= s.len(),
        forall|j: int| from <= j < to ==> s[j] == 0,
    ensures
        val_upto(s, to) == val_upto(s, from),
    decreases to,
{
    if to > from {
        lemma_val_zeros(s, from, (to - 1) as nat);
    }
}

proof fn lemma_val_ge_limb(s: Seq<u64>, i: nat, j: nat)
    requires
        j < i <= s.len(),
    ensures
        val_upto(s, i) >= s[j as int] as nat * place(j),
    decreases i,
{
    if i - 1 > j {
        lemma_val_ge_limb(s, (i - 1) as nat, j);
    }
}

/// `x` as a `Wide`.
pub fn from_u128(x: u128) -> (r: Wide)
    ensures
        r.wf(),
        r.value() == x,
{
    let lo = (x % 0x1_0000_0000_0000_0000) as u64;
    let hi = (x / 0x1_0000_0000_0000_0000) as u64;
    let mut v: Vec<u64> = Vec::new();
    v.push(lo);
    v.push(hi);
    while v.len() < LIMBS
        invariant
            2 <= v.len() <= LIMBS,
            v@[0] == lo,
            v@[1] == hi,
            forall|j: int| 2 <= j < v.len() ==> v@[j] == 0,
        decreases LIMBS - v.len(),
    {
        v.push(0);
    }
    proof {
        lemma_val_zeros(v@, 2, LIMBS as nat);
        lemma_place_values();
        assert(val_upto(v@, 0) == 0);
        assert(place(0) == 1);
        assert(val_upto(v@, 1) == val_upto(v@, 0) + v@[0] as nat * place(0));
        assert(val_upto(v@, 1) == lo);
        assert(val_upto(v@, 2) == val_upto(v@, 1) + v@[1] as nat * place(1));
        assert(val_upto(v@, 2) == lo + hi * base());
    }
    Wide { limbs: v }
}

/// `a + b`; the sum must stay below `place(LIMBS)`.
pub fn add_wide(a: &Wide, b: &Wide) -> (r: Wide)
    requires
        a.wf(),
        b.wf(),
        a.value() + b.value() < place(LIMBS as nat),
    ensures
        r.wf(),
        r.value() == a.value() + b.value(),
{
    let mut v: Vec<u64> = Vec::new();
    let mut carry: u128 = 0;
    let mut i: usize = 0;
    while i < LIMBS
        invariant
            a.wf(),
            b.wf(),
            i <= LIMBS,
            v.len() == i,
            carry <= 1,
            val_upto(v@, i as nat) + carry * place(i as nat) == val_upto(a.limbs@, i as nat)
                + val_upto(b.limbs@, i as nat),
        decreases LIMBS - i,
    {
        let sum: u128 = a.limbs[i] as u128 + b.limbs[i] as u128 + carry;
        let limb = (sum % 0x1_0000_0000_0000_0000) as u64;
        let c = sum / 0x1_0000_0000_0000_0000;
        let ghost old_v = v@;
        v.push(limb);
        proof {
            lemma_val_agree(v@, old_v, i as nat);
            let p = place(i as nat);
            assert(sum == limb + c * base());
            assert(limb * p + c * (base() * p) == sum * p) by (nonlinear_arith)
                requires
                    sum == limb + c * base(),
            ;
            assert(sum * p == (a.limbs@[i as int] + b.limbs@[i as int] + carry) * p);
            assert((a.limbs@[i as int] + b.limbs@[i as int] + carry) * p == a.limbs@[i as int] * p
                + b.limbs@[i as int] * p + carry * p) by (nonlinear_arith);
        }
        carry = c;
        i = i + 1;
    }
    proof {
        lemma_val_bound(v@, LIMBS as nat);
        if carry == 1 {
            assert(false);
        }
    }
    Wide { limbs: v }
}

/// `a - b` when `a >= b`, and whether `a < b`.
pub fn sub_wide(a: &Wide, b: &Wide) -> (r: (Wide, bool))
    requires
        a.wf(),
        b.wf(),
    ensures
        r.0.wf(),
        r.1 <==> a.value() < b.value(),
        !r.1 ==> r.0.value() == a.value() - b.value(),
{
    let mut v: Vec<u64> = Vec::new();
    let mut borrow: u128 = 0;
    let mut i: usize = 0;
    while i < LIMBS
        invariant
            a.wf(),
            b.wf(),
            i <= LIMBS,
            v.len() == i,
            borrow <= 1,
            val_upto(v@, i as nat) + val_upto(b.limbs@, i as nat) == val_upto(a.limbs@, i as nat)
                + borrow * place(i as nat),
        decreases LIMBS - i,
    {
        let x: u128 = a.limbs[i] as u128;
        let y: u128 = b.limbs[i] as u128 + borrow;
        let limb: u64;
        let nb: u128;
        if x >= y {
            limb = (x - y) as u64;
            nb = 0;
        } else {
            limb = (0x1_0000_0000_0000_0000 + x - y) as u64;
            nb = 1;
        }
        let ghost old_v = v@;
        v.push(limb);
        proof {
            lemma_val_agree(v@, old_v, i as nat);
            let p = place(i as nat);
            assert(limb + y == x + nb * base());
            assert(limb * p + y * p == x * p + nb * (base() * p)) by (nonlinear_arith)
                requires
                    limb + y == x + nb * base(),
            ;
            assert(y * p == b.limbs@[i as int] * p + borrow * p) by (nonlinear_arith)
                requires
                    y == b.limbs@[i as int] + borrow,
            ;
        }
        borrow = nb;
        i = i + 1;
    }
    proof {
        lemma_val_bound(v@, LIMBS as nat);
        lemma_val_bound(a.limbs@, LIMBS as nat);
        lemma_val_bound(b.limbs@, LIMBS as nat);
    }
    (Wide { limbs: v }, borrow == 1)
}

/// Whether `a <= b`.
pub fn le(a: &Wide, b: &Wide) -> (r: bool)
    requires
        a.wf(),
        b.wf(),
    ensures
        r <==> a.value() <= b.value(),
{
    let (_, borrow) = sub_wide(b, a);
    !borrow
}

/// `a * k`; the product must stay below `place(LIMBS)`.
pub fn mul_small(a: &Wide, k: u128) -> (r: Wide)
    requires
        a.wf(),
        a.value() * k < place(LIMBS as nat),
    ensures
        r.wf(),
        r.value() == a.value() * k,
{
    let mut acc = from_u128(0);
    let mut m = Wide { limbs: a.limbs.clone() };
    assert(m.limbs@ =~= a.limbs@);
    let mut s: u128 = k;
    while s > 0
        invariant
            a.wf(),
            acc.wf(),
            m.wf(),
            a.value() * k < place(LIMBS as nat),
            acc.value() + m.value() * s == a.value() * k,
        decreases s,
    {
        let ghost s0 = s as int;
        let ghost acc0 = acc.value();
        let ghost m0 = m.value();
        assert(m0 * s0 >= m0) by (nonlinear_arith)
            requires
                s0 >= 1,
        ;
        let odd = s % 2 == 1;
        if odd {
            acc = add_wide(&acc, &m);
        }
        s = s / 2;
        assert(s0 == 2 * s + (if odd { 1int } else { 0int }));
        if s > 0 {
            assert(m0 * s0 >= 2 * m0) by (nonlinear_arith)
                requires
                    s0 >= 2 * s,
                    s >= 1,
            ;
            m = add_wide(&m, &m);
        }
        assert(acc.value() + m.value() * s == acc0 + m0 * s0) by (nonlinear_arith)
            requires
                acc.value() == acc0 + (if odd { m0 } else { 0 }),
                m.value() == (if s > 0 { 2 * m0 } else { m0 }),
                s0 == 2 * s + (if odd { 1int } else { 0int }),
                s == 0 ==> odd,
        ;
    }
    acc
}

/// The value of `a` when it fits in `u128`.
pub fn to_u128(a: &Wide) -> (r: Option<u128>)
    requires
        a.wf(),
    ensures
        r is Some <==> a.value() <= u128::MAX,
        r matches Some(x) ==> x == a.value(),
{
    proof {
        lemma_place_values();
    }
    let mut j: usize = 2;
    while j < LIMBS
        invariant
            a.wf(),
            2 <= j <= LIMBS,
            forall|t: int| 2 <= t < j ==> a.limbs@[t] == 0,
        decreases LIMBS - j,
    {
        if a.limbs[j] != 0 {
            proof {
                lemma_val_ge_limb(a.limbs@, LIMBS as nat, j as nat);
                lemma_place_mono(2, j as nat);
                assert(a.limbs@[j as int] as nat * place(j as nat) >= place(j as nat)) by (nonlinear_arith)
                    requires
                        a.limbs@[j as int] >= 1,
                ;
                assert(a.value() >= place(2));
                lemma_place_values();
            }
            return None;
        }
        j = j + 1;
    }
    proof {
        lemma_val_zeros(a.limbs@, 2, LIMBS as nat);
        assert(val_upto(a.limbs@, 0) == 0);
        assert(place(0) == 1);
        assert(val_upto(a.limbs@, 1) == a.limbs@[0]);
        assert(a.limbs@[1] as nat * base() <= 0xFFFF_FFFF_FFFF_FFFF * base()) by (nonlinear_arith)
            requires
                a.limbs@[1] <= 0xFFFF_FFFF_FFFF_FFFFu64,
        ;
    }
    Some(a.limbs[0] as u128 + a.limbs[1] as u128 * 0x1_0000_0000_0000_0000)
}

} // verus!
