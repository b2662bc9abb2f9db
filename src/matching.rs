//! Capital-constrained quadratic matching of a fixed budget.
use vstd::prelude::*;
use vstd::arithmetic::div_mod::{
    lemma_fundamental_div_mod, lemma_fundamental_div_mod_converse_div, lemma_mod_pos_bound,
};
use crate::error::ContractError;
use crate::math::{floor_sqrt, isqrt, lemma_floor_sqrt_le};
use crate::wide::{
    add_wide, from_u128, le, lemma_place_add, lemma_place_mono, lemma_place_pos,
    lemma_place_values, mul_small, place, sub_wide, to_u128, base, Wide, LIMBS,
};

verus! {

/// A proposal as the matching sees it: where its money goes, the
/// individual contributions it received, and their total.
pub struct RawGrant {
    pub addr: String,
    pub funds: Vec<u128>,
    pub collected_vote_funds: u128,
}

/// A proposal's matched subsidy, next to the contributions it collected.
pub struct CalculatedGrant {
    pub addr: String,
    pub grant: u128,
    pub collected_vote_funds: u128,
}

/// The total of the contributions `s`.
pub open spec fn sum_amounts(s: Seq<u128>) -> int
    decreases s.len(),
{
    if s.len() == 0 {
        0
    } else {
        sum_amounts(s.drop_last()) + s.last()
    }
}

/// The sum of the floor square roots of the contributions `s`.
pub open spec fn sum_sqrts(s: Seq<u128>) -> int
    decreases s.len(),
{
    if s.len() == 0 {
        0
    } else {
        sum_sqrts(s.drop_last()) + floor_sqrt(s.last() as nat)
    }
}

/// The raw quadratic match of one proposal, (Σ √cᵢ)² − Σ cᵢ with floor
/// square roots. Flooring can bring the square below the sum (a single
/// contribution of 2 gives 1 − 2); such a proposal is matched nothing.
pub open spec fn raw_match(s: Seq<u128>) -> int {
    let d = sum_sqrts(s) * sum_sqrts(s) - sum_amounts(s);
    if d > 0 {
        d
    } else {
        0
    }
}

/// The raw matches of all proposals, added up.
pub open spec fn total_raw(fs: Seq<Seq<u128>>) -> int
    decreases fs.len(),
{
    if fs.len() == 0 {
        0
    } else {
        total_raw(fs.drop_last()) + raw_match(fs.last())
    }
}

/// What a proposal with raw match `raw` receives: all of it while the
/// raw matches fit the budget, else its floored proportional part.
pub open spec fn share(raw: int, budget: int, total: int) -> int {
    if total <= budget {
        raw
    } else {
        raw * budget / total
    }
}

/// The matched amount of proposal `i` among the proposals `fs`.
pub open spec fn matched(fs: Seq<Seq<u128>>, budget: int, i: int) -> int {
    share(raw_match(fs[i]), budget, total_raw(fs))
}

/// The matched amounts of the first `n` proposals, added up.
pub open spec fn sum_matched(fs: Seq<Seq<u128>>, budget: int, n: nat) -> int
    decreases n,
{
    if n == 0 {
        0
    } else {
        sum_matched(fs, budget, (n - 1) as nat) + matched(fs, budget, n - 1)
    }
}

/// The contributions of each proposal, in order.
pub open spec fn funds_of(gs: Seq<RawGrant>) -> Seq<Seq<u128>> {
    gs.map_values(|g: RawGrant| g.funds@)
}

/// The subsidies handed out, added up.
pub open spec fn sum_grants(s: Seq<CalculatedGrant>) -> int
    decreases s.len(),
{
    if s.len() == 0 {
        0
    } else {
        sum_grants(s.drop_last()) + s.last().grant
    }
}

/// Every proposal's contributions add up to a `u128`.
pub open spec fn sums_fit(fs: Seq<Seq<u128>>) -> bool {
    forall|i: int| 0 <= i < fs.len() ==> #[trigger] sum_amounts(fs[i]) <= u128::MAX
}

pub proof fn lemma_sum_amounts_prefix(s: Seq<u128>, k: int)
    requires
        0 <= k <= s.len(),
    ensures
        sum_amounts(s.take(k)) <= sum_amounts(s),
    decreases s.len(),
{
    if k < s.len() {
        assert(s.drop_last().take(k) =~= s.take(k));
        lemma_sum_amounts_prefix(s.drop_last(), k);
    } else {
        assert(s.take(k) =~= s);
    }
}

proof fn lemma_total_raw_prefix(fs: Seq<Seq<u128>>, k: int)
    requires
        0 <= k <= fs.len(),
    ensures
        0 <= total_raw(fs.take(k)) <= total_raw(fs),
    decreases fs.len(),
{
    if k < fs.len() {
        assert(fs.drop_last().take(k) =~= fs.take(k));
        lemma_total_raw_prefix(fs.drop_last(), k);
    } else {
        assert(fs.take(k) =~= fs);
        if fs.len() > 0 {
            lemma_total_raw_prefix(fs.drop_last(), 0);
            assert(fs.drop_last().take(0) =~= Seq::<Seq<u128>>::empty());
        }
    }
}

proof fn lemma_floor_div(x: int, d: int)
    requires
        x >= 0,
        d > 0,
    ensures
        x / d >= 0,
        d * (x / d) <= x,
        x < d * (x / d) + d,
{
    lemma_fundamental_div_mod(x, d);
    lemma_mod_pos_bound(x, d);
    assert(x / d >= 0) by (nonlinear_arith)
        requires
            x >= 0,
            d > 0,
            x == d * (x / d) + (x % d),
            0 <= x % d < d,
    ;
}

/// The first `n` matched amounts: the raw matches themselves while they
/// fit the budget; else, scaled by total/budget, they stay within `n`
/// units below the first `n` raw matches and never above them.
proof fn lemma_sum_matched_bounds(fs: Seq<Seq<u128>>, budget: int, n: nat)
    requires
        n <= fs.len(),
        budget >= 0,
    ensures
        total_raw(fs) <= budget ==> sum_matched(fs, budget, n) == total_raw(fs.take(n as int)),
        total_raw(fs) > budget ==> {
            let t = total_raw(fs);
            let s = sum_matched(fs, budget, n);
            let p = total_raw(fs.take(n as int));
            &&& s >= 0
            &&& t * s <= budget * p
            &&& n > 0 ==> t * (s + n) > budget * p
        },
    decreases n,
{
    if n > 0 {
        let m = (n - 1) as nat;
        lemma_sum_matched_bounds(fs, budget, m);
        assert(fs.take(n as int).drop_last() =~= fs.take(m as int));
        let r = raw_match(fs[m as int]);
        let t = total_raw(fs);
        if t > budget {
            let s = sum_matched(fs, budget, m);
            let p = total_raw(fs.take(m as int));
            let f = r * budget / t;
            assert(r * budget >= 0) by (nonlinear_arith)
                requires
                    r >= 0,
                    budget >= 0,
            ;
            lemma_floor_div(r * budget, t);
            assert(t * (s + f) <= budget * (p + r)) by (nonlinear_arith)
                requires
                    t * s <= budget * p,
                    t * f <= r * budget,
            ;
            if m > 0 {
                assert(t * (s + f + n) > budget * (p + r)) by (nonlinear_arith)
                    requires
                        t * (s + m) > budget * p,
                        r * budget < t * f + t,
                        n == m + 1,
                ;
            } else {
                assert(t * (s + f + n) > budget * (p + r)) by (nonlinear_arith)
                    requires
                        s == 0,
                        p == 0,
                        r * budget < t * f + t,
                        n == 1,
                ;
            }
        }
    } else {
        assert(fs.take(0) =~= Seq::<Seq<u128>>::empty());
    }
}

/// Conservation of the budget: the matched amounts never exceed the
/// budget, so what is matched plus the leftover is the budget exactly;
/// when the budget binds, the leftover is less than the number of proposals.
pub proof fn lemma_matching_conserves_budget(fs: Seq<Seq<u128>>, budget: int)
    requires
        budget >= 0,
    ensures
        0 <= sum_matched(fs, budget, fs.len()) <= budget,
        total_raw(fs) > budget ==> budget - sum_matched(fs, budget, fs.len()) < fs.len(),
{
    lemma_sum_matched_bounds(fs, budget, fs.len());
    assert(fs.take(fs.len() as int) =~= fs);
    lemma_total_raw_prefix(fs, 0);
    let t = total_raw(fs);
    let s = sum_matched(fs, budget, fs.len());
    let n = fs.len();
    if t > budget {
        assert(s <= budget) by (nonlinear_arith)
            requires
                t * s <= budget * t,
                t > 0,
        ;
        if n > 0 {
            assert(budget - s < n) by (nonlinear_arith)
                requires
                    t * (s + n) > budget * t,
                    t > 0,
            ;
        }
    }
}

proof fn lemma_raw_le_total(fs: Seq<Seq<u128>>, k: int)
    requires
        0 <= k < fs.len(),
    ensures
        0 <= raw_match(fs[k]) <= total_raw(fs),
{
    lemma_total_raw_prefix(fs, k + 1);
    lemma_total_raw_prefix(fs, k);
    assert(fs.take(k + 1).drop_last() =~= fs.take(k));
}

/// The raw quadratic match of one proposal's contributions, or `None`
/// where the contributions add up to more than a `u128`. The square is
/// taken at double width, so it never overflows.
pub fn raw_grant(funds: &Vec<u128>) -> (r: Option<Wide>)
    ensures
        r is Some <==> sum_amounts(funds@) <= u128::MAX,
        r matches Some(w) ==> w.wf() && w.value() == raw_match(funds@) && w.value() < place(4),
{
    let mut sum: u128 = 0;
    let mut sqrts: u128 = 0;
    let mut i: usize = 0;
    while i < funds.len()
        invariant
            i <= funds.len(),
            sum == sum_amounts(funds@.take(i as int)),
            sqrts == sum_sqrts(funds@.take(i as int)),
            sqrts <= sum,
        decreases funds.len() - i,
    {
        let c = funds[i];
        proof {
            assert(funds@.take(i + 1).drop_last() =~= funds@.take(i as int));
            lemma_sum_amounts_prefix(funds@, i + 1);
            lemma_floor_sqrt_le(c as nat);
        }
        match sum.checked_add(c) {
            None => {
                return None;
            },
            Some(s) => {
                sum = s;
            },
        }
        let root = isqrt(c);
        sqrts = sqrts + root;
        i = i + 1;
    }
    assert(funds@.take(funds.len() as int) =~= funds@);
    proof {
        lemma_place_values();
        lemma_place_add(2, 2);
        lemma_place_mono(4, LIMBS as nat);
        assert(sqrts * sqrts < place(2) * place(2)) by (nonlinear_arith)
            requires
                sqrts < place(2),
        ;
    }
    let square = mul_small(&from_u128(sqrts), sqrts);
    let (diff, below) = sub_wide(&square, &from_u128(sum));
    if below {
        Some(from_u128(0))
    } else {
        Some(diff)
    }
}

/// `floor(rb / t)` for a product `rb` of a raw match and the budget, where
/// `t` is the total raw match and exceeds the budget.
fn scaled_share(rb: &Wide, t: &Wide, budget: u128) -> (q: u128)
    requires
        rb.wf(),
        t.wf(),
        t.value() > budget,
        t.value() < place(5),
        rb.value() <= t.value() * budget,
    ensures
        q == rb.value() / t.value(),
{
    proof {
        lemma_place_values();
        lemma_place_add(5, 2);
        lemma_place_mono(7, LIMBS as nat);
        assert(t.value() * budget < place(5) * place(2)) by (nonlinear_arith)
            requires
                t.value() < place(5),
                budget < place(2),
        ;
    }
    let ghost x = rb.value() as int;
    let ghost d = t.value() as int;
    let full = mul_small(t, budget);
    if le(&full, rb) {
        proof {
            assert(x == budget * d + 0) by (nonlinear_arith)
                requires
                    x <= d * budget,
                    d * budget <= x,
            ;
            lemma_fundamental_div_mod_converse_div(x, d, budget as int, 0);
        }
        return budget;
    }
    let mut lo: u128 = 0;
    let mut hi: u128 = budget;
    while hi - lo > 1
        invariant
            rb.wf(),
            t.wf(),
            x == rb.value(),
            d == t.value(),
            d < place(5),
            place(5) * place(2) <= place(LIMBS as nat),
            place(2) == u128::MAX + 1,
            lo < hi <= budget,
            d * lo <= x,
            x < d * hi,
        decreases hi - lo,
    {
        let mid = lo + (hi - lo) / 2;
        assert(d * mid < place(5) * place(2)) by (nonlinear_arith)
            requires
                d < place(5),
                mid < place(2),
                d >= 0,
        ;
        let prod = mul_small(t, mid);
        if le(&prod, rb) {
            lo = mid;
        } else {
            hi = mid;
        }
    }
    proof {
        assert(x - lo * d < d && lo * d <= x) by (nonlinear_arith)
            requires
                x < d * hi,
                d * lo <= x,
                hi == lo + 1,
        ;
        lemma_fundamental_div_mod_converse_div(x, d, lo as int, x - lo * d);
    }
    lo
}

/// Splits `budget` among the proposals `grants` by capital-constrained
/// quadratic matching. Each proposal gets its raw match when all raw
/// matches fit the budget, else `floor(raw * budget / total_raw)`; the
/// rest of the budget is the leftover. Squares, totals and products are
/// computed at several times the width of `u128`, so the only failure is
/// `Overflow` where a proposal's contributions add up to more than a `u128`.
pub fn calculate_clr(grants: &Vec<RawGrant>, budget: u128) -> (r: Result<
    (Vec<CalculatedGrant>, u128),
    ContractError,
>)
    ensures
        r.is_ok() <==> sums_fit(funds_of(grants@)),
        r.is_err() ==> r == Err::<(Vec<CalculatedGrant>, u128), ContractError>(
            ContractError::Overflow,
        ),
        r matches Ok((out, leftover)) ==> {
            let fs = funds_of(grants@);
            &&& out.len() == grants.len()
            &&& forall|i: int|
                0 <= i < out.len() ==> {
                    &&& (#[trigger] out[i]).addr@ == grants[i].addr@
                    &&& out[i].collected_vote_funds == grants[i].collected_vote_funds
                    &&& out[i].grant == matched(fs, budget as int, i)
                }
            &&& leftover == budget - sum_matched(fs, budget as int, fs.len())
            &&& sum_grants(out@) + leftover == budget
            &&& total_raw(fs) > budget ==> leftover < grants.len()
        },
{
    let ghost fs = funds_of(grants@);
    let mut raws: Vec<Wide> = Vec::new();
    let mut total = from_u128(0);
    proof {
        lemma_place_values();
        lemma_place_add(1, 4);
        lemma_place_mono(5, LIMBS as nat);
        lemma_place_pos(4);
    }
    let mut i: usize = 0;
    while i < grants.len()
        invariant
            fs == funds_of(grants@),
            i <= grants.len(),
            raws.len() == i,
            forall|j: int|
                0 <= j < i ==> {
                    &&& (#[trigger] raws[j]).wf()
                    &&& raws[j].value() == raw_match(fs[j])
                    &&& raws[j].value() < place(4)
                },
            forall|j: int| 0 <= j < i ==> #[trigger] sum_amounts(fs[j]) <= u128::MAX,
            total.wf(),
            total.value() == total_raw(fs.take(i as int)),
            total.value() <= i * place(4),
            place(1) * place(4) == place(5),
            place(5) <= place(LIMBS as nat),
            place(1) == base(),
            place(4) >= 1,
        decreases grants.len() - i,
    {
        proof {
            assert(fs.take(i + 1).drop_last() =~= fs.take(i as int));
        }
        assert(fs[i as int] == grants@[i as int].funds@);
        match raw_grant(&grants[i].funds) {
            None => {
                return Err(ContractError::Overflow);
            },
            Some(w) => {
                proof {
                    assert(i + 1 <= base());
                    assert(total.value() + w.value() < (i + 1) * place(4)) by (nonlinear_arith)
                        requires
                            total.value() <= i * place(4),
                            w.value() < place(4),
                    ;
                    assert((i + 1) * place(4) <= place(1) * place(4)) by (nonlinear_arith)
                        requires
                            i + 1 <= place(1),
                    ;
                }
                total = add_wide(&total, &w);
                raws.push(w);
            },
        }
        i = i + 1;
    }
    assert(fs.take(grants.len() as int) =~= fs);
    proof {
        lemma_matching_conserves_budget(fs, budget as int);
        let n = grants.len() as int;
        assert(n < base());
        assert(total.value() < place(5)) by (nonlinear_arith)
            requires
                total.value() <= n * place(4),
                n < base(),
                place(1) * place(4) == place(5),
                place(1) == base(),
                place(4) >= 1,
        ;
        lemma_place_add(4, 2);
        lemma_place_mono(6, LIMBS as nat);
    }
    let fits = le(&total, &from_u128(budget));
    let mut out: Vec<CalculatedGrant> = Vec::new();
    let mut given: u128 = 0;
    let mut k: usize = 0;
    while k < grants.len()
        invariant
            fs == funds_of(grants@),
            k <= grants.len(),
            raws.len() == grants.len(),
            forall|j: int|
                0 <= j < grants.len() ==> {
                    &&& (#[trigger] raws[j]).wf()
                    &&& raws[j].value() == raw_match(fs[j])
                    &&& raws[j].value() < place(4)
                },
            forall|j: int| 0 <= j < grants.len() ==> #[trigger] sum_amounts(fs[j]) <= u128::MAX,
            total.wf(),
            total.value() == total_raw(fs),
            total.value() < place(5),
            fits <==> total.value() <= budget,
            place(2) == u128::MAX + 1,
            place(4) * place(2) <= place(LIMBS as nat),
            out.len() == k,
            forall|j: int|
                0 <= j < k ==> {
                    &&& (#[trigger] out[j]).addr@ == grants[j].addr@
                    &&& out[j].collected_vote_funds == grants[j].collected_vote_funds
                    &&& out[j].grant == matched(fs, budget as int, j)
                },
            given == sum_matched(fs, budget as int, k as nat),
            given == sum_grants(out@),
        decreases grants.len() - k,
    {
        proof {
            lemma_sum_matched_bounds(fs, budget as int, (k + 1) as nat);
            lemma_total_raw_prefix(fs, k + 1);
            lemma_raw_le_total(fs, k as int);
        }
        let g: u128;
        if fits {
            g = match to_u128(&raws[k]) {
                Some(v) => v,
                None => {
                    assert(false);
                    0
                },
            };
        } else {
            proof {
                lemma_place_add(4, 2);
                let rv = raws@[k as int].value();
                assert(rv * budget < place(4) * place(2)) by (nonlinear_arith)
                    requires
                        rv <= total.value(),
                        total.value() < place(5),
                        rv == raw_match(fs[k as int]),
                        budget < place(2),
                        rv < place(4),
                ;
                assert(rv * budget <= total.value() * budget) by (nonlinear_arith)
                    requires
                        rv <= total.value(),
                ;
            }
            let rb = mul_small(&raws[k], budget);
            g = scaled_share(&rb, &total, budget);
        }
        proof {
            if !fits {
                assert(sum_matched(fs, budget as int, (k + 1) as nat) <= budget) by (nonlinear_arith)
                    requires
                        total.value() * sum_matched(fs, budget as int, (k + 1) as nat) <= budget
                            * total_raw(fs.take(k + 1)),
                        total_raw(fs.take(k + 1)) <= total.value(),
                        total.value() > 0,
                        budget >= 0,
                ;
            }
        }
        let ghost before = out@;
        out.push(
            CalculatedGrant {
                addr: grants[k].addr.clone(),
                grant: g,
                collected_vote_funds: grants[k].collected_vote_funds,
            },
        );
        assert(out@.drop_last() =~= before);
        given = given + g;
        k = k + 1;
    }
    let leftover = budget - given;
    Ok((out, leftover))
}

} // verus!
