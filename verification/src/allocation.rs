//! Splitting an amount across the components of a vector in proportion to
//! them (largest-remainder rounding), and component-wise subtraction and
//! addition built on it.
use vstd::prelude::*;
use crate::error::{RuntimeError, RuntimeErrorKind, RuntimeErrorKindView, plain_error};
use crate::text::owned;

verus! {

/// The sum of the components.
pub open spec fn sum(s: Seq<u128>) -> nat
    decreases s.len(),
{
    if s.len() == 0 {
        0
    } else {
        sum(s.drop_last()) + s.last() as nat
    }
}

/// `u128::saturating_mul`.
pub open spec fn sat_mul(a: nat, b: nat) -> nat {
    if a * b > u128::MAX { u128::MAX as nat } else { a * b }
}

/// `u128::saturating_add`.
pub open spec fn sat_add(a: nat, b: nat) -> nat {
    if a + b > u128::MAX { u128::MAX as nat } else { a + b }
}

/// `u128::saturating_sub`.
pub open spec fn sat_sub(a: nat, b: nat) -> nat {
    if a < b { 0 } else { (a - b) as nat }
}

/// The share of component `i` before rounding up: `amount * c_i / total`
/// (the product saturating).
pub open spec fn share_floor(c: Seq<u128>, amount: nat, i: int) -> nat {
    sat_mul(amount, c[i] as nat) / sum(c)
}

/// What is left of `amount * c_i` after that division.
pub open spec fn share_rem(c: Seq<u128>, amount: nat, i: int) -> nat {
    sat_mul(amount, c[i] as nat) % sum(c)
}

/// The floors of the first `n` components added up, saturating.
pub open spec fn floors_total(c: Seq<u128>, amount: nat, n: nat) -> nat
    decreases n,
{
    if n == 0 {
        0
    } else {
        sat_add(floors_total(c, amount, (n - 1) as nat), share_floor(c, amount, n - 1))
    }
}

/// Component `j` comes before component `i` when its remainder is larger,
/// or equal with a smaller position.
pub open spec fn precedes(c: Seq<u128>, amount: nat, j: int, i: int) -> bool {
    share_rem(c, amount, j) > share_rem(c, amount, i)
        || (share_rem(c, amount, j) == share_rem(c, amount, i) && j < i)
}

/// How many of the first `m` components come before component `i`.
pub open spec fn count_before(c: Seq<u128>, amount: nat, i: int, m: nat) -> nat
    decreases m,
{
    if m == 0 {
        0
    } else {
        count_before(c, amount, i, (m - 1) as nat) + if precedes(c, amount, m - 1, i) { 1nat } else { 0nat }
    }
}

/// The place of component `i` when the components are ordered by remainder,
/// largest first, ties by position.
pub open spec fn rank(c: Seq<u128>, amount: nat, i: int) -> nat {
    count_before(c, amount, i, c.len())
}

/// What is left of `amount` once every component has its floor.
pub open spec fn leftover(c: Seq<u128>, amount: nat) -> nat {
    sat_sub(amount, floors_total(c, amount, c.len()))
}

/// The part of `amount` given to component `i`: its floor, plus one for each
/// of the first `leftover` components in remainder order.
pub open spec fn share(c: Seq<u128>, amount: nat, i: int) -> nat {
    if sum(c) == 0 || amount == 0 {
        0
    } else if rank(c, amount, i) < leftover(c, amount) {
        sat_add(share_floor(c, amount, i), 1)
    } else {
        share_floor(c, amount, i)
    }
}

/// No product `amount * c_i` saturates, and `amount` fits in a `u128`.
pub open spec fn products_fit(c: Seq<u128>, amount: nat) -> bool {
    &&& amount <= u128::MAX
    &&& forall|i: int| 0 <= i < c.len() ==> amount * #[trigger] c[i] <= u128::MAX
}

/// The allocation of `amount` across the components of `c`.
pub open spec fn allocation(c: Seq<u128>, amount: nat) -> Seq<u128> {
    Seq::new(c.len(), |i: int| share(c, amount, i) as u128)
}

/// The product, or `u128::MAX` where it would overflow.
pub fn saturating_mul(a: u128, b: u128) -> (r: u128)
    ensures
        r == sat_mul(a as nat, b as nat),
{
    if a == 0 || b <= u128::MAX / a {
        proof {
            if a > 0 {
                assert(a * b <= a * (u128::MAX / a)) by (nonlinear_arith)
                    requires a > 0, b <= u128::MAX / a;
                assert(a * (u128::MAX / a) <= u128::MAX) by (nonlinear_arith)
                    requires a > 0;
            }
        }
        a * b
    } else {
        proof {
            assert(a * b > u128::MAX) by (nonlinear_arith)
                requires a > 0, b > u128::MAX / a;
        }
        u128::MAX
    }
}

pub proof fn lemma_sum_prefix_bound(c: Seq<u128>, i: int)
    requires
        0 <= i <= c.len(),
    ensures
        sum(c.take(i)) <= sum(c),
    decreases c.len() - i,
{
    if i < c.len() {
        lemma_sum_prefix_bound(c, i + 1);
        assert(c.take(i + 1).drop_last() == c.take(i));
    } else {
        assert(c.take(i) == c);
    }
}

/// The sum of the components, which must fit in a `u128`.
pub fn component_total(c: &Vec<u128>) -> (r: u128)
    requires
        sum(c@) <= u128::MAX,
    ensures
        r == sum(c@),
{
    let mut t: u128 = 0;
    let mut i: usize = 0;
    while i < c.len()
        invariant
            i <= c.len(),
            sum(c@) <= u128::MAX,
            t == sum(c@.take(i as int)),
        decreases c.len() - i,
    {
        proof {
            assert(c@.take(i + 1).drop_last() == c@.take(i as int));
            lemma_sum_prefix_bound(c@, i + 1);
        }
        t = t + c[i];
        i = i + 1;
    }
    assert(c@.take(c.len() as int) == c@);
    t
}

/// Splits `amount` across the components in proportion to them; the
/// rounding remainder goes, one unit each, to the components with the
/// largest remainders (ties to the earlier one).
pub fn component_allocation(components: &Vec<u128>, amount: u128) -> (r: Vec<u128>)
    requires
        sum(components@) <= u128::MAX,
    ensures
        r@ == allocation(components@, amount as nat),
        r.len() == components.len(),
{
    let c = components;
    let n = c.len();
    let total = component_total(c);
    if total == 0 || amount == 0 {
        let mut z: Vec<u128> = Vec::new();
        for i in 0..n
            invariant
                z.len() == i,
                total == sum(c@),
                n == c.len(),
                total == 0 || amount == 0,
                forall|j: int| 0 <= j < i ==> z@[j] == 0,
        {
            z.push(0);
        }
        assert(z@ =~= allocation(c@, amount as nat));
        return z;
    }
    let mut floors: Vec<u128> = Vec::new();
    let mut rems: Vec<u128> = Vec::new();
    let mut allocated: u128 = 0;
    for i in 0..n
        invariant
            n == c.len(),
            total == sum(c@),
            total > 0,
            floors.len() == i,
            rems.len() == i,
            forall|j: int| 0 <= j < i ==> floors@[j] == share_floor(c@, amount as nat, j),
            forall|j: int| 0 <= j < i ==> rems@[j] == share_rem(c@, amount as nat, j),
            allocated == floors_total(c@, amount as nat, i as nat),
    {
        let numerator = saturating_mul(amount, c[i]);
        floors.push(numerator / total);
        rems.push(numerator % total);
        allocated = allocated.saturating_add(numerator / total);
    }
    let remaining = amount.saturating_sub(allocated);
    let mut out: Vec<u128> = Vec::new();
    for i in 0..n
        invariant
            n == c.len(),
            total == sum(c@),
            total > 0,
            amount > 0,
            floors.len() == n,
            rems.len() == n,
            forall|j: int| 0 <= j < n ==> floors@[j] == share_floor(c@, amount as nat, j),
            forall|j: int| 0 <= j < n ==> rems@[j] == share_rem(c@, amount as nat, j),
            remaining == leftover(c@, amount as nat),
            out.len() == i,
            forall|j: int| 0 <= j < i ==> out@[j] == share(c@, amount as nat, j),
    {
        let mut before: u128 = 0;
        for j in 0..n
            invariant
                n == c.len(),
                i < n,
                rems.len() == n,
                forall|k: int| 0 <= k < n ==> rems@[k] == share_rem(c@, amount as nat, k),
                before == count_before(c@, amount as nat, i as int, j as nat),
                before <= j,
        {
            if rems[j] > rems[i] || (rems[j] == rems[i] && j < i) {
                before = before + 1;
            }
        }
        if before < remaining {
            out.push(floors[i].saturating_add(1));
        } else {
            out.push(floors[i]);
        }
    }
    assert(out@ =~= allocation(c@, amount as nat));
    out
}

/// The components less their allocation, or `None` where some allocation
/// exceeds its component.
pub open spec fn subtract_spec(c: Seq<u128>, amount: nat) -> Option<Seq<u128>> {
    let a = allocation(c, amount);
    if forall|i: int| 0 <= i < c.len() ==> a[i] <= c[i] {
        Some(Seq::new(c.len(), |i: int| (c[i] - a[i]) as u128))
    } else {
        None
    }
}

/// Takes `amount` out of the components, each losing its allocation.
/// Fails where an allocation exceeds its component.
pub fn vector_subtract(components: &Vec<u128>, amount: u128) -> (r: Result<Vec<u128>, RuntimeError>)
    requires
        sum(components@) <= u128::MAX,
    ensures
        match r {
            Ok(v) => subtract_spec(components@, amount as nat) == Some(v@),
            Err(e) => subtract_spec(components@, amount as nat) is None
                && e@ == plain_error(RuntimeErrorKindView::InvalidOperation(
                    "allocation exceeded source balance"@)),
        },
{
    let alloc = component_allocation(components, amount);
    let mut out: Vec<u128> = Vec::new();
    for i in 0..components.len()
        invariant
            alloc@ == allocation(components@, amount as nat),
            alloc.len() == components.len(),
            out.len() == i,
            forall|j: int| 0 <= j < i ==> alloc@[j] <= components@[j],
            forall|j: int| 0 <= j < i ==> out@[j] == components@[j] - alloc@[j],
    {
        if components[i] < alloc[i] {
            return Err(RuntimeError::new(RuntimeErrorKind::InvalidOperation(
                owned("allocation exceeded source balance"))));
        }
        out.push(components[i] - alloc[i]);
    }
    assert(out@ =~= Seq::new(components@.len(), |i: int| (components@[i] - alloc@[i]) as u128));
    Ok(out)
}

} // verus!
verus! {

/// Component-wise sum, saturating, or `None` where the lengths differ.
pub open spec fn add_spec(c: Seq<u128>, a: Seq<u128>) -> Option<Seq<u128>> {
    if c.len() != a.len() {
        None
    } else {
        Some(Seq::new(c.len(), |i: int| sat_add(c[i] as nat, a[i] as nat) as u128))
    }
}

/// Adds `addition` to `components` component by component (saturating);
/// fails where the lengths differ.
pub fn vector_add_strict(components: &Vec<u128>, addition: &Vec<u128>) -> (r: Result<Vec<u128>, RuntimeError>)
    ensures
        match r {
            Ok(v) => add_spec(components@, addition@) == Some(v@),
            Err(e) => add_spec(components@, addition@) is None
                && e@ == plain_error(RuntimeErrorKindView::InvalidOperation("vector dimensions must match"@)),
        },
{
    if components.len() != addition.len() {
        return Err(RuntimeError::new(RuntimeErrorKind::InvalidOperation(owned("vector dimensions must match"))));
    }
    let mut out: Vec<u128> = Vec::new();
    for i in 0..components.len()
        invariant
            components.len() == addition.len(),
            out.len() == i,
            forall|j: int| 0 <= j < i ==> out@[j] == sat_add(components@[j] as nat, addition@[j] as nat),
    {
        out.push(components[i].saturating_add(addition[i]));
    }
    assert(out@ =~= Seq::new(components@.len(), |i: int| sat_add(components@[i] as nat, addition@[i] as nat) as u128));
    Ok(out)
}

// ---------------------------------------------------------------------------
// Laws of the allocation.

spec fn floor_sum(c: Seq<u128>, a: nat, m: nat) -> nat
    decreases m,
{
    if m == 0 { 0 } else { floor_sum(c, a, (m - 1) as nat) + share_floor(c, a, m - 1) }
}

spec fn rem_sum(c: Seq<u128>, a: nat, m: nat) -> nat
    decreases m,
{
    if m == 0 { 0 } else { rem_sum(c, a, (m - 1) as nat) + share_rem(c, a, m - 1) }
}

/// How many of `0..m` satisfy `p`.
pub open spec fn count_pred(p: spec_fn(int) -> bool, m: nat) -> nat
    decreases m,
{
    if m == 0 { 0 } else { count_pred(p, (m - 1) as nat) + if p(m - 1) { 1nat } else { 0nat } }
}

proof fn lemma_elem_le_sum(c: Seq<u128>, i: int)
    requires
        0 <= i < c.len(),
    ensures
        c[i] <= sum(c),
    decreases c.len(),
{
    if i < c.len() - 1 {
        lemma_elem_le_sum(c.drop_last(), i);
    }
}

proof fn lemma_count_pred_set(p: spec_fn(int) -> bool, m: nat)
    ensures
        vstd::set_lib::set_int_range(0, m as int).filter(p).finite(),
        count_pred(p, m) == vstd::set_lib::set_int_range(0, m as int).filter(p).len(),
    decreases m,
{
    let s = vstd::set_lib::set_int_range(0, m as int).filter(p);
    if m == 0 {
        assert(s =~= Set::empty());
    } else {
        lemma_count_pred_set(p, (m - 1) as nat);
        let s0 = vstd::set_lib::set_int_range(0, m - 1).filter(p);
        if p(m - 1) {
            assert(s =~= s0.insert(m - 1));
        } else {
            assert(s =~= s0);
        }
    }
}

proof fn lemma_count_pred_le(p: spec_fn(int) -> bool, q: spec_fn(int) -> bool, m: nat)
    requires
        forall|i: int| 0 <= i < m && #[trigger] p(i) ==> q(i),
    ensures
        count_pred(p, m) <= count_pred(q, m),
    decreases m,
{
    if m > 0 {
        lemma_count_pred_le(p, q, (m - 1) as nat);
    }
}

proof fn lemma_count_pred_bound(p: spec_fn(int) -> bool, m: nat)
    ensures
        count_pred(p, m) <= m,
    decreases m,
{
    if m > 0 {
        lemma_count_pred_bound(p, (m - 1) as nat);
    }
}

proof fn lemma_precedes_order(c: Seq<u128>, a: nat)
    ensures
        forall|i: int| !#[trigger] precedes(c, a, i, i),
        forall|i: int, j: int, k: int| #[trigger] precedes(c, a, i, j) && #[trigger] precedes(c, a, j, k)
            ==> precedes(c, a, i, k),
        forall|i: int, j: int| i != j ==> #[trigger] precedes(c, a, i, j) || #[trigger] precedes(c, a, j, i),
{
}

proof fn lemma_count_before_bound(c: Seq<u128>, a: nat, i: int, m: nat)
    requires
        0 <= i < m,
    ensures
        count_before(c, a, i, m) < m,
    decreases m,
{
    lemma_precedes_order(c, a);
    if i < m - 1 {
        lemma_count_before_bound(c, a, i, (m - 1) as nat);
    } else {
        lemma_count_before_le(c, a, i, (m - 1) as nat);
    }
}

proof fn lemma_count_before_le(c: Seq<u128>, a: nat, i: int, m: nat)
    ensures
        count_before(c, a, i, m) <= m,
    decreases m,
{
    if m > 0 {
        lemma_count_before_le(c, a, i, (m - 1) as nat);
    }
}

proof fn lemma_count_before_mono(c: Seq<u128>, a: nat, j: int, i: int, m: nat)
    requires
        precedes(c, a, j, i),
    ensures
        count_before(c, a, j, m) + (if 0 <= j < m { 1nat } else { 0nat }) <= count_before(c, a, i, m),
    decreases m,
{
    lemma_precedes_order(c, a);
    if m > 0 {
        lemma_count_before_mono(c, a, j, i, (m - 1) as nat);
        let x = m - 1;
        if precedes(c, a, x, j) {
            assert(precedes(c, a, x, i));
        }
    }
}

/// The ranks of the `n` components are `0..n`, each once: exactly `k` of
/// them lie below `k`.
proof fn lemma_ranks_below(c: Seq<u128>, a: nat, k: nat)
    requires
        k <= c.len(),
    ensures
        count_pred(|i: int| rank(c, a, i) < k, c.len()) == k,
{
    let n = c.len();
    let range = vstd::set_lib::set_int_range(0, n as int);
    let rk = |i: int| rank(c, a, i) as int;
    vstd::set_lib::lemma_int_range(0, n as int);
    lemma_precedes_order(c, a);
    assert(vstd::relations::injective_on(rk, range)) by {
        assert forall|x: int, y: int| range.contains(x) && range.contains(y) && #[trigger] rk(x) == #[trigger] rk(y)
            implies x == y by {
            if x != y {
                if precedes(c, a, x, y) {
                    lemma_count_before_mono(c, a, x, y, n);
                } else {
                    lemma_count_before_mono(c, a, y, x, n);
                }
            }
        }
    }
    let img = range.map(rk);
    vstd::set_lib::lemma_map_size(range, img, rk);
    assert(img.subset_of(range)) by {
        assert forall|r: int| img.contains(r) implies range.contains(r) by {
            let i = choose|i: int| range.contains(i) && rk(i) == r;
            lemma_count_before_bound(c, a, i, n);
        }
    }
    vstd::set_lib::lemma_subset_equality(img, range);
    let below = |i: int| rank(c, a, i) < k;
    let sk = range.filter(below);
    let target = vstd::set_lib::set_int_range(0, k as int);
    vstd::set_lib::lemma_int_range(0, k as int);
    assert(sk.map(rk) =~= target) by {
        assert forall|r: int| #[trigger] target.contains(r) implies sk.map(rk).contains(r) by {
            assert(img.contains(r));
            let i = choose|i: int| range.contains(i) && rk(i) == r;
            assert(sk.contains(i));
        }
    }
    assert(vstd::relations::injective_on(rk, sk));
    vstd::set_lib::lemma_set_subset_finite(range, sk);
    vstd::set_lib::lemma_map_size(sk, target, rk);
    lemma_count_pred_set(below, n);
}

proof fn lemma_div_parts(c: Seq<u128>, a: nat, i: int)
    requires
        0 <= i < c.len(),
        sum(c) > 0,
        products_fit(c, a),
    ensures
        sat_mul(a, c[i] as nat) == a * c[i],
        share_floor(c, a, i) * sum(c) + share_rem(c, a, i) == a * c[i],
        share_rem(c, a, i) < sum(c),
        share_floor(c, a, i) <= a,
{
    let t = sum(c);
    let ci = c[i] as nat;
    lemma_elem_le_sum(c, i);
    assert(a * ci <= a * t) by (nonlinear_arith)
        requires ci <= t;
    let x = a * ci;
    assert(x <= u128::MAX);
    assert(sat_mul(a, ci) == x);
    vstd::arithmetic::div_mod::lemma_fundamental_div_mod(x as int, t as int);
    let f = x / t;
    let r = x % t;
    assert(f * t == t * f) by (nonlinear_arith);
    assert(f * t + r == x);
    assert(f * t <= a * t) by (nonlinear_arith)
        requires f * t + r == x, x <= a * t, r >= 0;
    assert(f <= a) by (nonlinear_arith)
        requires f * t <= a * t, t > 0;
}

proof fn lemma_sums(c: Seq<u128>, a: nat, m: nat)
    requires
        m <= c.len(),
        sum(c) > 0,
        products_fit(c, a),
    ensures
        floor_sum(c, a, m) * sum(c) + rem_sum(c, a, m) == a * sum(c.take(m as int)),
        rem_sum(c, a, m) + m <= m * sum(c),
    decreases m,
{
    let t = sum(c);
    if m == 0 {
        assert(c.take(0) =~= Seq::<u128>::empty());
        assert(a * 0 == 0) by (nonlinear_arith);
    } else {
        let p = (m - 1) as nat;
        lemma_sums(c, a, p);
        lemma_div_parts(c, a, p as int);
        assert(c.take(m as int).drop_last() =~= c.take(p as int));
        let fs = floor_sum(c, a, p);
        let f = share_floor(c, a, p as int);
        let sp = sum(c.take(p as int));
        assert(sum(c.take(m as int)) == sp + c[p as int]);
        assert((fs + f) * t == fs * t + f * t) by (nonlinear_arith);
        assert(a * (sp + c[p as int]) == a * sp + a * c[p as int]) by (nonlinear_arith);
        assert(m * t == p * t + t) by (nonlinear_arith)
            requires m == p + 1;
    }
}

proof fn lemma_floors_total(c: Seq<u128>, a: nat, m: nat)
    requires
        m <= c.len(),
        floor_sum(c, a, c.len()) <= u128::MAX,
    ensures
        floors_total(c, a, m) == floor_sum(c, a, m),
        floor_sum(c, a, m) <= floor_sum(c, a, c.len()),
    decreases c.len() - m,
{
    if m < c.len() {
        lemma_floors_total(c, a, m + 1);
    }
    if m > 0 {
        lemma_floors_total_prefix(c, a, m);
    }
}

proof fn lemma_floors_total_prefix(c: Seq<u128>, a: nat, m: nat)
    requires
        0 < m <= c.len(),
        floor_sum(c, a, m) <= u128::MAX,
    ensures
        floors_total(c, a, m) == floor_sum(c, a, m),
    decreases m,
{
    let p = (m - 1) as nat;
    assert(floors_total(c, a, 0) == 0);
    assert(floor_sum(c, a, 0) == 0);
    assert(floor_sum(c, a, m) == floor_sum(c, a, p) + share_floor(c, a, p as int));
    if m > 1 {
        lemma_floors_total_prefix(c, a, p);
    }
    assert(floors_total(c, a, p) == floor_sum(c, a, p));
    assert(floors_total(c, a, m) == sat_add(floors_total(c, a, p), share_floor(c, a, p as int)));
}

proof fn lemma_rem_zero_when_total_one(c: Seq<u128>, a: nat, m: nat)
    requires
        m <= c.len(),
        sum(c) == 1,
    ensures
        rem_sum(c, a, m) == 0,
    decreases m,
{
    if m > 0 {
        lemma_rem_zero_when_total_one(c, a, (m - 1) as nat);
    }
}

proof fn lemma_alloc_sum(c: Seq<u128>, a: nat, k: nat, m: nat)
    requires
        m <= c.len(),
        sum(c) > 0,
        a > 0,
        products_fit(c, a),
        k == leftover(c, a),
        k > 0 ==> forall|i: int| 0 <= i < c.len() ==> #[trigger] share_floor(c, a, i) < u128::MAX,
    ensures
        sum(allocation(c, a).take(m as int)) == floor_sum(c, a, m) + count_pred(|i: int| rank(c, a, i) < k, m),
    decreases m,
{
    let al = allocation(c, a);
    if m == 0 {
        assert(al.take(0) =~= Seq::<u128>::empty());
    } else {
        let p = (m - 1) as nat;
        lemma_alloc_sum(c, a, k, p);
        assert(al.take(m as int).drop_last() =~= al.take(p as int));
        lemma_div_parts(c, a, p as int);
        if rank(c, a, p as int) < k {
            assert(share_floor(c, a, p as int) < u128::MAX);
        }
    }
}

proof fn lemma_two_le_sum(c: Seq<u128>, i: int, j: int)
    requires
        0 <= i < c.len(),
        0 <= j < c.len(),
        i != j,
    ensures
        c[i] + c[j] <= sum(c),
    decreases c.len(),
{
    let l = c.len() - 1;
    if i < l && j < l {
        lemma_two_le_sum(c.drop_last(), i, j);
    } else if i == l {
        lemma_elem_le_sum(c.drop_last(), j);
    } else {
        lemma_elem_le_sum(c.drop_last(), i);
    }
}

proof fn lemma_rem_sum_zero(c: Seq<u128>, a: nat, m: nat)
    requires
        m <= c.len(),
        forall|j: int| 0 <= j < m ==> #[trigger] share_rem(c, a, j) == 0,
    ensures
        rem_sum(c, a, m) == 0,
    decreases m,
{
    if m > 0 {
        lemma_rem_sum_zero(c, a, (m - 1) as nat);
    }
}

/// While something is left over after the floors, no floor is `u128::MAX`:
/// a floor that large takes the whole vector and leaves nothing over.
proof fn lemma_floors_below_max(c: Seq<u128>, a: nat, k: nat)
    requires
        sum(c) > 0,
        products_fit(c, a),
        k == leftover(c, a),
        k > 0,
        floor_sum(c, a, c.len()) * sum(c) + rem_sum(c, a, c.len()) == a * sum(c),
        rem_sum(c, a, c.len()) == k * sum(c),
    ensures
        forall|i: int| 0 <= i < c.len() ==> #[trigger] share_floor(c, a, i) < u128::MAX,
{
    let t = sum(c);
    assert forall|i: int| 0 <= i < c.len() implies #[trigger] share_floor(c, a, i) < u128::MAX by {
        if share_floor(c, a, i) == u128::MAX {
            lemma_div_parts(c, a, i);
            lemma_elem_le_sum(c, i);
            let ci = c[i] as nat;
            let ri = share_rem(c, a, i);
            assert(a == u128::MAX);
            assert(ci == t && ri == 0) by (nonlinear_arith)
                requires u128::MAX * t + ri == a * ci, a == u128::MAX, ci <= t, ri < t, t > 0;
            assert forall|j: int| 0 <= j < c.len() implies #[trigger] share_rem(c, a, j) == 0 by {
                if j != i {
                    lemma_two_le_sum(c, i, j);
                    assert(c[j] == 0);
                    assert(sat_mul(a, 0) == 0);
                }
            }
            lemma_rem_sum_zero(c, a, c.len());
            assert(k * t > 0) by (nonlinear_arith)
                requires k > 0, t > 0;
        }
    }
}

/// When no product `amount * c_i` saturates, the allocation hands out
/// exactly `amount`.
pub proof fn law_allocation_total(c: Seq<u128>, amount: nat)
    requires
        products_fit(c, amount),
    ensures
        sum(c) > 0 ==> sum(allocation(c, amount)) == amount,
        sum(c) == 0 ==> sum(allocation(c, amount)) == 0,
{
    let al = allocation(c, amount);
    if sum(c) == 0 || amount == 0 {
        lemma_sum_zero(al, al.len());
        assert(al.take(al.len() as int) =~= al);
    } else {
        let n = c.len();
        let t = sum(c);
        lemma_sums(c, amount, n);
        assert(c.take(n as int) =~= c);
        let f = floor_sum(c, amount, n);
        let r = rem_sum(c, amount, n);
        assert(f <= amount) by (nonlinear_arith)
            requires f * t + r == amount * t, t > 0, r >= 0;
        lemma_floors_total(c, amount, n);
        let k = leftover(c, amount);
        assert(k == amount - f);
        assert(r == k * t) by (nonlinear_arith)
            requires f * t + r == amount * t, k == amount - f;
        assert(n > 0) by {
            if n == 0 {
                assert(c =~= Seq::<u128>::empty());
            }
        }
        assert(k * t < n * t);
        if k >= n {
            assert(k * t >= n * t) by (nonlinear_arith)
                requires k >= n, t > 0;
        }
        if k > 0 {
            if t == 1 {
                lemma_rem_zero_when_total_one(c, amount, n);
                assert(k * 1 == k);
            }
            lemma_floors_below_max(c, amount, k);
        }
        lemma_alloc_sum(c, amount, k, n);
        lemma_ranks_below(c, amount, k);
        assert(al.take(n as int) =~= al);
    }
}

proof fn lemma_sum_zero(s: Seq<u128>, m: nat)
    requires
        m <= s.len(),
        forall|i: int| 0 <= i < s.len() ==> s[i] == 0,
    ensures
        sum(s.take(m as int)) == 0,
    decreases m,
{
    if m > 0 {
        lemma_sum_zero(s, (m - 1) as nat);
        assert(s.take(m as int).drop_last() =~= s.take(m - 1));
    } else {
        assert(s.take(0) =~= Seq::<u128>::empty());
    }
}

} // verus!
verus! {

proof fn lemma_rank_at_least_positive(c: Seq<u128>, a: nat, i: int, m: nat)
    requires
        share_rem(c, a, i) == 0,
    ensures
        count_pred(|j: int| share_rem(c, a, j) > 0, m) <= count_before(c, a, i, m),
    decreases m,
{
    if m > 0 {
        lemma_rank_at_least_positive(c, a, i, (m - 1) as nat);
    }
}

proof fn lemma_rem_sum_bound(c: Seq<u128>, a: nat, m: nat)
    requires
        m <= c.len(),
        sum(c) > 0,
        products_fit(c, a),
    ensures
        rem_sum(c, a, m) <= count_pred(|j: int| share_rem(c, a, j) > 0, m) * (sum(c) - 1),
    decreases m,
{
    if m > 0 {
        let p = (m - 1) as nat;
        lemma_rem_sum_bound(c, a, p);
        lemma_div_parts(c, a, p as int);
        let np = count_pred(|j: int| share_rem(c, a, j) > 0, p);
        let t1 = sum(c) - 1;
        assert((np + 1) * t1 == np * t1 + t1) by (nonlinear_arith);
    }
}

/// When `amount` is at most the total (and no product saturates), no
/// component is allocated more than it holds.
pub proof fn law_allocation_within(c: Seq<u128>, amount: nat)
    requires
        amount <= sum(c),
        products_fit(c, amount),
    ensures
        forall|i: int| 0 <= i < c.len() ==> #[trigger] allocation(c, amount)[i] <= c[i],
{
    let t = sum(c);
    let n = c.len();
    if t > 0 && amount > 0 {
        lemma_sums(c, amount, n);
        assert(c.take(n as int) =~= c);
        let f = floor_sum(c, amount, n);
        let r = rem_sum(c, amount, n);
        assert(f <= amount) by (nonlinear_arith)
            requires f * t + r == amount * t, t > 0, r >= 0;
        lemma_floors_total(c, amount, n);
        let k = leftover(c, amount);
        assert(r == k * t) by (nonlinear_arith)
            requires f * t + r == amount * t, k == amount - f;
        let pos = |j: int| share_rem(c, amount, j) > 0;
        lemma_rem_sum_bound(c, amount, n);
        let npos = count_pred(pos, n);
        assert forall|i: int| 0 <= i < c.len() implies #[trigger] allocation(c, amount)[i] <= c[i] by {
            lemma_div_parts(c, amount, i);
            let fi = share_floor(c, amount, i);
            let ri = share_rem(c, amount, i);
            let ci = c[i] as nat;
            assert(amount * ci <= t * ci) by (nonlinear_arith)
                requires amount <= t;
            assert(fi <= ci) by (nonlinear_arith)
                requires fi * t + ri == amount * ci, amount * ci <= t * ci, t > 0, ri >= 0;
            if rank(c, amount, i) < k {
                if ri == 0 {
                    lemma_rank_at_least_positive(c, amount, i, n);
                    assert(npos < k);
                    assert(k * t <= npos * (t - 1));
                    assert(npos * (t - 1) <= k * (t - 1)) by (nonlinear_arith)
                        requires npos < k, t >= 1;
                    assert(k * (t - 1) < k * t) by (nonlinear_arith)
                        requires k > 0;
                }
                assert(fi < ci) by (nonlinear_arith)
                    requires fi * t + ri == amount * ci, amount * ci <= t * ci, t > 0, ri > 0;
            }
        }
    }
}

proof fn lemma_sum_diff(c: Seq<u128>, a: Seq<u128>, m: nat)
    requires
        m <= c.len(),
        a.len() == c.len(),
        forall|i: int| 0 <= i < c.len() ==> a[i] <= c[i],
    ensures
        sum(Seq::new(c.len(), |i: int| (c[i] - a[i]) as u128).take(m as int)) + sum(a.take(m as int))
            == sum(c.take(m as int)),
    decreases m,
{
    let d = Seq::new(c.len(), |i: int| (c[i] - a[i]) as u128);
    if m == 0 {
        assert(d.take(0) =~= Seq::<u128>::empty());
        assert(a.take(0) =~= Seq::<u128>::empty());
        assert(c.take(0) =~= Seq::<u128>::empty());
    } else {
        let p = m - 1;
        lemma_sum_diff(c, a, p as nat);
        assert(d.take(m as int).drop_last() =~= d.take(p));
        assert(a.take(m as int).drop_last() =~= a.take(p));
        assert(c.take(m as int).drop_last() =~= c.take(p));
    }
}

/// Subtraction takes out exactly the allocation: when it succeeds the
/// components shrink by the allocated total, and (with a positive total and
/// no product saturating) it succeeds exactly when `amount` is at most the
/// total. A vector whose components are all zero is left as it is.
pub proof fn law_subtract(c: Seq<u128>, amount: nat)
    requires
        products_fit(c, amount),
    ensures
        subtract_spec(c, amount) matches Some(v) ==> sum(v) + sum(allocation(c, amount)) == sum(c),
        sum(c) > 0 ==> (subtract_spec(c, amount) is Some <==> amount <= sum(c)),
        sum(c) > 0 ==> (subtract_spec(c, amount) matches Some(v) ==> sum(v) + amount == sum(c)),
        sum(c) == 0 ==> subtract_spec(c, amount) == Some(c),
{
    let al = allocation(c, amount);
    law_allocation_total(c, amount);
    if amount <= sum(c) {
        law_allocation_within(c, amount);
    }
    if forall|i: int| 0 <= i < c.len() ==> al[i] <= c[i] {
        lemma_sum_diff(c, al, c.len());
        assert(c.take(c.len() as int) =~= c);
        assert(al.take(c.len() as int) =~= al);
        let d = Seq::new(c.len(), |i: int| (c[i] - al[i]) as u128);
        assert(d.take(c.len() as int) =~= d);
    }
    if sum(c) == 0 {
        assert(forall|i: int| 0 <= i < c.len() ==> al[i] == 0);
        assert(Seq::new(c.len(), |i: int| (c[i] - al[i]) as u128) =~= c);
    }
}

} // verus!
verus! {

proof fn lemma_sum_add(c: Seq<u128>, a: Seq<u128>, m: nat)
    requires
        m <= c.len(),
        a.len() == c.len(),
        forall|i: int| 0 <= i < c.len() ==> c[i] + a[i] <= u128::MAX,
    ensures
        sum(Seq::new(c.len(), |i: int| sat_add(c[i] as nat, a[i] as nat) as u128).take(m as int))
            == sum(c.take(m as int)) + sum(a.take(m as int)),
    decreases m,
{
    let d = Seq::new(c.len(), |i: int| sat_add(c[i] as nat, a[i] as nat) as u128);
    if m == 0 {
        assert(d.take(0) =~= Seq::<u128>::empty());
        assert(a.take(0) =~= Seq::<u128>::empty());
        assert(c.take(0) =~= Seq::<u128>::empty());
    } else {
        let p = m - 1;
        lemma_sum_add(c, a, p as nat);
        assert(d.take(m as int).drop_last() =~= d.take(p));
        assert(a.take(m as int).drop_last() =~= a.take(p));
        assert(c.take(m as int).drop_last() =~= c.take(p));
    }
}

/// Adding vectors of one dimension adds their totals, when no component
/// saturates.
pub proof fn law_add(c: Seq<u128>, a: Seq<u128>)
    requires
        c.len() == a.len(),
        forall|i: int| 0 <= i < c.len() ==> c[i] + a[i] <= u128::MAX,
    ensures
        add_spec(c, a) matches Some(v) && sum(v) == sum(c) + sum(a),
{
    lemma_sum_add(c, a, c.len());
    let d = Seq::new(c.len(), |i: int| sat_add(c[i] as nat, a[i] as nat) as u128);
    assert(d.take(c.len() as int) =~= d);
    assert(c.take(c.len() as int) =~= c);
    assert(a.take(c.len() as int) =~= a);
}

} // verus!
verus! {

/// Each component is at most the total.
pub proof fn lemma_component_le_sum(c: Seq<u128>, i: int)
    requires
        0 <= i < c.len(),
    ensures
        c[i] <= sum(c),
{
    lemma_sum_prefix_bound(c, i + 1);
    assert(c.take(i + 1).drop_last() =~= c.take(i));
}

} // verus!
