//! Sums over finite sets.
use vstd::prelude::*;

verus! {

/// The sum of the weights of the members of a finite set.
pub open spec fn sum<K>(members: Set<K>, weight: spec_fn(K) -> nat) -> nat
    decreases members.len(),
    when members.finite()
{
    if members.len() == 0 {
        0
    } else {
        let k = members.choose();
        weight(k) + sum(members.remove(k), weight)
    }
}

/// Any member can be the one that is counted first.
pub proof fn lemma_sum_remove<K>(members: Set<K>, weight: spec_fn(K) -> nat, k: K)
    requires
        members.finite(),
        members.contains(k),
    ensures
        sum(members, weight) == weight(k) + sum(members.remove(k), weight),
    decreases members.len(),
{
    let c = members.choose();
    assert(members.len() > 0) by {
        if members.len() == 0 {
            assert(members =~= Set::empty());
        }
    }
    assert(members.contains(c));
    if c != k {
        lemma_sum_remove(members.remove(c), weight, k);
        lemma_sum_remove(members.remove(k), weight, c);
        assert(members.remove(c).remove(k) =~= members.remove(k).remove(c));
    }
}

/// Weights that agree on the members have the same sum.
pub proof fn lemma_sum_agree<K>(
    members: Set<K>,
    weight: spec_fn(K) -> nat,
    other: spec_fn(K) -> nat,
)
    requires
        members.finite(),
        forall|k: K| #[trigger] members.contains(k) ==> weight(k) == other(k),
    ensures
        sum(members, weight) == sum(members, other),
    decreases members.len(),
{
    if members.len() > 0 {
        let c = members.choose();
        assert(members.contains(c));
        lemma_sum_agree(members.remove(c), weight, other);
    }
}

/// A common factor of the weights is a factor of the sum.
pub proof fn lemma_sum_scaled<K>(
    members: Set<K>,
    weight: spec_fn(K) -> nat,
    unit: spec_fn(K) -> nat,
    factor: nat,
)
    requires
        members.finite(),
        forall|k: K| #[trigger] members.contains(k) ==> weight(k) == unit(k) * factor,
    ensures
        sum(members, weight) == sum(members, unit) * factor,
    decreases members.len(),
{
    if members.len() > 0 {
        let c = members.choose();
        assert(members.contains(c));
        let rest = sum(members.remove(c), unit);
        lemma_sum_scaled(members.remove(c), weight, unit, factor);
        assert((unit(c) + rest) * factor == unit(c) * factor + rest * factor) by (nonlinear_arith);
    } else {
        assert(0 * factor == 0) by (nonlinear_arith);
    }
}

/// Weights of zero sum up to zero.
pub proof fn lemma_sum_zero<K>(members: Set<K>, weight: spec_fn(K) -> nat)
    requires
        members.finite(),
        forall|k: K| #[trigger] members.contains(k) ==> weight(k) == 0,
    ensures
        sum(members, weight) == 0,
    decreases members.len(),
{
    if members.len() > 0 {
        let c = members.choose();
        assert(members.contains(c));
        lemma_sum_zero(members.remove(c), weight);
    }
}

/// How the sum over the keys of a map changes when one entry is written and no other member's
/// weight changes.
pub proof fn lemma_sum_update<K>(
    members: Set<K>,
    weight: spec_fn(K) -> nat,
    other: spec_fn(K) -> nat,
    k: K,
)
    requires
        members.finite(),
        forall|m: K| #[trigger] members.contains(m) && m != k ==> weight(m) == other(m),
    ensures
        members.contains(k) ==> sum(members.insert(k), other) + weight(k) == sum(members, weight)
            + other(k),
        !members.contains(k) ==> sum(members.insert(k), other) == sum(members, weight) + other(k),
{
    let rest = members.remove(k);
    lemma_sum_agree(rest, weight, other);
    assert(members.insert(k).remove(k) =~= rest);
    lemma_sum_remove(members.insert(k), other, k);
    if members.contains(k) {
        lemma_sum_remove(members, weight, k);
    } else {
        assert(rest =~= members);
    }
}

/// A sum is at most another if every member with a weight has a partner of at least that weight,
/// and no two members share a partner.
pub proof fn lemma_sum_injection<K, L>(
    members: Set<K>,
    weight: spec_fn(K) -> nat,
    partners: Set<L>,
    other: spec_fn(L) -> nat,
    partner: spec_fn(K) -> L,
)
    requires
        members.finite(),
        partners.finite(),
        forall|k: K| #[trigger]
            members.contains(k) && weight(k) > 0 ==> partners.contains(partner(k)) && weight(k)
                <= other(partner(k)),
        forall|k: K, m: K|
            #![trigger members.contains(k), members.contains(m)]
            members.contains(k) && members.contains(m) && weight(k) > 0 && weight(m) > 0 && k != m
                ==> partner(k) != partner(m),
    ensures
        sum(members, weight) <= sum(partners, other),
    decreases members.len(),
{
    if members.len() > 0 {
        let c = members.choose();
        assert(members.contains(c));
        let rest = members.remove(c);
        if weight(c) == 0 {
            lemma_sum_injection(rest, weight, partners, other, partner);
        } else {
            let p = partner(c);
            assert(partners.contains(p));
            lemma_sum_injection(rest, weight, partners.remove(p), other, partner);
            lemma_sum_remove(partners, other, p);
        }
    }
}

} // verus!
