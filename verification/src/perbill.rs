//! Parts per billion: the unit of quorums and slash fractions.
use crate::number::Number;
use vstd::prelude::*;

verus! {

/// The number of parts in the whole.
pub const ACCURACY: u32 = 1_000_000_000;

/// A fraction between zero and one, counted in billionths.
#[derive(Clone, Copy, Debug, PartialEq, Eq, Structural)]
pub struct Perbill {
    parts: u32,
}

impl View for Perbill {
    type V = nat;

    /// The number of parts that the fraction has, which is never more than the whole.
    closed spec fn view(&self) -> nat {
        if self.parts <= ACCURACY {
            self.parts as nat
        } else {
            ACCURACY as nat
        }
    }
}

/// `fraction` billionths of `amount`, rounded down.
pub open spec fn share(fraction: nat, amount: nat) -> nat {
    (fraction * amount) / (ACCURACY as nat)
}

/// `sp_runtime::Perbill::mul_floor`, on the fraction that `sp_runtime::Perbill::from_parts` makes
/// of `parts`: that fraction of `amount`, rounded down.
#[verifier::external_body]
fn mul_floor_parts(parts: u32, amount: u128) -> (r: u128)
    requires
        parts <= ACCURACY,
    ensures
        r == share(parts as nat, amount as nat),
{
    sp_runtime::Perbill::from_parts(parts).mul_floor(amount)
}

/// A share of an amount by a fraction of at most one is at most the amount.
pub proof fn lemma_share_at_most(fraction: nat, amount: nat)
    requires
        fraction <= ACCURACY,
    ensures
        share(fraction, amount) <= amount,
{
    assert(fraction * amount <= ACCURACY * amount) by (nonlinear_arith)
        requires
            fraction <= ACCURACY,
    ;
    assert((fraction * amount) / (ACCURACY as nat) <= amount) by (nonlinear_arith)
        requires
            fraction * amount <= ACCURACY * amount,
            ACCURACY == 1_000_000_000,
    ;
}

impl Perbill {
    /// No fraction is more than the whole.
    pub proof fn lemma_at_most_whole(self)
        ensures
            self@ <= ACCURACY,
    {
    }

    /// A fraction has no more parts than the whole.
    #[verifier::type_invariant]
    closed spec fn at_most_whole(self) -> bool {
        self.parts <= ACCURACY
    }

    /// The fraction of so many parts; the whole where there are too many.
    pub fn from_parts(parts: u32) -> (fraction: Perbill)
        ensures
            fraction@ == if parts <= ACCURACY {
                parts as nat
            } else {
                ACCURACY as nat
            },
    {
        if parts <= ACCURACY {
            Perbill { parts }
        } else {
            Perbill { parts: ACCURACY }
        }
    }

    /// How many parts the fraction has.
    pub fn deconstruct(self) -> (parts: u32)
        ensures
            parts == self@,
            parts <= ACCURACY,
    {
        proof {
            use_type_invariant(self);
        }
        self.parts
    }

    /// This fraction of `amount`, rounded down.
    pub fn mul_floor<B: Number>(self, amount: B) -> (r: B)
        ensures
            r == B::of(share(self@, amount.value())),
            share(self@, amount.value()) <= amount.value(),
    {
        proof {
            use_type_invariant(self);
            amount.value_in_range();
            lemma_share_at_most(self@, amount.value());
        }
        let floor: u128 = mul_floor_parts(self.parts, amount.to_u128());
        B::from_u128(floor)
    }
}

} // verus!
