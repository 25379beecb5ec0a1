//! The fixed-width unsigned numbers in which balances and block numbers are counted.
use crate::storage::StorageKey;
use vstd::prelude::*;

verus! {

/// The sum of two numbers, held down to `max`.
pub open spec fn capped_sum(a: nat, b: nat, max: nat) -> nat {
    if a + b <= max {
        a + b
    } else {
        max
    }
}

/// What is left of `a` after `b` is taken from it, and nothing if `b` is larger.
pub open spec fn floored_difference(a: nat, b: nat) -> nat {
    if b <= a {
        (a - b) as nat
    } else {
        0
    }
}

/// The smaller of two numbers.
pub open spec fn smaller(a: nat, b: nat) -> nat {
    if a <= b {
        a
    } else {
        b
    }
}

/// A fixed-width unsigned number of at most 128 bits, with saturating arithmetic.
///
/// The ghost functions have defaults that say nothing, for numbers of runtimes that are not
/// verified themselves.
pub trait Number: StorageKey + Copy {
    /// The number as a mathematical one.
    closed spec fn value(self) -> nat {
        arbitrary()
    }

    /// The largest value of the type.
    closed spec fn max_value() -> nat {
        arbitrary()
    }

    /// The number that has the value `n`, where the type has one.
    closed spec fn of(n: nat) -> Self {
        arbitrary()
    }

    /// A value is in range, and it identifies the number.
    proof fn value_in_range(self)
        ensures
            self.value() <= Self::max_value(),
            1 <= Self::max_value() <= u128::MAX,
            Self::of(self.value()) == self,
    ;

    /// Every value in range is the value of a number.
    proof fn value_of(n: u128)
        requires
            n <= Self::max_value(),
        ensures
            Self::of(n as nat).value() == n,
    ;

    /// Zero.
    fn zero() -> (r: Self)
        ensures
            r == Self::of(0),
    ;

    /// The sum, or the largest value where the sum is out of range.
    fn saturating_add(self, other: Self) -> (r: Self)
        ensures
            r == Self::of(capped_sum(self.value(), other.value(), Self::max_value())),
    ;

    /// The difference, or zero where `other` is larger.
    fn saturating_sub(self, other: Self) -> (r: Self)
        ensures
            r == Self::of(floored_difference(self.value(), other.value())),
    ;

    /// Whether the number is no larger than `other`.
    fn at_most(self, other: Self) -> (b: bool)
        ensures
            b == (self.value() <= other.value()),
    ;

    /// The same value as a `u128`.
    fn to_u128(self) -> (r: u128)
        ensures
            r as nat == self.value(),
    ;

    /// The number with the value `n`.
    fn from_u128(n: u128) -> (r: Self)
        requires
            n <= Self::max_value(),
        ensures
            r == Self::of(n as nat),
    ;
}

/// The saturating sum of two numbers.
pub open spec fn plus<N: Number>(a: N, b: N) -> N {
    N::of(capped_sum(a.value(), b.value(), N::max_value()))
}

/// The saturating difference of two numbers.
pub open spec fn minus<N: Number>(a: N, b: N) -> N {
    N::of(floored_difference(a.value(), b.value()))
}

/// Every value in range is the value of its number.
pub proof fn lemma_value_of<N: Number>(n: nat)
    requires
        n <= N::max_value(),
    ensures
        N::of(n).value() == n,
{
    N::of(n).value_in_range();
    N::value_of(n as u128);
}

/// What the saturating operations do to the values.
pub proof fn lemma_values<N: Number>(a: N, b: N)
    ensures
        plus(a, b).value() == capped_sum(a.value(), b.value(), N::max_value()),
        minus(a, b).value() == floored_difference(a.value(), b.value()),
        N::of(0).value() == 0,
        N::of(1).value() == 1,
        a.value() <= N::max_value(),
        b.value() <= N::max_value(),
{
    a.value_in_range();
    b.value_in_range();
    lemma_value_of::<N>(capped_sum(a.value(), b.value(), N::max_value()));
    lemma_value_of::<N>(floored_difference(a.value(), b.value()));
    lemma_value_of::<N>(0);
    lemma_value_of::<N>(1);
}

impl Number for u32 {
    open spec fn value(self) -> nat {
        self as nat
    }

    open spec fn max_value() -> nat {
        u32::MAX as nat
    }

    open spec fn of(n: nat) -> Self {
        n as u32
    }

    proof fn value_in_range(self) {
    }

    proof fn value_of(n: u128) {
    }

    fn zero() -> (r: Self) {
        0
    }

    fn saturating_add(self, other: Self) -> (r: Self) {
        u32::saturating_add(self, other)
    }

    fn saturating_sub(self, other: Self) -> (r: Self) {
        u32::saturating_sub(self, other)
    }

    fn at_most(self, other: Self) -> (b: bool) {
        self <= other
    }

    fn to_u128(self) -> (r: u128) {
        self as u128
    }

    fn from_u128(n: u128) -> (r: Self) {
        n as u32
    }
}

impl Number for u64 {
    open spec fn value(self) -> nat {
        self as nat
    }

    open spec fn max_value() -> nat {
        u64::MAX as nat
    }

    open spec fn of(n: nat) -> Self {
        n as u64
    }

    proof fn value_in_range(self) {
    }

    proof fn value_of(n: u128) {
    }

    fn zero() -> (r: Self) {
        0
    }

    fn saturating_add(self, other: Self) -> (r: Self) {
        u64::saturating_add(self, other)
    }

    fn saturating_sub(self, other: Self) -> (r: Self) {
        u64::saturating_sub(self, other)
    }

    fn at_most(self, other: Self) -> (b: bool) {
        self <= other
    }

    fn to_u128(self) -> (r: u128) {
        self as u128
    }

    fn from_u128(n: u128) -> (r: Self) {
        n as u64
    }
}

impl Number for u128 {
    open spec fn value(self) -> nat {
        self as nat
    }

    open spec fn max_value() -> nat {
        u128::MAX as nat
    }

    open spec fn of(n: nat) -> Self {
        n as u128
    }

    proof fn value_in_range(self) {
    }

    proof fn value_of(n: u128) {
    }

    fn zero() -> (r: Self) {
        0
    }

    fn saturating_add(self, other: Self) -> (r: Self) {
        u128::saturating_add(self, other)
    }

    fn saturating_sub(self, other: Self) -> (r: Self) {
        u128::saturating_sub(self, other)
    }

    fn at_most(self, other: Self) -> (b: bool) {
        self <= other
    }

    fn to_u128(self) -> (r: u128) {
        self
    }

    fn from_u128(n: u128) -> (r: Self) {
        n
    }
}

} // verus!
