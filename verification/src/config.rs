//! What a runtime supplies to the pallet.
use crate::number::{capped_sum, floored_difference, smaller, Number};
use crate::storage::StorageKey;
use crate::types::{Error, Event};
use vstd::prelude::*;

verus! {

/// `sp_runtime::DispatchError`: why the token refused an operation.
#[verifier::external_type_specification]
#[verifier::external_body]
pub struct ExTokenError(sp_runtime::DispatchError);

/// Reasons for holding `VGOV`.
#[derive(Clone, Copy, Debug, PartialEq, Eq, Structural)]
pub enum HoldReason {
    /// Stakeholder stake escrowed at project genesis.
    Stake,
    /// Proposal bond auto-staked by the proposer of a release.
    ProposalBond,
}

/// Who sends a request.
#[derive(Clone, Debug, PartialEq, Eq)]
pub enum Origin<AccountId> {
    /// The chain's own authority.
    Root,
    /// An account that signed the request.
    Signed(AccountId),
    /// Nobody.
    Unsigned,
}

/// Why a request fails.
#[derive(Debug, PartialEq, Eq)]
pub enum CallError {
    /// The request does not come from the origin that it has to come from.
    BadOrigin,
    /// The pallet refuses it.
    Module(Error),
    /// The token refuses an operation that it needs.
    Token(sp_runtime::DispatchError),
}

/// The types and services of the runtime that the pallet is part of.
///
/// The executable methods stand for calls into the runtime: `sp_runtime::traits::Verify::verify`
/// for signatures, `hold`, `release` and `burn_held` of
/// `frame_support::traits::fungible::MutateHold` for the token, and
/// `frame_system::Pallet::deposit_event` for events. Nothing is promised of when the token's
/// succeed. What they return is named by the ghost functions beside them, so that the contracts
/// of the pallet can say what becomes of each answer. The three `.._effect` lemmas are what the
/// pallet relies on when an answer is given; they restate what the provided methods of
/// `MutateHold` do.
///
/// The ghost functions have defaults that say nothing, for runtimes that are not verified
/// themselves. Those meet the lemmas by using a token that behaves like `MutateHold`.
pub trait Config: Sized {
    /// Identifies an account.
    type AccountId: StorageKey;

    /// Counts `VGOV`.
    type Balance: Number;

    /// Counts blocks.
    type BlockNumber: Number;

    /// The books of the `VGOV` token. Where they are kept elsewhere, this is the handle on them,
    /// and its ghost value is what they hold.
    type Currency;

    /// Where the runtime keeps the events. As with the books, this may be a handle, whose ghost
    /// value is what is kept.
    type EventLog;

    /// Signature over `A_build`.
    type Signature;

    /// Whether `signature` is a signature of `signer` over `payload`.
    closed spec fn is_signature(
        signature: Self::Signature,
        payload: Seq<u8>,
        signer: Self::AccountId,
    ) -> bool {
        arbitrary()
    }

    /// Verifies a signature of a Build Service: `Verify::verify`.
    fn verify(signature: &Self::Signature, payload: &[u8; 128], signer: &Self::AccountId) -> (ok:
        bool)
        ensures
            ok == Self::is_signature(*signature, payload@, *signer),
    ;

    /// How much of the account's `VGOV` is on hold for `reason`: `balance_on_hold`.
    closed spec fn on_hold(books: Self::Currency, reason: HoldReason, who: Self::AccountId) -> nat {
        arbitrary()
    }

    /// How much of what the account has on hold, for all reasons together, can be forced out:
    /// `reducible_total_balance_on_hold`.
    closed spec fn reducible_on_hold(books: Self::Currency, who: Self::AccountId) -> nat {
        arbitrary()
    }

    /// How much `VGOV` there is.
    closed spec fn total_issuance(books: Self::Currency) -> nat {
        arbitrary()
    }

    /// What an attempt to hold `amount` makes of the books, and what it answers.
    closed spec fn hold_outcome(
        books: Self::Currency,
        reason: HoldReason,
        who: Self::AccountId,
        amount: Self::Balance,
    ) -> (Self::Currency, Result<(), sp_runtime::DispatchError>) {
        arbitrary()
    }

    /// What an attempt to release up to `amount` from hold makes of the books, and what it answers.
    closed spec fn release_outcome(
        books: Self::Currency,
        reason: HoldReason,
        who: Self::AccountId,
        amount: Self::Balance,
    ) -> (Self::Currency, Result<Self::Balance, sp_runtime::DispatchError>) {
        arbitrary()
    }

    /// What an attempt to burn up to `amount` that is on hold makes of the books, and what it
    /// answers.
    closed spec fn burn_held_outcome(
        books: Self::Currency,
        reason: HoldReason,
        who: Self::AccountId,
        amount: Self::Balance,
    ) -> (Self::Currency, Result<Self::Balance, sp_runtime::DispatchError>) {
        arbitrary()
    }

    /// A hold that succeeds adds the amount to what is on hold for the reason, and touches no
    /// other hold.
    proof fn hold_effect(
        books: Self::Currency,
        reason: HoldReason,
        who: Self::AccountId,
        amount: Self::Balance,
    )
        ensures
            ({
                let (after, answer) = Self::hold_outcome(books, reason, who, amount);
                answer is Ok ==> {
                    &&& Self::on_hold(after, reason, who) == capped_sum(
                        Self::on_hold(books, reason, who),
                        amount.value(),
                        Self::Balance::max_value(),
                    )
                    &&& forall|r: HoldReason, a: Self::AccountId|
                        (r != reason || a != who) ==> #[trigger] Self::on_hold(after, r, a)
                            == Self::on_hold(books, r, a)
                }
            }),
    ;

    /// A release that succeeds takes the amount, or all there is, out of what is on hold for the
    /// reason, and answers with no more than that. One that fails may have got as far as taking
    /// it out of the hold, or not. Neither touches another hold.
    proof fn release_effect(
        books: Self::Currency,
        reason: HoldReason,
        who: Self::AccountId,
        amount: Self::Balance,
    )
        ensures
            ({
                let (after, answer) = Self::release_outcome(books, reason, who, amount);
                let held = Self::on_hold(books, reason, who);
                let left = Self::on_hold(after, reason, who);
                &&& answer matches Ok(released) ==> {
                    &&& left == floored_difference(held, amount.value())
                    &&& released.value() <= smaller(amount.value(), held)
                }
                &&& answer is Err ==> left == held || left == floored_difference(
                    held,
                    amount.value(),
                )
                &&& forall|r: HoldReason, a: Self::AccountId|
                    (r != reason || a != who) ==> #[trigger] Self::on_hold(after, r, a)
                        == Self::on_hold(books, r, a)
            }),
    ;

    /// A burn that succeeds answers with the most that the amount, the hold and the account allow;
    /// it takes just that out of the hold and out of the issuance, and touches no other hold.
    proof fn burn_held_effect(
        books: Self::Currency,
        reason: HoldReason,
        who: Self::AccountId,
        amount: Self::Balance,
    )
        ensures
            ({
                let (after, answer) = Self::burn_held_outcome(books, reason, who, amount);
                answer matches Ok(burned) ==> {
                    &&& burned.value() == smaller(
                        smaller(amount.value(), Self::reducible_on_hold(books, who)),
                        Self::on_hold(books, reason, who),
                    )
                    &&& Self::on_hold(after, reason, who) == Self::on_hold(books, reason, who)
                        - burned.value()
                    &&& Self::total_issuance(after) == floored_difference(
                        Self::total_issuance(books),
                        burned.value(),
                    )
                    &&& forall|r: HoldReason, a: Self::AccountId|
                        (r != reason || a != who) ==> #[trigger] Self::on_hold(after, r, a)
                            == Self::on_hold(books, r, a)
                }
            }),
    ;

    /// The books as they stand, to go back to if the request that is under way fails. A runtime
    /// that rolls its storage back when a call fails (`frame_support::storage::with_storage_layer`)
    /// hands out its handle once more.
    fn snapshot(books: &Self::Currency) -> (copy: Self::Currency)
        ensures
            copy == *books,
    ;

    /// Holds `amount` of the account's free balance for `reason`: `MutateHold::hold`.
    fn hold(
        books: &mut Self::Currency,
        reason: HoldReason,
        who: &Self::AccountId,
        amount: Self::Balance,
    ) -> (answer: Result<(), sp_runtime::DispatchError>)
        ensures
            (*final(books), answer) == Self::hold_outcome(*old(books), reason, *who, amount),
    ;

    /// Releases up to `amount` that is on hold for `reason`: `MutateHold::release` with
    /// `Precision::BestEffort`.
    fn release(
        books: &mut Self::Currency,
        reason: HoldReason,
        who: &Self::AccountId,
        amount: Self::Balance,
    ) -> (answer: Result<Self::Balance, sp_runtime::DispatchError>)
        ensures
            (*final(books), answer) == Self::release_outcome(*old(books), reason, *who, amount),
    ;

    /// Burns up to `amount` that is on hold for `reason`: `MutateHold::burn_held` with
    /// `Precision::BestEffort` and `Fortitude::Force`.
    fn burn_held(
        books: &mut Self::Currency,
        reason: HoldReason,
        who: &Self::AccountId,
        amount: Self::Balance,
    ) -> (answer: Result<Self::Balance, sp_runtime::DispatchError>)
        ensures
            (*final(books), answer) == Self::burn_held_outcome(*old(books), reason, *who, amount),
    ;

    /// The events that the runtime has been told of, in order.
    closed spec fn announced(log: Self::EventLog) -> Seq<Event<Self>> {
        arbitrary()
    }

    /// Tells the runtime of an event, as it is deposited: `frame_system::Pallet::deposit_event`.
    fn announce(log: &mut Self::EventLog, event: Event<Self>)
        ensures
            Self::announced(*final(log)) == Self::announced(*old(log)).push(event),
    ;

    /// The events as they stand, to go back to if the request that is under way fails. As with the
    /// books, a runtime that rolls its storage back hands out its handle once more.
    fn log_snapshot(log: &Self::EventLog) -> (copy: Self::EventLog)
        ensures
            copy == *log,
    ;
}

} // verus!
