use frame_support::traits::fungible::{
    Dust, Inspect, InspectHold, MutateHold, Unbalanced, UnbalancedHold,
};
use frame_support::traits::tokens::{
    DepositConsequence, Fortitude, Precision, Preservation, Provenance, WithdrawConsequence,
};
use sp_runtime::{DispatchError, DispatchResult, TokenError};
use std::collections::BTreeMap;
use std::sync::Mutex;
use verigov::config::{CallError, Config, HoldReason, Origin};
use verigov::pallet::Pallet;
use verigov::perbill::Perbill;
use verigov::types::{
    BuildAttestation, Event, ProposalStatus, ReleasePolicy, Role, RoleQuorum, SlashingParams,
    StakeholderInit,
};

// ---------------------------------------------------------------------------------------------
// A token that keeps balances in memory and has its holds from `MutateHold`
// ---------------------------------------------------------------------------------------------

struct Balances {
    free: BTreeMap<u64, u64>,
    held: BTreeMap<(u8, u64), u64>,
    issuance: u64,
}

static BALANCES: Mutex<Balances> =
    Mutex::new(Balances { free: BTreeMap::new(), held: BTreeMap::new(), issuance: 0 });

/// Taken by each test, since there is one token for all of them.
static TURN: Mutex<()> = Mutex::new(());

struct Vgov;

impl Inspect<u64> for Vgov {
    type Balance = u64;

    fn total_issuance() -> u64 {
        BALANCES.lock().unwrap().issuance
    }

    fn minimum_balance() -> u64 {
        1
    }

    fn total_balance(who: &u64) -> u64 {
        Self::balance(who) + Self::total_balance_on_hold(who)
    }

    fn balance(who: &u64) -> u64 {
        *BALANCES.lock().unwrap().free.get(who).unwrap_or(&0)
    }

    fn reducible_balance(who: &u64, _: Preservation, _: Fortitude) -> u64 {
        Self::balance(who).saturating_sub(1)
    }

    fn can_deposit(_: &u64, _: u64, _: Provenance) -> DepositConsequence {
        DepositConsequence::Success
    }

    fn can_withdraw(_: &u64, _: u64) -> WithdrawConsequence<u64> {
        WithdrawConsequence::Success
    }
}

impl Unbalanced<u64> for Vgov {
    fn handle_dust(_: Dust<u64, Self>) {}

    fn write_balance(who: &u64, amount: u64) -> Result<Option<u64>, DispatchError> {
        BALANCES.lock().unwrap().free.insert(*who, amount);
        Ok(None)
    }

    fn set_total_issuance(amount: u64) {
        BALANCES.lock().unwrap().issuance = amount;
    }
}

impl InspectHold<u64> for Vgov {
    type Reason = u8;

    fn total_balance_on_hold(who: &u64) -> u64 {
        Self::balance_on_hold(&0, who) + Self::balance_on_hold(&1, who)
    }

    fn balance_on_hold(reason: &u8, who: &u64) -> u64 {
        *BALANCES.lock().unwrap().held.get(&(*reason, *who)).unwrap_or(&0)
    }
}

impl UnbalancedHold<u64> for Vgov {
    fn set_balance_on_hold(reason: &u8, who: &u64, amount: u64) -> DispatchResult {
        BALANCES.lock().unwrap().held.insert((*reason, *who), amount);
        Ok(())
    }
}

impl MutateHold<u64> for Vgov {}

fn code(reason: HoldReason) -> u8 {
    match reason {
        HoldReason::Stake => 0,
        HoldReason::ProposalBond => 1,
    }
}

struct Test;

impl Config for Test {
    type AccountId = u64;
    type Balance = u64;
    type BlockNumber = u64;
    type Currency = ();
    type EventLog = ();
    type Signature = bool;

    fn verify(signature: &bool, _: &[u8; 128], _: &u64) -> bool {
        *signature
    }

    fn announce(_: &mut (), _: Event<Test>) {}

    fn log_snapshot(_: &()) {}

    fn hold_effect(_: (), _: HoldReason, _: u64, _: u64) {}

    fn release_effect(_: (), _: HoldReason, _: u64, _: u64) {}

    fn burn_held_effect(_: (), _: HoldReason, _: u64, _: u64) {}

    fn snapshot(_: &()) {}

    fn hold(_: &mut (), reason: HoldReason, who: &u64, amount: u64) -> Result<(), DispatchError> {
        Vgov::hold(&code(reason), who, amount)
    }

    fn release(
        _: &mut (),
        reason: HoldReason,
        who: &u64,
        amount: u64,
    ) -> Result<u64, DispatchError> {
        Vgov::release(&code(reason), who, amount, Precision::BestEffort)
    }

    fn burn_held(
        _: &mut (),
        reason: HoldReason,
        who: &u64,
        amount: u64,
    ) -> Result<u64, DispatchError> {
        Vgov::burn_held(&code(reason), who, amount, Precision::BestEffort, Fortitude::Force)
    }
}

fn endow(who: u64, amount: u64) {
    let mut balances = BALANCES.lock().unwrap();
    balances.free.insert(who, amount);
    balances.issuance += amount;
}

fn held(reason: HoldReason, who: u64) -> u64 {
    Vgov::balance_on_hold(&code(reason), &who)
}

#[test]
fn holds_behave_as_the_pallet_relies_on() {
    let _turn = TURN.lock().unwrap();
    let mut books = ();
    endow(101, 1_000);
    endow(102, 1_000);
    for (reason, other) in [
        (HoldReason::Stake, HoldReason::ProposalBond),
        (HoldReason::ProposalBond, HoldReason::Stake),
    ] {
        let apart = held(other, 101);
        // A hold adds the amount to what is on hold for the reason.
        assert_eq!(Test::hold(&mut books, reason, &101, 300), Ok(()));
        assert_eq!(held(reason, 101), 300);
        assert_eq!(Test::hold(&mut books, reason, &101, 100), Ok(()));
        assert_eq!(held(reason, 101), 400);
        // One that fails leaves it.
        assert_eq!(
            Test::hold(&mut books, reason, &101, 1_000),
            Err(DispatchError::Token(TokenError::FundsUnavailable))
        );
        assert_eq!(held(reason, 101), 400);
        // A release takes out the amount, or all there is.
        assert_eq!(Test::release(&mut books, reason, &101, 150), Ok(150));
        assert_eq!(held(reason, 101), 250);
        assert_eq!(Test::release(&mut books, reason, &101, 999), Ok(250));
        assert_eq!(held(reason, 101), 0);
        // A burn takes out the amount, or all there is, and out of the issuance too.
        assert_eq!(Test::hold(&mut books, reason, &101, 90), Ok(()));
        let issuance = Vgov::total_issuance();
        assert_eq!(Test::burn_held(&mut books, reason, &101, 40), Ok(40));
        assert_eq!(held(reason, 101), 50);
        assert_eq!(Vgov::total_issuance(), issuance - 40);
        assert_eq!(Test::burn_held(&mut books, reason, &101, 999), Ok(50));
        assert_eq!(held(reason, 101), 0);
        assert_eq!(Vgov::total_issuance(), issuance - 90);
        // No other hold is touched.
        assert_eq!(held(other, 101), apart);
        assert_eq!(held(reason, 102), 0);
        assert_eq!(held(other, 102), 0);
    }
}

#[test]
fn a_release_is_governed_on_a_real_token() {
    let _turn = TURN.lock().unwrap();
    for who in 1..=4 {
        endow(who, 10_000);
    }
    let si = |account, role, stake| StakeholderInit { account, role, stake };
    let whole = Perbill::from_parts(1_000_000_000);
    let half = Perbill::from_parts(500_000_000);
    let mut p: Pallet<Test> = Pallet::new((), ());
    assert_eq!(
        p.project_genesis(
            Origin::Root,
            b"acme".to_vec().try_into().unwrap(),
            vec![
                si(1, Role::CoreDeveloper, 1_000),
                si(2, Role::CoreDeveloper, 3_000),
                si(3, Role::BuildService, 5_001),
            ],
            ReleasePolicy {
                required_roles: vec![RoleQuorum { role: Role::CoreDeveloper, quorum: whole }]
                    .try_into()
                    .unwrap(),
                voting_period: 50,
                enactment_delay: 5,
            },
            SlashingParams { sigma_neg: half, sigma_mal: whole, delta_max: 0 },
            700,
        ),
        Ok(())
    );
    assert_eq!(held(HoldReason::Stake, 3), 5_001);
    let attestation = |byte: u8| BuildAttestation {
        source_commit_hash: [1; 32],
        source_tree_hash: [2; 32],
        build_environment_hash: [3; 32],
        output_binary_hash: [byte; 32],
        builder: 3u64,
    };
    let version = || b"1".to_vec().try_into().unwrap();

    // Accepted and enacted: the bond comes back.
    assert_eq!(
        p.new_release(Origin::Signed(1), 0, version(), attestation(7), [0; 32], true, 1),
        Ok(())
    );
    assert_eq!(held(HoldReason::ProposalBond, 1), 700);
    assert_eq!(p.vote(Origin::Signed(2), 0, true, 2), Ok(()));
    p.on_initialize(7);
    assert_eq!(p.proposals.get(&0).unwrap().status, ProposalStatus::Enacted);
    assert_eq!(held(HoldReason::ProposalBond, 1), 0);
    assert_eq!(Vgov::balance(&1), 9_000);

    // Challenged: half of the stake is burned, rounded down, and the bond comes back.
    assert_eq!(
        p.new_release(Origin::Signed(1), 0, version(), attestation(8), [0; 32], true, 8),
        Ok(())
    );
    let issuance = Vgov::total_issuance();
    assert_eq!(p.submit_counter_attestation(Origin::Signed(2), 1, [9; 32]), Ok(()));
    assert_eq!(held(HoldReason::Stake, 3), 2_501);
    assert_eq!(p.stakeholders.get(&(0, 3)).unwrap().stake, 2_501);
    assert_eq!(p.stake_of_role(0, Role::BuildService), 2_501);
    assert_eq!(held(HoldReason::ProposalBond, 1), 0);
    assert_eq!(Vgov::total_issuance(), issuance - 2_500);

    // Refused: a stake that nobody can cover.
    assert_eq!(
        p.project_genesis(
            Origin::Root,
            b"poor".to_vec().try_into().unwrap(),
            vec![si(4, Role::CoreDeveloper, 10_000)],
            ReleasePolicy {
                required_roles: vec![RoleQuorum { role: Role::CoreDeveloper, quorum: whole }]
                    .try_into()
                    .unwrap(),
                voting_period: 50,
                enactment_delay: 5,
            },
            SlashingParams { sigma_neg: half, sigma_mal: whole, delta_max: 0 },
            700,
        ),
        Err(CallError::Token(DispatchError::Token(TokenError::FundsUnavailable)))
    );
    assert_eq!(p.next_project_id, 1);
}
