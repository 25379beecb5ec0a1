use frame_support::BoundedVec;
use sp_runtime::DispatchError;
use verigov::config::{Config, HoldReason};
use verigov::pallet::Pallet;
use verigov::perbill::Perbill;
use verigov::types::{
    Event, ProjectInfo, ReleasePolicy, Role, RoleQuorum, RoleTally, SlashingParams,
};

/// A runtime with balances of 128 bits and a token that agrees to everything.
struct Wide;

impl Config for Wide {
    type AccountId = u64;
    type Balance = u128;
    type BlockNumber = u32;
    type Currency = ();
    type EventLog = ();
    type Signature = ();

    fn verify(_: &(), _: &[u8; 128], _: &u64) -> bool {
        true
    }

    fn announce(_: &mut (), _: Event<Wide>) {}

    fn log_snapshot(_: &()) {}

    fn hold_effect(_: (), _: HoldReason, _: u64, _: u128) {}

    fn release_effect(_: (), _: HoldReason, _: u64, _: u128) {}

    fn burn_held_effect(_: (), _: HoldReason, _: u64, _: u128) {}

    fn snapshot(_: &()) {}

    fn hold(_: &mut (), _: HoldReason, _: &u64, _: u128) -> Result<(), DispatchError> {
        Ok(())
    }

    fn release(_: &mut (), _: HoldReason, _: &u64, amount: u128) -> Result<u128, DispatchError> {
        Ok(amount)
    }

    fn burn_held(_: &mut (), _: HoldReason, _: &u64, amount: u128) -> Result<u128, DispatchError> {
        Ok(amount)
    }
}

/// Whether `ayes` of the core developers' stake `total` meet a quorum of so many billionths.
fn met(ayes: u128, total: u128, parts: u32) -> bool {
    let quorum = Perbill::from_parts(parts);
    let project: ProjectInfo<u128, u32> = ProjectInfo {
        name: BoundedVec::new(),
        policy: ReleasePolicy {
            required_roles: BoundedVec::try_from(vec![RoleQuorum {
                role: Role::CoreDeveloper,
                quorum,
            }])
            .unwrap(),
            voting_period: 10,
            enactment_delay: 1,
        },
        slashing: SlashingParams { sigma_neg: quorum, sigma_mal: quorum, delta_max: 0 },
        proposal_bond: 0,
    };
    let mut p: Pallet<Wide> = Pallet::new((), ());
    p.role_stake.insert((3, Role::CoreDeveloper), total);
    p.tallies.insert((7, Role::CoreDeveloper), RoleTally { ayes, nays: 0 });
    p.meets_quorums(3, &project, 7)
}

#[test]
fn half_of_the_largest_stake_misses_sixty_percent() {
    assert!(!met(u128::MAX / 2, u128::MAX, 600_000_000));
}

#[test]
fn quorums_of_the_largest_stakes_are_exact() {
    let whole: u32 = 1_000_000_000;
    assert!(met(u128::MAX, u128::MAX, whole));
    assert!(!met(u128::MAX - 1, u128::MAX, whole));
    // Half of an odd number, rounded down, is less than half; rounded up, it is not.
    assert!(!met(u128::MAX / 2, u128::MAX, whole / 2));
    assert!(met(u128::MAX / 2 + 1, u128::MAX, whole / 2));
    assert!(!met(u128::MAX / 1_000_000_000 + 1, u128::MAX, whole));
    assert!(met(u128::MAX / 1_000_000_000 + 1, u128::MAX, 1));
    assert!(!met(u128::MAX / 1_000_000_000, u128::MAX, 1));
    // Around the border between the two halves of a number.
    let border: u128 = 1 << 64;
    assert!(met(border, border, whole));
    assert!(!met(border - 1, border, whole));
    assert!(met(border, border + 1, whole - 1));
    assert!(met(0, border, 0));
    assert!(!met(0, 0, 0));
}
