use verigov::number::Number;
use verigov::pallet::vote::enactment_start;
use verigov::perbill::{Perbill, ACCURACY};
use verigov::storage::StorageMap;
use verigov::types::{same_hash, BuildAttestation, Role, RoleTally};

fn attestation(digests: [u8; 4]) -> BuildAttestation<u64> {
    BuildAttestation {
        source_commit_hash: [digests[0]; 32],
        source_tree_hash: [digests[1]; 32],
        build_environment_hash: [digests[2]; 32],
        output_binary_hash: [digests[3]; 32],
        builder: 8,
    }
}

#[test]
fn the_payload_is_the_four_digests_in_order() {
    let mut a = attestation([1, 2, 3, 4]);
    a.source_commit_hash[0] = 9;
    a.output_binary_hash[31] = 7;
    let payload = a.signing_payload();
    assert_eq!(payload.len(), 128);
    assert_eq!(payload[0], 9);
    assert_eq!(payload[1..32], [1u8; 31]);
    assert_eq!(payload[32..64], [2u8; 32]);
    assert_eq!(payload[64..96], [3u8; 32]);
    assert_eq!(payload[96..127], [4u8; 31]);
    assert_eq!(payload[127], 7);
}

#[test]
fn every_digest_counts_in_the_payload() {
    let base = attestation([1, 2, 3, 4]).signing_payload();
    for other in [[0, 2, 3, 4], [1, 0, 3, 4], [1, 2, 0, 4], [1, 2, 3, 0]] {
        assert_ne!(attestation(other).signing_payload(), base);
    }
    let mut same = attestation([1, 2, 3, 4]);
    same.builder = 1;
    assert_eq!(same.signing_payload(), base);
}

#[test]
fn digests_are_compared_in_full() {
    let a = [5u8; 32];
    let mut b = a;
    assert!(same_hash(&a, &b));
    b[31] = 6;
    assert!(!same_hash(&a, &b));
}

#[test]
fn shares_are_rounded_down() {
    assert_eq!(Perbill::from_parts(500_000_000).mul_floor(5_000u64), 2_500);
    assert_eq!(Perbill::from_parts(500_000_000).mul_floor(7u64), 3);
    assert_eq!(Perbill::from_parts(333_333_333).mul_floor(3u64), 0);
    assert_eq!(Perbill::from_parts(999_999_999).mul_floor(1_000_000_000u32), 999_999_999);
    assert_eq!(Perbill::from_parts(0).mul_floor(u128::MAX), 0);
    assert_eq!(Perbill::from_parts(ACCURACY).mul_floor(u128::MAX), u128::MAX);
    assert_eq!(Perbill::from_parts(ACCURACY).mul_floor(u64::MAX), u64::MAX);
    assert_eq!(
        Perbill::from_parts(1).mul_floor(u128::MAX),
        340_282_366_920_938_463_463_374_607_431
    );
    assert_eq!(
        Perbill::from_parts(999_999_999).mul_floor(u128::MAX),
        340_282_366_580_656_096_542_436_143_968_393_604_023
    );
}

#[test]
fn shares_agree_with_the_runtime_type_of_any_width() {
    for parts in [0u32, 1, 3, 333_333_333, 499_999_999, 500_000_000, 999_999_999, 1_000_000_000] {
        let ours = Perbill::from_parts(parts);
        let theirs = sp_runtime::Perbill::from_parts(parts);
        for amount in [0u64, 1, 2, 999, 1_000_000_007, u64::MAX / 3, u64::MAX - 1, u64::MAX] {
            assert_eq!(ours.mul_floor(amount), theirs.mul_floor(amount));
            assert_eq!(ours.mul_floor(amount as u32), theirs.mul_floor(amount as u32));
            let wide = (amount as u128) * (amount as u128);
            assert_eq!(ours.mul_floor(wide), theirs.mul_floor(wide));
        }
    }
}

#[test]
fn a_fraction_is_at_most_the_whole() {
    assert_eq!(Perbill::from_parts(600_000_000).deconstruct(), 600_000_000);
    assert_eq!(Perbill::from_parts(ACCURACY).deconstruct(), ACCURACY);
    assert_eq!(Perbill::from_parts(ACCURACY + 1).deconstruct(), ACCURACY);
    assert_eq!(Perbill::from_parts(u32::MAX), Perbill::from_parts(ACCURACY));
}

#[test]
fn numbers_saturate() {
    assert_eq!(Number::saturating_add(u32::MAX, 1), u32::MAX);
    assert_eq!(Number::saturating_add(u64::MAX - 1, 1), u64::MAX);
    assert_eq!(Number::saturating_add(u128::MAX, u128::MAX), u128::MAX);
    assert_eq!(Number::saturating_sub(3u64, 5), 0);
    assert_eq!(Number::saturating_sub(5u32, 3), 2);
    assert_eq!(Number::saturating_sub(0u128, 1), 0);
    assert!(3u64.at_most(3) && 2u32.at_most(3) && !4u128.at_most(3));
    assert_eq!(7u64.to_u128(), 7);
    let n: u32 = Number::from_u128(9);
    assert_eq!(n, 9);
    let z: u64 = Number::zero();
    assert_eq!(z, 0);
    let tally: RoleTally<u64> = RoleTally::default();
    assert_eq!((tally.ayes, tally.nays), (0, 0));
}

#[test]
fn an_enactment_is_never_due_at_once() {
    assert_eq!(enactment_start(1u64, 10), 11);
    assert_eq!(enactment_start(1u64, 1), 2);
    assert_eq!(enactment_start(1u64, 0), 2);
    assert_eq!(enactment_start(u32::MAX - 1, 7), u32::MAX);
    assert_eq!(enactment_start(u32::MAX, 0), u32::MAX);
}

#[test]
fn a_map_holds_the_last_value_under_each_key() {
    let mut map: StorageMap<(u32, Role), u64> = StorageMap::new();
    assert_eq!(map.get(&(1, Role::BuildService)), None);
    map.insert((1, Role::BuildService), 10);
    map.insert((1, Role::CoreDeveloper), 20);
    map.insert((2, Role::BuildService), 30);
    map.insert((1, Role::BuildService), 40);
    assert_eq!(map.get(&(1, Role::BuildService)), Some(&40));
    assert_eq!(map.get(&(1, Role::CoreDeveloper)), Some(&20));
    assert!(map.contains_key(&(2, Role::BuildService)));
    assert!(!map.contains_key(&(2, Role::CoreDeveloper)));
    assert_eq!(map.take(&(1, Role::BuildService)), Some(40));
    assert_eq!(map.take(&(1, Role::BuildService)), None);
    assert_eq!(map.get(&(2, Role::BuildService)), Some(&30));
    assert_eq!(map.keys().len(), 2);
    assert!(map.keys().contains(&(1, Role::CoreDeveloper)));
    map.restore((1, Role::BuildService), Some(5));
    map.restore((2, Role::BuildService), None);
    assert_eq!(map.get(&(1, Role::BuildService)), Some(&5));
    assert_eq!(map.get(&(2, Role::BuildService)), None);
    assert_eq!(map.get(&(1, Role::CoreDeveloper)), Some(&20));
}
