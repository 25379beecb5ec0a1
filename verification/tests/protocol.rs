use frame_support::traits::{ConstU32, Get};
use frame_support::BoundedVec;
use sp_runtime::{DispatchError, TokenError};
use std::collections::BTreeMap;
use std::rc::Rc;
use verigov::bounded::{MaxRequiredRoles, NameLimit, VersionLimit};
use verigov::config::{CallError, Config, HoldReason, Origin};
use verigov::pallet::enactment::DbAccesses;
use verigov::pallet::Pallet;
use verigov::perbill::Perbill;
use verigov::types::{
    BuildAttestation, CounterAttestation, Error, Event, Hash32, ProjectId, ProposalId,
    ProposalStatus, ReleasePolicy, Role, RoleQuorum, SlashingParams, Stakeholder, StakeholderInit,
};

// ---------------------------------------------------------------------------------------------
// A runtime to test with
// ---------------------------------------------------------------------------------------------

type AccountId = u64;
type Balance = u64;

const ALICE: AccountId = 1;
const BOB: AccountId = 2;
const CAROL: AccountId = 3;
const DAN: AccountId = 4;
const EVE: AccountId = 5;
const FOO_AUDIT: AccountId = 6;
const FUZZ_IO: AccountId = 7;
const BUILD_SERVICE: AccountId = 8;
const OUTSIDER: AccountId = 9;

const INITIAL_BALANCE: Balance = 100_000;
const EXISTENTIAL_DEPOSIT: Balance = 1;

const STAKE: Balance = 1_000;
const BUILD_STAKE: Balance = 5_000;
const BOND: Balance = 1_000;
const VOTING_PERIOD: u64 = 100;
const ENACTMENT_DELAY: u64 = 10;

/// Test signature: valid iff it was "made" by `signer` over exactly `msg`.
#[derive(Clone, Debug, PartialEq, Eq)]
struct MockSignature(AccountId, Vec<u8>);

/// The books of a token with free balances and holds.
#[derive(Clone, Debug, PartialEq, Eq)]
struct Ledger {
    free: BTreeMap<AccountId, Balance>,
    stake: BTreeMap<AccountId, Balance>,
    bond: BTreeMap<AccountId, Balance>,
    issuance: Balance,
    refuses_release: bool,
    refuses_burn: bool,
}

impl Ledger {
    fn new() -> Ledger {
        let mut free: BTreeMap<AccountId, Balance> = BTreeMap::new();
        for a in 1..=OUTSIDER {
            free.insert(a, INITIAL_BALANCE);
        }
        Ledger {
            free,
            stake: BTreeMap::new(),
            bond: BTreeMap::new(),
            issuance: OUTSIDER * INITIAL_BALANCE,
            refuses_release: false,
            refuses_burn: false,
        }
    }

    fn balance(&self, who: AccountId) -> Balance {
        *self.free.get(&who).unwrap_or(&0)
    }

    fn held(&self, reason: HoldReason, who: AccountId) -> Balance {
        let holds = match reason {
            HoldReason::Stake => &self.stake,
            HoldReason::ProposalBond => &self.bond,
        };
        *holds.get(&who).unwrap_or(&0)
    }

    fn set_held(&mut self, reason: HoldReason, who: AccountId, amount: Balance) {
        let holds = match reason {
            HoldReason::Stake => &mut self.stake,
            HoldReason::ProposalBond => &mut self.bond,
        };
        holds.insert(who, amount);
    }

    fn total_balance(&self, who: AccountId) -> Balance {
        self.balance(who)
            + self.held(HoldReason::Stake, who)
            + self.held(HoldReason::ProposalBond, who)
    }
}

struct Test;

impl Config for Test {
    type AccountId = AccountId;
    type Balance = Balance;
    type BlockNumber = u64;
    type Currency = Ledger;
    type EventLog = Vec<Rc<Event<Test>>>;
    type Signature = MockSignature;

    fn verify(signature: &MockSignature, payload: &[u8; 128], signer: &AccountId) -> bool {
        *signer == signature.0 && payload[..] == signature.1[..]
    }

    fn announce(log: &mut Vec<Rc<Event<Test>>>, event: Event<Test>) {
        log.push(Rc::new(event));
    }

    fn log_snapshot(log: &Vec<Rc<Event<Test>>>) -> Vec<Rc<Event<Test>>> {
        log.clone()
    }

    fn hold_effect(_: Ledger, _: HoldReason, _: AccountId, _: Balance) {}

    fn release_effect(_: Ledger, _: HoldReason, _: AccountId, _: Balance) {}

    fn burn_held_effect(_: Ledger, _: HoldReason, _: AccountId, _: Balance) {}

    fn snapshot(books: &Ledger) -> Ledger {
        books.clone()
    }

    fn hold(
        books: &mut Ledger,
        reason: HoldReason,
        who: &AccountId,
        amount: Balance,
    ) -> Result<(), DispatchError> {
        let free = books.balance(*who);
        if amount > free.saturating_sub(EXISTENTIAL_DEPOSIT) {
            return Err(DispatchError::Token(TokenError::FundsUnavailable));
        }
        let held = books.held(reason, *who);
        books.free.insert(*who, free - amount);
        books.set_held(reason, *who, held + amount);
        Ok(())
    }

    fn release(
        books: &mut Ledger,
        reason: HoldReason,
        who: &AccountId,
        amount: Balance,
    ) -> Result<Balance, DispatchError> {
        if books.refuses_release {
            return Err(DispatchError::Token(TokenError::CannotCreate));
        }
        let held = books.held(reason, *who);
        let actual = amount.min(held);
        books.set_held(reason, *who, held - actual);
        let free = books.balance(*who);
        books.free.insert(*who, free + actual);
        Ok(actual)
    }

    fn burn_held(
        books: &mut Ledger,
        reason: HoldReason,
        who: &AccountId,
        amount: Balance,
    ) -> Result<Balance, DispatchError> {
        if books.refuses_burn {
            // Something is gone from the books before the refusal.
            books.set_held(reason, *who, 0);
            return Err(DispatchError::Token(TokenError::Frozen));
        }
        let held = books.held(reason, *who);
        let actual = amount.min(held);
        books.set_held(reason, *who, held - actual);
        books.issuance -= actual;
        Ok(actual)
    }
}

struct Chain {
    pallet: Pallet<Test>,
    block: u64,
}

impl Chain {
    fn new() -> Chain {
        Chain { pallet: Pallet::new(Ledger::new(), vec![]), block: 1 }
    }

    /// Advance to block `n`, running `on_initialize` for every block on the way.
    fn run_to_block(&mut self, n: u64) {
        while self.block < n {
            self.block += 1;
            self.pallet.on_initialize(self.block);
        }
    }

    fn genesis(
        &mut self,
        origin: Origin<AccountId>,
        stakeholders: Vec<StakeholderInit<AccountId, Balance>>,
        policy: ReleasePolicy<u64>,
    ) -> Result<(), CallError> {
        self.pallet.project_genesis(
            origin,
            bv("acme-utils"),
            stakeholders,
            policy,
            acme_slashing(),
            BOND,
        )
    }

    /// Register `acme-utils` with its worked-example cast. Returns the project id.
    fn setup_acme(&mut self) -> ProjectId {
        assert_eq!(self.genesis(Origin::Root, acme_stakeholders(), acme_policy()), Ok(()));
        0
    }

    fn release(
        &mut self,
        who: AccountId,
        project: ProjectId,
        att: BuildAttestation<AccountId>,
        sig: MockSignature,
    ) -> Result<(), CallError> {
        let now = self.block;
        self.pallet.new_release(Origin::Signed(who), project, bv("1.2.3"), att, h(0x42), sig, now)
    }

    fn propose(&mut self, project: ProjectId, output_binary_hash: Hash32) -> ProposalId {
        let att = attestation(output_binary_hash);
        let sig = sign(&att);
        let id = self.pallet.next_proposal_id;
        assert_eq!(self.release(ALICE, project, att, sig), Ok(()));
        id
    }

    fn vote(&mut self, who: AccountId, id: ProposalId, aye: bool) -> Result<(), CallError> {
        self.pallet.vote(Origin::Signed(who), id, aye, self.block)
    }

    fn challenge(
        &mut self,
        who: AccountId,
        id: ProposalId,
        hash: Hash32,
    ) -> Result<(), CallError> {
        self.pallet.submit_counter_attestation(Origin::Signed(who), id, hash)
    }

    fn close(&mut self, who: AccountId, id: ProposalId) -> Result<(), CallError> {
        self.pallet.close_expired(Origin::Signed(who), id, self.block)
    }

    fn status(&self, id: ProposalId) -> ProposalStatus<u64> {
        self.pallet.proposals.get(&id).unwrap().status
    }

    fn held(&self, reason: HoldReason, who: AccountId) -> Balance {
        self.pallet.currency.held(reason, who)
    }

    fn pending(&self, block: u64) -> Vec<ProposalId> {
        match self.pallet.pending_enactments.get(&block) {
            Some(list) => list.to_vec(),
            None => vec![],
        }
    }

    fn stake(&self, project: ProjectId, who: AccountId) -> Balance {
        self.pallet.stakeholders.get(&(project, who)).unwrap().stake
    }

    fn last_event(&self) -> Option<&Event<Test>> {
        self.pallet.event_log.last().map(|e| &**e)
    }

    fn has_event(&self, wanted: impl Fn(&Event<Test>) -> bool) -> bool {
        self.pallet.event_log.iter().any(|e| wanted(e))
    }

    /// Everything that is recorded, in print. An empty schedule and none at all print alike.
    fn print(&self) -> String {
        let p = &self.pallet;
        let mut out = format!(
            "{} {} {} {:?}",
            p.next_project_id,
            p.next_proposal_id,
            p.event_log.len(),
            p.currency
        );
        for a in 0..4 {
            out += &format!(
                "\n{:?} {:?} {:?}",
                p.projects.get(&a),
                p.proposals.get(&a),
                p.counter_attestations.get(&a)
            );
            out += &format!(" {}", p.releases(a));
            for role in ROLES {
                out += &format!(" {} {:?}", p.stake_of_role(a, role), p.tally(a, role));
            }
            for who in 0..=10 {
                out += &format!(" {:?}", p.stakeholders.get(&(a, who)));
                out += &format!(" {:?}", p.votes.get(&(a, who)));
            }
            for index in 0..4 {
                out += &format!(" {:?}", p.release_log.get(&(a, index)));
            }
        }
        for block in 0..200 {
            out += &format!(" {:?}", self.pending(block));
        }
        out
    }

    /// Makes a request that has to fail with `error` and leave everything as it is.
    fn assert_noop(
        &mut self,
        request: impl FnOnce(&mut Chain) -> Result<(), CallError>,
        error: Error,
    ) {
        self.assert_refused(request, CallError::Module(error));
    }

    fn assert_refused(
        &mut self,
        request: impl FnOnce(&mut Chain) -> Result<(), CallError>,
        error: CallError,
    ) {
        let before = self.print();
        assert_eq!(request(self), Err(error));
        assert_eq!(self.print(), before);
    }
}

const ROLES: [Role; 4] = [
    Role::CoreDeveloper,
    Role::SecurityAuditor,
    Role::CommunityTrustee,
    Role::BuildService,
];

fn h(byte: u8) -> Hash32 {
    [byte; 32]
}

fn bv<S: Get<u32>>(s: &str) -> BoundedVec<u8, S> {
    BoundedVec::try_from(s.as_bytes().to_vec()).unwrap()
}

fn fraction(p: sp_runtime::Perbill) -> Perbill {
    Perbill::from_parts(p.deconstruct())
}

fn roles(required: Vec<RoleQuorum>) -> BoundedVec<RoleQuorum, MaxRequiredRoles> {
    BoundedVec::try_from(required).unwrap()
}

fn acme_quorums() -> Vec<RoleQuorum> {
    vec![
        RoleQuorum {
            role: Role::CoreDeveloper,
            quorum: fraction(sp_runtime::Perbill::from_rational(3u32, 5u32)),
        },
        RoleQuorum {
            role: Role::SecurityAuditor,
            quorum: fraction(sp_runtime::Perbill::from_rational(1u32, 2u32)),
        },
    ]
}

fn policy(required: Vec<RoleQuorum>) -> ReleasePolicy<u64> {
    ReleasePolicy {
        required_roles: roles(required),
        voting_period: VOTING_PERIOD,
        enactment_delay: ENACTMENT_DELAY,
    }
}

fn acme_policy() -> ReleasePolicy<u64> {
    policy(acme_quorums())
}

fn acme_slashing() -> SlashingParams<u64> {
    SlashingParams {
        sigma_neg: fraction(sp_runtime::Perbill::from_percent(50)),
        sigma_mal: fraction(sp_runtime::Perbill::from_percent(100)),
        delta_max: 1_000,
    }
}

fn si(account: AccountId, role: Role, stake: Balance) -> StakeholderInit<AccountId, Balance> {
    StakeholderInit { account, role, stake }
}

fn acme_stakeholders() -> Vec<StakeholderInit<AccountId, Balance>> {
    vec![
        si(ALICE, Role::CoreDeveloper, STAKE),
        si(BOB, Role::CoreDeveloper, STAKE),
        si(CAROL, Role::CoreDeveloper, STAKE),
        si(DAN, Role::CoreDeveloper, STAKE),
        si(EVE, Role::CoreDeveloper, STAKE),
        si(FOO_AUDIT, Role::SecurityAuditor, STAKE),
        si(FUZZ_IO, Role::SecurityAuditor, STAKE),
        si(BUILD_SERVICE, Role::BuildService, BUILD_STAKE),
    ]
}

fn attestation(output_binary_hash: Hash32) -> BuildAttestation<AccountId> {
    BuildAttestation {
        source_commit_hash: h(0xc0),
        source_tree_hash: h(0x51),
        build_environment_hash: h(0xde),
        output_binary_hash,
        builder: BUILD_SERVICE,
    }
}

fn sign(att: &BuildAttestation<AccountId>) -> MockSignature {
    MockSignature(BUILD_SERVICE, att.signing_payload().to_vec())
}

// ---------------------------------------------------------------------------------------------
// Genesis
// ---------------------------------------------------------------------------------------------

#[test]
fn genesis_registers_stakeholders_and_escrows_stake() {
    let mut c = Chain::new();
    let p = c.setup_acme();

    let project = c.pallet.projects.get(&p).unwrap();
    assert_eq!(project.name.to_vec(), b"acme-utils".to_vec());
    assert_eq!(project.proposal_bond, BOND);
    assert_eq!(project.slashing, acme_slashing());
    assert_eq!(c.pallet.next_project_id, 1);

    assert_eq!(
        c.pallet.stakeholders.get(&(p, ALICE)),
        Some(&Stakeholder { role: Role::CoreDeveloper, stake: STAKE })
    );
    assert_eq!(
        c.pallet.stakeholders.get(&(p, BUILD_SERVICE)),
        Some(&Stakeholder { role: Role::BuildService, stake: BUILD_STAKE })
    );
    assert_eq!(c.pallet.stake_of_role(p, Role::CoreDeveloper), 5 * STAKE);
    assert_eq!(c.pallet.stake_of_role(p, Role::SecurityAuditor), 2 * STAKE);
    assert_eq!(c.pallet.stake_of_role(p, Role::BuildService), BUILD_STAKE);
    assert_eq!(c.pallet.stake_of_role(p, Role::CommunityTrustee), 0);

    // Stake is escrowed as a hold on VGOV.
    assert_eq!(c.held(HoldReason::Stake, ALICE), STAKE);
    assert_eq!(c.held(HoldReason::Stake, BUILD_SERVICE), BUILD_STAKE);
    assert_eq!(c.pallet.currency.balance(ALICE), INITIAL_BALANCE - STAKE);

    assert!(c.has_event(|e| matches!(
        e,
        Event::ProjectCreated { project_id, name }
            if *project_id == p && *name == bv::<NameLimit>("acme-utils")
    )));
    assert!(c.has_event(|e| matches!(
        e,
        Event::StakeholderRegistered { project_id, account, role, stake }
            if *project_id == p
                && *account == BUILD_SERVICE
                && *role == Role::BuildService
                && *stake == BUILD_STAKE
    )));
}

#[test]
fn genesis_requires_root() {
    let mut c = Chain::new();
    c.assert_refused(
        |c| c.genesis(Origin::Signed(ALICE), acme_stakeholders(), acme_policy()),
        CallError::BadOrigin,
    );
}

#[test]
fn genesis_rejects_unreachable_quorum_and_duplicates() {
    let mut c = Chain::new();
    // A required role with no staked members could never meet its quorum.
    let mut required = acme_quorums();
    required.push(RoleQuorum {
        role: Role::CommunityTrustee,
        quorum: fraction(sp_runtime::Perbill::from_percent(50)),
    });
    c.assert_noop(
        |c| c.genesis(Origin::Root, acme_stakeholders(), policy(required)),
        Error::RequiredRoleHasNoStake,
    );

    c.assert_noop(
        |c| c.genesis(Origin::Root, acme_stakeholders(), policy(vec![])),
        Error::NoRequiredRoles,
    );

    let mut dup = acme_stakeholders();
    dup.push(si(ALICE, Role::SecurityAuditor, STAKE));
    c.assert_noop(|c| c.genesis(Origin::Root, dup, acme_policy()), Error::DuplicateStakeholder);
}

#[test]
fn genesis_fails_when_a_stakeholder_cannot_cover_its_stake() {
    let mut c = Chain::new();
    let mut s = acme_stakeholders();
    s[0].stake = INITIAL_BALANCE + 1;
    assert!(c.genesis(Origin::Root, s, acme_policy()).is_err());
}

// ---------------------------------------------------------------------------------------------
// Proposal submission
// ---------------------------------------------------------------------------------------------

#[test]
fn new_release_holds_bond_and_records_proposer_aye() {
    let mut c = Chain::new();
    let p = c.setup_acme();
    let id = c.propose(p, h(0xa1));

    let prop = c.pallet.proposals.get(&id).unwrap();
    assert_eq!(prop.proposer, ALICE);
    assert_eq!(prop.version.to_vec(), b"1.2.3".to_vec());
    assert_eq!(prop.attestation.output_binary_hash, h(0xa1));
    assert_eq!(prop.attestation_cid, h(0x42));
    assert_eq!(prop.bond, BOND);
    assert_eq!(prop.voting_ends, 1 + VOTING_PERIOD);
    assert_eq!(prop.status, ProposalStatus::Voting);

    assert_eq!(c.held(HoldReason::ProposalBond, ALICE), BOND);
    assert_eq!(c.pallet.currency.balance(ALICE), INITIAL_BALANCE - STAKE - BOND);

    assert_eq!(c.pallet.votes.get(&(id, ALICE)), Some(&true));
    assert_eq!(c.pallet.tally(id, Role::CoreDeveloper).ayes, STAKE);
    assert_eq!(c.pallet.next_proposal_id, 1);
}

#[test]
fn only_core_developers_of_the_project_can_propose() {
    let mut c = Chain::new();
    let p = c.setup_acme();
    let att = attestation(h(0xa1));
    let sig = sign(&att);

    let (a, s) = (att.clone(), sig.clone());
    c.assert_noop(|c| c.release(FOO_AUDIT, p, a, s), Error::NotCoreDeveloper);
    let (a, s) = (att.clone(), sig.clone());
    c.assert_noop(|c| c.release(OUTSIDER, p, a, s), Error::NotStakeholder);
    c.assert_noop(|c| c.release(ALICE, 7, att, sig), Error::ProjectNotFound);
}

#[test]
fn attestation_must_be_signed_by_a_registered_build_service() {
    let mut c = Chain::new();
    let p = c.setup_acme();
    let att = attestation(h(0xa1));

    // Signed by the wrong key.
    let forged = MockSignature(BOB, att.signing_payload().to_vec());
    let a = att.clone();
    c.assert_noop(|c| c.release(ALICE, p, a, forged), Error::InvalidBuilderSignature);

    // Signed over a different attestation (e.g. the hash was swapped after signing).
    let other = attestation(h(0xbb));
    let stale = sign(&other);
    let a = att.clone();
    c.assert_noop(|c| c.release(ALICE, p, a, stale), Error::InvalidBuilderSignature);

    // `builder` names a stakeholder that is not a Build Service.
    let mut bad_builder = att.clone();
    bad_builder.builder = BOB;
    let sig = MockSignature(BOB, bad_builder.signing_payload().to_vec());
    c.assert_noop(|c| c.release(ALICE, p, bad_builder, sig), Error::NotBuildService);
}

// ---------------------------------------------------------------------------------------------
// Voting and enactment
// ---------------------------------------------------------------------------------------------

#[test]
fn worked_example_release_is_accepted_and_enacted() {
    let mut c = Chain::new();
    let p = c.setup_acme();
    let id = c.propose(p, h(0xa1));

    // Bob, Carol, Dan vote yes; Eve abstains. Core Dev approval = 4/5 >= 3/5.
    assert_eq!(c.vote(BOB, id, true), Ok(()));
    assert_eq!(c.vote(CAROL, id, true), Ok(()));
    // Core Dev quorum met (3/5 incl. Alice) but no auditor has voted yet.
    assert_eq!(c.status(id), ProposalStatus::Voting);
    assert_eq!(c.vote(DAN, id, true), Ok(()));
    assert_eq!(c.status(id), ProposalStatus::Voting);

    // Foo Audit votes yes: Sec Auditor approval = 1/2 >= 1/2. Accepted.
    assert_eq!(c.vote(FOO_AUDIT, id, true), Ok(()));
    let enact_at: u64 = 1 + ENACTMENT_DELAY;
    assert_eq!(c.status(id), ProposalStatus::Approved { enact_at });
    assert_eq!(c.pending(enact_at), vec![id]);
    assert!(c.has_event(|e| matches!(
        e,
        Event::ProposalApproved { proposal_id, enact_at: at }
            if *proposal_id == id && *at == enact_at
    )));

    // fuzz.io may still vote during the enactment delay: 2/2.
    assert_eq!(c.vote(FUZZ_IO, id, true), Ok(()));
    assert_eq!(c.pallet.tally(id, Role::CoreDeveloper).ayes, 4 * STAKE);
    assert_eq!(c.pallet.tally(id, Role::SecurityAuditor).ayes, 2 * STAKE);
    assert_eq!(c.status(id), ProposalStatus::Approved { enact_at });

    // Nothing is in the log before the enactment block.
    c.run_to_block(enact_at - 1);
    assert_eq!(c.pallet.releases(p), 0);
    assert_eq!(c.held(HoldReason::ProposalBond, ALICE), BOND);

    c.run_to_block(enact_at);
    assert_eq!(c.status(id), ProposalStatus::Enacted);
    assert_eq!(c.pallet.releases(p), 1);
    let entry = c.pallet.release_log.get(&(p, 0)).unwrap();
    assert_eq!(entry.proposal_id, id);
    assert_eq!(entry.version.to_vec(), b"1.2.3".to_vec());
    assert_eq!(entry.output_binary_hash, h(0xa1));
    assert_eq!(entry.attestation_cid, h(0x42));
    assert_eq!(entry.source_commit_hash, h(0xc0));
    assert_eq!(entry.enacted_at, enact_at);
    assert!(c.pending(enact_at).is_empty());

    // Bond returned; stake still escrowed.
    assert_eq!(c.held(HoldReason::ProposalBond, ALICE), 0);
    assert_eq!(c.held(HoldReason::Stake, ALICE), STAKE);
    assert_eq!(c.pallet.currency.balance(ALICE), INITIAL_BALANCE - STAKE);

    assert!(c.has_event(|e| matches!(
        e,
        Event::ReleaseEnacted { project_id, proposal_id, index, version, output_binary_hash }
            if *project_id == p
                && *proposal_id == id
                && *index == 0
                && *version == bv::<VersionLimit>("1.2.3")
                && *output_binary_hash == h(0xa1)
    )));
}

#[test]
fn every_required_role_must_meet_its_quorum() {
    let mut c = Chain::new();
    let p = c.setup_acme();
    let id = c.propose(p, h(0xa1));

    // Both auditors approve (2/2) but only Alice+Bob among core devs (2/5 < 3/5).
    assert_eq!(c.vote(FOO_AUDIT, id, true), Ok(()));
    assert_eq!(c.vote(FUZZ_IO, id, true), Ok(()));
    assert_eq!(c.vote(BOB, id, true), Ok(()));
    assert_eq!(c.status(id), ProposalStatus::Voting);

    // Nays never contribute to approval.
    assert_eq!(c.vote(EVE, id, false), Ok(()));
    assert_eq!(c.pallet.tally(id, Role::CoreDeveloper).nays, STAKE);
    assert_eq!(c.status(id), ProposalStatus::Voting);

    // Third core dev tips it to exactly 3/5.
    assert_eq!(c.vote(CAROL, id, true), Ok(()));
    assert_eq!(c.status(id), ProposalStatus::Approved { enact_at: 1 + ENACTMENT_DELAY });
}

#[test]
fn revoting_can_break_quorum_before_enactment() {
    let mut c = Chain::new();
    let p = c.setup_acme();
    let id = c.propose(p, h(0xa1));
    assert_eq!(c.vote(BOB, id, true), Ok(()));
    assert_eq!(c.vote(CAROL, id, true), Ok(()));
    assert_eq!(c.vote(FOO_AUDIT, id, true), Ok(()));
    let enact_at: u64 = 1 + ENACTMENT_DELAY;
    assert_eq!(c.status(id), ProposalStatus::Approved { enact_at });

    // Carol flips to nay: 2/5 core devs -> back to voting, enactment cancelled.
    assert_eq!(c.vote(CAROL, id, false), Ok(()));
    assert_eq!(c.pallet.tally(id, Role::CoreDeveloper).ayes, 2 * STAKE);
    assert_eq!(c.pallet.tally(id, Role::CoreDeveloper).nays, STAKE);
    assert_eq!(c.status(id), ProposalStatus::Voting);
    assert!(c.pending(enact_at).is_empty());
    assert!(c.has_event(
        |e| matches!(e, Event::ProposalApprovalRevoked { proposal_id } if *proposal_id == id)
    ));

    c.run_to_block(enact_at + 1);
    assert_eq!(c.pallet.releases(p), 0);
    assert_eq!(c.status(id), ProposalStatus::Voting);
}

#[test]
fn stake_weighting_within_a_role() {
    // One whale core dev holds 6/10 of the role's stake: her aye alone meets 3/5.
    let mut c = Chain::new();
    assert_eq!(
        c.pallet.project_genesis(
            Origin::Root,
            bv("whale-utils"),
            vec![
                si(ALICE, Role::CoreDeveloper, 6_000),
                si(BOB, Role::CoreDeveloper, 2_000),
                si(CAROL, Role::CoreDeveloper, 2_000),
                si(FOO_AUDIT, Role::SecurityAuditor, 1_000),
                si(BUILD_SERVICE, Role::BuildService, BUILD_STAKE),
            ],
            acme_policy(),
            acme_slashing(),
            BOND,
        ),
        Ok(())
    );
    let id = c.propose(0, h(0xa1));
    assert_eq!(c.pallet.tally(id, Role::CoreDeveloper).ayes, 6_000);
    assert_eq!(c.status(id), ProposalStatus::Voting);
    assert_eq!(c.vote(FOO_AUDIT, id, true), Ok(()));
    assert_eq!(c.status(id), ProposalStatus::Approved { enact_at: 1 + ENACTMENT_DELAY });
}

#[test]
fn only_project_stakeholders_can_vote() {
    let mut c = Chain::new();
    let p = c.setup_acme();
    let id = c.propose(p, h(0xa1));
    c.assert_noop(|c| c.vote(OUTSIDER, id, true), Error::NotStakeholder);
    c.assert_noop(|c| c.vote(BOB, 99, true), Error::ProposalNotFound);
}

#[test]
fn voting_closes_after_period_and_expired_proposal_returns_bond() {
    let mut c = Chain::new();
    let p = c.setup_acme();
    let id = c.propose(p, h(0xa1));
    let ends: u64 = 1 + VOTING_PERIOD;

    c.assert_noop(|c| c.close(BOB, id), Error::VotingPeriodNotOver);

    c.run_to_block(ends);
    assert_eq!(c.vote(BOB, id, true), Ok(()));
    c.run_to_block(ends + 1);
    c.assert_noop(|c| c.vote(CAROL, id, true), Error::VotingPeriodOver);

    assert_eq!(c.close(BOB, id), Ok(()));
    assert_eq!(c.status(id), ProposalStatus::Expired);
    assert_eq!(c.held(HoldReason::ProposalBond, ALICE), 0);
    assert_eq!(c.pallet.releases(p), 0);
    c.assert_noop(|c| c.close(BOB, id), Error::ProposalNotVoting);
}

// ---------------------------------------------------------------------------------------------
// Failure case: counter-attestation and negligence slashing
// ---------------------------------------------------------------------------------------------

#[test]
fn counter_attestation_slashes_build_service_and_rejects_proposal() {
    let mut c = Chain::new();
    let p = c.setup_acme();
    // Compromised Build Service attests to a tampered binary.
    let id = c.propose(p, h(0xbd));
    let issuance_before = c.pallet.currency.issuance;

    // Bob's independent rebuild yields the honest hash.
    assert_eq!(c.challenge(BOB, id, h(0xa1)), Ok(()));

    // sigma_neg = 50% of the Build Service's 5,000 stake is burned.
    let slashed: Balance = BUILD_STAKE / 2;
    assert_eq!(c.stake(p, BUILD_SERVICE), BUILD_STAKE - slashed);
    assert_eq!(c.pallet.stake_of_role(p, Role::BuildService), BUILD_STAKE - slashed);
    assert_eq!(c.held(HoldReason::Stake, BUILD_SERVICE), BUILD_STAKE - slashed);
    assert_eq!(c.pallet.currency.total_balance(BUILD_SERVICE), INITIAL_BALANCE - slashed);
    assert_eq!(c.pallet.currency.issuance, issuance_before - slashed);

    // Proposal rejected; the good-faith proposer's bond is returned.
    assert_eq!(c.status(id), ProposalStatus::Rejected);
    assert_eq!(c.held(HoldReason::ProposalBond, ALICE), 0);
    assert_eq!(
        c.pallet.counter_attestations.get(&id),
        Some(&CounterAttestation {
            challenger: BOB,
            attested_binary_hash: h(0xbd),
            rebuilt_binary_hash: h(0xa1),
        })
    );

    assert!(c.has_event(|e| matches!(
        e,
        Event::CounterAttestationAccepted {
            proposal_id,
            challenger,
            attested_binary_hash,
            rebuilt_binary_hash,
        } if *proposal_id == id
            && *challenger == BOB
            && *attested_binary_hash == h(0xbd)
            && *rebuilt_binary_hash == h(0xa1)
    )));
    assert!(c.has_event(|e| matches!(
        e,
        Event::BuildServiceSlashed { project_id, builder, amount, remaining_stake }
            if *project_id == p
                && *builder == BUILD_SERVICE
                && *amount == slashed
                && *remaining_stake == BUILD_STAKE - slashed
    )));
    assert!(
        c.has_event(|e| matches!(e, Event::ProposalRejected { proposal_id } if *proposal_id == id))
    );

    // No further votes, no enactment, nothing in the log.
    c.assert_noop(|c| c.vote(CAROL, id, true), Error::ProposalNotVoting);
    c.run_to_block(50);
    assert_eq!(c.pallet.releases(p), 0);
}

#[test]
fn counter_attestation_cancels_a_scheduled_enactment() {
    let mut c = Chain::new();
    let p = c.setup_acme();
    let id = c.propose(p, h(0xbd));
    assert_eq!(c.vote(CAROL, id, true), Ok(()));
    assert_eq!(c.vote(DAN, id, true), Ok(()));
    assert_eq!(c.vote(FUZZ_IO, id, true), Ok(()));
    let enact_at: u64 = 1 + ENACTMENT_DELAY;
    assert_eq!(c.status(id), ProposalStatus::Approved { enact_at });

    // Foo Audit's rebuild disagrees during the enactment delay.
    assert_eq!(c.challenge(FOO_AUDIT, id, h(0xa1)), Ok(()));
    assert_eq!(c.status(id), ProposalStatus::Rejected);
    assert!(c.pending(enact_at).is_empty());

    c.run_to_block(enact_at + 1);
    assert_eq!(c.pallet.releases(p), 0);
    assert_eq!(c.status(id), ProposalStatus::Rejected);
}

#[test]
fn counter_attestation_requires_a_real_discrepancy_from_another_stakeholder() {
    let mut c = Chain::new();
    let p = c.setup_acme();
    let id = c.propose(p, h(0xa1));

    c.assert_noop(|c| c.challenge(BOB, id, h(0xa1)), Error::NoDiscrepancy);
    c.assert_noop(|c| c.challenge(BUILD_SERVICE, id, h(0xbb)), Error::BuilderCannotChallenge);
    c.assert_noop(|c| c.challenge(OUTSIDER, id, h(0xbb)), Error::NotStakeholder);
    c.assert_noop(|c| c.challenge(BOB, 99, h(0xbb)), Error::ProposalNotFound);
    // Build Service untouched.
    assert_eq!(c.held(HoldReason::Stake, BUILD_SERVICE), BUILD_STAKE);
}

#[test]
fn enacted_releases_are_outside_the_negligence_track() {
    let mut c = Chain::new();
    let p = c.setup_acme();
    let id = c.propose(p, h(0xa1));
    assert_eq!(c.vote(BOB, id, true), Ok(()));
    assert_eq!(c.vote(CAROL, id, true), Ok(()));
    assert_eq!(c.vote(FOO_AUDIT, id, true), Ok(()));
    c.run_to_block(1 + ENACTMENT_DELAY);
    assert_eq!(c.status(id), ProposalStatus::Enacted);

    // Post-release malice is the dispute track (not implemented here).
    c.assert_noop(|c| c.challenge(BOB, id, h(0xbb)), Error::ProposalNotChallengeable);
    assert_eq!(c.pallet.releases(p), 1);
}

#[test]
fn repeated_negligence_keeps_halving_the_stake() {
    let mut c = Chain::new();
    let p = c.setup_acme();
    let id1 = c.propose(p, h(0xb1));
    assert_eq!(c.challenge(BOB, id1, h(0xa1)), Ok(()));
    let id2 = c.propose(p, h(0xb2));
    assert_eq!(c.challenge(CAROL, id2, h(0xa1)), Ok(()));
    assert_eq!(c.stake(p, BUILD_SERVICE), BUILD_STAKE / 4);
    assert_eq!(c.held(HoldReason::Stake, BUILD_SERVICE), BUILD_STAKE / 4);
}

// ---------------------------------------------------------------------------------------------
// Origins
// ---------------------------------------------------------------------------------------------

#[test]
fn every_request_checks_its_origin() {
    let mut c = Chain::new();
    let p = c.setup_acme();
    let id = c.propose(p, h(0xa1));
    c.assert_refused(
        |c| c.genesis(Origin::Unsigned, acme_stakeholders(), acme_policy()),
        CallError::BadOrigin,
    );
    for root in [true, false] {
        let origin = || if root { Origin::Root } else { Origin::Unsigned };
        c.assert_refused(|c| c.pallet.vote(origin(), id, true, 1), CallError::BadOrigin);
        c.assert_refused(
            |c| c.pallet.submit_counter_attestation(origin(), id, h(0xbb)),
            CallError::BadOrigin,
        );
        c.assert_refused(|c| c.pallet.close_expired(origin(), id, 500), CallError::BadOrigin);
        let att = attestation(h(0xa2));
        let sig = sign(&att);
        c.assert_refused(
            |c| c.pallet.new_release(origin(), p, bv("2.0.0"), att, h(0x42), sig, 1),
            CallError::BadOrigin,
        );
    }
}

// ---------------------------------------------------------------------------------------------
// Refusals of the token
// ---------------------------------------------------------------------------------------------

#[test]
fn a_refused_stake_leaves_no_stakeholder_behind() {
    let mut c = Chain::new();
    let mut s = acme_stakeholders();
    s[7].stake = INITIAL_BALANCE + 1;
    c.assert_refused(
        |c| c.genesis(Origin::Root, s, acme_policy()),
        CallError::Token(DispatchError::Token(TokenError::FundsUnavailable)),
    );
    // The identifier is still free.
    assert_eq!(c.setup_acme(), 0);
    assert_eq!(c.pallet.stake_of_role(0, Role::CoreDeveloper), 5 * STAKE);
}

#[test]
fn a_refused_bond_leaves_no_proposal_behind() {
    let mut c = Chain::new();
    let mut s = acme_stakeholders();
    s[0].stake = INITIAL_BALANCE - 10;
    assert_eq!(c.genesis(Origin::Root, s, acme_policy()), Ok(()));
    let att = attestation(h(0xa1));
    let sig = sign(&att);
    c.assert_refused(
        |c| c.release(ALICE, 0, att, sig),
        CallError::Token(DispatchError::Token(TokenError::FundsUnavailable)),
    );
}

#[test]
fn a_refused_burn_or_release_leaves_the_proposal_open() {
    let mut c = Chain::new();
    let p = c.setup_acme();
    let id = c.propose(p, h(0xbd));
    c.pallet.currency.refuses_burn = true;
    c.assert_refused(
        |c| c.challenge(BOB, id, h(0xa1)),
        CallError::Token(DispatchError::Token(TokenError::Frozen)),
    );
    c.pallet.currency.refuses_burn = false;
    c.pallet.currency.refuses_release = true;
    c.assert_refused(
        |c| c.challenge(BOB, id, h(0xa1)),
        CallError::Token(DispatchError::Token(TokenError::CannotCreate)),
    );
    c.run_to_block(2 + VOTING_PERIOD);
    c.assert_refused(
        |c| c.close(BOB, id),
        CallError::Token(DispatchError::Token(TokenError::CannotCreate)),
    );
    c.pallet.currency.refuses_release = false;
    assert_eq!(c.close(BOB, id), Ok(()));
}

#[test]
fn a_refused_release_does_not_stop_an_enactment() {
    let mut c = Chain::new();
    let p = c.setup_acme();
    let id = c.propose(p, h(0xa1));
    assert_eq!(c.vote(BOB, id, true), Ok(()));
    assert_eq!(c.vote(CAROL, id, true), Ok(()));
    assert_eq!(c.vote(FOO_AUDIT, id, true), Ok(()));
    c.pallet.currency.refuses_release = true;
    c.run_to_block(1 + ENACTMENT_DELAY);
    assert_eq!(c.status(id), ProposalStatus::Enacted);
    assert_eq!(c.pallet.releases(p), 1);
    assert_eq!(c.held(HoldReason::ProposalBond, ALICE), BOND);
}

#[test]
fn a_slash_takes_no_more_than_is_on_hold() {
    let mut c = Chain::new();
    let p = c.setup_acme();
    let id = c.propose(p, h(0xbd));
    c.pallet.currency.set_held(HoldReason::Stake, BUILD_SERVICE, 700);
    assert_eq!(c.challenge(BOB, id, h(0xa1)), Ok(()));
    assert_eq!(c.stake(p, BUILD_SERVICE), BUILD_STAKE - 700);
    assert_eq!(c.pallet.stake_of_role(p, Role::BuildService), BUILD_STAKE - 700);
    assert_eq!(c.held(HoldReason::Stake, BUILD_SERVICE), 0);
}

// ---------------------------------------------------------------------------------------------
// Votes and tallies
// ---------------------------------------------------------------------------------------------

#[test]
fn a_second_vote_takes_the_place_of_the_first() {
    let mut c = Chain::new();
    let p = c.setup_acme();
    let id = c.propose(p, h(0xa1));
    for (aye, ayes, nays) in [
        (false, STAKE, STAKE),
        (true, 2 * STAKE, 0),
        (true, 2 * STAKE, 0),
        (false, STAKE, STAKE),
        (false, STAKE, STAKE),
    ] {
        assert_eq!(c.vote(BOB, id, aye), Ok(()));
        assert_eq!(c.pallet.votes.get(&(id, BOB)), Some(&aye));
        let tally = c.pallet.tally(id, Role::CoreDeveloper);
        assert_eq!((tally.ayes, tally.nays), (ayes, nays));
    }
}

#[test]
fn votes_touch_one_proposal() {
    let mut c = Chain::new();
    let p = c.setup_acme();
    let one = c.propose(p, h(0xa1));
    let two = c.propose(p, h(0xa2));
    assert_eq!((one, two), (0, 1));
    assert_eq!(c.vote(BOB, two, true), Ok(()));
    assert_eq!(c.pallet.tally(one, Role::CoreDeveloper).ayes, STAKE);
    assert_eq!(c.pallet.tally(two, Role::CoreDeveloper).ayes, 2 * STAKE);
    assert_eq!(c.pallet.votes.get(&(one, BOB)), None);
    assert_eq!(c.held(HoldReason::ProposalBond, ALICE), 2 * BOND);
}

#[test]
fn a_vote_reports_role_and_weight() {
    let mut c = Chain::new();
    let p = c.setup_acme();
    let id = c.propose(p, h(0xa1));
    assert_eq!(c.vote(FUZZ_IO, id, false), Ok(()));
    assert!(matches!(
        c.last_event(),
        Some(Event::Voted {
            proposal_id: 0,
            voter: FUZZ_IO,
            role: Role::SecurityAuditor,
            aye: false,
            weight: STAKE,
        })
    ));
    assert!(c.has_event(|e| matches!(
        e,
        Event::ReleaseProposed {
            proposal_id: 0,
            project_id: 0,
            proposer: ALICE,
            version,
            source_commit_hash,
            output_binary_hash,
            attestation_cid,
            voting_ends: 101,
        } if *version == bv::<VersionLimit>("1.2.3")
            && *source_commit_hash == h(0xc0)
            && *output_binary_hash == h(0xa1)
            && *attestation_cid == h(0x42)
    )));
}

#[test]
fn the_runtime_is_told_of_every_event_in_order() {
    let mut c = Chain::new();
    let p = c.setup_acme();
    let names = |c: &Chain, from: usize| -> Vec<&'static str> {
        c.pallet.event_log[from..]
            .iter()
            .map(|e| match &**e {
                Event::ProjectCreated { .. } => "created",
                Event::StakeholderRegistered { .. } => "registered",
                Event::ReleaseProposed { .. } => "proposed",
                Event::Voted { .. } => "voted",
                Event::ProposalApproved { .. } => "approved",
                Event::ProposalApprovalRevoked { .. } => "revoked",
                Event::ReleaseEnacted { .. } => "enacted",
                Event::CounterAttestationAccepted { .. } => "accepted",
                Event::BuildServiceSlashed { .. } => "slashed",
                Event::ProposalRejected { .. } => "rejected",
                Event::ProposalExpired { .. } => "expired",
            })
            .collect()
    };
    assert_eq!(names(&c, 0), [vec!["registered"; 8], vec!["created"]].concat());
    let id = c.propose(p, h(0xa1));
    assert_eq!(c.vote(BOB, id, true), Ok(()));
    assert_eq!(c.vote(FOO_AUDIT, id, true), Ok(()));
    assert_eq!(c.vote(CAROL, id, true), Ok(()));
    assert_eq!(c.vote(CAROL, id, false), Ok(()));
    assert_eq!(c.vote(DAN, id, true), Ok(()));
    c.run_to_block(1 + ENACTMENT_DELAY);
    assert_eq!(
        names(&c, 9),
        [
            "proposed", "voted", "voted", "voted", "voted", "approved", "voted", "revoked", "voted",
            "approved", "enacted",
        ]
    );
    let other = c.propose(p, h(0xb1));
    assert_eq!(c.challenge(BOB, other, h(0xa1)), Ok(()));
    let late = c.propose(p, h(0xb2));
    c.block = 2 * VOTING_PERIOD;
    assert_eq!(c.close(BOB, late), Ok(()));
    assert_eq!(
        names(&c, 20),
        [
            "proposed", "voted", "accepted", "slashed", "rejected", "proposed", "voted", "expired",
        ]
    );
}

#[test]
fn steps_can_be_taken_one_by_one() {
    let mut c = swift();
    let id = c.propose(0, h(1));
    assert_eq!(c.pallet.do_vote(id, &BOB, false, 3), Ok(()));
    assert_eq!(c.pallet.votes.get(&(id, BOB)), Some(&false));
    c.pallet.enact(id, 4);
    assert_eq!(c.status(id), ProposalStatus::Enacted);
    assert_eq!(c.pallet.release_log.get(&(0, 0)).unwrap().enacted_at, 4);
    // A proposal is enacted at most once.
    let before = c.print();
    c.pallet.enact(id, 5);
    c.pallet.enact(99, 5);
    assert_eq!(c.print(), before);
}

#[test]
fn quorums_are_exact_to_the_billionth() {
    // 2 of 3 stakes are 666,666,666 2/3 billionths.
    for (parts, met) in [(666_666_666u32, true), (666_666_667u32, false)] {
        let mut c = Chain::new();
        assert_eq!(
            c.genesis(
                Origin::Root,
                vec![
                    si(ALICE, Role::CoreDeveloper, 2),
                    si(BOB, Role::CoreDeveloper, 1),
                    si(BUILD_SERVICE, Role::BuildService, BUILD_STAKE),
                ],
                policy(vec![RoleQuorum {
                    role: Role::CoreDeveloper,
                    quorum: Perbill::from_parts(parts),
                }]),
            ),
            Ok(())
        );
        let id = c.propose(0, h(0xa1));
        let project = c.pallet.projects.get(&0).unwrap();
        assert_eq!(c.pallet.meets_quorums(0, project, id), met);
        assert_eq!(c.status(id) == ProposalStatus::Voting, !met);
    }
}

#[test]
fn a_role_without_stake_never_meets_a_quorum() {
    let mut c = Chain::new();
    let p = c.setup_acme();
    let id = c.propose(p, h(0xa1));
    let project = verigov::types::ProjectInfo {
        name: bv::<ConstU32<64>>("other"),
        policy: policy(vec![RoleQuorum {
            role: Role::CommunityTrustee,
            quorum: Perbill::from_parts(0),
        }]),
        slashing: acme_slashing(),
        proposal_bond: BOND,
    };
    assert!(!c.pallet.meets_quorums(p, &project, id));
}

#[test]
fn a_single_aye_can_meet_the_policy_at_once() {
    let mut c = Chain::new();
    assert_eq!(
        c.genesis(
            Origin::Root,
            acme_stakeholders(),
            policy(vec![RoleQuorum {
                role: Role::CoreDeveloper,
                quorum: fraction(sp_runtime::Perbill::from_percent(20)),
            }]),
        ),
        Ok(())
    );
    let id = c.propose(0, h(0xa1));
    assert_eq!(c.status(id), ProposalStatus::Approved { enact_at: 1 + ENACTMENT_DELAY });
}

// ---------------------------------------------------------------------------------------------
// Schedule and log
// ---------------------------------------------------------------------------------------------

/// A chain on which every proposal is approved by its proposer's own aye.
fn swift() -> Chain {
    let mut c = Chain::new();
    assert_eq!(
        c.genesis(
            Origin::Root,
            acme_stakeholders(),
            policy(vec![RoleQuorum {
                role: Role::CoreDeveloper,
                quorum: fraction(sp_runtime::Perbill::from_percent(20)),
            }]),
        ),
        Ok(())
    );
    c
}

#[test]
fn a_full_block_takes_no_more_enactments() {
    let mut c = swift();
    for i in 0..32u32 {
        assert_eq!(c.propose(0, h(i as u8)), i);
    }
    let enact_at: u64 = 1 + ENACTMENT_DELAY;
    assert_eq!(c.pending(enact_at), (0..32u32).collect::<Vec<u32>>());

    let att = attestation(h(0xff));
    let sig = sign(&att);
    c.assert_noop(|c| c.release(ALICE, 0, att, sig), Error::TooManyEnactments);

    // In the next block there is room again.
    c.block = 2;
    assert_eq!(c.propose(0, h(0xff)), 32);
    assert_eq!(c.pending(enact_at + 1), vec![32]);

    c.block = enact_at - 1;
    c.run_to_block(enact_at);
    assert_eq!(c.pallet.releases(0), 32);
    c.run_to_block(enact_at + 1);
    assert_eq!(c.pallet.releases(0), 33);
    for i in 0..33u32 {
        assert_eq!(c.pallet.release_log.get(&(0, i)).unwrap().proposal_id, i);
    }
    assert!(c.pallet.release_log.get(&(0, 33)).is_none());
}

#[test]
fn a_vote_for_a_full_block_is_not_counted() {
    let mut c = swift();
    assert_eq!(c.genesis(Origin::Root, acme_stakeholders(), acme_policy()), Ok(()));
    let att = attestation(h(0xee));
    let sig = sign(&att);
    assert_eq!(c.release(ALICE, 1, att, sig), Ok(()));
    for i in 1..=32u32 {
        assert_eq!(c.propose(0, h(i as u8)), i);
    }
    assert_eq!(c.vote(BOB, 0, true), Ok(()));
    assert_eq!(c.vote(CAROL, 0, true), Ok(()));
    c.assert_noop(|c| c.vote(FOO_AUDIT, 0, true), Error::TooManyEnactments);
    // A revote that would meet the quorum is not counted either.
    assert_eq!(c.vote(FOO_AUDIT, 0, false), Ok(()));
    c.assert_noop(|c| c.vote(FOO_AUDIT, 0, true), Error::TooManyEnactments);
    assert_eq!(c.pallet.votes.get(&(0, FOO_AUDIT)), Some(&false));
}

#[test]
fn the_start_of_a_block_counts_its_storage_accesses() {
    let mut c = swift();
    for i in 0..3u32 {
        assert_eq!(c.propose(0, h(i as u8)), i);
    }
    assert_eq!(c.pallet.on_initialize(2), DbAccesses { reads: 1, writes: 1 });
    assert_eq!(
        c.pallet.on_initialize(1 + ENACTMENT_DELAY),
        DbAccesses { reads: 10, writes: 13 }
    );
    assert_eq!(
        c.pallet.on_initialize(1 + ENACTMENT_DELAY),
        DbAccesses { reads: 1, writes: 1 }
    );
}

#[test]
fn a_cancelled_enactment_leaves_the_others_on_the_schedule() {
    let mut c = swift();
    for i in 0..3u32 {
        assert_eq!(c.propose(0, h(i as u8)), i);
    }
    assert_eq!(c.challenge(BOB, 1, h(0xaa)), Ok(()));
    assert_eq!(c.pending(1 + ENACTMENT_DELAY), vec![0, 2]);
    c.run_to_block(1 + ENACTMENT_DELAY);
    assert_eq!(c.pallet.releases(0), 2);
    // A second start of the block finds nothing to enact.
    let before = c.print();
    c.pallet.on_initialize(1 + ENACTMENT_DELAY);
    assert_eq!(c.print(), before);
    assert_eq!(c.pallet.release_log.get(&(0, 0)).unwrap().output_binary_hash, h(0));
    assert_eq!(c.pallet.release_log.get(&(0, 1)).unwrap().output_binary_hash, h(2));
    assert_eq!(c.status(1), ProposalStatus::Rejected);
}

#[test]
fn enactment_goes_by_the_stake_that_stands_then() {
    // The build services are required, and a slash leaves them without stake.
    let mut c = Chain::new();
    let all = Perbill::from_parts(1_000_000_000);
    assert_eq!(
        c.pallet.project_genesis(
            Origin::Root,
            bv("strict"),
            acme_stakeholders(),
            policy(vec![RoleQuorum { role: Role::BuildService, quorum: all }]),
            SlashingParams { sigma_neg: all, sigma_mal: all, delta_max: 0 },
            BOND,
        ),
        Ok(())
    );
    let one = c.propose(0, h(1));
    let two = c.propose(0, h(2));
    assert_eq!(c.vote(BUILD_SERVICE, one, true), Ok(()));
    let enact_at: u64 = 1 + ENACTMENT_DELAY;
    assert_eq!(c.status(one), ProposalStatus::Approved { enact_at });

    assert_eq!(c.challenge(BOB, two, h(3)), Ok(()));
    assert_eq!(c.stake(0, BUILD_SERVICE), 0);
    assert_eq!(c.status(one), ProposalStatus::Approved { enact_at });

    c.run_to_block(enact_at);
    assert_eq!(c.status(one), ProposalStatus::Voting);
    assert_eq!(c.pallet.releases(0), 0);
    assert!(matches!(
        c.last_event(),
        Some(Event::ProposalApprovalRevoked { proposal_id: 0 })
    ));
}

#[test]
fn an_approved_proposal_cannot_be_closed_as_expired() {
    let mut c = swift();
    let id = c.propose(0, h(1));
    c.block = 2 + VOTING_PERIOD;
    c.assert_noop(|c| c.close(BOB, id), Error::ProposalNotVoting);
    c.assert_noop(|c| c.close(BOB, 5), Error::ProposalNotFound);
}

#[test]
fn logs_of_projects_are_separate() {
    let mut c = swift();
    assert_eq!(c.genesis(Origin::Root, acme_stakeholders(), acme_policy()), Ok(()));
    assert_eq!(c.pallet.next_project_id, 2);
    assert_eq!(c.held(HoldReason::Stake, ALICE), 2 * STAKE);
    let one = c.propose(1, h(1));
    let two = c.propose(0, h(2));
    assert_eq!(c.vote(BOB, one, true), Ok(()));
    assert_eq!(c.vote(CAROL, one, true), Ok(()));
    assert_eq!(c.vote(FUZZ_IO, one, true), Ok(()));
    c.run_to_block(1 + ENACTMENT_DELAY);
    assert_eq!((c.pallet.releases(0), c.pallet.releases(1)), (1, 1));
    assert_eq!(c.pallet.release_log.get(&(0, 0)).unwrap().proposal_id, two);
    assert_eq!(c.pallet.release_log.get(&(1, 0)).unwrap().proposal_id, one);
    // A slash in one project leaves the registry of the other alone.
    let three = c.propose(1, h(3));
    assert_eq!(c.challenge(BOB, three, h(4)), Ok(()));
    assert_eq!(c.stake(1, BUILD_SERVICE), BUILD_STAKE / 2);
    assert_eq!(c.stake(0, BUILD_SERVICE), BUILD_STAKE);
    assert_eq!(c.held(HoldReason::Stake, BUILD_SERVICE), BUILD_STAKE + BUILD_STAKE / 2);
}

// ---------------------------------------------------------------------------------------------
// Votes until enactment
// ---------------------------------------------------------------------------------------------

#[test]
fn an_approved_proposal_takes_votes_until_enactment() {
    let mut c = Chain::new();
    let mut short = acme_policy();
    short.voting_period = 5;
    assert_eq!(c.genesis(Origin::Root, acme_stakeholders(), short), Ok(()));
    let id = c.propose(0, h(0xa1));
    assert_eq!(c.vote(BOB, id, true), Ok(()));
    assert_eq!(c.vote(CAROL, id, true), Ok(()));
    assert_eq!(c.vote(FOO_AUDIT, id, true), Ok(()));
    assert_eq!(c.status(id), ProposalStatus::Approved { enact_at: 11 });
    assert_eq!(c.pallet.proposals.get(&id).unwrap().voting_ends, 6);

    c.run_to_block(7);
    assert_eq!(c.vote(CAROL, id, false), Ok(()));
    assert_eq!(c.pallet.votes.get(&(id, CAROL)), Some(&false));
    let tally = c.pallet.tally(id, Role::CoreDeveloper);
    assert_eq!((tally.ayes, tally.nays), (2_000, 1_000));
    assert_eq!(c.status(id), ProposalStatus::Voting);
    assert!(c.pending(11).is_empty());

    // Under vote again, and the voting period is over.
    c.assert_noop(|c| c.vote(CAROL, id, true), Error::VotingPeriodOver);
    assert_eq!(c.close(BOB, id), Ok(()));
    assert_eq!(c.status(id), ProposalStatus::Expired);
}

#[test]
fn a_late_vote_that_breaks_no_quorum_is_counted() {
    let mut c = Chain::new();
    let mut short = acme_policy();
    short.voting_period = 5;
    assert_eq!(c.genesis(Origin::Root, acme_stakeholders(), short), Ok(()));
    let id = c.propose(0, h(0xa1));
    assert_eq!(c.vote(BOB, id, true), Ok(()));
    assert_eq!(c.vote(CAROL, id, true), Ok(()));
    assert_eq!(c.vote(FOO_AUDIT, id, true), Ok(()));
    c.run_to_block(10);
    assert_eq!(c.vote(DAN, id, true), Ok(()));
    assert_eq!(c.pallet.tally(id, Role::CoreDeveloper).ayes, 4_000);
    c.run_to_block(11);
    assert_eq!(c.status(id), ProposalStatus::Enacted);
    c.assert_noop(|c| c.vote(EVE, id, true), Error::ProposalNotVoting);
}

#[test]
fn without_a_delay_the_next_block_enacts() {
    let mut c = Chain::new();
    let mut prompt = acme_policy();
    prompt.enactment_delay = 0;
    assert_eq!(c.genesis(Origin::Root, acme_stakeholders(), prompt), Ok(()));
    let id = c.propose(0, h(0xa1));
    assert_eq!(c.vote(BOB, id, true), Ok(()));
    assert_eq!(c.vote(CAROL, id, true), Ok(()));
    assert_eq!(c.vote(FOO_AUDIT, id, true), Ok(()));
    assert_eq!(c.status(id), ProposalStatus::Approved { enact_at: 2 });
    c.run_to_block(2);
    assert_eq!(c.status(id), ProposalStatus::Enacted);
    assert_eq!(c.pallet.releases(0), 1);
    assert_eq!(c.held(HoldReason::ProposalBond, ALICE), 0);
}

// ---------------------------------------------------------------------------------------------
// Votes of a slashed Build Service
// ---------------------------------------------------------------------------------------------

#[test]
fn a_revote_after_a_slash_replaces_the_vote() {
    let mut c = Chain::new();
    let p = c.setup_acme();
    let challenged = c.propose(p, h(0xb1));
    let other = c.propose(p, h(0xb2));
    assert_eq!(c.vote(BUILD_SERVICE, other, true), Ok(()));
    assert_eq!(c.pallet.tally(other, Role::BuildService).ayes, 5_000);

    assert_eq!(c.challenge(BOB, challenged, h(0xa1)), Ok(()));
    let tally = c.pallet.tally(other, Role::BuildService);
    assert_eq!((tally.ayes, tally.nays), (2_500, 0));

    assert_eq!(c.vote(BUILD_SERVICE, other, false), Ok(()));
    assert_eq!(c.pallet.votes.get(&(other, BUILD_SERVICE)), Some(&false));
    let tally = c.pallet.tally(other, Role::BuildService);
    assert_eq!((tally.ayes, tally.nays), (0, 2_500));
}

#[test]
fn a_slashed_vote_weighs_what_is_left_of_the_stake() {
    let mut c = Chain::new();
    assert_eq!(
        c.genesis(
            Origin::Root,
            vec![
                si(ALICE, Role::CoreDeveloper, 1_000),
                si(BOB, Role::BuildService, 5_000),
                si(BUILD_SERVICE, Role::BuildService, 5_000),
            ],
            policy(vec![RoleQuorum {
                role: Role::BuildService,
                quorum: fraction(sp_runtime::Perbill::from_percent(60)),
            }]),
        ),
        Ok(())
    );
    let challenged = c.propose(0, h(0xb1));
    let other = c.propose(0, h(0xb2));
    assert_eq!(c.vote(BUILD_SERVICE, other, true), Ok(()));
    assert_eq!(c.challenge(BOB, challenged, h(0xa1)), Ok(()));
    assert_eq!(c.pallet.stake_of_role(0, Role::BuildService), 7_500);
    let project = c.pallet.projects.get(&0).unwrap();
    assert!(!c.pallet.meets_quorums(0, project, other));
}

#[test]
fn a_slash_leaves_closed_proposals_and_other_voters_alone() {
    let mut c = Chain::new();
    let p = c.setup_acme();
    assert_eq!(c.genesis(Origin::Root, acme_stakeholders(), acme_policy()), Ok(()));
    let expired = c.propose(p, h(0xb1));
    let elsewhere = c.propose(1, h(0xb2));
    assert_eq!(c.vote(BUILD_SERVICE, expired, true), Ok(()));
    assert_eq!(c.vote(BUILD_SERVICE, elsewhere, false), Ok(()));
    c.run_to_block(2 + VOTING_PERIOD);
    assert_eq!(c.close(BOB, expired), Ok(()));
    let challenged = c.propose(p, h(0xb3));
    assert_eq!(c.vote(BUILD_SERVICE, challenged, false), Ok(()));
    assert_eq!(c.vote(FUZZ_IO, challenged, false), Ok(()));
    assert_eq!(c.challenge(BOB, challenged, h(0xa1)), Ok(()));
    assert_eq!(c.pallet.tally(expired, Role::BuildService).ayes, 5_000);
    assert_eq!(c.pallet.tally(elsewhere, Role::BuildService).nays, 5_000);
    assert_eq!(c.pallet.tally(challenged, Role::BuildService).nays, 2_500);
    assert_eq!(c.pallet.tally(challenged, Role::SecurityAuditor).nays, STAKE);
    assert_eq!(c.pallet.tally(challenged, Role::CoreDeveloper).ayes, STAKE);
}

// ---------------------------------------------------------------------------------------------
// What follows an answer of the token
// ---------------------------------------------------------------------------------------------

#[test]
fn refusals_come_in_order() {
    let mut c = Chain::new();
    let p = c.setup_acme();
    let id = c.propose(p, h(0xa1));
    assert_eq!(
        c.pallet.release_refusal(&OUTSIDER, 7, &OUTSIDER, false),
        Some(Error::ProjectNotFound)
    );
    assert_eq!(
        c.pallet.release_refusal(&OUTSIDER, p, &OUTSIDER, false),
        Some(Error::NotStakeholder)
    );
    assert_eq!(
        c.pallet.release_refusal(&FUZZ_IO, p, &OUTSIDER, false),
        Some(Error::NotCoreDeveloper)
    );
    assert_eq!(
        c.pallet.release_refusal(&BOB, p, &OUTSIDER, false),
        Some(Error::NotBuildService)
    );
    assert_eq!(
        c.pallet.release_refusal(&BOB, p, &BUILD_SERVICE, false),
        Some(Error::InvalidBuilderSignature)
    );
    assert_eq!(c.pallet.release_refusal(&BOB, p, &BUILD_SERVICE, true), None);
    assert_eq!(c.pallet.vote_refusal(&BOB, id, 101), None);
    assert_eq!(c.pallet.vote_refusal(&BOB, id, 102), Some(Error::VotingPeriodOver));
    assert_eq!(c.pallet.expiry_refusal(id, 101), Some(Error::VotingPeriodNotOver));
    assert_eq!(c.pallet.expiry_refusal(id, 102), None);
    assert_eq!(c.pallet.challenge_refusal(&BOB, id, &h(0xbb)), None);
    assert_eq!(c.pallet.challenge_refusal(&BOB, id, &h(0xa1)), Some(Error::NoDiscrepancy));
}

#[test]
fn what_was_burned_is_what_the_registry_loses() {
    let mut c = Chain::new();
    let p = c.setup_acme();
    let id = c.propose(p, h(0xbd));
    c.pallet.record_rejection(&BOB, id, h(0xa1), 123);
    assert_eq!(c.stake(p, BUILD_SERVICE), BUILD_STAKE - 123);
    assert_eq!(c.pallet.stake_of_role(p, Role::BuildService), BUILD_STAKE - 123);
    assert_eq!(c.status(id), ProposalStatus::Rejected);
}

#[test]
fn records_without_the_token() {
    let mut c = Chain::new();
    let p = c.setup_acme();
    c.pallet.record_stakeholder(p, &si(OUTSIDER, Role::CommunityTrustee, 77));
    assert_eq!(c.stake(p, OUTSIDER), 77);
    assert_eq!(c.pallet.stake_of_role(p, Role::CommunityTrustee), 77);
    assert_eq!(c.held(HoldReason::Stake, OUTSIDER), 0);
    let answer = c.pallet.record_release(&BOB, p, bv("9"), attestation(h(9)), h(0x42), 40);
    assert_eq!(answer, Ok(()));
    let prop = c.pallet.proposals.get(&0).unwrap();
    assert_eq!((prop.proposer, prop.submitted_at, prop.voting_ends), (BOB, 40, 140));
    assert_eq!(c.held(HoldReason::ProposalBond, BOB), 0);
}

#[test]
fn identifiers_and_blocks_do_not_wrap_around() {
    let mut c = Chain::new();
    let p = c.setup_acme();
    c.pallet.next_proposal_id = u32::MAX;
    c.block = u64::MAX - 1;
    let id = c.propose(p, h(0xa1));
    assert_eq!(id, u32::MAX);
    assert_eq!(c.pallet.next_proposal_id, u32::MAX);
    assert_eq!(c.pallet.proposals.get(&id).unwrap().voting_ends, u64::MAX);
    assert_eq!(c.vote(BOB, id, true), Ok(()));
    assert_eq!(c.vote(CAROL, id, true), Ok(()));
    assert_eq!(c.vote(FOO_AUDIT, id, true), Ok(()));
    assert_eq!(c.status(id), ProposalStatus::Approved { enact_at: u64::MAX });
}
