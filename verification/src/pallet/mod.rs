//! The pallet: the records of the protocol and the requests that change them.
pub mod challenge;
pub mod enactment;
pub mod expiry;
pub mod genesis;
pub mod release;
pub mod vote;

use crate::bounded::{
    as_role_quorums, no_enactments, retain_others, role_quorums, scheduled_ids,
    MaxEnactmentsPerBlock,
};
use crate::config::Config;
use crate::model::{reaches_quorum, State};
use crate::number::Number;
use crate::perbill::ACCURACY;
use crate::storage::StorageMap;
use crate::types::{
    CounterAttestation, Event, ProjectId, ProjectInfo, Proposal, ProposalId, ProposalStatus,
    ReleaseEntry, Role, RoleQuorum, RoleTally, Stakeholder,
};
use frame_support::BoundedVec;
use vstd::prelude::*;

verus! {

/// The pallet's storage, with the books of the token that it works on and the runtime's record of
/// the events that it has deposited.
#[verifier::reject_recursive_types(T)]
pub struct Pallet<T: Config> {
    pub next_project_id: ProjectId,
    pub next_proposal_id: ProposalId,
    pub projects: StorageMap<ProjectId, ProjectInfo<T::Balance, T::BlockNumber>>,
    /// The Stakeholder Registry: `(project, account) -> (role, stake)`.
    pub stakeholders: StorageMap<(ProjectId, T::AccountId), Stakeholder<T::Balance>>,
    /// Total stake held by all stakeholders of a role in a project.
    pub role_stake: StorageMap<(ProjectId, Role), T::Balance>,
    pub proposals: StorageMap<ProposalId, Proposal<T::AccountId, T::Balance, T::BlockNumber>>,
    /// Recorded votes: `(proposal, voter) -> aye?`.
    pub votes: StorageMap<(ProposalId, T::AccountId), bool>,
    /// Stake-weighted tally per role.
    pub tallies: StorageMap<(ProposalId, Role), RoleTally<T::Balance>>,
    /// Number of entries in a project's Official Release Log.
    pub release_count: StorageMap<ProjectId, u32>,
    /// The Official Release Log: `(project, index) -> entry`. Append-only.
    pub release_log: StorageMap<(ProjectId, u32), ReleaseEntry<T::BlockNumber>>,
    /// Accepted counter-attestations.
    pub counter_attestations: StorageMap<ProposalId, CounterAttestation<T::AccountId>>,
    /// Proposals scheduled for enactment at a given block.
    pub pending_enactments: StorageMap<
        T::BlockNumber,
        BoundedVec<ProposalId, MaxEnactmentsPerBlock>,
    >,
    /// The books of the `VGOV` token.
    pub currency: T::Currency,
    /// The runtime's record of the events.
    pub event_log: T::EventLog,
}

impl<T: Config> View for Pallet<T> {
    type V = State<T>;

    open spec fn view(&self) -> State<T> {
        State {
            next_project_id: self.next_project_id,
            next_proposal_id: self.next_proposal_id,
            projects: self.projects@,
            stakeholders: self.stakeholders@,
            role_stake: self.role_stake@,
            proposals: self.proposals@,
            votes: self.votes@,
            tallies: self.tallies@,
            release_count: self.release_count@,
            release_log: self.release_log@,
            counter_attestations: self.counter_attestations@,
            pending_enactments: self.pending_enactments@.map_values(
                |list: BoundedVec<ProposalId, MaxEnactmentsPerBlock>| scheduled_ids(list),
            ),
            currency: self.currency,
            events: T::announced(self.event_log),
        }
    }
}

impl<T: Config> Pallet<T> {
    /// Every map of the storage is well formed.
    pub open spec fn wf(self) -> bool {
        &&& self.projects.wf()
        &&& self.stakeholders.wf()
        &&& self.role_stake.wf()
        &&& self.proposals.wf()
        &&& self.votes.wf()
        &&& self.tallies.wf()
        &&& self.release_count.wf()
        &&& self.release_log.wf()
        &&& self.counter_attestations.wf()
        &&& self.pending_enactments.wf()
    }

    /// What the storage holds is finite.
    pub proof fn law_storage_is_finite(self)
        requires
            self.wf(),
        ensures
            self@.finite(),
    {
        self.stakeholders.lemma_finite();
        self.votes.lemma_finite();
        self.proposals.lemma_finite();
    }

    /// The pallet before any project, on the given books and record of events.
    pub fn new(currency: T::Currency, event_log: T::EventLog) -> (pallet: Self)
        ensures
            pallet.wf(),
            pallet@ == State::<T>::empty(currency, T::announced(event_log)),
    {
        let pallet = Pallet {
            next_project_id: 0,
            next_proposal_id: 0,
            projects: StorageMap::new(),
            stakeholders: StorageMap::new(),
            role_stake: StorageMap::new(),
            proposals: StorageMap::new(),
            votes: StorageMap::new(),
            tallies: StorageMap::new(),
            release_count: StorageMap::new(),
            release_log: StorageMap::new(),
            counter_attestations: StorageMap::new(),
            pending_enactments: StorageMap::new(),
            currency,
            event_log,
        };
        proof {
            assert(pallet@ =~= State::<T>::empty(currency, T::announced(event_log)));
        }
        pallet
    }

    /// Deposits an event: the runtime is told of it.
    fn deposit_event(&mut self, event: Event<T>)
        requires
            old(self).wf(),
        ensures
            final(self).wf(),
            final(self)@ == old(self)@.with_event(event),
    {
        T::announce(&mut self.event_log, event);
        proof {
            assert(self@ =~= old(self)@.with_event(event));
        }
    }

    /// The total stake of a role in a project.
    pub fn stake_of_role(&self, project_id: ProjectId, role: Role) -> (stake: T::Balance)
        requires
            self.wf(),
        ensures
            stake == self@.stake_of_role(project_id, role),
    {
        match self.role_stake.get(&(project_id, role)) {
            Some(stake) => *stake,
            None => T::Balance::zero(),
        }
    }

    /// The tally of a role on a proposal.
    pub fn tally(&self, proposal_id: ProposalId, role: Role) -> (tally: RoleTally<T::Balance>)
        requires
            self.wf(),
        ensures
            tally == self@.tally(proposal_id, role),
    {
        match self.tallies.get(&(proposal_id, role)) {
            Some(tally) => *tally,
            None => RoleTally::default(),
        }
    }

    /// The number of entries in a project's Official Release Log.
    pub fn releases(&self, project_id: ProjectId) -> (count: u32)
        requires
            self.wf(),
        ensures
            count == self@.releases(project_id),
    {
        match self.release_count.get(&project_id) {
            Some(count) => *count,
            None => 0,
        }
    }

    /// For every required role `r`: `ayes_r / stake_r >= tau_r`.
    pub fn meets_quorums(
        &self,
        project_id: ProjectId,
        project: &ProjectInfo<T::Balance, T::BlockNumber>,
        proposal_id: ProposalId,
    ) -> (met: bool)
        requires
            self.wf(),
        ensures
            met == self@.meets_quorums(project_id, *project, proposal_id),
    {
        let required = as_role_quorums(&project.policy.required_roles);
        let mut i: usize = 0;
        while i < required.len()
            invariant
                self.wf(),
                i <= required@.len(),
                required@ == role_quorums(project.policy.required_roles),
                forall|j: int|
                    0 <= j < i ==> self@.meets_quorum(
                        project_id,
                        #[trigger] required@[j],
                        proposal_id,
                    ),
            decreases required@.len() - i,
        {
            let rq: RoleQuorum = required[i];
            let total: u128 = self.stake_of_role(project_id, rq.role).to_u128();
            let ayes: u128 = self.tally(proposal_id, rq.role).ayes.to_u128();
            if !quorum_reached(ayes, total, rq.quorum.deconstruct()) {
                assert(!self@.meets_quorum(project_id, required@[i as int], proposal_id));
                return false;
            }
            i = i + 1;
        }
        true
    }

    /// Changes a proposal's status, where there is such a proposal.
    fn set_status(&mut self, proposal_id: ProposalId, status: ProposalStatus<T::BlockNumber>)
        requires
            old(self).wf(),
        ensures
            final(self).wf(),
            old(self)@.proposals.contains_key(proposal_id) ==> final(self)@ == old(
                self,
            )@.with_status(proposal_id, status),
            !old(self)@.proposals.contains_key(proposal_id) ==> final(self)@ == old(self)@,
    {
        match self.proposals.take(&proposal_id) {
            Some(proposal) => {
                let mut proposal = proposal;
                proposal.status = status;
                self.proposals.insert(proposal_id, proposal);
                proof {
                    assert(self@ =~= old(self)@.with_status(proposal_id, status));
                }
            },
            None => {
                proof {
                    assert(self@ =~= old(self)@);
                }
            },
        }
    }

    /// Takes a proposal off the schedule of a block.
    fn unschedule(&mut self, proposal_id: ProposalId, block: T::BlockNumber)
        requires
            old(self).wf(),
        ensures
            final(self).wf(),
            final(self)@ == old(self)@.unscheduled(proposal_id, block),
    {
        let mut list = match self.pending_enactments.take(&block) {
            Some(list) => list,
            None => no_enactments(),
        };
        retain_others(&mut list, proposal_id);
        self.pending_enactments.insert(block, list);
        proof {
            assert(self@ =~= old(self)@.unscheduled(proposal_id, block));
        }
    }
}

/// One more than the largest number of 64 bits.
const LOW: u128 = 0x1_0000_0000_0000_0000;

/// `ayes / total >= quorum`, by `ayes * ACCURACY >= quorum * total` in full width.
fn quorum_reached(ayes: u128, total: u128, quorum: u32) -> (b: bool)
    ensures
        b == reaches_quorum(ayes as nat, total as nat, quorum as nat),
        b == (total > 0 && ayes as nat * 1_000_000_000 >= quorum as nat * total as nat),
{
    if total == 0 {
        return false;
    }
    let (left_high, left_low) = wide_product(ayes, ACCURACY);
    let (right_high, right_low) = wide_product(total, quorum);
    proof {
        assert(total as nat * quorum as nat == quorum as nat * total as nat) by (nonlinear_arith);
    }
    left_high > right_high || (left_high == right_high && left_low >= right_low)
}

/// The product in full width: the part above the low 64 bits, and the low 64 bits.
fn wide_product(a: u128, b: u32) -> (r: (u128, u128))
    ensures
        r.0 * LOW + r.1 == a as nat * b as nat,
        r.1 < LOW,
{
    let high: u128 = a / LOW;
    let low: u128 = a % LOW;
    let factor: u128 = b as u128;
    proof {
        assert(high < LOW);
        assert(high * factor <= LOW * 0x1_0000_0000 && low * factor <= LOW * 0x1_0000_0000)
            by (nonlinear_arith)
            requires
                high < LOW,
                low < LOW,
                factor < 0x1_0000_0000,
        ;
    }
    let high_product: u128 = high * factor;
    let low_product: u128 = low * factor;
    proof {
        assert((high * LOW + low) * factor == (high * factor) * LOW + low * factor)
            by (nonlinear_arith);
        assert(a as nat * b as nat == (high * LOW + low) * factor);
    }
    (high_product + low_product / LOW, low_product % LOW)
}

} // verus!
