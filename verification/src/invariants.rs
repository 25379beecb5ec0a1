//! What holds of the pallet's records whenever no request is under way.
use crate::bounded::ENACTMENTS_PER_BLOCK;
use crate::config::{Config, HoldReason};
use crate::model::{is_open, Request, State};
use crate::number::Number;
use crate::sums::sum;
use crate::types::{ProjectId, Proposal, ProposalId, ProposalStatus, ReleaseEntry, Role};
use vstd::prelude::*;

verus! {

/// Whether an entry of the release log reports what is in a proposal: its version, the commit that
/// it was built from, the binary that was built, and where the full attestation is found.
pub open spec fn reports<A, B, N>(entry: ReleaseEntry<N>, proposal: Proposal<A, B, N>) -> bool {
    &&& entry.version == proposal.version
    &&& entry.source_commit_hash == proposal.attestation.source_commit_hash
    &&& entry.output_binary_hash == proposal.attestation.output_binary_hash
    &&& entry.attestation_cid == proposal.attestation_cid
}

impl<T: Config> State<T> {
    // ---------------------------------------------------------------------------------------
    // Totals
    // ---------------------------------------------------------------------------------------
    /// The stake of a registered stakeholder if it has the role in the project, else nothing.
    pub open spec fn role_weight(self, project_id: ProjectId, role: Role) -> spec_fn(
        (ProjectId, T::AccountId),
    ) -> nat {
        |k: (ProjectId, T::AccountId)|
            if k.0 == project_id && self.stakeholders[k].role == role {
                self.stakeholders[k].stake.value()
            } else {
                0
            }
    }

    /// The sum of the stakes of all stakeholders of a role in a project.
    pub open spec fn role_total(self, project_id: ProjectId, role: Role) -> nat {
        sum(self.stakeholders.dom(), self.role_weight(project_id, role))
    }

    /// The stake of a voter if it has the role and voted so on the proposal, else nothing.
    pub open spec fn ballot_weight(self, proposal_id: ProposalId, role: Role, aye: bool) -> spec_fn(
        (ProposalId, T::AccountId),
    ) -> nat {
        |k: (ProposalId, T::AccountId)|
            {
                let voter = self.stakeholders[(self.proposals[proposal_id].project_id, k.1)];
                if k.0 == proposal_id && self.votes[k] == aye && voter.role == role {
                    voter.stake.value()
                } else {
                    0
                }
            }
    }

    /// The sum of the stakes of the stakeholders of a role that voted so on a proposal.
    pub open spec fn ballot_total(self, proposal_id: ProposalId, role: Role, aye: bool) -> nat {
        sum(self.votes.dom(), self.ballot_weight(proposal_id, role, aye))
    }

    /// The stake of a registered stakeholder if it is the account, else nothing.
    pub open spec fn account_weight(self, who: T::AccountId) -> spec_fn(
        (ProjectId, T::AccountId),
    ) -> nat {
        |k: (ProjectId, T::AccountId)|
            if k.1 == who {
                self.stakeholders[k].stake.value()
            } else {
                0
            }
    }

    /// The sum of an account's stakes in all projects.
    pub open spec fn account_total(self, who: T::AccountId) -> nat {
        sum(self.stakeholders.dom(), self.account_weight(who))
    }

    /// The bond of a proposal if it is open and the account's, else nothing.
    pub open spec fn bond_weight(self, who: T::AccountId) -> spec_fn(ProposalId) -> nat {
        |id: ProposalId|
            if self.proposals[id].proposer == who && is_open(self.proposals[id].status) {
                self.proposals[id].bond.value()
            } else {
                0
            }
    }

    /// The sum of the bonds of an account's open proposals.
    pub open spec fn bond_total(self, who: T::AccountId) -> nat {
        sum(self.proposals.dom(), self.bond_weight(who))
    }

    // ---------------------------------------------------------------------------------------
    // Invariants
    // ---------------------------------------------------------------------------------------
    /// The registry, the votes and the proposals are finite.
    pub open spec fn finite(self) -> bool {
        &&& self.stakeholders.dom().finite()
        &&& self.votes.dom().finite()
        &&& self.proposals.dom().finite()
    }

    /// Nothing is recorded under a project or proposal that has no identifier yet.
    pub open spec fn identified(self) -> bool {
        &&& forall|p: ProjectId| #[trigger]
            self.projects.contains_key(p) ==> p < self.next_project_id
        &&& forall|k: (ProjectId, T::AccountId)| #[trigger]
            self.stakeholders.contains_key(k) ==> k.0 < self.next_project_id
        &&& forall|k: (ProjectId, Role)| #[trigger]
            self.role_stake.contains_key(k) ==> k.0 < self.next_project_id
        &&& forall|id: ProposalId| #[trigger]
            self.proposals.contains_key(id) ==> id < self.next_proposal_id
        &&& forall|k: (ProposalId, Role)| #[trigger]
            self.tallies.contains_key(k) ==> k.0 < self.next_proposal_id
    }

    /// A proposal belongs to a registered project, its proposer is one of that project's Core
    /// Developers and its builder one of its Build Services. A vote is on a proposal, by a
    /// stakeholder of its project.
    pub open spec fn linked(self) -> bool {
        &&& forall|id: ProposalId| #[trigger]
            self.proposals.contains_key(id) ==> {
                let proposal = self.proposals[id];
                let proposer = (proposal.project_id, proposal.proposer);
                let builder = (proposal.project_id, proposal.attestation.builder);
                &&& self.projects.contains_key(proposal.project_id)
                &&& self.stakeholders.contains_key(proposer)
                &&& self.stakeholders[proposer].role == Role::CoreDeveloper
                &&& self.stakeholders.contains_key(builder)
                &&& self.stakeholders[builder].role == Role::BuildService
            }
        &&& forall|k: (ProposalId, T::AccountId)| #[trigger]
            self.votes.contains_key(k) ==> self.proposals.contains_key(k.0)
                && self.stakeholders.contains_key((self.proposals[k.0].project_id, k.1))
    }

    /// The recorded stake of every role is the sum of the stakes of its stakeholders.
    pub open spec fn roles_totalled(self) -> bool {
        forall|p: ProjectId, r: Role| #[trigger]
            self.stake_of_role(p, r).value() == self.role_total(p, r)
    }

    /// The tally of a role on a proposal is the sum of the stakes behind either answer.
    pub open spec fn tally_exact(self, proposal_id: ProposalId, role: Role) -> bool {
        &&& self.tally(proposal_id, role).ayes.value() == self.ballot_total(proposal_id, role, true)
        &&& self.tally(proposal_id, role).nays.value() == self.ballot_total(
            proposal_id,
            role,
            false,
        )
    }

    /// Whether a proposal is enacted, rejected or expired.
    pub open spec fn is_closed(self, proposal_id: ProposalId) -> bool {
        self.proposals.contains_key(proposal_id) && !is_open(self.proposals[proposal_id].status)
    }

    /// The tallies of every role are exact, as long as the proposal is not closed. What is closed
    /// keeps the tally that it closed with.
    pub open spec fn tallies_exact(self) -> bool {
        forall|id: ProposalId, r: Role|
            !self.is_closed(id) ==> #[trigger] self.tally_exact(id, r)
    }

    /// A proposal is on the schedule of a block, once, if and only if it is approved for that
    /// block. No schedule is over its bound.
    pub open spec fn scheduled_when_approved(self) -> bool {
        &&& forall|b: T::BlockNumber, id: ProposalId| #[trigger]
            self.scheduled_at(b).contains(id) <==> self.proposals.contains_key(id)
                && self.proposals[id].status == (ProposalStatus::Approved { enact_at: b })
        &&& forall|b: T::BlockNumber|
            (#[trigger] self.scheduled_at(b)).no_duplicates() && self.scheduled_at(b).len()
                <= ENACTMENTS_PER_BLOCK
    }

    /// A project's release log has an entry at every index below its count and nowhere else.
    pub open spec fn log_gapless(self) -> bool {
        forall|k: (ProjectId, u32)| #[trigger]
            self.release_log.contains_key(k) <==> k.1 < self.releases(k.0)
    }

    /// What is in the log is what was enacted: every entry reports an enacted proposal of its
    /// project, every enacted proposal has an entry, and no proposal has two.
    pub open spec fn log_is_what_was_enacted(self) -> bool {
        &&& forall|k: (ProjectId, u32)| #[trigger]
            self.release_log.contains_key(k) ==> {
                let entry = self.release_log[k];
                &&& self.proposals.contains_key(entry.proposal_id)
                &&& self.proposals[entry.proposal_id].status is Enacted
                &&& self.proposals[entry.proposal_id].project_id == k.0
                &&& reports(entry, self.proposals[entry.proposal_id])
            }
        &&& forall|id: ProposalId| #[trigger]
            self.proposals.contains_key(id) && self.proposals[id].status is Enacted ==> exists|
                k: (ProjectId, u32),
            | #[trigger]
                self.release_log.contains_key(k) && self.release_log[k].proposal_id == id
        &&& forall|j: (ProjectId, u32), k: (ProjectId, u32)| #[trigger]
            self.release_log.contains_key(j) && #[trigger] self.release_log.contains_key(k) && j
                != k ==> self.release_log[j].proposal_id != self.release_log[k].proposal_id
    }

    /// A proposal is rejected if and only if a counter-attestation against it was accepted: one
    /// by a stakeholder other than the builder, with another hash than the attested one.
    pub open spec fn rejected_when_challenged(self) -> bool {
        &&& forall|id: ProposalId| #[trigger]
            self.counter_attestations.contains_key(id) <==> self.proposals.contains_key(id)
                && self.proposals[id].status is Rejected
        &&& forall|id: ProposalId| #[trigger]
            self.counter_attestations.contains_key(id) ==> {
                let report = self.counter_attestations[id];
                let attestation = self.proposals[id].attestation;
                &&& report.attested_binary_hash == attestation.output_binary_hash
                &&& report.rebuilt_binary_hash != attestation.output_binary_hash
                &&& report.challenger != attestation.builder
                &&& self.stakeholders.contains_key(
                    (self.proposals[id].project_id, report.challenger),
                )
            }
    }

    /// Everything that holds of the records between requests.
    pub open spec fn consistent(self) -> bool {
        &&& self.finite()
        &&& self.identified()
        &&& self.linked()
        &&& self.roles_totalled()
        &&& self.tallies_exact()
        &&& self.scheduled_when_approved()
        &&& self.log_gapless()
        &&& self.log_is_what_was_enacted()
        &&& self.rejected_when_challenged()
    }

    /// Every stake in the registry is on hold.
    pub open spec fn stakes_escrowed(self) -> bool {
        forall|a: T::AccountId| #[trigger]
            T::on_hold(self.currency, HoldReason::Stake, a) >= self.account_total(a)
    }

    /// The bond of every open proposal is on hold.
    pub open spec fn bonds_escrowed(self) -> bool {
        forall|a: T::AccountId| #[trigger]
            T::on_hold(self.currency, HoldReason::ProposalBond, a) >= self.bond_total(a)
    }

    // ---------------------------------------------------------------------------------------
    // Limits of the machine
    // ---------------------------------------------------------------------------------------
    /// Whether every stake total of a project's roles fits in a balance.
    pub open spec fn role_totals_fit(self, project_id: ProjectId) -> bool {
        forall|r: Role| #[trigger] self.role_total(project_id, r) <= T::Balance::max_value()
    }

    /// Whether the log of every project that has a release due still has an index for it.
    pub open spec fn appends_fit(self, ids: Seq<ProposalId>, now: T::BlockNumber) -> bool
        decreases ids.len(),
    {
        ids.len() > 0 ==> {
            let before = self.enacting_all(ids.drop_last(), now);
            &&& self.appends_fit(ids.drop_last(), now)
            &&& before.is_due(ids.last()) ==> before.releases(
                before.proposals[ids.last()].project_id,
            ) < u32::MAX
        }
    }

    /// Whether the enactment of a scheduled proposal appends it to the release log.
    pub open spec fn is_due(self, proposal_id: ProposalId) -> bool {
        let proposal = self.proposals[proposal_id];
        &&& self.proposals.contains_key(proposal_id)
        &&& proposal.status is Approved
        &&& self.projects.contains_key(proposal.project_id)
        &&& self.meets_quorums(
            proposal.project_id,
            self.projects[proposal.project_id],
            proposal_id,
        )
    }

    /// Whether there is an identifier left for the project or proposal that a request makes.
    pub open spec fn has_identifiers_for(self, request: Request<T>) -> bool {
        match request {
            Request::ProjectGenesis { .. } => self.outcome(request) is Ok ==> self.next_project_id
                < u32::MAX,
            Request::NewRelease { .. } => self.outcome(request) is Ok ==> self.next_proposal_id
                < u32::MAX,
            _ => true,
        }
    }

    /// Whether the stake totals of the roles of a project that a request makes fit in a balance.
    pub open spec fn has_balances_for(self, request: Request<T>) -> bool {
        match request {
            Request::ProjectGenesis { .. } => self.outcome(request) is Ok ==> self.step(
                request,
            ).role_totals_fit(self.next_project_id),
            _ => true,
        }
    }

    /// Whether every account's stakes, where a request adds to them, add up to a balance.
    pub open spec fn has_stakes_for(self, request: Request<T>) -> bool {
        match request {
            Request::ProjectGenesis { .. } => self.outcome(request) is Ok ==> forall|
                a: T::AccountId,
            | #[trigger]
                self.step(request).account_total(a) <= T::Balance::max_value(),
            _ => true,
        }
    }

    /// Whether every account's bonds, where a request adds to them, add up to a balance.
    pub open spec fn has_bonds_for(self, request: Request<T>) -> bool {
        match request {
            Request::NewRelease { .. } => self.outcome(request) is Ok ==> forall|a: T::AccountId|
             #[trigger]
                self.step(request).bond_total(a) <= T::Balance::max_value(),
            _ => true,
        }
    }

    /// Whether the logs have an index left for every release that a request enacts.
    pub open spec fn has_log_indices_for(self, request: Request<T>) -> bool {
        match request {
            Request::OnInitialize { now } => self.taken(now).appends_fit(
                self.scheduled_at(now),
                now,
            ),
            _ => true,
        }
    }

    /// Whether a request stays within the range of everything that it counts up.
    pub open spec fn has_room(self, request: Request<T>) -> bool {
        &&& self.has_identifiers_for(request)
        &&& self.has_balances_for(request)
        &&& self.has_log_indices_for(request)
    }
}

} // verus!
