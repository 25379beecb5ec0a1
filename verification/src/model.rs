//! The protocol as a mathematical state machine.
//!
//! A [`State`] is everything that the pallet remembers. What a request does to it is a function of
//! the state, the request, and the answers of the runtime's token.
use crate::bounded::{role_quorums, without, VersionLimit, ENACTMENTS_PER_BLOCK};
use crate::config::{CallError, Config, HoldReason, Origin};
use crate::number::{minus, plus, Number};
use crate::perbill::{share, ACCURACY};
use crate::types::{
    BuildAttestation, CounterAttestation, Error, Event, Hash32, ProjectId, ProjectInfo, Proposal,
    ProposalId, ProposalStatus, ReleaseEntry, ReleasePolicy, Role, RoleQuorum, RoleTally,
    Stakeholder, StakeholderInit,
};
use frame_support::BoundedVec;
use vstd::prelude::*;

verus! {

/// The identifier or index that comes after `id`; the last one comes after itself.
pub open spec fn next(id: u32) -> u32 {
    if id < u32::MAX {
        (id + 1) as u32
    } else {
        id
    }
}

/// A tally after a vote of weight `stake`, where `previous` is what the voter had voted before.
/// The new vote takes the place of the previous one.
pub open spec fn revised_tally<B: Number>(
    tally: RoleTally<B>,
    previous: Option<bool>,
    aye: bool,
    stake: B,
) -> RoleTally<B> {
    let withdrawn = match previous {
        Some(true) => RoleTally { ayes: minus(tally.ayes, stake), ..tally },
        Some(false) => RoleTally { nays: minus(tally.nays, stake), ..tally },
        None => tally,
    };
    if aye {
        RoleTally { ayes: plus(withdrawn.ayes, stake), ..withdrawn }
    } else {
        RoleTally { nays: plus(withdrawn.nays, stake), ..withdrawn }
    }
}

/// A tally once `slashed` is gone from the stake of a voter that is counted in it.
pub open spec fn lightened_tally<B: Number>(
    tally: RoleTally<B>,
    aye: bool,
    slashed: B,
) -> RoleTally<B> {
    if aye {
        RoleTally { ayes: minus(tally.ayes, slashed), ..tally }
    } else {
        RoleTally { nays: minus(tally.nays, slashed), ..tally }
    }
}

/// `ayes / total >= quorum`, where the quorum is counted in billionths: the stake `ayes` out of a
/// nonzero `total` is at least so large a part.
pub open spec fn reaches_quorum(ayes: nat, total: nat, quorum: nat) -> bool {
    total != 0 && ayes * ACCURACY >= quorum * total
}

/// The block at whose start a proposal that is approved during block `now` is enacted: so many
/// blocks later, but not before the next one, since the start of this one is over.
pub open spec fn enactment_block<N: Number>(now: N, delay: N) -> N {
    if delay.value() == 0 {
        plus(now, N::of(1))
    } else {
        plus(now, delay)
    }
}

/// A proposal that can still be enacted.
pub open spec fn is_open<B>(status: ProposalStatus<B>) -> bool {
    status is Voting || status is Approved
}

/// What the pallet remembers.
#[verifier::ext_equal]
#[verifier::reject_recursive_types(T)]
pub struct State<T: Config> {
    pub next_project_id: ProjectId,
    pub next_proposal_id: ProposalId,
    pub projects: Map<ProjectId, ProjectInfo<T::Balance, T::BlockNumber>>,
    /// The Stakeholder Registry: `(project, account) -> (role, stake)`.
    pub stakeholders: Map<(ProjectId, T::AccountId), Stakeholder<T::Balance>>,
    /// Total stake of all stakeholders of a role in a project; nothing stands for zero.
    pub role_stake: Map<(ProjectId, Role), T::Balance>,
    pub proposals: Map<ProposalId, Proposal<T::AccountId, T::Balance, T::BlockNumber>>,
    /// Recorded votes: `(proposal, voter) -> aye?`.
    pub votes: Map<(ProposalId, T::AccountId), bool>,
    /// Stake-weighted tally per role; nothing stands for the tally before any vote.
    pub tallies: Map<(ProposalId, Role), RoleTally<T::Balance>>,
    /// Number of entries in a project's Official Release Log; nothing stands for zero.
    pub release_count: Map<ProjectId, u32>,
    /// The Official Release Log: `(project, index) -> entry`.
    pub release_log: Map<(ProjectId, u32), ReleaseEntry<T::BlockNumber>>,
    /// Accepted counter-attestations.
    pub counter_attestations: Map<ProposalId, CounterAttestation<T::AccountId>>,
    /// Proposals scheduled for enactment at a given block; nothing stands for none.
    pub pending_enactments: Map<T::BlockNumber, Seq<ProposalId>>,
    /// The books of the token.
    pub currency: T::Currency,
    /// The events that the runtime has been told of, in order.
    pub events: Seq<Event<T>>,
}

/// How a request ends: with success in the state that it leads to, or with its error in the state
/// in which it was made.
pub open spec fn settled<T: Config, E>(
    before: State<T>,
    outcome: Result<State<T>, E>,
    after: State<T>,
    answer: Result<(), E>,
) -> bool {
    match outcome {
        Ok(s) => answer is Ok && after == s,
        Err(e) => answer == Err::<(), E>(e) && after == before,
    }
}

impl<T: Config> State<T> {
    /// The state before any project, on the given books and after the given events.
    pub open spec fn empty(currency: T::Currency, events: Seq<Event<T>>) -> State<T> {
        State {
            next_project_id: 0,
            next_proposal_id: 0,
            projects: Map::empty(),
            stakeholders: Map::empty(),
            role_stake: Map::empty(),
            proposals: Map::empty(),
            votes: Map::empty(),
            tallies: Map::empty(),
            release_count: Map::empty(),
            release_log: Map::empty(),
            counter_attestations: Map::empty(),
            pending_enactments: Map::empty(),
            currency,
            events,
        }
    }

    /// The total stake of a role in a project.
    pub open spec fn stake_of_role(self, project_id: ProjectId, role: Role) -> T::Balance {
        if self.role_stake.contains_key((project_id, role)) {
            self.role_stake[(project_id, role)]
        } else {
            T::Balance::of(0)
        }
    }

    /// The tally of a role on a proposal.
    pub open spec fn tally(self, proposal_id: ProposalId, role: Role) -> RoleTally<T::Balance> {
        if self.tallies.contains_key((proposal_id, role)) {
            self.tallies[(proposal_id, role)]
        } else {
            RoleTally::none()
        }
    }

    /// What an account voted on a proposal, if it did.
    pub open spec fn vote_of(self, proposal_id: ProposalId, who: T::AccountId) -> Option<bool> {
        if self.votes.contains_key((proposal_id, who)) {
            Some(self.votes[(proposal_id, who)])
        } else {
            None
        }
    }

    /// The number of entries in a project's release log.
    pub open spec fn releases(self, project_id: ProjectId) -> u32 {
        if self.release_count.contains_key(project_id) {
            self.release_count[project_id]
        } else {
            0
        }
    }

    /// The proposals scheduled for a block, in order.
    pub open spec fn scheduled_at(self, block: T::BlockNumber) -> Seq<ProposalId> {
        if self.pending_enactments.contains_key(block) {
            self.pending_enactments[block]
        } else {
            Seq::empty()
        }
    }

    /// Whether one required role meets its quorum on a proposal.
    pub open spec fn meets_quorum(
        self,
        project_id: ProjectId,
        required: RoleQuorum,
        proposal_id: ProposalId,
    ) -> bool {
        reaches_quorum(
            self.tally(proposal_id, required.role).ayes.value(),
            self.stake_of_role(project_id, required.role).value(),
            required.quorum@,
        )
    }

    /// Whether every required role meets its quorum on a proposal.
    pub open spec fn meets_quorums(
        self,
        project_id: ProjectId,
        project: ProjectInfo<T::Balance, T::BlockNumber>,
        proposal_id: ProposalId,
    ) -> bool {
        let required = role_quorums(project.policy.required_roles);
        forall|i: int|
            0 <= i < required.len() ==> self.meets_quorum(
                project_id,
                #[trigger] required[i],
                proposal_id,
            )
    }

    /// The state with a proposal's status changed.
    pub open spec fn with_status(
        self,
        proposal_id: ProposalId,
        status: ProposalStatus<T::BlockNumber>,
    ) -> State<T> {
        State {
            proposals: self.proposals.insert(
                proposal_id,
                Proposal { status, ..self.proposals[proposal_id] },
            ),
            ..self
        }
    }

    /// The state with a proposal taken off the schedule of a block.
    pub open spec fn unscheduled(
        self,
        proposal_id: ProposalId,
        block: T::BlockNumber,
    ) -> State<T> {
        State {
            pending_enactments: self.pending_enactments.insert(
                block,
                without(self.scheduled_at(block), proposal_id),
            ),
            ..self
        }
    }

    /// The state with one more event.
    pub open spec fn with_event(self, event: Event<T>) -> State<T> {
        State { events: self.events.push(event), ..self }
    }

    // ---------------------------------------------------------------------------------------
    // Project genesis
    // ---------------------------------------------------------------------------------------
    /// The state with one more stakeholder, whose stake is already on hold.
    pub open spec fn with_stakeholder(
        self,
        project_id: ProjectId,
        init: StakeholderInit<T::AccountId, T::Balance>,
    ) -> State<T> {
        State {
            stakeholders: self.stakeholders.insert(
                (project_id, init.account),
                Stakeholder { role: init.role, stake: init.stake },
            ),
            role_stake: self.role_stake.insert(
                (project_id, init.role),
                plus(self.stake_of_role(project_id, init.role), init.stake),
            ),
            ..self
        }.with_event(
            Event::StakeholderRegistered {
                project_id,
                account: init.account,
                role: init.role,
                stake: init.stake,
            },
        )
    }

    /// What enrolling one stakeholder comes to: its stake is put on hold and it is registered,
    /// unless the account is registered already or cannot cover the stake.
    pub open spec fn enrolling(
        self,
        project_id: ProjectId,
        init: StakeholderInit<T::AccountId, T::Balance>,
    ) -> Result<State<T>, CallError> {
        if self.stakeholders.contains_key((project_id, init.account)) {
            Err(CallError::Module(Error::DuplicateStakeholder))
        } else {
            let (books, answer) = T::hold_outcome(
                self.currency,
                HoldReason::Stake,
                init.account,
                init.stake,
            );
            match answer {
                Ok(_) => Ok(
                    State { currency: books, ..self }.with_stakeholder(project_id, init),
                ),
                Err(e) => Err(CallError::Token(e)),
            }
        }
    }

    /// What enrolling the stakeholders one after the other comes to. The first failure decides.
    pub open spec fn enrolling_all(
        self,
        project_id: ProjectId,
        inits: Seq<StakeholderInit<T::AccountId, T::Balance>>,
    ) -> Result<State<T>, CallError>
        decreases inits.len(),
    {
        if inits.len() == 0 {
            Ok(self)
        } else {
            match self.enrolling_all(project_id, inits.drop_last()) {
                Ok(s) => s.enrolling(project_id, inits.last()),
                Err(e) => Err(e),
            }
        }
    }

    /// Whether every role that a policy requires has stake in a project.
    pub open spec fn required_roles_staked(
        self,
        project_id: ProjectId,
        policy: ReleasePolicy<T::BlockNumber>,
    ) -> bool {
        let required = role_quorums(policy.required_roles);
        forall|i: int|
            0 <= i < required.len() ==> self.stake_of_role(
                project_id,
                (#[trigger] required[i]).role,
            ).value() != 0
    }

    /// The state with a project whose stakeholders are already enrolled.
    pub open spec fn with_project(
        self,
        project_id: ProjectId,
        project: ProjectInfo<T::Balance, T::BlockNumber>,
    ) -> State<T> {
        State {
            projects: self.projects.insert(project_id, project),
            next_project_id: next(project_id),
            ..self
        }.with_event(Event::ProjectCreated { project_id, name: project.name })
    }

    /// What a request for a project genesis comes to.
    pub open spec fn genesis(
        self,
        origin: Origin<T::AccountId>,
        inits: Seq<StakeholderInit<T::AccountId, T::Balance>>,
        project: ProjectInfo<T::Balance, T::BlockNumber>,
    ) -> Result<State<T>, CallError> {
        if !(origin is Root) {
            Err(CallError::BadOrigin)
        } else if role_quorums(project.policy.required_roles).len() == 0 {
            Err(CallError::Module(Error::NoRequiredRoles))
        } else {
            match self.enrolling_all(self.next_project_id, inits) {
                Err(e) => Err(e),
                Ok(s) => if s.required_roles_staked(self.next_project_id, project.policy) {
                    Ok(s.with_project(self.next_project_id, project))
                } else {
                    Err(CallError::Module(Error::RequiredRoleHasNoStake))
                },
            }
        }
    }

    // ---------------------------------------------------------------------------------------
    // Votes
    // ---------------------------------------------------------------------------------------
    /// The state with a vote recorded and counted, before the proposal's status is looked at.
    pub open spec fn with_ballot(
        self,
        proposal_id: ProposalId,
        who: T::AccountId,
        aye: bool,
    ) -> State<T> {
        let voter = self.stakeholders[(self.proposals[proposal_id].project_id, who)];
        State {
            tallies: self.tallies.insert(
                (proposal_id, voter.role),
                revised_tally(
                    self.tally(proposal_id, voter.role),
                    self.vote_of(proposal_id, who),
                    aye,
                    voter.stake,
                ),
            ),
            votes: self.votes.insert((proposal_id, who), aye),
            ..self
        }.with_event(
            Event::Voted { proposal_id, voter: who, role: voter.role, aye, weight: voter.stake },
        )
    }

    /// The state with a proposal approved and its enactment scheduled.
    pub open spec fn approved(
        self,
        proposal_id: ProposalId,
        enact_at: T::BlockNumber,
    ) -> State<T> {
        State {
            pending_enactments: self.pending_enactments.insert(
                enact_at,
                self.scheduled_at(enact_at).push(proposal_id),
            ),
            ..self
        }.with_status(proposal_id, ProposalStatus::Approved { enact_at }).with_event(
            Event::ProposalApproved { proposal_id, enact_at },
        )
    }

    /// The state with a proposal's approval taken back.
    pub open spec fn revoked(
        self,
        proposal_id: ProposalId,
        enact_at: T::BlockNumber,
    ) -> State<T> {
        self.unscheduled(proposal_id, enact_at).with_status(
            proposal_id,
            ProposalStatus::Voting,
        ).with_event(Event::ProposalApprovalRevoked { proposal_id })
    }

    /// What a vote by a stakeholder of the proposal's project comes to: it is counted; a proposal
    /// under vote whose quorums are now met is scheduled, unless the block is full; one that was
    /// scheduled and whose quorums are no longer met is back under vote.
    pub open spec fn voting(
        self,
        proposal_id: ProposalId,
        who: T::AccountId,
        aye: bool,
        now: T::BlockNumber,
    ) -> Result<State<T>, Error> {
        let project_id = self.proposals[proposal_id].project_id;
        let project = self.projects[project_id];
        let counted = self.with_ballot(proposal_id, who, aye);
        let met = counted.meets_quorums(project_id, project, proposal_id);
        match self.proposals[proposal_id].status {
            ProposalStatus::Voting => if met {
                let enact_at = enactment_block(now, project.policy.enactment_delay);
                if counted.scheduled_at(enact_at).len() < ENACTMENTS_PER_BLOCK {
                    Ok(counted.approved(proposal_id, enact_at))
                } else {
                    Err(Error::TooManyEnactments)
                }
            } else {
                Ok(counted)
            },
            ProposalStatus::Approved { enact_at } => if met {
                Ok(counted)
            } else {
                Ok(counted.revoked(proposal_id, enact_at))
            },
            _ => Ok(counted),
        }
    }

    /// Why a vote is refused before it is counted, if it is.
    pub open spec fn vote_refusal(
        self,
        who: T::AccountId,
        proposal_id: ProposalId,
        now: T::BlockNumber,
    ) -> Option<Error> {
        if !self.proposals.contains_key(proposal_id) {
            Some(Error::ProposalNotFound)
        } else {
            let proposal = self.proposals[proposal_id];
            if !(proposal.status is Voting || proposal.status is Approved) {
                Some(Error::ProposalNotVoting)
            } else if proposal.status is Voting && now.value() > proposal.voting_ends.value() {
                Some(Error::VotingPeriodOver)
            } else if !self.projects.contains_key(proposal.project_id) {
                Some(Error::ProjectNotFound)
            } else if !self.stakeholders.contains_key((proposal.project_id, who)) {
                Some(Error::NotStakeholder)
            } else {
                None
            }
        }
    }

    /// What a request to vote comes to.
    pub open spec fn vote(
        self,
        origin: Origin<T::AccountId>,
        proposal_id: ProposalId,
        aye: bool,
        now: T::BlockNumber,
    ) -> Result<State<T>, CallError> {
        match origin {
            Origin::Signed(who) => match self.vote_refusal(who, proposal_id, now) {
                Some(e) => Err(CallError::Module(e)),
                None => match self.voting(proposal_id, who, aye, now) {
                    Ok(s) => Ok(s),
                    Err(e) => Err(CallError::Module(e)),
                },
            },
            _ => Err(CallError::BadOrigin),
        }
    }

    // ---------------------------------------------------------------------------------------
    // Release proposals
    // ---------------------------------------------------------------------------------------
    /// Why a release proposal is refused before its bond is held, if it is. `verified` says
    /// whether the builder's signature verifies.
    pub open spec fn release_refusal(
        self,
        who: T::AccountId,
        project_id: ProjectId,
        builder: T::AccountId,
        verified: bool,
    ) -> Option<Error> {
        if !self.projects.contains_key(project_id) {
            Some(Error::ProjectNotFound)
        } else if !self.stakeholders.contains_key((project_id, who)) {
            Some(Error::NotStakeholder)
        } else if self.stakeholders[(project_id, who)].role != Role::CoreDeveloper {
            Some(Error::NotCoreDeveloper)
        } else if !self.stakeholders.contains_key((project_id, builder)) {
            Some(Error::NotBuildService)
        } else if self.stakeholders[(project_id, builder)].role != Role::BuildService {
            Some(Error::NotBuildService)
        } else if !verified {
            Some(Error::InvalidBuilderSignature)
        } else {
            None
        }
    }

    /// The state after an attempt to hold the bond of a proposal.
    pub open spec fn bonded(self, who: T::AccountId, project_id: ProjectId) -> State<T> {
        let (books, _) = T::hold_outcome(
            self.currency,
            HoldReason::ProposalBond,
            who,
            self.projects[project_id].proposal_bond,
        );
        State { currency: books, ..self }
    }

    /// The state with a new proposal, before the proposer's own vote.
    pub open spec fn with_proposal(
        self,
        who: T::AccountId,
        project_id: ProjectId,
        version: BoundedVec<u8, VersionLimit>,
        attestation: BuildAttestation<T::AccountId>,
        attestation_cid: Hash32,
        now: T::BlockNumber,
    ) -> State<T> {
        let project = self.projects[project_id];
        let proposal_id = self.next_proposal_id;
        let voting_ends = plus(now, project.policy.voting_period);
        State {
            next_proposal_id: next(proposal_id),
            proposals: self.proposals.insert(
                proposal_id,
                Proposal {
                    project_id,
                    proposer: who,
                    version,
                    attestation,
                    attestation_cid,
                    bond: project.proposal_bond,
                    submitted_at: now,
                    voting_ends,
                    status: ProposalStatus::Voting,
                },
            ),
            ..self
        }.with_event(
            Event::ReleaseProposed {
                proposal_id,
                project_id,
                proposer: who,
                version,
                source_commit_hash: attestation.source_commit_hash,
                output_binary_hash: attestation.output_binary_hash,
                attestation_cid,
                voting_ends,
            },
        )
    }

    /// What a release proposal comes to once its bond is held: it is recorded, and the proposer's
    /// submission counts as their aye.
    pub open spec fn proposing(
        self,
        who: T::AccountId,
        project_id: ProjectId,
        version: BoundedVec<u8, VersionLimit>,
        attestation: BuildAttestation<T::AccountId>,
        attestation_cid: Hash32,
        now: T::BlockNumber,
    ) -> Result<State<T>, Error> {
        self.with_proposal(who, project_id, version, attestation, attestation_cid, now).voting(
            self.next_proposal_id,
            who,
            true,
            now,
        )
    }

    /// What a request to propose a release comes to.
    pub open spec fn new_release(
        self,
        origin: Origin<T::AccountId>,
        project_id: ProjectId,
        version: BoundedVec<u8, VersionLimit>,
        attestation: BuildAttestation<T::AccountId>,
        attestation_cid: Hash32,
        builder_signature: T::Signature,
        now: T::BlockNumber,
    ) -> Result<State<T>, CallError> {
        let verified = T::is_signature(
            builder_signature,
            attestation.payload(),
            attestation.builder,
        );
        match origin {
            Origin::Signed(who) => match self.release_refusal(
                who,
                project_id,
                attestation.builder,
                verified,
            ) {
                Some(e) => Err(CallError::Module(e)),
                None => {
                    let (_, answer) = T::hold_outcome(
                        self.currency,
                        HoldReason::ProposalBond,
                        who,
                        self.projects[project_id].proposal_bond,
                    );
                    match answer {
                        Err(e) => Err(CallError::Token(e)),
                        Ok(_) => match self.bonded(who, project_id).proposing(
                            who,
                            project_id,
                            version,
                            attestation,
                            attestation_cid,
                            now,
                        ) {
                            Ok(s) => Ok(s),
                            Err(e) => Err(CallError::Module(e)),
                        },
                    }
                },
            },
            _ => Err(CallError::BadOrigin),
        }
    }

    // ---------------------------------------------------------------------------------------
    // Counter-attestations
    // ---------------------------------------------------------------------------------------
    /// Why a counter-attestation is refused before anything is slashed, if it is.
    pub open spec fn challenge_refusal(
        self,
        who: T::AccountId,
        proposal_id: ProposalId,
        rebuilt_binary_hash: Hash32,
    ) -> Option<Error> {
        if !self.proposals.contains_key(proposal_id) {
            Some(Error::ProposalNotFound)
        } else {
            let proposal = self.proposals[proposal_id];
            let builder = proposal.attestation.builder;
            if !self.projects.contains_key(proposal.project_id) {
                Some(Error::ProjectNotFound)
            } else if !self.stakeholders.contains_key((proposal.project_id, who)) {
                Some(Error::NotStakeholder)
            } else if who == builder {
                Some(Error::BuilderCannotChallenge)
            } else if rebuilt_binary_hash == proposal.attestation.output_binary_hash {
                Some(Error::NoDiscrepancy)
            } else if !(proposal.status is Voting || proposal.status is Approved) {
                Some(Error::ProposalNotChallengeable)
            } else if !self.stakeholders.contains_key((proposal.project_id, builder)) {
                Some(Error::NotBuildService)
            } else {
                None
            }
        }
    }

    /// How much of the builder's stake an accepted counter-attestation asks to burn.
    pub open spec fn slash_due(self, proposal_id: ProposalId) -> T::Balance {
        let proposal = self.proposals[proposal_id];
        let builder = self.stakeholders[(proposal.project_id, proposal.attestation.builder)];
        T::Balance::of(
            share(
                self.projects[proposal.project_id].slashing.sigma_neg@,
                builder.stake.value(),
            ),
        )
    }

    /// Whether a tally counts a vote of a Build Service on a proposal of the project that can still
    /// be enacted.
    pub open spec fn counts_builder(
        self,
        k: (ProposalId, Role),
        project_id: ProjectId,
        builder: T::AccountId,
    ) -> bool {
        &&& k.1 == Role::BuildService
        &&& self.proposals.contains_key(k.0)
        &&& self.proposals[k.0].project_id == project_id
        &&& is_open(self.proposals[k.0].status)
        &&& self.votes.contains_key((k.0, builder))
    }

    /// The tallies once `slashed` is gone from the stake of a Build Service: its votes on open
    /// proposals weigh so much less. The tally of a closed proposal stays as it closed.
    pub open spec fn lightened_tallies(
        self,
        project_id: ProjectId,
        builder: T::AccountId,
        slashed: T::Balance,
    ) -> Map<(ProposalId, Role), RoleTally<T::Balance>> {
        Map::new(
            |k: (ProposalId, Role)| self.tallies.contains_key(k),
            |k: (ProposalId, Role)|
                if self.counts_builder(k, project_id, builder) {
                    lightened_tally(self.tallies[k], self.votes[(k.0, builder)], slashed)
                } else {
                    self.tallies[k]
                },
        )
    }

    /// The state with a proposal rejected by a counter-attestation, where `slashed` is what was
    /// burned of the builder's stake.
    pub open spec fn with_rejection(
        self,
        who: T::AccountId,
        proposal_id: ProposalId,
        rebuilt_binary_hash: Hash32,
        slashed: T::Balance,
    ) -> State<T> {
        let proposal = self.proposals[proposal_id];
        let project_id = proposal.project_id;
        let builder = proposal.attestation.builder;
        let registered = self.stakeholders[(project_id, builder)];
        let remaining = minus(registered.stake, slashed);
        let cancelled = match proposal.status {
            ProposalStatus::Approved { enact_at } => self.unscheduled(proposal_id, enact_at),
            _ => self,
        };
        State {
            stakeholders: self.stakeholders.insert(
                (project_id, builder),
                Stakeholder { stake: remaining, ..registered },
            ),
            role_stake: self.role_stake.insert(
                (project_id, Role::BuildService),
                minus(self.stake_of_role(project_id, Role::BuildService), slashed),
            ),
            tallies: self.lightened_tallies(project_id, builder, slashed),
            counter_attestations: self.counter_attestations.insert(
                proposal_id,
                CounterAttestation {
                    challenger: who,
                    attested_binary_hash: proposal.attestation.output_binary_hash,
                    rebuilt_binary_hash,
                },
            ),
            ..cancelled
        }.with_status(proposal_id, ProposalStatus::Rejected).with_event(
            Event::CounterAttestationAccepted {
                proposal_id,
                challenger: who,
                attested_binary_hash: proposal.attestation.output_binary_hash,
                rebuilt_binary_hash,
            },
        ).with_event(
            Event::BuildServiceSlashed {
                project_id,
                builder,
                amount: slashed,
                remaining_stake: remaining,
            },
        ).with_event(Event::ProposalRejected { proposal_id })
    }

    /// What a request to accept a counter-attestation comes to.
    pub open spec fn challenge(
        self,
        origin: Origin<T::AccountId>,
        proposal_id: ProposalId,
        rebuilt_binary_hash: Hash32,
    ) -> Result<State<T>, CallError> {
        match origin {
            Origin::Signed(who) => match self.challenge_refusal(
                who,
                proposal_id,
                rebuilt_binary_hash,
            ) {
                Some(e) => Err(CallError::Module(e)),
                None => {
                    let proposal = self.proposals[proposal_id];
                    let (burned, burn_answer) = T::burn_held_outcome(
                        self.currency,
                        HoldReason::Stake,
                        proposal.attestation.builder,
                        self.slash_due(proposal_id),
                    );
                    let (books, release_answer) = T::release_outcome(
                        burned,
                        HoldReason::ProposalBond,
                        proposal.proposer,
                        proposal.bond,
                    );
                    match burn_answer {
                        Err(e) => Err(CallError::Token(e)),
                        Ok(slashed) => match release_answer {
                            Err(e) => Err(CallError::Token(e)),
                            Ok(_) => Ok(
                                (State { currency: books, ..self }).with_rejection(
                                    who,
                                    proposal_id,
                                    rebuilt_binary_hash,
                                    slashed,
                                ),
                            ),
                        },
                    }
                },
            },
            _ => Err(CallError::BadOrigin),
        }
    }

    // ---------------------------------------------------------------------------------------
    // Expiry
    // ---------------------------------------------------------------------------------------
    /// Why a proposal cannot be closed as expired, if it cannot.
    pub open spec fn expiry_refusal(
        self,
        proposal_id: ProposalId,
        now: T::BlockNumber,
    ) -> Option<Error> {
        if !self.proposals.contains_key(proposal_id) {
            Some(Error::ProposalNotFound)
        } else if !(self.proposals[proposal_id].status is Voting) {
            Some(Error::ProposalNotVoting)
        } else if now.value() <= self.proposals[proposal_id].voting_ends.value() {
            Some(Error::VotingPeriodNotOver)
        } else {
            None
        }
    }

    /// The state with a proposal expired.
    pub open spec fn with_expiry(self, proposal_id: ProposalId) -> State<T> {
        self.with_status(proposal_id, ProposalStatus::Expired).with_event(
            Event::ProposalExpired { proposal_id },
        )
    }

    /// What a request to close an expired proposal comes to.
    pub open spec fn close_expired(
        self,
        origin: Origin<T::AccountId>,
        proposal_id: ProposalId,
        now: T::BlockNumber,
    ) -> Result<State<T>, CallError> {
        if !(origin is Signed) {
            Err(CallError::BadOrigin)
        } else {
            match self.expiry_refusal(proposal_id, now) {
                Some(e) => Err(CallError::Module(e)),
                None => {
                    let proposal = self.proposals[proposal_id];
                    let (books, answer) = T::release_outcome(
                        self.currency,
                        HoldReason::ProposalBond,
                        proposal.proposer,
                        proposal.bond,
                    );
                    match answer {
                        Err(e) => Err(CallError::Token(e)),
                        Ok(_) => Ok((State { currency: books, ..self }).with_expiry(proposal_id)),
                    }
                },
            }
        }
    }

    // ---------------------------------------------------------------------------------------
    // Enactment
    // ---------------------------------------------------------------------------------------
    /// The entry that a proposal's enactment appends to the release log.
    pub open spec fn release_entry(
        self,
        proposal_id: ProposalId,
        now: T::BlockNumber,
    ) -> ReleaseEntry<T::BlockNumber> {
        let proposal = self.proposals[proposal_id];
        ReleaseEntry {
            proposal_id,
            version: proposal.version,
            source_commit_hash: proposal.attestation.source_commit_hash,
            output_binary_hash: proposal.attestation.output_binary_hash,
            attestation_cid: proposal.attestation_cid,
            enacted_at: now,
        }
    }

    /// The state with a proposal's release in the log and its bond on the way back. The release
    /// of the bond never stands in the way.
    pub open spec fn with_release(
        self,
        proposal_id: ProposalId,
        now: T::BlockNumber,
    ) -> State<T> {
        let proposal = self.proposals[proposal_id];
        let project_id = proposal.project_id;
        let index = self.releases(project_id);
        let (books, _) = T::release_outcome(
            self.currency,
            HoldReason::ProposalBond,
            proposal.proposer,
            proposal.bond,
        );
        State {
            release_log: self.release_log.insert(
                (project_id, index),
                self.release_entry(proposal_id, now),
            ),
            release_count: self.release_count.insert(project_id, next(index)),
            currency: books,
            ..self
        }.with_status(proposal_id, ProposalStatus::Enacted).with_event(
            Event::ReleaseEnacted {
                project_id,
                proposal_id,
                index,
                version: proposal.version,
                output_binary_hash: proposal.attestation.output_binary_hash,
            },
        )
    }

    /// What the enactment of one scheduled proposal comes to. Only an approved proposal is
    /// enacted, and only if the tally that stands now meets the quorums; otherwise it is back
    /// under vote.
    pub open spec fn enacting(self, proposal_id: ProposalId, now: T::BlockNumber) -> State<T> {
        if !self.proposals.contains_key(proposal_id) {
            self
        } else {
            let proposal = self.proposals[proposal_id];
            let project_id = proposal.project_id;
            if !(proposal.status is Approved) || !self.projects.contains_key(project_id) {
                self
            } else if !self.meets_quorums(project_id, self.projects[project_id], proposal_id) {
                self.with_status(proposal_id, ProposalStatus::Voting).with_event(
                    Event::ProposalApprovalRevoked { proposal_id },
                )
            } else {
                self.with_release(proposal_id, now)
            }
        }
    }

    /// What the enactment of scheduled proposals, one after the other, comes to.
    pub open spec fn enacting_all(self, ids: Seq<ProposalId>, now: T::BlockNumber) -> State<T>
        decreases ids.len(),
    {
        if ids.len() == 0 {
            self
        } else {
            self.enacting_all(ids.drop_last(), now).enacting(ids.last(), now)
        }
    }

    /// The state with the schedule of a block taken off.
    pub open spec fn taken(self, now: T::BlockNumber) -> State<T> {
        State { pending_enactments: self.pending_enactments.remove(now), ..self }
    }

    /// What the start of a block comes to: its schedule is taken off and carried out.
    pub open spec fn block_start(self, now: T::BlockNumber) -> State<T> {
        self.taken(now).enacting_all(self.scheduled_at(now), now)
    }
}

/// What can happen to the pallet: a request, or the start of a block.
#[verifier::reject_recursive_types(T)]
pub enum Request<T: Config> {
    ProjectGenesis {
        origin: Origin<T::AccountId>,
        stakeholders: Seq<StakeholderInit<T::AccountId, T::Balance>>,
        project: ProjectInfo<T::Balance, T::BlockNumber>,
    },
    NewRelease {
        origin: Origin<T::AccountId>,
        project_id: ProjectId,
        version: BoundedVec<u8, VersionLimit>,
        attestation: BuildAttestation<T::AccountId>,
        attestation_cid: Hash32,
        builder_signature: T::Signature,
        now: T::BlockNumber,
    },
    Vote {
        origin: Origin<T::AccountId>,
        proposal_id: ProposalId,
        aye: bool,
        now: T::BlockNumber,
    },
    SubmitCounterAttestation {
        origin: Origin<T::AccountId>,
        proposal_id: ProposalId,
        rebuilt_binary_hash: Hash32,
    },
    CloseExpired { origin: Origin<T::AccountId>, proposal_id: ProposalId, now: T::BlockNumber },
    OnInitialize { now: T::BlockNumber },
}

impl<T: Config> State<T> {
    /// What a request comes to.
    pub open spec fn outcome(self, request: Request<T>) -> Result<State<T>, CallError> {
        match request {
            Request::ProjectGenesis { origin, stakeholders, project } => self.genesis(
                origin,
                stakeholders,
                project,
            ),
            Request::NewRelease {
                origin,
                project_id,
                version,
                attestation,
                attestation_cid,
                builder_signature,
                now,
            } => self.new_release(
                origin,
                project_id,
                version,
                attestation,
                attestation_cid,
                builder_signature,
                now,
            ),
            Request::Vote { origin, proposal_id, aye, now } => self.vote(
                origin,
                proposal_id,
                aye,
                now,
            ),
            Request::SubmitCounterAttestation { origin, proposal_id, rebuilt_binary_hash } =>
                self.challenge(origin, proposal_id, rebuilt_binary_hash),
            Request::CloseExpired { origin, proposal_id, now } => self.close_expired(
                origin,
                proposal_id,
                now,
            ),
            Request::OnInitialize { now } => Ok(self.block_start(now)),
        }
    }

    /// The state with the proposal that a request makes, its bond on hold, before the proposer's
    /// own vote.
    pub open spec fn proposed(self, request: Request<T>) -> State<T> {
        match request {
            Request::NewRelease {
                origin,
                project_id,
                version,
                attestation,
                attestation_cid,
                now,
                ..
            } => self.bonded(origin->Signed_0, project_id).with_proposal(
                origin->Signed_0,
                project_id,
                version,
                attestation,
                attestation_cid,
                now,
            ),
            _ => self,
        }
    }

    /// The state after a request. A request that fails leaves the state as it was.
    pub open spec fn step(self, request: Request<T>) -> State<T> {
        match self.outcome(request) {
            Ok(s) => s,
            Err(_) => self,
        }
    }

    /// The state after requests, one after the other.
    pub open spec fn run(self, requests: Seq<Request<T>>) -> State<T>
        decreases requests.len(),
    {
        if requests.len() == 0 {
            self
        } else {
            self.run(requests.drop_last()).step(requests.last())
        }
    }
}

} // verus!
