//! Counter-attestations.
use crate::config::{CallError, Config, HoldReason, Origin};
use crate::model::{settled, State};
use crate::number::Number;
use crate::pallet::Pallet;
use crate::storage::StorageKey;
use crate::types::{
    same_hash, CounterAttestation, Error, Event, Hash32, ProjectId, ProposalId, ProposalStatus,
    Role,
};
use vstd::prelude::*;

verus! {

impl<T: Config> Pallet<T> {
    /// Why a counter-attestation is refused before anything is slashed, if it is.
    pub fn challenge_refusal(
        &self,
        who: &T::AccountId,
        proposal_id: ProposalId,
        rebuilt_binary_hash: &Hash32,
    ) -> (refusal: Option<Error>)
        requires
            self.wf(),
        ensures
            refusal == self@.challenge_refusal(*who, proposal_id, *rebuilt_binary_hash),
    {
        let proposal = match self.proposals.get(&proposal_id) {
            Some(proposal) => proposal,
            None => return Some(Error::ProposalNotFound),
        };
        let project_id = proposal.project_id;
        let builder = &proposal.attestation.builder;
        if !self.projects.contains_key(&project_id) {
            return Some(Error::ProjectNotFound);
        }
        if !self.stakeholders.contains_key(&(project_id, who.duplicate())) {
            return Some(Error::NotStakeholder);
        }
        if who.same(builder) {
            return Some(Error::BuilderCannotChallenge);
        }
        if same_hash(rebuilt_binary_hash, &proposal.attestation.output_binary_hash) {
            return Some(Error::NoDiscrepancy);
        }
        match proposal.status {
            ProposalStatus::Voting => {},
            ProposalStatus::Approved { .. } => {},
            _ => return Some(Error::ProposalNotChallengeable),
        }
        if !self.stakeholders.contains_key(&(project_id, builder.duplicate())) {
            return Some(Error::NotBuildService);
        }
        None
    }

    /// Whether a tally counts a vote of a Build Service on a proposal of the project that can still
    /// be enacted, and which way it voted.
    fn builder_vote(
        &self,
        k: &(ProposalId, Role),
        project_id: ProjectId,
        builder: &T::AccountId,
    ) -> (vote: Option<bool>)
        requires
            self.wf(),
        ensures
            vote is Some <==> self@.counts_builder(*k, project_id, *builder),
            vote matches Some(aye) ==> aye == self@.votes[(k.0, *builder)],
    {
        if k.1 != Role::BuildService {
            return None;
        }
        match self.proposals.get(&k.0) {
            Some(proposal) => {
                if proposal.project_id != project_id {
                    return None;
                }
                match proposal.status {
                    ProposalStatus::Voting => {},
                    ProposalStatus::Approved { .. } => {},
                    _ => return None,
                }
            },
            None => return None,
        }
        match self.votes.get(&(k.0, builder.duplicate())) {
            Some(aye) => Some(*aye),
            None => None,
        }
    }

    /// Takes `slashed` out of every tally that counts a vote of the Build Service on an open
    /// proposal of the project.
    fn lighten_tallies(
        &mut self,
        project_id: ProjectId,
        builder: &T::AccountId,
        slashed: T::Balance,
    )
        requires
            old(self).wf(),
        ensures
            final(self).wf(),
            final(self)@ == (State {
                tallies: old(self)@.lightened_tallies(project_id, *builder, slashed),
                ..old(self)@
            }),
    {
        let ghost before = self@.tallies;
        let ghost after = self@.lightened_tallies(project_id, *builder, slashed);
        let keys = self.tallies.keys();
        let mut i: usize = 0;
        while i < keys.len()
            invariant
                self.wf(),
                i <= keys@.len(),
                keys@.no_duplicates(),
                before == old(self)@.tallies,
                after == old(self)@.lightened_tallies(project_id, *builder, slashed),
                forall|j: int| 0 <= j < keys@.len() ==> before.contains_key(#[trigger] keys@[j]),
                forall|k: (ProposalId, Role)| #[trigger]
                    before.contains_key(k) ==> keys@.contains(k),
                self@ == (State { tallies: self@.tallies, ..old(self)@ }),
                self@.tallies.dom() == before.dom(),
                forall|j: int|
                    0 <= j < i ==> self@.tallies[#[trigger] keys@[j]] == after[keys@[j]],
                forall|j: int|
                    i <= j < keys@.len() ==> self@.tallies[#[trigger] keys@[j]] == before[keys@[j]],
            decreases keys@.len() - i,
        {
            let key = keys[i];
            let ghost so_far = self@;
            match self.builder_vote(&key, project_id, builder) {
                Some(aye) => {
                    match self.tallies.take(&key) {
                        Some(tally) => {
                            let mut tally = tally;
                            if aye {
                                tally.ayes = tally.ayes.saturating_sub(slashed);
                            } else {
                                tally.nays = tally.nays.saturating_sub(slashed);
                            }
                            self.tallies.insert(key, tally);
                        },
                        None => {},
                    }
                    proof {
                        assert(self@ =~= (State { tallies: self@.tallies, ..old(self)@ }));
                        assert(self@.tallies.dom() =~= before.dom());
                    }
                },
                None => {},
            }
            proof {
                assert forall|j: int| 0 <= j < keys@.len() && j != i implies self@.tallies[
                #[trigger] keys@[j]] == so_far.tallies[keys@[j]] by {
                    assert(keys@[j] != keys@[i as int]);
                }
            }
            i = i + 1;
        }
        proof {
            assert forall|k: (ProposalId, Role)| before.contains_key(k) implies self@.tallies[k]
                == after[k] by {
                let j = choose|j: int| 0 <= j < keys@.len() && keys@[j] == k;
                assert(self@.tallies[keys@[j]] == after[keys@[j]]);
            }
            assert(self@.tallies =~= after);
        }
    }

    /// Records an accepted counter-attestation, where `slashed` is what was burned of the
    /// builder's stake: the builder's stake, that of its role and its votes on open proposals
    /// shrink by it, and the proposal is rejected.
    pub fn record_rejection(
        &mut self,
        who: &T::AccountId,
        proposal_id: ProposalId,
        rebuilt_binary_hash: Hash32,
        slashed: T::Balance,
    )
        requires
            old(self).wf(),
            old(self)@.challenge_refusal(*who, proposal_id, rebuilt_binary_hash) is None,
        ensures
            final(self).wf(),
            final(self)@ == old(self)@.with_rejection(
                *who,
                proposal_id,
                rebuilt_binary_hash,
                slashed,
            ),
    {
        let (project_id, builder, attested_binary_hash, status) = match self.proposals.get(
            &proposal_id,
        ) {
            Some(proposal) => (
                proposal.project_id,
                proposal.attestation.builder.duplicate(),
                proposal.attestation.output_binary_hash,
                proposal.status,
            ),
            None => return,
        };
        match status {
            ProposalStatus::Approved { enact_at } => self.unschedule(proposal_id, enact_at),
            _ => {},
        }
        let mut registered = match self.stakeholders.take(&(project_id, builder.duplicate())) {
            Some(registered) => registered,
            None => return,
        };
        registered.stake = registered.stake.saturating_sub(slashed);
        let remaining_stake = registered.stake;
        self.stakeholders.insert((project_id, builder.duplicate()), registered);
        let role_total = self.stake_of_role(project_id, Role::BuildService).saturating_sub(slashed);
        self.role_stake.insert((project_id, Role::BuildService), role_total);
        self.lighten_tallies(project_id, &builder, slashed);
        self.set_status(proposal_id, ProposalStatus::Rejected);
        self.counter_attestations.insert(
            proposal_id,
            CounterAttestation {
                challenger: who.duplicate(),
                attested_binary_hash,
                rebuilt_binary_hash,
            },
        );
        self.deposit_event(
            Event::CounterAttestationAccepted {
                proposal_id,
                challenger: who.duplicate(),
                attested_binary_hash,
                rebuilt_binary_hash,
            },
        );
        self.deposit_event(
            Event::BuildServiceSlashed { project_id, builder, amount: slashed, remaining_stake },
        );
        self.deposit_event(Event::ProposalRejected { proposal_id });
        proof {
            assert(self@ =~= old(self)@.with_rejection(
                *who,
                proposal_id,
                rebuilt_binary_hash,
                slashed,
            ));
        }
    }

    /// Report an independent reproducible rebuild whose output hash differs from the attested
    /// `output_binary_hash`. The discrepancy is self-evident; the Build Service is slashed by
    /// `sigma_neg` of its stake and the proposal is rejected (bond returned to proposer). Its votes
    /// on open proposals weigh so much less from then on.
    pub fn submit_counter_attestation(
        &mut self,
        origin: Origin<T::AccountId>,
        proposal_id: ProposalId,
        rebuilt_binary_hash: Hash32,
    ) -> (answer: Result<(), CallError>)
        requires
            old(self).wf(),
        ensures
            final(self).wf(),
            settled(
                old(self)@,
                old(self)@.challenge(origin, proposal_id, rebuilt_binary_hash),
                final(self)@,
                answer,
            ),
    {
        let who = match origin {
            Origin::Signed(who) => who,
            _ => return Err(CallError::BadOrigin),
        };
        match self.challenge_refusal(&who, proposal_id, &rebuilt_binary_hash) {
            Some(e) => return Err(CallError::Module(e)),
            None => {},
        }
        let (project_id, builder, proposer, bond) = match self.proposals.get(&proposal_id) {
            Some(proposal) => (
                proposal.project_id,
                proposal.attestation.builder.duplicate(),
                proposal.proposer.duplicate(),
                proposal.bond,
            ),
            None => return Err(CallError::Module(Error::ProposalNotFound)),
        };
        let sigma_neg = match self.projects.get(&project_id) {
            Some(project) => project.slashing.sigma_neg,
            None => return Err(CallError::Module(Error::ProjectNotFound)),
        };
        let stake = match self.stakeholders.get(&(project_id, builder.duplicate())) {
            Some(registered) => registered.stake,
            None => return Err(CallError::Module(Error::NotBuildService)),
        };

        // Negligence slash of the Build Service.
        let to_slash = sigma_neg.mul_floor(stake);
        let saved = T::snapshot(&self.currency);
        let slashed = match T::burn_held(
            &mut self.currency,
            HoldReason::Stake,
            &builder,
            to_slash,
        ) {
            Ok(slashed) => slashed,
            Err(e) => {
                self.currency = saved;
                proof {
                    assert(self@ =~= old(self)@);
                }
                return Err(CallError::Token(e));
            },
        };

        // Reject the proposal and return the good-faith proposer's bond.
        match T::release(&mut self.currency, HoldReason::ProposalBond, &proposer, bond) {
            Ok(_) => {},
            Err(e) => {
                self.currency = saved;
                proof {
                    assert(self@ =~= old(self)@);
                }
                return Err(CallError::Token(e));
            },
        }
        proof {
            assert(self@ =~= (State { currency: self.currency, ..old(self)@ }));
        }
        self.record_rejection(&who, proposal_id, rebuilt_binary_hash, slashed);
        Ok(())
    }
}

} // verus!
