//! Release proposals.
use crate::bounded::{duplicate_bytes, VersionLimit};
use crate::config::{CallError, Config, HoldReason, Origin};
use crate::model::{settled, State};
use crate::number::Number;
use crate::pallet::Pallet;
use crate::storage::StorageKey;
use crate::types::{
    BuildAttestation, Error, Event, Hash32, ProjectId, Proposal, ProposalStatus, Role,
};
use frame_support::BoundedVec;
use vstd::prelude::*;

verus! {

impl<T: Config> Pallet<T> {
    /// Why a release proposal is refused before its bond is held, if it is. `verified` says
    /// whether the builder's signature verifies.
    pub fn release_refusal(
        &self,
        who: &T::AccountId,
        project_id: ProjectId,
        builder: &T::AccountId,
        verified: bool,
    ) -> (refusal: Option<Error>)
        requires
            self.wf(),
        ensures
            refusal == self@.release_refusal(*who, project_id, *builder, verified),
    {
        if !self.projects.contains_key(&project_id) {
            return Some(Error::ProjectNotFound);
        }
        match self.stakeholders.get(&(project_id, who.duplicate())) {
            Some(proposer) => {
                if proposer.role != Role::CoreDeveloper {
                    return Some(Error::NotCoreDeveloper);
                }
            },
            None => return Some(Error::NotStakeholder),
        }
        match self.stakeholders.get(&(project_id, builder.duplicate())) {
            Some(builder) => {
                if builder.role != Role::BuildService {
                    return Some(Error::NotBuildService);
                }
            },
            None => return Some(Error::NotBuildService),
        }
        if !verified {
            return Some(Error::InvalidBuilderSignature);
        }
        None
    }

    /// Records a release proposal whose bond is held, with the proposer's aye. Where that aye
    /// meets the quorums and the block of the enactment is full, nothing is recorded.
    pub fn record_release(
        &mut self,
        who: &T::AccountId,
        project_id: ProjectId,
        version: BoundedVec<u8, VersionLimit>,
        attestation: BuildAttestation<T::AccountId>,
        attestation_cid: Hash32,
        now: T::BlockNumber,
    ) -> (answer: Result<(), Error>)
        requires
            old(self).wf(),
            old(self)@.projects.contains_key(project_id),
            old(self)@.stakeholders.contains_key((project_id, *who)),
        ensures
            final(self).wf(),
            settled(
                old(self)@,
                old(self)@.proposing(
                    *who,
                    project_id,
                    version,
                    attestation,
                    attestation_cid,
                    now,
                ),
                final(self)@,
                answer,
            ),
    {
        let (bond, voting_period) = match self.projects.get(&project_id) {
            Some(project) => (project.proposal_bond, project.policy.voting_period),
            None => return Err(Error::ProjectNotFound),
        };
        let voting_ends = now.saturating_add(voting_period);
        let proposal_id = self.next_proposal_id;
        self.next_proposal_id = proposal_id.saturating_add(1);

        let event = Event::ReleaseProposed {
            proposal_id,
            project_id,
            proposer: who.duplicate(),
            version: duplicate_bytes(&version),
            source_commit_hash: attestation.source_commit_hash,
            output_binary_hash: attestation.output_binary_hash,
            attestation_cid,
            voting_ends,
        };
        let displaced = self.proposals.take(&proposal_id);
        self.proposals.insert(
            proposal_id,
            Proposal {
                project_id,
                proposer: who.duplicate(),
                version,
                attestation,
                attestation_cid,
                bond,
                submitted_at: now,
                voting_ends,
                status: ProposalStatus::Voting,
            },
        );
        let told = T::log_snapshot(&self.event_log);
        self.deposit_event(event);
        proof {
            assert(self@ =~= old(self)@.with_proposal(
                *who,
                project_id,
                version,
                attestation,
                attestation_cid,
                now,
            ));
        }

        // The proposer's submission counts as their aye.
        match self.do_vote(proposal_id, who, true, now) {
            Ok(_) => Ok(()),
            Err(e) => {
                self.next_proposal_id = proposal_id;
                self.proposals.restore(proposal_id, displaced);
                self.event_log = told;
                proof {
                    assert(self@ =~= old(self)@);
                }
                Err(e)
            },
        }
    }

    /// `NewRelease`: a Core Developer proposes a release. The attestation must be signed by a
    /// registered Build Service of the project. A proposal bond is auto-held from the proposer,
    /// who is also recorded as an aye vote.
    pub fn new_release(
        &mut self,
        origin: Origin<T::AccountId>,
        project_id: ProjectId,
        version: BoundedVec<u8, VersionLimit>,
        attestation: BuildAttestation<T::AccountId>,
        attestation_cid: Hash32,
        builder_signature: T::Signature,
        now: T::BlockNumber,
    ) -> (answer: Result<(), CallError>)
        requires
            old(self).wf(),
        ensures
            final(self).wf(),
            settled(
                old(self)@,
                old(self)@.new_release(
                    origin,
                    project_id,
                    version,
                    attestation,
                    attestation_cid,
                    builder_signature,
                    now,
                ),
                final(self)@,
                answer,
            ),
    {
        let who = match origin {
            Origin::Signed(who) => who,
            _ => return Err(CallError::BadOrigin),
        };
        match self.release_refusal(&who, project_id, &attestation.builder, true) {
            Some(e) => return Err(CallError::Module(e)),
            None => {},
        }
        let payload = attestation.signing_payload();
        if !T::verify(&builder_signature, &payload, &attestation.builder) {
            return Err(CallError::Module(Error::InvalidBuilderSignature));
        }
        let bond = match self.projects.get(&project_id) {
            Some(project) => project.proposal_bond,
            None => return Err(CallError::Module(Error::ProjectNotFound)),
        };

        let saved = T::snapshot(&self.currency);
        match T::hold(&mut self.currency, HoldReason::ProposalBond, &who, bond) {
            Ok(_) => {},
            Err(e) => {
                self.currency = saved;
                proof {
                    assert(self@ =~= old(self)@);
                }
                return Err(CallError::Token(e));
            },
        }
        let ghost bonded = State { currency: self.currency, ..old(self)@ };
        proof {
            assert(self@ =~= bonded);
        }
        match self.record_release(&who, project_id, version, attestation, attestation_cid, now) {
            Ok(_) => Ok(()),
            Err(e) => {
                self.currency = saved;
                proof {
                    assert(self@ =~= old(self)@);
                }
                Err(CallError::Module(e))
            },
        }
    }
}

} // verus!
