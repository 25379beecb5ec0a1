//! The end of a voting period.
use crate::config::{CallError, Config, HoldReason, Origin};
use crate::model::{settled, State};
use crate::number::Number;
use crate::pallet::Pallet;
use crate::storage::StorageKey;
use crate::types::{Error, Event, ProposalId, ProposalStatus};
use vstd::prelude::*;

verus! {

impl<T: Config> Pallet<T> {
    /// Why a proposal cannot be closed as expired, if it cannot.
    pub fn expiry_refusal(&self, proposal_id: ProposalId, now: T::BlockNumber) -> (refusal: Option<
        Error,
    >)
        requires
            self.wf(),
        ensures
            refusal == self@.expiry_refusal(proposal_id, now),
    {
        let proposal = match self.proposals.get(&proposal_id) {
            Some(proposal) => proposal,
            None => return Some(Error::ProposalNotFound),
        };
        match proposal.status {
            ProposalStatus::Voting => {},
            _ => return Some(Error::ProposalNotVoting),
        }
        if now.at_most(proposal.voting_ends) {
            return Some(Error::VotingPeriodNotOver);
        }
        None
    }

    /// Close a proposal whose voting period elapsed without meeting the quorums, returning the
    /// proposer's bond.
    pub fn close_expired(
        &mut self,
        origin: Origin<T::AccountId>,
        proposal_id: ProposalId,
        now: T::BlockNumber,
    ) -> (answer: Result<(), CallError>)
        requires
            old(self).wf(),
        ensures
            final(self).wf(),
            settled(
                old(self)@,
                old(self)@.close_expired(origin, proposal_id, now),
                final(self)@,
                answer,
            ),
    {
        match origin {
            Origin::Signed(_) => {},
            _ => return Err(CallError::BadOrigin),
        }
        match self.expiry_refusal(proposal_id, now) {
            Some(e) => return Err(CallError::Module(e)),
            None => {},
        }
        let (proposer, bond) = match self.proposals.get(&proposal_id) {
            Some(proposal) => (proposal.proposer.duplicate(), proposal.bond),
            None => return Err(CallError::Module(Error::ProposalNotFound)),
        };
        let saved = T::snapshot(&self.currency);
        match T::release(&mut self.currency, HoldReason::ProposalBond, &proposer, bond) {
            Ok(_) => {},
            Err(e) => {
                self.currency = saved;
                proof {
                    assert(self@ =~= old(self)@);
                }
                return Err(CallError::Token(e));
            },
        }
        let ghost released = State { currency: self.currency, ..old(self)@ };
        proof {
            assert(self@ =~= released);
        }
        self.set_status(proposal_id, ProposalStatus::Expired);
        self.deposit_event(Event::ProposalExpired { proposal_id });
        proof {
            assert(self@ =~= released.with_expiry(proposal_id));
        }
        Ok(())
    }
}

} // verus!
