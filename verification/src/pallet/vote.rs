//! Votes on release proposals.
use crate::bounded::{no_enactments, try_push, ENACTMENTS_PER_BLOCK};
use crate::config::{CallError, Config, Origin};
use crate::model::{enactment_block, revised_tally, settled, State};
use crate::number::Number;
use crate::pallet::Pallet;
use crate::storage::StorageKey;
use crate::types::{Error, Event, ProposalId, ProposalStatus, RoleTally, Stakeholder};
use vstd::prelude::*;

verus! {

impl<T: Config> Pallet<T> {
    /// Records a vote of a stakeholder, updates the role tally, and schedules enactment if the
    /// quorums are now met. Where the block of the enactment is full, nothing is recorded.
    pub fn do_vote(
        &mut self,
        proposal_id: ProposalId,
        who: &T::AccountId,
        aye: bool,
        now: T::BlockNumber,
    ) -> (answer: Result<(), Error>)
        requires
            old(self).wf(),
            old(self)@.proposals.contains_key(proposal_id),
            old(self)@.projects.contains_key(old(self)@.proposals[proposal_id].project_id),
            old(self)@.stakeholders.contains_key(
                (old(self)@.proposals[proposal_id].project_id, *who),
            ),
        ensures
            final(self).wf(),
            settled(
                old(self)@,
                old(self)@.voting(proposal_id, *who, aye, now),
                final(self)@,
                answer,
            ),
    {
        let (project_id, status) = match self.proposals.get(&proposal_id) {
            Some(proposal) => (proposal.project_id, proposal.status),
            None => return Err(Error::ProposalNotFound),
        };
        let voter: Stakeholder<T::Balance> = match self.stakeholders.get(
            &(project_id, who.duplicate()),
        ) {
            Some(voter) => *voter,
            None => return Err(Error::NotStakeholder),
        };
        let enactment_delay: T::BlockNumber = match self.projects.get(&project_id) {
            Some(project) => project.policy.enactment_delay,
            None => return Err(Error::ProjectNotFound),
        };

        let told = T::log_snapshot(&self.event_log);
        let previous: Option<bool> = self.votes.take(&(proposal_id, who.duplicate()));
        let counted: Option<RoleTally<T::Balance>> = self.tallies.take(&(proposal_id, voter.role));
        let tally = match counted {
            Some(tally) => tally,
            None => RoleTally::default(),
        };
        let tally = recount(tally, previous, aye, voter.stake);
        self.tallies.insert((proposal_id, voter.role), tally);
        self.votes.insert((proposal_id, who.duplicate()), aye);
        self.deposit_event(
            Event::Voted {
                proposal_id,
                voter: who.duplicate(),
                role: voter.role,
                aye,
                weight: voter.stake,
            },
        );
        let ghost ballot = old(self)@.with_ballot(proposal_id, *who, aye);
        proof {
            assert(self@ =~= ballot);
        }

        let met = match self.projects.get(&project_id) {
            Some(project) => self.meets_quorums(project_id, project, proposal_id),
            None => false,
        };
        match status {
            ProposalStatus::Voting => {
                if met {
                    let enact_at = enactment_start(now, enactment_delay);
                    if !self.schedule(proposal_id, enact_at) {
                        self.tallies.restore((proposal_id, voter.role), counted);
                        self.votes.restore((proposal_id, who.duplicate()), previous);
                        self.event_log = told;
                        proof {
                            assert(self@ =~= old(self)@);
                        }
                        return Err(Error::TooManyEnactments);
                    }
                    self.set_status(proposal_id, ProposalStatus::Approved { enact_at });
                    self.deposit_event(Event::ProposalApproved { proposal_id, enact_at });
                    proof {
                        assert(self@ =~= ballot.approved(proposal_id, enact_at));
                    }
                }
            },
            ProposalStatus::Approved { enact_at } => {
                if !met {
                    // A changed vote broke a quorum before enactment: fall back to voting.
                    self.unschedule(proposal_id, enact_at);
                    self.set_status(proposal_id, ProposalStatus::Voting);
                    self.deposit_event(Event::ProposalApprovalRevoked { proposal_id });
                    proof {
                        assert(self@ =~= ballot.revoked(proposal_id, enact_at));
                    }
                }
            },
            _ => {},
        }
        Ok(())
    }

    /// Puts a proposal on the schedule of a block, unless the schedule is full.
    fn schedule(&mut self, proposal_id: ProposalId, block: T::BlockNumber) -> (done: bool)
        requires
            old(self).wf(),
        ensures
            final(self).wf(),
            done == (old(self)@.scheduled_at(block).len() < ENACTMENTS_PER_BLOCK),
            done ==> final(self)@ == (State {
                pending_enactments: old(self)@.pending_enactments.insert(
                    block,
                    old(self)@.scheduled_at(block).push(proposal_id),
                ),
                ..old(self)@
            }),
            !done ==> final(self)@ == old(self)@,
    {
        match self.pending_enactments.take(&block) {
            Some(list) => {
                let mut list = list;
                let done = try_push(&mut list, proposal_id).is_ok();
                self.pending_enactments.insert(block, list);
                proof {
                    let pushed = old(self)@.scheduled_at(block).push(proposal_id);
                    if done {
                        assert(self@.pending_enactments
                            =~= old(self)@.pending_enactments.insert(block, pushed));
                    } else {
                        assert(self@ =~= old(self)@);
                    }
                }
                done
            },
            None => {
                let mut list = no_enactments();
                let done = try_push(&mut list, proposal_id).is_ok();
                self.pending_enactments.insert(block, list);
                proof {
                    let pushed = old(self)@.scheduled_at(block).push(proposal_id);
                    assert(self@.pending_enactments
                        =~= old(self)@.pending_enactments.insert(block, pushed));
                }
                done
            },
        }
    }

    /// Why a vote is refused before it is counted, if it is.
    pub fn vote_refusal(
        &self,
        who: &T::AccountId,
        proposal_id: ProposalId,
        now: T::BlockNumber,
    ) -> (refusal: Option<Error>)
        requires
            self.wf(),
        ensures
            refusal == self@.vote_refusal(*who, proposal_id, now),
    {
        let proposal = match self.proposals.get(&proposal_id) {
            Some(proposal) => proposal,
            None => return Some(Error::ProposalNotFound),
        };
        match proposal.status {
            ProposalStatus::Voting => {
                if !now.at_most(proposal.voting_ends) {
                    return Some(Error::VotingPeriodOver);
                }
            },
            ProposalStatus::Approved { .. } => {},
            _ => return Some(Error::ProposalNotVoting),
        }
        if !self.projects.contains_key(&proposal.project_id) {
            return Some(Error::ProjectNotFound);
        }
        if !self.stakeholders.contains_key(&(proposal.project_id, who.duplicate())) {
            return Some(Error::NotStakeholder);
        }
        None
    }

    /// `Vote`: a stakeholder votes on a proposal with weight equal to their stake. Re-voting
    /// replaces the previous vote. A proposal under vote takes votes until its voting period is
    /// over, an approved one until enactment, so the tally that is enacted is the one standing at
    /// the enactment block.
    pub fn vote(
        &mut self,
        origin: Origin<T::AccountId>,
        proposal_id: ProposalId,
        aye: bool,
        now: T::BlockNumber,
    ) -> (answer: Result<(), CallError>)
        requires
            old(self).wf(),
        ensures
            final(self).wf(),
            settled(
                old(self)@,
                old(self)@.vote(origin, proposal_id, aye, now),
                final(self)@,
                answer,
            ),
    {
        let who = match origin {
            Origin::Signed(who) => who,
            _ => return Err(CallError::BadOrigin),
        };
        match self.vote_refusal(&who, proposal_id, now) {
            Some(e) => return Err(CallError::Module(e)),
            None => {},
        }
        match self.do_vote(proposal_id, &who, aye, now) {
            Ok(_) => Ok(()),
            Err(e) => Err(CallError::Module(e)),
        }
    }
}

/// The block at whose start a proposal that is approved during block `now` is enacted: so many
/// blocks later, but not before the next one.
pub fn enactment_start<N: Number>(now: N, delay: N) -> (block: N)
    ensures
        block == enactment_block(now, delay),
{
    proof {
        now.value_in_range();
    }
    if delay.to_u128() == 0 {
        now.saturating_add(N::from_u128(1))
    } else {
        now.saturating_add(delay)
    }
}

/// A tally after a vote of weight `stake` that takes the place of the `previous` one.
fn recount<B: Number>(tally: RoleTally<B>, previous: Option<bool>, aye: bool, stake: B) -> (r:
    RoleTally<B>)
    ensures
        r == revised_tally(tally, previous, aye, stake),
{
    let mut tally = tally;
    match previous {
        Some(true) => {
            tally.ayes = tally.ayes.saturating_sub(stake);
        },
        Some(false) => {
            tally.nays = tally.nays.saturating_sub(stake);
        },
        None => {},
    }
    if aye {
        tally.ayes = tally.ayes.saturating_add(stake);
    } else {
        tally.nays = tally.nays.saturating_add(stake);
    }
    tally
}

} // verus!
