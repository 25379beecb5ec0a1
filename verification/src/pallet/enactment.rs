//! The start of a block.
use crate::bounded::{duplicate_bytes, into_ids, no_enactments, ENACTMENTS_PER_BLOCK};
use crate::config::{Config, HoldReason};
use crate::model::State;
use crate::number::Number;
use crate::pallet::Pallet;
use crate::types::{Event, ProposalId, ProposalStatus, ReleaseEntry};
use vstd::prelude::*;

verus! {

/// How often a hook reads and writes the storage.
#[derive(Clone, Copy, Debug, PartialEq, Eq)]
pub struct DbAccesses {
    pub reads: u64,
    pub writes: u64,
}

impl<T: Config> Pallet<T> {
    /// Append an approved proposal to the Official Release Log.
    pub fn enact(&mut self, proposal_id: ProposalId, now: T::BlockNumber)
        requires
            old(self).wf(),
        ensures
            final(self).wf(),
            final(self)@ == old(self)@.enacting(proposal_id, now),
    {
        let (project_id, status) = match self.proposals.get(&proposal_id) {
            Some(proposal) => (proposal.project_id, proposal.status),
            None => return,
        };
        match status {
            ProposalStatus::Approved { .. } => {},
            _ => return,
        }
        // The quorums are evaluated against the tally standing at the enactment block.
        let met = match self.projects.get(&project_id) {
            Some(project) => self.meets_quorums(project_id, project, proposal_id),
            None => return,
        };
        if !met {
            self.set_status(proposal_id, ProposalStatus::Voting);
            self.deposit_event(Event::ProposalApprovalRevoked { proposal_id });
            proof {
                assert(self@ =~= old(self)@.enacting(proposal_id, now));
            }
            return;
        }
        let index = self.releases(project_id);
        let mut proposal = match self.proposals.take(&proposal_id) {
            Some(proposal) => proposal,
            None => return,
        };
        self.release_log.insert(
            (project_id, index),
            ReleaseEntry {
                proposal_id,
                version: duplicate_bytes(&proposal.version),
                source_commit_hash: proposal.attestation.source_commit_hash,
                output_binary_hash: proposal.attestation.output_binary_hash,
                attestation_cid: proposal.attestation_cid,
                enacted_at: now,
            },
        );
        self.release_count.insert(project_id, index.saturating_add(1));

        // Bond is returned on successful enactment. Best effort: never block enactment.
        let _ = T::release(
            &mut self.currency,
            HoldReason::ProposalBond,
            &proposal.proposer,
            proposal.bond,
        );
        let version = duplicate_bytes(&proposal.version);
        let output_binary_hash = proposal.attestation.output_binary_hash;
        proposal.status = ProposalStatus::Enacted;
        self.proposals.insert(proposal_id, proposal);
        self.deposit_event(
            Event::ReleaseEnacted { project_id, proposal_id, index, version, output_binary_hash },
        );
        proof {
            assert(self@ =~= old(self)@.with_release(proposal_id, now));
        }
    }

    /// At the start of block `now`, enacts the proposals that are scheduled for it. Answers with
    /// the storage accesses that this took.
    pub fn on_initialize(&mut self, now: T::BlockNumber) -> (accesses: DbAccesses)
        requires
            old(self).wf(),
        ensures
            final(self).wf(),
            final(self)@ == old(self)@.block_start(now),
            old(self)@.scheduled_at(now).len() <= ENACTMENTS_PER_BLOCK,
            accesses.reads == 1 + 3 * old(self)@.scheduled_at(now).len(),
            accesses.writes == 1 + 4 * old(self)@.scheduled_at(now).len(),
    {
        let list = match self.pending_enactments.take(&now) {
            Some(list) => list,
            None => no_enactments(),
        };
        let ids = into_ids(list);
        let ghost taken = State {
            pending_enactments: old(self)@.pending_enactments.remove(now),
            ..old(self)@
        };
        proof {
            assert(self@ =~= taken);
            assert(ids@ =~= old(self)@.scheduled_at(now));
        }
        let mut accesses = DbAccesses { reads: 1, writes: 1 };
        let mut i: usize = 0;
        while i < ids.len()
            invariant
                self.wf(),
                i <= ids@.len(),
                ids@.len() <= ENACTMENTS_PER_BLOCK,
                self@ == taken.enacting_all(ids@.take(i as int), now),
                accesses.reads == 1 + 3 * i,
                accesses.writes == 1 + 4 * i,
            decreases ids@.len() - i,
        {
            self.enact(ids[i], now);
            accesses.reads = accesses.reads + 3;
            accesses.writes = accesses.writes + 4;
            proof {
                assert(ids@.take(i + 1).drop_last() =~= ids@.take(i as int));
            }
            i = i + 1;
        }
        proof {
            assert(ids@.take(i as int) =~= ids@);
        }
        accesses
    }
}

} // verus!
