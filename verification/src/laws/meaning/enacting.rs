//! What an enactment and the start of a block do.
use crate::config::{Config, HoldReason};
use crate::laws::meaning::readings::{
    accepted, entries_of, law_quorums_are_the_rule_of_acceptance, listed,
};
use crate::laws::meaning::voting::{same_log, same_registry};
use crate::model::State;
use crate::types::{Event, ProposalId};
use vstd::prelude::*;

verus! {

/// Whether a proposal awaits its enactment in a registered project.
pub open spec fn awaits<T: Config>(s: State<T>, id: ProposalId) -> bool {
    &&& s.proposals.contains_key(id)
    &&& s.proposals[id].status is Approved
    &&& s.projects.contains_key(s.proposals[id].project_id)
}

/// Whether a proposal awaits its enactment and the rule of acceptance is true of it.
pub open spec fn is_ripe<T: Config>(s: State<T>, id: ProposalId) -> bool {
    let p = s.proposals[id].project_id;
    awaits(s, id) && accepted(s, p, s.projects[p], id)
}

/// Whether a proposal has the content that it had in another state, and all others are the same.
pub open spec fn only_status_changed<T: Config>(s: State<T>, t: State<T>, id: ProposalId) -> bool {
    let before = s.proposals[id];
    let after = t.proposals[id];
    &&& t.proposals.contains_key(id)
    &&& after.project_id == before.project_id
    &&& after.proposer == before.proposer
    &&& after.version == before.version
    &&& after.attestation == before.attestation
    &&& after.attestation_cid == before.attestation_cid
    &&& after.bond == before.bond
    &&& after.submitted_at == before.submitted_at
    &&& after.voting_ends == before.voting_ends
    &&& t.proposals.remove(id) == s.proposals.remove(id)
}

/// Whether the release of a proposal is what was added to its project's log between two states: one
/// entry, at the index that follows the last, with the version, the hashes and the address of the
/// proposal and the number of the block.
pub open spec fn release_logged<T: Config>(
    s: State<T>,
    t: State<T>,
    id: ProposalId,
    now: T::BlockNumber,
) -> bool {
    let proposal = s.proposals[id];
    let p = proposal.project_id;
    let index = entries_of(s, p);
    let entry = t.release_log[(p, index)];
    &&& t.release_log.contains_key((p, index))
    &&& entry.proposal_id == id
    &&& entry.version == proposal.version
    &&& entry.source_commit_hash == proposal.attestation.source_commit_hash
    &&& entry.output_binary_hash == proposal.attestation.output_binary_hash
    &&& entry.attestation_cid == proposal.attestation_cid
    &&& entry.enacted_at == now
    &&& t.release_log.remove((p, index)) == s.release_log.remove((p, index))
    &&& entries_of(t, p) == if index == u32::MAX {
        index as int
    } else {
        index + 1
    }
    &&& t.release_count.remove(p) == s.release_count.remove(p)
}

/// An enactment carries a proposal out if and only if it awaits its enactment and the rule of
/// acceptance is true of it now. It is then enacted and in the log, and its bond is released. One
/// that awaits its enactment and has lost a quorum is back under vote. Any other is left alone.
pub proof fn law_enactments_carry_out_what_is_accepted<T: Config>(
    s: State<T>,
    id: ProposalId,
    now: T::BlockNumber,
)
    ensures
        ({
            let t = s.enacting(id, now);
            let before = s.proposals[id];
            let p = before.project_id;
            &&& !awaits(s, id) ==> t == s
            &&& awaits(s, id) ==> {
                &&& only_status_changed(s, t, id)
                &&& same_registry(s, t)
                &&& t.next_proposal_id == s.next_proposal_id
                &&& t.votes == s.votes
                &&& t.tallies == s.tallies
                &&& t.counter_attestations == s.counter_attestations
                &&& t.pending_enactments == s.pending_enactments
            }
            &&& awaits(s, id) && !is_ripe(s, id) ==> {
                &&& t.proposals[id].status is Voting
                &&& t.events == s.events.push(Event::ProposalApprovalRevoked { proposal_id: id })
                &&& same_log(s, t)
                &&& t.currency == s.currency
            }
            &&& is_ripe(s, id) ==> {
                &&& t.proposals[id].status is Enacted
                &&& release_logged(s, t, id, now)
                &&& t.events == s.events.push(
                    Event::ReleaseEnacted {
                        project_id: p,
                        proposal_id: id,
                        index: entries_of(s, p),
                        version: before.version,
                        output_binary_hash: before.attestation.output_binary_hash,
                    },
                )
                &&& t.currency == T::release_outcome(
                    s.currency,
                    HoldReason::ProposalBond,
                    before.proposer,
                    before.bond,
                ).0
            }
        }),
{
    let t = s.enacting(id, now);
    let p = s.proposals[id].project_id;
    law_quorums_are_the_rule_of_acceptance(s, p, s.projects[p], id);
    if awaits(s, id) {
        assert(t.proposals.remove(id) =~= s.proposals.remove(id));
        if is_ripe(s, id) {
            let index = entries_of(s, p);
            assert(t.release_log.remove((p, index)) =~= s.release_log.remove((p, index)));
            assert(t.release_count.remove(p) =~= s.release_count.remove(p));
        }
    }
}

/// Enactments are carried out one after the other, in the order of the list.
pub proof fn law_enactments_go_in_order<T: Config>(
    s: State<T>,
    ids: Seq<ProposalId>,
    id: ProposalId,
    now: T::BlockNumber,
)
    ensures
        s.enacting_all(Seq::empty(), now) == s,
        s.enacting_all(ids.push(id), now) == s.enacting_all(ids, now).enacting(id, now),
{
    assert(ids.push(id).drop_last() =~= ids);
}

/// The start of a block takes the list of that block off the schedules and carries it out.
pub proof fn law_block_starts_carry_out_the_list<T: Config>(
    s: State<T>,
    taken: State<T>,
    now: T::BlockNumber,
)
    requires
        taken.pending_enactments == s.pending_enactments.remove(now),
        same_registry(s, taken),
        same_log(s, taken),
        taken.next_proposal_id == s.next_proposal_id,
        taken.proposals == s.proposals,
        taken.votes == s.votes,
        taken.tallies == s.tallies,
        taken.counter_attestations == s.counter_attestations,
        taken.currency == s.currency,
        taken.events == s.events,
    ensures
        s.block_start(now) == taken.enacting_all(listed(s, now), now),
{
    assert(s.taken(now) =~= taken);
}

/// The states through which the enactments of a list go.
proof fn lemma_list_enacted<T: Config>(s: State<T>, ids: Seq<ProposalId>, now: T::BlockNumber)
    ensures
        ({
            let t = s.enacting_all(ids, now);
            &&& same_registry(s, t)
            &&& t.next_proposal_id == s.next_proposal_id
            &&& t.votes == s.votes
            &&& t.tallies == s.tallies
            &&& t.counter_attestations == s.counter_attestations
            &&& t.pending_enactments == s.pending_enactments
            &&& t.proposals.dom() == s.proposals.dom()
            &&& t.events.len() <= s.events.len() + ids.len()
            &&& forall|id: ProposalId| #[trigger]
                s.proposals.contains_key(id) && !ids.contains(id) ==> t.proposals[id]
                    == s.proposals[id]
            &&& forall|id: ProposalId|
                ids.contains(id) && #[trigger] awaits(s, id) ==> !(t.proposals[id].status
                    is Approved)
        }),
    decreases ids.len(),
{
    if ids.len() > 0 {
        let prior = ids.drop_last();
        let last = ids.last();
        let m = s.enacting_all(prior, now);
        let t = s.enacting_all(ids, now);
        lemma_list_enacted(s, prior, now);
        law_enactments_carry_out_what_is_accepted(m, last, now);
        assert(ids[ids.len() - 1] == last);
        assert forall|id: ProposalId| prior.contains(id) implies ids.contains(id) by {
            let i = choose|i: int| 0 <= i < prior.len() && prior[i] == id;
            assert(ids[i] == id);
        }
        assert(t.proposals.dom() =~= s.proposals.dom());
        assert forall|id: ProposalId| #[trigger]
            s.proposals.contains_key(id) && !ids.contains(id) implies t.proposals[id]
            == s.proposals[id] by {
            assert(id != last);
            assert(!prior.contains(id));
        }
        assert forall|id: ProposalId|
            ids.contains(id) && #[trigger] awaits(s, id) implies !(t.proposals[id].status
            is Approved) by {
            if id == last {
                if prior.contains(id) {
                    assert(!(m.proposals[id].status is Approved));
                }
                assert(m.proposals.dom().contains(id));
                assert(m.proposals[id].project_id == s.proposals[id].project_id) by {
                    lemma_project_kept(s, prior, id, now);
                }
            } else {
                let i = choose|i: int| 0 <= i < ids.len() && ids[i] == id;
                assert(prior[i] == id);
                assert(prior.contains(id));
            }
        }
    }
}

/// No enactment moves a proposal to another project.
proof fn lemma_project_kept<T: Config>(
    s: State<T>,
    ids: Seq<ProposalId>,
    id: ProposalId,
    now: T::BlockNumber,
)
    ensures
        s.enacting_all(ids, now).proposals[id].project_id == s.proposals[id].project_id,
    decreases ids.len(),
{
    if ids.len() > 0 {
        lemma_project_kept(s, ids.drop_last(), id, now);
    }
}

/// The start of a block leaves nothing of its list behind: the list is gone, the lists of other
/// blocks are as they were, and no proposal that was on it still awaits an enactment. It leaves
/// the registry, the votes and the tallies alone, and every proposal that is not on the list.
pub proof fn law_block_starts_leave_no_list<T: Config>(s: State<T>, now: T::BlockNumber)
    ensures
        ({
            let t = s.block_start(now);
            &&& t.pending_enactments == s.pending_enactments.remove(now)
            &&& same_registry(s, t)
            &&& t.next_proposal_id == s.next_proposal_id
            &&& t.votes == s.votes
            &&& t.tallies == s.tallies
            &&& t.counter_attestations == s.counter_attestations
            &&& t.proposals.dom() == s.proposals.dom()
            &&& t.events.len() <= s.events.len() + listed(s, now).len()
            &&& forall|id: ProposalId| #[trigger]
                s.proposals.contains_key(id) && !listed(s, now).contains(id) ==> t.proposals[id]
                    == s.proposals[id]
            &&& forall|id: ProposalId|
                listed(s, now).contains(id) && #[trigger] awaits(s, id)
                    ==> !(t.proposals[id].status is Approved)
        }),
{
    let m = State { pending_enactments: s.pending_enactments.remove(now), ..s };
    law_block_starts_carry_out_the_list(s, m, now);
    lemma_list_enacted(m, listed(s, now), now);
    assert forall|id: ProposalId|
        listed(s, now).contains(id) && #[trigger] awaits(s, id) implies !(s.block_start(
        now,
    ).proposals[id].status is Approved) by {
        assert(awaits(m, id));
    }
    assert forall|id: ProposalId| #[trigger]
        s.proposals.contains_key(id) && !listed(s, now).contains(id) implies s.block_start(
        now,
    ).proposals[id] == s.proposals[id] by {
        assert(m.proposals.contains_key(id));
    }
}

} // verus!
