//! What a vote does.
use crate::config::{CallError, Config, Origin};
use crate::laws::meaning::readings::{
    accepted_after, is_due_block, law_due_blocks, law_numbers_saturate,
    law_others_keep_their_order, law_quorums_are_the_rule_of_acceptance,
    law_records_read_as_they_stand, listed, stake_behind, stake_behind_after, stake_in, taken_out,
};
use crate::model::State;
use crate::number::{minus, Number};
use crate::types::{Error, Event, ProjectId, Proposal, ProposalId, ProposalStatus, Role};
use vstd::prelude::*;

verus! {

/// Whether an account can vote on a proposal at a block: the proposal is open for votes, or is
/// approved and not enacted yet, and the account is a stakeholder of its project.
pub open spec fn can_vote<T: Config>(
    s: State<T>,
    who: T::AccountId,
    id: ProposalId,
    now: T::BlockNumber,
) -> bool {
    let proposal = s.proposals[id];
    &&& s.proposals.contains_key(id)
    &&& match proposal.status {
        ProposalStatus::Voting => now.value() <= proposal.voting_ends.value(),
        ProposalStatus::Approved { .. } => true,
        _ => false,
    }
    &&& s.projects.contains_key(proposal.project_id)
    &&& s.stakeholders.contains_key((proposal.project_id, who))
}

/// Whether a vote would approve a proposal for a block that has no place left for it.
pub open spec fn finds_no_place<T: Config>(
    s: State<T>,
    id: ProposalId,
    who: T::AccountId,
    aye: bool,
    enact_at: T::BlockNumber,
) -> bool {
    let p = s.proposals[id].project_id;
    &&& s.proposals[id].status is Voting
    &&& accepted_after(s, p, s.projects[p], id, who, aye)
    &&& listed(s, enact_at).len() >= 32
}

/// Where a vote leaves a proposal: `met` says whether the rule of acceptance is true after it.
pub open spec fn status_after<N>(
    before: ProposalStatus<N>,
    met: bool,
    enact_at: N,
) -> ProposalStatus<N> {
    match before {
        ProposalStatus::Voting => if met {
            ProposalStatus::Approved { enact_at }
        } else {
            ProposalStatus::Voting
        },
        ProposalStatus::Approved { .. } => if met {
            before
        } else {
            ProposalStatus::Voting
        },
        _ => before,
    }
}

/// Whether a vote of an account of project `p` is what was recorded between two states: the answer
/// is, and the stake behind either answer is moved; no other vote or tally is touched.
pub open spec fn vote_counted<T: Config>(
    s: State<T>,
    t: State<T>,
    p: ProjectId,
    id: ProposalId,
    who: T::AccountId,
    aye: bool,
) -> bool {
    &&& t.votes == s.votes.insert((id, who), aye)
    &&& t.tallies.contains_key((id, s.stakeholders[(p, who)].role))
    &&& forall|r: Role, side: bool| #[trigger]
        stake_behind(t, id, r, side) == stake_behind_after(s, p, id, who, aye, r, side)
    &&& forall|k: (ProposalId, Role)|
        k != (id, s.stakeholders[(p, who)].role) ==> (#[trigger] t.tallies.contains_key(k)
            == s.tallies.contains_key(k)) && (s.tallies.contains_key(k) ==> t.tallies[k]
            == s.tallies[k])
}

/// Whether the schedules followed a proposal from one status to another: one that becomes approved
/// is last on the list of its block, one that no longer is is off it, and no other list changes.
pub open spec fn schedule_followed<T: Config>(
    s: State<T>,
    t: State<T>,
    id: ProposalId,
    before: ProposalStatus<T::BlockNumber>,
    after: ProposalStatus<T::BlockNumber>,
) -> bool {
    match (before, after) {
        (ProposalStatus::Voting, ProposalStatus::Approved { enact_at }) => {
            &&& listed(t, enact_at) == listed(s, enact_at).push(id)
            &&& t.pending_enactments.remove(enact_at) == s.pending_enactments.remove(enact_at)
        },
        (ProposalStatus::Approved { enact_at }, ProposalStatus::Voting) => {
            &&& taken_out(listed(s, enact_at), id, listed(t, enact_at))
            &&& t.pending_enactments.remove(enact_at) == s.pending_enactments.remove(enact_at)
        },
        _ => t.pending_enactments == s.pending_enactments,
    }
}

/// The events of a vote: the vote with its role and weight, and what became of the approval.
pub open spec fn vote_events<T: Config>(
    events: Seq<Event<T>>,
    id: ProposalId,
    who: T::AccountId,
    aye: bool,
    role: Role,
    weight: T::Balance,
    before: ProposalStatus<T::BlockNumber>,
    after: ProposalStatus<T::BlockNumber>,
) -> Seq<Event<T>> {
    let voted = events.push(Event::Voted { proposal_id: id, voter: who, role, aye, weight });
    match (before, after) {
        (ProposalStatus::Voting, ProposalStatus::Approved { enact_at }) => voted.push(
            Event::ProposalApproved { proposal_id: id, enact_at },
        ),
        (ProposalStatus::Approved { .. }, ProposalStatus::Voting) => voted.push(
            Event::ProposalApprovalRevoked { proposal_id: id },
        ),
        _ => voted,
    }
}

/// Whether two states have the same registry: projects, stakeholders and the stakes of the roles.
pub open spec fn same_registry<T: Config>(s: State<T>, t: State<T>) -> bool {
    &&& t.next_project_id == s.next_project_id
    &&& t.projects == s.projects
    &&& t.stakeholders == s.stakeholders
    &&& t.role_stake == s.role_stake
}

/// Whether two states have the same release logs.
pub open spec fn same_log<T: Config>(s: State<T>, t: State<T>) -> bool {
    &&& t.release_count == s.release_count
    &&& t.release_log == s.release_log
}

/// A vote is refused for the first reason there is, and for no other: an unknown proposal, one that
/// is closed, one whose period is over, an unknown project, an account that is no stakeholder.
pub proof fn law_votes_are_refused_for_reasons<T: Config>(
    s: State<T>,
    who: T::AccountId,
    id: ProposalId,
    now: T::BlockNumber,
)
    ensures
        ({
            let refusal = s.vote_refusal(who, id, now);
            let known = s.proposals.contains_key(id);
            let proposal = s.proposals[id];
            let in_time = proposal.status is Approved || now.value()
                <= proposal.voting_ends.value();
            let closed = proposal.status is Enacted || proposal.status is Rejected
                || proposal.status is Expired;
            let project_known = s.projects.contains_key(proposal.project_id);
            &&& refusal is None <==> can_vote(s, who, id, now)
            &&& refusal == Some(Error::ProposalNotFound) <==> !known
            &&& refusal == Some(Error::ProposalNotVoting) <==> known && closed
            &&& refusal == Some(Error::VotingPeriodOver) <==> known && !closed && !in_time
            &&& refusal == Some(Error::ProjectNotFound) <==> known && !closed && in_time
                && !project_known
            &&& refusal == Some(Error::NotStakeholder) <==> known && !closed && in_time
                && project_known && !s.stakeholders.contains_key((proposal.project_id, who))
        }),
{
}

/// What is known of the state in which a vote is counted, before the status is looked at.
proof fn lemma_ballot<T: Config>(s: State<T>, id: ProposalId, who: T::AccountId, aye: bool)
    ensures
        ({
            let p = s.proposals[id].project_id;
            let t = s.with_ballot(id, who, aye);
            &&& vote_counted(s, t, p, id, who, aye)
            &&& t.meets_quorums(p, s.projects[p], id) == accepted_after(
                s,
                p,
                s.projects[p],
                id,
                who,
                aye,
            )
        }),
{
    let p = s.proposals[id].project_id;
    let t = s.with_ballot(id, who, aye);
    let voter = s.stakeholders[(p, who)];
    let before = s.tally(id, voter.role);
    law_records_read_as_they_stand(s, p, id, voter.role, who, T::BlockNumber::of(0));
    law_numbers_saturate(before.ayes, voter.stake);
    law_numbers_saturate(before.nays, voter.stake);
    law_numbers_saturate(minus(before.ayes, voter.stake), voter.stake);
    law_numbers_saturate(minus(before.nays, voter.stake), voter.stake);
    assert forall|r: Role, side: bool| #[trigger]
        stake_behind(t, id, r, side) == stake_behind_after(s, p, id, who, aye, r, side) by {
        assert(t.tallies.contains_key((id, r)) == (r == voter.role || s.tallies.contains_key(
            (id, r),
        )));
    }
    law_quorums_are_the_rule_of_acceptance(t, p, s.projects[p], id);
    assert forall|r: Role| #[trigger] stake_in(t, p, r) == stake_in(s, p, r) by {}
}

/// A vote that can be cast succeeds, except where it would approve the proposal and the block has
/// no place left.
pub proof fn law_castable_votes_succeed<T: Config>(
    s: State<T>,
    id: ProposalId,
    who: T::AccountId,
    aye: bool,
    now: T::BlockNumber,
    enact_at: T::BlockNumber,
)
    requires
        is_due_block(
            enact_at,
            now,
            s.projects[s.proposals[id].project_id].policy.enactment_delay,
        ),
    ensures
        s.voting(id, who, aye, now) is Ok <==> !finds_no_place(s, id, who, aye, enact_at),
        s.voting(id, who, aye, now) is Err ==> s.voting(id, who, aye, now)->Err_0
            == Error::TooManyEnactments,
{
    lemma_ballot(s, id, who, aye);
    law_due_blocks(now, s.projects[s.proposals[id].project_id].policy.enactment_delay);
}

/// A vote is recorded under the account, moves the account's stake and nothing else in the tallies
/// of the proposal, and leaves the proposal where the rule of acceptance puts it. The schedules and
/// the events say so too. Nothing else is touched.
pub proof fn law_votes_are_counted<T: Config>(
    s: State<T>,
    id: ProposalId,
    who: T::AccountId,
    aye: bool,
    now: T::BlockNumber,
    enact_at: T::BlockNumber,
)
    requires
        s.proposals.contains_key(id),
        s.voting(id, who, aye, now) is Ok,
        is_due_block(
            enact_at,
            now,
            s.projects[s.proposals[id].project_id].policy.enactment_delay,
        ),
    ensures
        ({
            let t = s.voting(id, who, aye, now)->Ok_0;
            let p = s.proposals[id].project_id;
            let voter = s.stakeholders[(p, who)];
            let before = s.proposals[id].status;
            let met = accepted_after(s, p, s.projects[p], id, who, aye);
            let after = status_after(before, met, enact_at);
            &&& vote_counted(s, t, p, id, who, aye)
            &&& t.proposals == s.proposals.insert(
                id,
                Proposal { status: after, ..s.proposals[id] },
            )
            &&& schedule_followed(s, t, id, before, after)
            &&& t.events == vote_events(
                s.events,
                id,
                who,
                aye,
                voter.role,
                voter.stake,
                before,
                after,
            )
            &&& same_registry(s, t)
            &&& same_log(s, t)
            &&& t.next_proposal_id == s.next_proposal_id
            &&& t.counter_attestations == s.counter_attestations
            &&& t.currency == s.currency
        }),
{
    let t = s.voting(id, who, aye, now)->Ok_0;
    let p = s.proposals[id].project_id;
    let before = s.proposals[id].status;
    let met = accepted_after(s, p, s.projects[p], id, who, aye);
    let after = status_after(before, met, enact_at);
    let counted = s.with_ballot(id, who, aye);
    lemma_ballot(s, id, who, aye);
    law_due_blocks(now, s.projects[p].policy.enactment_delay);
    assert(t.proposals =~= s.proposals.insert(id, Proposal { status: after, ..s.proposals[id] }));
    assert(t.tallies == counted.tallies && t.votes == counted.votes);
    assert forall|r: Role, side: bool| #[trigger]
        stake_behind(t, id, r, side) == stake_behind_after(s, p, id, who, aye, r, side) by {
        assert(stake_behind(t, id, r, side) == stake_behind(counted, id, r, side));
    }
    match (before, after) {
        (ProposalStatus::Voting, ProposalStatus::Approved { enact_at }) => {
            assert(t.pending_enactments.remove(enact_at) =~= s.pending_enactments.remove(
                enact_at,
            ));
        },
        (ProposalStatus::Approved { enact_at }, ProposalStatus::Voting) => {
            law_others_keep_their_order(listed(s, enact_at), id);
            assert(t.pending_enactments.remove(enact_at) =~= s.pending_enactments.remove(
                enact_at,
            ));
        },
        _ => {},
    }
}

/// A request to vote is answered so: one that no account signed is refused, one that the account
/// cannot cast is refused for the reason that there is, and any other does what the vote does.
pub proof fn law_vote_requests<T: Config>(
    s: State<T>,
    origin: Origin<T::AccountId>,
    id: ProposalId,
    aye: bool,
    now: T::BlockNumber,
)
    ensures
        ({
            let outcome = s.vote(origin, id, aye, now);
            match origin {
                Origin::Signed(who) => {
                    let refusal = s.vote_refusal(who, id, now);
                    let voted = s.voting(id, who, aye, now);
                    &&& can_vote(s, who, id, now) <==> refusal is None
                    &&& refusal matches Some(e) ==> outcome == Err::<State<T>, CallError>(
                        CallError::Module(e),
                    )
                    &&& refusal is None && voted is Ok ==> outcome == Ok::<State<T>, CallError>(
                        voted->Ok_0,
                    )
                    &&& refusal is None && voted is Err ==> outcome == Err::<State<T>, CallError>(
                        CallError::Module(voted->Err_0),
                    )
                },
                _ => outcome == Err::<State<T>, CallError>(CallError::BadOrigin),
            }
        }),
{
}

/// A stakeholder of any role can vote, and vote again, as long as the proposal is not closed: where
/// there is a place left at the block of the enactment, the request succeeds and the answer is on
/// record.
pub proof fn law_stakeholders_of_every_role_vote<T: Config>(
    s: State<T>,
    who: T::AccountId,
    id: ProposalId,
    aye: bool,
    now: T::BlockNumber,
    enact_at: T::BlockNumber,
)
    requires
        can_vote(s, who, id, now),
        is_due_block(
            enact_at,
            now,
            s.projects[s.proposals[id].project_id].policy.enactment_delay,
        ),
        listed(s, enact_at).len() < 32,
    ensures
        s.vote(Origin::Signed(who), id, aye, now) is Ok,
        s.vote(Origin::Signed(who), id, aye, now)->Ok_0.votes[(id, who)] == aye,
{
    law_castable_votes_succeed(s, id, who, aye, now, enact_at);
    law_votes_are_counted(s, id, who, aye, now, enact_at);
}

} // verus!
