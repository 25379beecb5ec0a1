//! The tallies.
use crate::config::{Config, HoldReason, Origin};
use crate::laws::effects::{lemma_block_start, lemma_enrolled};
use crate::laws::registry::{
    lemma_role_total_same, lemma_roles_untouched, lemma_slash_bounded,
};
use crate::model::{revised_tally, Request, State};
use crate::number::{lemma_value_of, lemma_values, minus, Number};
use crate::sums::{
    lemma_sum_agree, lemma_sum_injection, lemma_sum_remove, lemma_sum_update, lemma_sum_zero,
};
use crate::types::{Hash32, ProposalId, Role};
use vstd::prelude::*;

verus! {

/// Whether what an account's vote weighs in a role's tally is the same in two states.
spec fn same_voter<T: Config>(
    s: State<T>,
    t: State<T>,
    id: ProposalId,
    r: Role,
    a: T::AccountId,
) -> bool {
    let before = s.stakeholders[(s.proposals[id].project_id, a)];
    let after = t.stakeholders[(t.proposals[id].project_id, a)];
    before == after || (before.role != r && after.role != r)
}

/// A tally stays exact as long as it, the votes and the voters do not change.
proof fn lemma_tally_untouched<T: Config>(s: State<T>, t: State<T>, id: ProposalId, r: Role)
    requires
        s.votes.dom().finite(),
        s.tally_exact(id, r),
        t.tally(id, r) == s.tally(id, r),
        t.votes == s.votes,
        forall|a: T::AccountId| #[trigger]
            s.votes.contains_key((id, a)) ==> same_voter(s, t, id, r, a),
    ensures
        t.tally_exact(id, r),
{
    assert forall|k: (ProposalId, T::AccountId)| #[trigger]
        s.votes.dom().contains(k) implies s.ballot_weight(id, r, true)(k) == t.ballot_weight(
        id,
        r,
        true,
    )(k) && s.ballot_weight(id, r, false)(k) == t.ballot_weight(id, r, false)(k) by {
        if k.0 == id {
            assert(k == (id, k.1));
            assert(s.votes.contains_key((id, k.1)));
        }
    }
    lemma_sum_agree(s.votes.dom(), s.ballot_weight(id, r, true), t.ballot_weight(id, r, true));
    lemma_sum_agree(s.votes.dom(), s.ballot_weight(id, r, false), t.ballot_weight(id, r, false));
}

/// The voters of a role weigh no more than the role.
pub proof fn lemma_ballots_at_most_role<T: Config>(
    s: State<T>,
    id: ProposalId,
    r: Role,
    aye: bool,
)
    requires
        s.votes.dom().finite(),
        s.stakeholders.dom().finite(),
        s.linked(),
    ensures
        s.ballot_total(id, r, aye) <= s.role_total(s.proposals[id].project_id, r),
{
    let p = s.proposals[id].project_id;
    let partner = |k: (ProposalId, T::AccountId)| (p, k.1);
    let weight = s.ballot_weight(id, r, aye);
    assert forall|k: (ProposalId, T::AccountId)| #[trigger]
        s.votes.dom().contains(k) && weight(k) > 0 implies s.stakeholders.dom().contains(partner(k))
        && weight(k) <= s.role_weight(p, r)(partner(k)) by {
        assert(s.votes.contains_key(k));
    }
    lemma_sum_injection(
        s.votes.dom(),
        weight,
        s.stakeholders.dom(),
        s.role_weight(p, r),
        partner,
    );
}

/// A counted vote leaves every exact tally exact.
proof fn lemma_tally_ballot<T: Config>(
    s: State<T>,
    voted: ProposalId,
    who: T::AccountId,
    aye: bool,
    id: ProposalId,
    r: Role,
)
    requires
        s.finite(),
        s.linked(),
        s.roles_totalled(),
        s.proposals.contains_key(voted),
        s.stakeholders.contains_key((s.proposals[voted].project_id, who)),
        s.tally_exact(id, r),
    ensures
        s.with_ballot(voted, who, aye).tally_exact(id, r),
{
    let t = s.with_ballot(voted, who, aye);
    let key = (voted, who);
    let p = s.proposals[voted].project_id;
    let voter = s.stakeholders[(p, who)];
    assert(t.votes.dom() =~= s.votes.dom().insert(key));
    lemma_sum_update(
        s.votes.dom(),
        s.ballot_weight(id, r, true),
        t.ballot_weight(id, r, true),
        key,
    );
    lemma_sum_update(
        s.votes.dom(),
        s.ballot_weight(id, r, false),
        t.ballot_weight(id, r, false),
        key,
    );
    if id == voted && r == voter.role {
        // What stands in the tally is what the voters weigh, so taking out the previous vote
        // does not go below zero, and the new total fits since the role's does.
        assert(t.linked());
        lemma_ballots_at_most_role(t, id, r, true);
        lemma_ballots_at_most_role(t, id, r, false);
        lemma_role_total_same(s, t, p, r);
        assert(s.stake_of_role(p, r).value() == s.role_total(p, r));
        s.stake_of_role(p, r).value_in_range();
        if s.votes.contains_key(key) {
            lemma_sum_remove(s.votes.dom(), s.ballot_weight(id, r, true), key);
            lemma_sum_remove(s.votes.dom(), s.ballot_weight(id, r, false), key);
        }
        let tally = s.tally(id, r);
        let previous = s.vote_of(id, who);
        lemma_values(tally.ayes, voter.stake);
        lemma_values(tally.nays, voter.stake);
        lemma_values(minus(tally.ayes, voter.stake), voter.stake);
        lemma_values(minus(tally.nays, voter.stake), voter.stake);
        assert(t.tally(id, r) == revised_tally(tally, previous, aye, voter.stake));
    }
}

/// A vote on a proposal leaves every exact tally exact, whatever becomes of the proposal.
proof fn lemma_tally_voting<T: Config>(
    s: State<T>,
    voted: ProposalId,
    who: T::AccountId,
    aye: bool,
    now: T::BlockNumber,
    id: ProposalId,
    r: Role,
)
    requires
        s.finite(),
        s.linked(),
        s.roles_totalled(),
        s.proposals.contains_key(voted),
        s.stakeholders.contains_key((s.proposals[voted].project_id, who)),
        s.tally_exact(id, r),
    ensures
        s.voting(voted, who, aye, now) matches Ok(t) ==> t.tally_exact(id, r),
{
    lemma_tally_ballot(s, voted, who, aye, id, r);
    let counted = s.with_ballot(voted, who, aye);
    if s.voting(voted, who, aye, now) is Ok {
        let t = s.voting(voted, who, aye, now)->Ok_0;
        lemma_tally_untouched(counted, t, id, r);
    }
}

/// Re-voting replaces the previous vote: the votes and the tallies come out as if the voter had
/// voted once, the second way.
pub proof fn law_revote_replaces<T: Config>(
    s: State<T>,
    id: ProposalId,
    who: T::AccountId,
    first: bool,
    second: bool,
)
    requires
        s.finite(),
        s.linked(),
        s.roles_totalled(),
        s.proposals.contains_key(id),
        s.stakeholders.contains_key((s.proposals[id].project_id, who)),
        s.tally_exact(id, s.stakeholders[(s.proposals[id].project_id, who)].role),
    ensures
        s.with_ballot(id, who, first).with_ballot(id, who, second).votes == s.with_ballot(
            id,
            who,
            second,
        ).votes,
        s.with_ballot(id, who, first).with_ballot(id, who, second).tallies == s.with_ballot(
            id,
            who,
            second,
        ).tallies,
{
    let r = s.stakeholders[(s.proposals[id].project_id, who)].role;
    let once = s.with_ballot(id, who, second);
    let voted = s.with_ballot(id, who, first);
    let twice = voted.with_ballot(id, who, second);
    lemma_tally_ballot(s, id, who, second, id, r);
    lemma_tally_ballot(s, id, who, first, id, r);
    assert(voted.votes.dom() =~= s.votes.dom().insert((id, who)));
    lemma_roles_untouched(s, voted);
    lemma_tally_ballot(voted, id, who, second, id, r);
    assert(twice.votes =~= once.votes);
    assert(twice.votes.dom() =~= s.votes.dom().insert((id, who)));
    lemma_sum_agree(
        once.votes.dom(),
        once.ballot_weight(id, r, true),
        twice.ballot_weight(id, r, true),
    );
    lemma_sum_agree(
        once.votes.dom(),
        once.ballot_weight(id, r, false),
        twice.ballot_weight(id, r, false),
    );
    once.tally(id, r).ayes.value_in_range();
    once.tally(id, r).nays.value_in_range();
    twice.tally(id, r).ayes.value_in_range();
    twice.tally(id, r).nays.value_in_range();
    assert(twice.tally(id, r) == once.tally(id, r));
    assert(twice.tallies =~= once.tallies);
}

/// A vote touches nothing but its own proposal: its record, its votes, its tallies and its place on
/// the schedule. The registry, the token and the logs stay as they are.
pub proof fn law_votes_touch_one_proposal<T: Config>(
    s: State<T>,
    origin: Origin<T::AccountId>,
    voted: ProposalId,
    aye: bool,
    now: T::BlockNumber,
)
    requires
        s.vote(origin, voted, aye, now) is Ok,
    ensures
        ({
            let t = s.vote(origin, voted, aye, now)->Ok_0;
            &&& t.proposals.remove(voted) == s.proposals.remove(voted)
            &&& forall|id: ProposalId, a: T::AccountId|
                id != voted ==> #[trigger] t.vote_of(id, a) == s.vote_of(id, a)
            &&& forall|id: ProposalId, r: Role|
                id != voted ==> #[trigger] t.tally(id, r) == s.tally(id, r)
            &&& t.vote_of(voted, origin->Signed_0) == Some(aye)
            &&& t == (State {
                proposals: t.proposals,
                votes: t.votes,
                tallies: t.tallies,
                pending_enactments: t.pending_enactments,
                events: t.events,
                ..s
            })
        }),
{
    let t = s.vote(origin, voted, aye, now)->Ok_0;
    assert(t.proposals.remove(voted) =~= s.proposals.remove(voted));
}

/// A vote of a stakeholder counts once, at its stake, in its own role, however often it voted
/// before: where the tallies of a proposal are the sums of the stakes behind either answer, they
/// are so again after the vote, in every role. The vote is recorded and no other vote changes.
pub proof fn law_votes_count_once<T: Config>(
    s: State<T>,
    id: ProposalId,
    who: T::AccountId,
    aye: bool,
    now: T::BlockNumber,
)
    requires
        s.finite(),
        s.linked(),
        s.roles_totalled(),
        s.proposals.contains_key(id),
        s.stakeholders.contains_key((s.proposals[id].project_id, who)),
        forall|r: Role| #[trigger] s.tally_exact(id, r),
    ensures
        s.voting(id, who, aye, now) matches Ok(t) ==> {
            &&& t.votes == s.votes.insert((id, who), aye)
            &&& forall|r: Role| #[trigger] t.tally_exact(id, r)
        },
{
    if s.voting(id, who, aye, now) is Ok {
        let t = s.voting(id, who, aye, now)->Ok_0;
        assert forall|r: Role| #[trigger] t.tally_exact(id, r) by {
            assert(s.tally_exact(id, r));
            lemma_tally_voting(s, id, who, aye, now, id, r);
        }
    }
}

/// A slash leaves every exact tally of a proposal that is not closed exact.
proof fn lemma_tally_slashed<T: Config>(
    s: State<T>,
    origin: Origin<T::AccountId>,
    challenged: ProposalId,
    hash: Hash32,
    id: ProposalId,
    r: Role,
)
    requires
        s.finite(),
        s.linked(),
        s.tally_exact(id, r),
        !s.is_closed(id),
        s.challenge(origin, challenged, hash) is Ok,
    ensures
        s.challenge(origin, challenged, hash)->Ok_0.tally_exact(id, r),
{
    let t = s.challenge(origin, challenged, hash)->Ok_0;
    let p = s.proposals[challenged].project_id;
    let builder = s.proposals[challenged].attestation.builder;
    let (_, burn_answer) = T::burn_held_outcome(
        s.currency,
        HoldReason::Stake,
        builder,
        s.slash_due(challenged),
    );
    let slashed = burn_answer->Ok_0;
    let stake = s.stakeholders[(p, builder)].stake;
    assert(s.proposals.contains_key(challenged));
    lemma_slash_bounded(s, challenged);
    lemma_values(stake, slashed);
    assert(t.votes == s.votes);
    if s.counts_builder((id, r), p, builder) {
        let key = (id, builder);
        assert(s.votes.dom().insert(key) =~= s.votes.dom());
        lemma_sum_update(
            s.votes.dom(),
            s.ballot_weight(id, r, true),
            t.ballot_weight(id, r, true),
            key,
        );
        lemma_sum_update(
            s.votes.dom(),
            s.ballot_weight(id, r, false),
            t.ballot_weight(id, r, false),
            key,
        );
        lemma_sum_remove(s.votes.dom(), s.ballot_weight(id, r, true), key);
        lemma_sum_remove(s.votes.dom(), s.ballot_weight(id, r, false), key);
        lemma_values(s.tally(id, r).ayes, slashed);
        lemma_values(s.tally(id, r).nays, slashed);
    } else {
        assert forall|a: T::AccountId| #[trigger]
            s.votes.contains_key((id, a)) implies same_voter(s, t, id, r, a) by {
            assert(s.proposals.contains_key(id));
        }
        lemma_tally_untouched(s, t, id, r);
    }
}

/// The tally of every role on a proposal stays the sum of the stakes behind either answer through
/// every request, up to and including the one that closes the proposal.
pub proof fn law_tallies_count_stake<T: Config>(
    s: State<T>,
    request: Request<T>,
    id: ProposalId,
    r: Role,
)
    requires
        s.finite(),
        s.identified(),
        s.linked(),
        s.roles_totalled(),
        s.tally_exact(id, r),
        !s.is_closed(id),
    ensures
        s.step(request).tally_exact(id, r),
{
    let t = s.step(request);
    if s.outcome(request) is Ok {
        match request {
            Request::ProjectGenesis { stakeholders, .. } => {
                lemma_enrolled(s, s.next_project_id, stakeholders);
                assert forall|a: T::AccountId| #[trigger]
                    s.votes.contains_key((id, a)) implies same_voter(s, t, id, r, a) by {
                    assert(s.stakeholders.contains_key((s.proposals[id].project_id, a)));
                }
                lemma_tally_untouched(s, t, id, r);
            },
            Request::NewRelease { origin, now, .. } => {
                let who = origin->Signed_0;
                let fresh = s.next_proposal_id;
                let proposed = s.proposed(request);
                assert(proposed.linked());
                lemma_roles_untouched(s, proposed);
                if id == fresh {
                    assert(!s.proposals.contains_key(fresh));
                    assert forall|k: (ProposalId, T::AccountId)| #[trigger]
                        proposed.votes.dom().contains(k) implies k.0 != fresh by {
                        assert(s.votes.contains_key(k));
                    }
                    lemma_sum_zero(proposed.votes.dom(), proposed.ballot_weight(id, r, true));
                    lemma_sum_zero(proposed.votes.dom(), proposed.ballot_weight(id, r, false));
                    assert(!s.tallies.contains_key((fresh, r)));
                    lemma_value_of::<T::Balance>(0);
                    assert(proposed.tally_exact(id, r)) by {
                        lemma_value_of::<T::Balance>(0);
                        proposed.tally(id, r).ayes.value_in_range();
                    }
                } else {
                    lemma_tally_untouched(s, proposed, id, r);
                }
                lemma_tally_voting(proposed, fresh, who, true, now, id, r);
            },
            Request::Vote { origin, proposal_id, aye, now } => {
                lemma_tally_voting(s, proposal_id, origin->Signed_0, aye, now, id, r);
            },
            Request::OnInitialize { now } => {
                lemma_block_start(s, now);
                assert forall|a: T::AccountId| #[trigger]
                    s.votes.contains_key((id, a)) implies same_voter(s, t, id, r, a) by {
                    assert(s.proposals.contains_key(id));
                }
                lemma_tally_untouched(s, t, id, r);
            },
            Request::SubmitCounterAttestation { origin, proposal_id, rebuilt_binary_hash } => {
                lemma_tally_slashed(s, origin, proposal_id, rebuilt_binary_hash, id, r);
            },
            Request::CloseExpired { .. } => {
                lemma_tally_untouched(s, t, id, r);
            },
        }
    }
}

/// The votes and the tallies of a closed proposal are final.
pub proof fn law_closed_tallies_are_final<T: Config>(
    s: State<T>,
    request: Request<T>,
    id: ProposalId,
)
    requires
        s.identified(),
        s.is_closed(id),
    ensures
        forall|r: Role| #[trigger] s.step(request).tally(id, r) == s.tally(id, r),
        forall|a: T::AccountId| #[trigger] s.step(request).vote_of(id, a) == s.vote_of(id, a),
{
    match request {
        Request::ProjectGenesis { stakeholders, .. } => {
            lemma_enrolled(s, s.next_project_id, stakeholders);
        },
        Request::OnInitialize { now } => {
            lemma_block_start(s, now);
        },
        _ => {},
    }
}

} // verus!
