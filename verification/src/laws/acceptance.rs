//! The acceptance rule.
use crate::bounded::role_quorums;
use crate::config::Config;
use crate::laws::effects::{lemma_block_start, lemma_enrolled};
use crate::model::{reaches_quorum, Request, State};
use crate::number::Number;
use crate::perbill::ACCURACY;
use crate::sums::{lemma_sum_scaled, sum};
use crate::types::{ProjectId, ProjectInfo, ProposalId, Role, RoleQuorum};
use vstd::prelude::*;

verus! {

/// The acceptance rule: a proposal meets its quorums if and only if, for every required role, the
/// stake of the stakeholders of the role that voted aye, divided by the stake of all stakeholders
/// of the role, is at least the role's quorum, which is counted in billionths. A role without stake
/// meets none.
pub proof fn law_acceptance_rule<T: Config>(
    s: State<T>,
    project: ProjectInfo<T::Balance, T::BlockNumber>,
    proposal_id: ProposalId,
)
    requires
        s.roles_totalled(),
        forall|i: int|
            0 <= i < role_quorums(project.policy.required_roles).len() ==> {
                let rq = #[trigger] role_quorums(project.policy.required_roles)[i];
                s.tally_exact(proposal_id, rq.role)
            },
    ensures
        s.meets_quorums(s.proposals[proposal_id].project_id, project, proposal_id) <==> (forall|
            i: int,
        |
            0 <= i < role_quorums(project.policy.required_roles).len() ==> {
                let rq = #[trigger] role_quorums(project.policy.required_roles)[i];
                let total = s.role_total(s.proposals[proposal_id].project_id, rq.role);
                &&& total > 0
                &&& s.ballot_total(proposal_id, rq.role, true) * 1_000_000_000 >= rq.quorum@ * total
            }),
{
    let p = s.proposals[proposal_id].project_id;
    let required = role_quorums(project.policy.required_roles);
    assert forall|i: int| 0 <= i < required.len() implies s.meets_quorum(
        p,
        #[trigger] required[i],
        proposal_id,
    ) == ({
        let total = s.role_total(p, required[i].role);
        &&& total > 0
        &&& s.ballot_total(proposal_id, required[i].role, true) * 1_000_000_000
            >= required[i].quorum@ * total
    }) by {
        let rq = required[i];
        assert(s.tally_exact(proposal_id, rq.role));
        assert(s.stake_of_role(p, rq.role).value() == s.role_total(p, rq.role));
    }
}

/// A role meets its quorum if and only if it has stake, and the stake of its stakeholders that
/// voted aye is at least so many billionths of the stake of all its stakeholders. This is so of
/// every quorum, up to the whole.
pub proof fn law_role_quorum_is_a_part_of_its_stake<T: Config>(
    s: State<T>,
    required: RoleQuorum,
    proposal_id: ProposalId,
)
    requires
        s.roles_totalled(),
        s.tally_exact(proposal_id, required.role),
    ensures
        ({
            let p = s.proposals[proposal_id].project_id;
            let ayes = s.ballot_total(proposal_id, required.role, true);
            let total = s.role_total(p, required.role);
            &&& total > 0 ==> (s.meets_quorum(p, required, proposal_id) <==> ayes * 1_000_000_000
                >= required.quorum@ * total)
            &&& total == 0 ==> !s.meets_quorum(p, required, proposal_id)
            &&& required.quorum@ <= 1_000_000_000
        }),
{
    let p = s.proposals[proposal_id].project_id;
    required.quorum.lemma_at_most_whole();
    assert(s.stake_of_role(p, required.role).value() == s.role_total(p, required.role));
}

/// The test of a quorum, on any numbers: there is stake, and `ayes * 10^9` is at least
/// `quorum * total`.
pub proof fn law_quorums_are_parts_per_billion(ayes: nat, total: nat, quorum: nat)
    ensures
        total > 0 ==> (reaches_quorum(ayes, total, quorum) <==> ayes * 1_000_000_000 >= quorum
            * total),
        total == 0 ==> !reaches_quorum(ayes, total, quorum),
{
}

/// Nays never contribute to approval, nor take away from it: only the ayes count.
pub proof fn law_nays_do_not_count<T: Config>(
    s: State<T>,
    t: State<T>,
    project_id: ProjectId,
    project: ProjectInfo<T::Balance, T::BlockNumber>,
    proposal_id: ProposalId,
)
    requires
        forall|r: Role| #[trigger]
            t.stake_of_role(project_id, r) == s.stake_of_role(project_id, r),
        forall|r: Role| (#[trigger] t.tally(proposal_id, r)).ayes == s.tally(proposal_id, r).ayes,
    ensures
        t.meets_quorums(project_id, project, proposal_id) == s.meets_quorums(
            project_id,
            project,
            proposal_id,
        ),
{
    let required = role_quorums(project.policy.required_roles);
    assert forall|i: int| 0 <= i < required.len() implies s.meets_quorum(
        project_id,
        #[trigger] required[i],
        proposal_id,
    ) == t.meets_quorum(project_id, required[i], proposal_id) by {
        let r = required[i].role;
        assert(t.stake_of_role(project_id, r) == s.stake_of_role(project_id, r));
        assert(t.tally(proposal_id, r).ayes == s.tally(proposal_id, r).ayes);
    }
}

/// More stake behind a proposal, or less stake in the role, never costs it a quorum that it has
/// reached, as long as the role keeps any stake.
pub proof fn law_quorums_are_monotone(ayes: nat, total: nat, more: nat, less: nat, quorum: nat)
    requires
        reaches_quorum(ayes, total, quorum),
        ayes <= more,
        0 < less <= total,
    ensures
        reaches_quorum(more, less, quorum),
{
    assert(ayes * ACCURACY <= more * ACCURACY) by (nonlinear_arith)
        requires
            ayes <= more,
    ;
    assert(quorum * less <= quorum * total) by (nonlinear_arith)
        requires
            less <= total,
    ;
}

/// One for every stakeholder of a role in a project.
pub open spec fn head<T: Config>(s: State<T>, project_id: ProjectId, role: Role) -> spec_fn(
    (ProjectId, T::AccountId),
) -> nat {
    |k: (ProjectId, T::AccountId)|
        if k.0 == project_id && s.stakeholders[k].role == role {
            1
        } else {
            0
        }
}

/// One for every stakeholder of a role that voted aye on a proposal.
pub open spec fn aye_head<T: Config>(s: State<T>, proposal_id: ProposalId, role: Role) -> spec_fn(
    (ProposalId, T::AccountId),
) -> nat {
    |k: (ProposalId, T::AccountId)|
        if k.0 == proposal_id && s.votes[k] && s.stakeholders[(
            s.proposals[proposal_id].project_id,
            k.1,
        )].role == role {
            1
        } else {
            0
        }
}

/// Constant stake makes a quorum one of `m` out of `n`: where all stakeholders of a role have the
/// same stake, it is met if and only if the number of ayes, divided by the number of stakeholders,
/// is at least the quorum.
pub proof fn law_constant_stake_counts_heads<T: Config>(
    s: State<T>,
    proposal_id: ProposalId,
    required: RoleQuorum,
    stake: nat,
)
    requires
        s.finite(),
        s.linked(),
        s.roles_totalled(),
        s.tally_exact(proposal_id, required.role),
        stake > 0,
        forall|k: (ProjectId, T::AccountId)| #[trigger]
            s.stakeholders.contains_key(k) && k.0 == s.proposals[proposal_id].project_id
                && s.stakeholders[k].role == required.role ==> s.stakeholders[k].stake.value()
                == stake,
    ensures
        s.meets_quorum(s.proposals[proposal_id].project_id, required, proposal_id) == ({
            let heads = sum(
                s.stakeholders.dom(),
                head(s, s.proposals[proposal_id].project_id, required.role),
            );
            &&& heads > 0
            &&& sum(s.votes.dom(), aye_head(s, proposal_id, required.role)) * 1_000_000_000
                >= required.quorum@ * heads
        }),
{
    let p = s.proposals[proposal_id].project_id;
    let r = required.role;
    let ayes = sum(s.votes.dom(), aye_head(s, proposal_id, r));
    let all = sum(s.stakeholders.dom(), head(s, p, r));
    assert forall|k: (ProjectId, T::AccountId)| #[trigger]
        s.stakeholders.dom().contains(k) implies s.role_weight(p, r)(k) == head(s, p, r)(k)
        * stake by {
        assert(s.stakeholders.contains_key(k));
        lemma_zero_or_one(stake);
    }
    lemma_sum_scaled(s.stakeholders.dom(), s.role_weight(p, r), head(s, p, r), stake);
    assert forall|k: (ProposalId, T::AccountId)| #[trigger]
        s.votes.dom().contains(k) implies s.ballot_weight(proposal_id, r, true)(k) == aye_head(
        s,
        proposal_id,
        r,
    )(k) * stake by {
        assert(s.votes.contains_key(k));
        assert(s.stakeholders.contains_key((s.proposals[k.0].project_id, k.1)));
        lemma_zero_or_one(stake);
    }
    lemma_sum_scaled(
        s.votes.dom(),
        s.ballot_weight(proposal_id, r, true),
        aye_head(s, proposal_id, r),
        stake,
    );
    assert(s.stake_of_role(p, r).value() == s.role_total(p, r));
    lemma_common_factor(ayes, all, stake, required.quorum@);
}

proof fn lemma_zero_or_one(n: nat)
    ensures
        0 * n == 0,
        1 * n == n,
{
    assert(0 * n == 0 && 1 * n == n) by (nonlinear_arith);
}

/// A common factor does not matter to a fraction.
proof fn lemma_common_factor(ayes: nat, total: nat, factor: nat, quorum: nat)
    requires
        factor > 0,
    ensures
        reaches_quorum(ayes * factor, total * factor, quorum) == reaches_quorum(
            ayes,
            total,
            quorum,
        ),
{
    assert((total * factor > 0) == (total > 0)) by (nonlinear_arith)
        requires
            factor > 0,
    ;
    assert((ayes * factor) * ACCURACY == (ayes * ACCURACY) * factor) by (nonlinear_arith);
    assert(quorum * (total * factor) == (quorum * total) * factor) by (nonlinear_arith);
    let a = ayes * ACCURACY;
    let b = quorum * total;
    assert((a * factor >= b * factor) == (a >= b)) by (nonlinear_arith)
        requires
            factor > 0,
    ;
}

/// A policy with a single required role is pure stake-weighted voting: the quorum of that role
/// decides alone.
pub proof fn law_single_role_decides<T: Config>(
    s: State<T>,
    project_id: ProjectId,
    project: ProjectInfo<T::Balance, T::BlockNumber>,
    proposal_id: ProposalId,
)
    requires
        role_quorums(project.policy.required_roles).len() == 1,
    ensures
        s.meets_quorums(project_id, project, proposal_id) == s.meets_quorum(
            project_id,
            role_quorums(project.policy.required_roles)[0],
            proposal_id,
        ),
{
}

/// After a vote, and after a release proposal with its proposer's own aye, the proposal is approved
/// if and only if its quorums are met.
pub proof fn law_approval_follows_the_votes<T: Config>(
    s: State<T>,
    request: Request<T>,
    id: ProposalId,
)
    requires
        s.outcome(request) is Ok,
        ({
            ||| request is Vote && request->Vote_proposal_id == id
            ||| request is NewRelease && s.next_proposal_id == id
        }),
    ensures
        ({
            let t = s.step(request);
            let p = t.proposals[id].project_id;
            t.proposals[id].status is Approved <==> t.meets_quorums(p, t.projects[p], id)
        }),
{
    match request {
        Request::NewRelease { origin, now, .. } => {
            let who = origin->Signed_0;
            let proposed = s.proposed(request);
            lemma_voting_decides(proposed, id, who, true, now);
        },
        Request::Vote { origin, aye, now, .. } => {
            lemma_voting_decides(s, id, origin->Signed_0, aye, now);
        },
        _ => {},
    }
}

/// After a vote on an open proposal, the proposal is approved if and only if its quorums are met.
proof fn lemma_voting_decides<T: Config>(
    s: State<T>,
    id: ProposalId,
    who: T::AccountId,
    aye: bool,
    now: T::BlockNumber,
)
    requires
        s.proposals[id].status is Voting || s.proposals[id].status is Approved,
        s.voting(id, who, aye, now) is Ok,
    ensures
        ({
            let t = s.voting(id, who, aye, now)->Ok_0;
            let p = s.proposals[id].project_id;
            &&& t.proposals[id].project_id == p
            &&& t.proposals[id].status is Approved <==> t.meets_quorums(p, s.projects[p], id)
        }),
{
    let t = s.voting(id, who, aye, now)->Ok_0;
    let p = s.proposals[id].project_id;
    law_nays_do_not_count(s.with_ballot(id, who, aye), t, p, s.projects[p], id);
}

/// Whether a request slashes a Build Service of a project.
pub open spec fn slashes<T: Config>(
    s: State<T>,
    request: Request<T>,
    project_id: ProjectId,
) -> bool {
    &&& s.outcome(request) is Ok
    &&& request matches Request::SubmitCounterAttestation { proposal_id, .. }
    &&& s.proposals[proposal_id].project_id == project_id
}

/// An approved proposal meets its quorums, from the vote that gets it approved on, whatever else
/// is requested. The one exception is a policy that requires the Build Services themselves, where
/// a slash of one of them takes their quorum away; the enactment looks at the quorums once more.
pub proof fn law_approved_proposals_meet_quorums<T: Config>(
    s: State<T>,
    request: Request<T>,
    id: ProposalId,
)
    requires
        s.identified(),
        s.linked(),
        s.step(request).proposals.contains_key(id),
        s.step(request).proposals[id].status is Approved,
        s.proposals.contains_key(id) && s.proposals[id].status is Approved ==> s.meets_quorums(
            s.proposals[id].project_id,
            s.projects[s.proposals[id].project_id],
            id,
        ),
        ({
            let p = s.step(request).proposals[id].project_id;
            let required = role_quorums(s.step(request).projects[p].policy.required_roles);
            slashes(s, request, p) ==> forall|i: int|
                0 <= i < required.len() && (#[trigger] required[i]).role == Role::BuildService
                    ==> s.step(request).meets_quorum(p, required[i], id)
        }),
    ensures
        s.step(request).meets_quorums(
            s.step(request).proposals[id].project_id,
            s.step(request).projects[s.step(request).proposals[id].project_id],
            id,
        ),
{
    let t = s.step(request);
    let p = t.proposals[id].project_id;
    if s.outcome(request) is Ok {
        match request {
            Request::ProjectGenesis { stakeholders, .. } => {
                lemma_enrolled(s, s.next_project_id, stakeholders);
                assert(s.proposals.contains_key(id));
                assert(p != s.next_project_id);
                assert forall|r: Role| #[trigger]
                    t.stake_of_role(p, r) == s.stake_of_role(p, r) by {
                    let enrolled = s.enrolling_all(s.next_project_id, stakeholders)->Ok_0;
                    assert(enrolled.role_stake.contains_key((p, r)) == s.role_stake.contains_key(
                        (p, r),
                    ));
                }
                law_nays_do_not_count(s, t, p, s.projects[p], id);
            },
            Request::NewRelease { origin, now, .. } => {
                let who = origin->Signed_0;
                let proposed = s.proposed(request);
                lemma_approved_voting(proposed, s.next_proposal_id, who, true, now, id);
                if id != s.next_proposal_id {
                    law_nays_do_not_count(s, proposed, p, s.projects[p], id);
                }
            },
            Request::Vote { origin, proposal_id, aye, now } => {
                lemma_approved_voting(s, proposal_id, origin->Signed_0, aye, now, id);
            },
            Request::SubmitCounterAttestation { proposal_id, .. } => {
                let required = role_quorums(s.projects[p].policy.required_roles);
                assert(id != proposal_id);
                assert forall|i: int| 0 <= i < required.len() implies t.meets_quorum(
                    p,
                    #[trigger] required[i],
                    id,
                ) by {
                    let rq = required[i];
                    assert(s.meets_quorum(p, rq, id));
                    if rq.role != Role::BuildService || s.proposals[proposal_id].project_id != p {
                        assert(t.stake_of_role(p, rq.role) == s.stake_of_role(p, rq.role));
                        assert(t.tally(id, rq.role) == s.tally(id, rq.role));
                    }
                }
            },
            Request::CloseExpired { .. } => {
                law_nays_do_not_count(s, t, p, s.projects[p], id);
            },
            Request::OnInitialize { now } => {
                lemma_block_start(s, now);
                law_nays_do_not_count(s, t, p, s.projects[p], id);
            },
        }
    }
}

/// After a vote, an approved proposal meets its quorums if it did so before.
proof fn lemma_approved_voting<T: Config>(
    s: State<T>,
    voted: ProposalId,
    who: T::AccountId,
    aye: bool,
    now: T::BlockNumber,
    id: ProposalId,
)
    requires
        s.proposals.contains_key(voted),
        s.proposals.contains_key(id),
        s.voting(voted, who, aye, now) is Ok,
        s.voting(voted, who, aye, now)->Ok_0.proposals[id].status is Approved,
        id != voted ==> s.meets_quorums(
            s.proposals[id].project_id,
            s.projects[s.proposals[id].project_id],
            id,
        ),
    ensures
        s.voting(voted, who, aye, now)->Ok_0.meets_quorums(
            s.proposals[id].project_id,
            s.projects[s.proposals[id].project_id],
            id,
        ),
{
    let t = s.voting(voted, who, aye, now)->Ok_0;
    let p = s.proposals[id].project_id;
    let counted = s.with_ballot(voted, who, aye);
    if id == voted {
        law_nays_do_not_count(counted, t, p, s.projects[p], id);
    } else {
        law_nays_do_not_count(s, t, p, s.projects[p], id);
    }
}

} // verus!
