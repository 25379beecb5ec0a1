//! What each request leaves alone.
use crate::config::Config;
use crate::model::State;
use crate::types::{
    ProjectId, ProjectInfo, Proposal, ProposalId, ProposalStatus, Role, StakeholderInit,
};
use vstd::prelude::*;

verus! {

/// Two records of a proposal that differ in its status at most.
pub open spec fn same_content<A, B, N>(p: Proposal<A, B, N>, q: Proposal<A, B, N>) -> bool {
    q == (Proposal { status: q.status, ..p })
}

/// What enrolling stakeholders adds to the state, field by field.
pub proof fn lemma_enrolled<T: Config>(
    s: State<T>,
    project_id: ProjectId,
    inits: Seq<StakeholderInit<T::AccountId, T::Balance>>,
)
    ensures
        s.enrolling_all(project_id, inits) matches Ok(t) ==> {
            &&& t == (State {
                stakeholders: t.stakeholders,
                role_stake: t.role_stake,
                currency: t.currency,
                events: t.events,
                ..s
            })
            &&& forall|i: int|
                0 <= i < inits.len() ==> t.stakeholders.contains_key(
                    (project_id, (#[trigger] inits[i]).account),
                ) && !s.stakeholders.contains_key((project_id, inits[i].account))
            &&& forall|k: (ProjectId, T::AccountId)| #[trigger]
                t.stakeholders.contains_key(k) ==> s.stakeholders.contains_key(k) || (exists|i: int|
                    0 <= i < inits.len() && k == (project_id, (#[trigger] inits[i]).account))
            &&& forall|k: (ProjectId, T::AccountId)| #[trigger]
                s.stakeholders.contains_key(k) ==> t.stakeholders.contains_key(k)
                    && t.stakeholders[k] == s.stakeholders[k]
            &&& forall|k: (ProjectId, Role)|
                k.0 != project_id ==> (#[trigger] t.role_stake.contains_key(k)
                    == s.role_stake.contains_key(k)) && (s.role_stake.contains_key(k)
                    ==> t.role_stake[k] == s.role_stake[k])
            &&& t.events.len() == s.events.len() + inits.len()
            &&& t.events.take(s.events.len() as int) == s.events
        },
    decreases inits.len(),
{
    if inits.len() == 0 {
        assert(s.events.take(s.events.len() as int) =~= s.events);
    } else {
        let prior = inits.drop_last();
        lemma_enrolled(s, project_id, prior);
        if s.enrolling_all(project_id, inits) is Ok {
            let m = s.enrolling_all(project_id, prior)->Ok_0;
            let t = s.enrolling_all(project_id, inits)->Ok_0;
            assert(t == m.enrolling(project_id, inits.last())->Ok_0);
            let key = (project_id, inits.last().account);
            assert forall|i: int| 0 <= i < inits.len() implies t.stakeholders.contains_key(
                (project_id, (#[trigger] inits[i]).account),
            ) && !s.stakeholders.contains_key((project_id, inits[i].account)) by {
                if i < prior.len() {
                    assert(prior[i] == inits[i]);
                }
            }
            assert forall|k: (ProjectId, T::AccountId)| #[trigger]
                t.stakeholders.contains_key(k) implies s.stakeholders.contains_key(k) || (exists|
                i: int,
            |
                0 <= i < inits.len() && k == (project_id, (#[trigger] inits[i]).account)) by {
                if k == key {
                    assert(inits[inits.len() - 1] == inits.last());
                } else if !s.stakeholders.contains_key(k) {
                    assert(m.stakeholders.contains_key(k));
                    let i = choose|i: int|
                        0 <= i < prior.len() && k == (project_id, (#[trigger] prior[i]).account);
                    assert(inits[i] == prior[i]);
                }
            }
            assert(t.events.take(s.events.len() as int) =~= s.events) by {
                assert(m.events.take(s.events.len() as int) == s.events);
            }
        }
    }
}

/// Once enrolling has failed, further stakeholders change nothing about the failure.
pub proof fn lemma_first_failure_decides<T: Config>(
    s: State<T>,
    project_id: ProjectId,
    inits: Seq<StakeholderInit<T::AccountId, T::Balance>>,
    n: int,
)
    requires
        0 <= n <= inits.len(),
        s.enrolling_all(project_id, inits.take(n)) is Err,
    ensures
        s.enrolling_all(project_id, inits) == s.enrolling_all(project_id, inits.take(n)),
    decreases inits.len(),
{
    if n == inits.len() {
        assert(inits.take(n) =~= inits);
    } else {
        assert(inits.drop_last().take(n) =~= inits.take(n));
        lemma_first_failure_decides(s, project_id, inits.drop_last(), n);
    }
}

/// What the enactment of scheduled proposals leaves alone, and what it does to statuses.
pub proof fn lemma_enacting_all<T: Config>(
    s: State<T>,
    ids: Seq<ProposalId>,
    now: T::BlockNumber,
)
    ensures
        ({
            let t = s.enacting_all(ids, now);
            &&& t == (State {
                proposals: t.proposals,
                release_log: t.release_log,
                release_count: t.release_count,
                currency: t.currency,
                events: t.events,
                ..s
            })
            &&& t.proposals.dom() == s.proposals.dom()
            &&& forall|id: ProposalId| #[trigger]
                s.proposals.contains_key(id) ==> same_content(s.proposals[id], t.proposals[id])
            &&& forall|id: ProposalId| #[trigger]
                s.proposals.contains_key(id) ==> t.proposals[id].status == if ids.contains(id)
                    && s.is_due(id) {
                    ProposalStatus::Enacted
                } else if ids.contains(id) && s.proposals[id].status is Approved
                    && s.projects.contains_key(s.proposals[id].project_id) {
                    ProposalStatus::Voting
                } else {
                    s.proposals[id].status
                }
        }),
    decreases ids.len(),
{
    let t = s.enacting_all(ids, now);
    if ids.len() > 0 {
        let prior = ids.drop_last();
        let last = ids.last();
        lemma_enacting_all(s, prior, now);
        let m = s.enacting_all(prior, now);
        assert(t == m.enacting(last, now));
        assert(t.proposals.dom() =~= s.proposals.dom());
        assert(m.meets_quorums(
            m.proposals[last].project_id,
            m.projects[m.proposals[last].project_id],
            last,
        ) == s.meets_quorums(
            m.proposals[last].project_id,
            s.projects[m.proposals[last].project_id],
            last,
        )) by {
            lemma_same_quorums(s, m, last);
        }
        assert forall|id: ProposalId| #[trigger] s.proposals.contains_key(id) implies {
            &&& same_content(s.proposals[id], t.proposals[id])
            &&& t.proposals[id].status == if ids.contains(id) && s.is_due(id) {
                ProposalStatus::Enacted
            } else if ids.contains(id) && s.proposals[id].status is Approved
                && s.projects.contains_key(s.proposals[id].project_id) {
                ProposalStatus::Voting
            } else {
                s.proposals[id].status
            }
        } by {
            assert(ids =~= prior.push(last));
            assert(ids.contains(id) <==> prior.contains(id) || id == last) by {
                if ids.contains(id) {
                    let i = choose|i: int| 0 <= i < ids.len() && ids[i] == id;
                    if i < prior.len() {
                        assert(prior[i] == id);
                    }
                }
                if prior.contains(id) {
                    let i = choose|i: int| 0 <= i < prior.len() && prior[i] == id;
                    assert(ids[i] == id);
                }
                assert(ids[ids.len() - 1] == last);
            }
            assert(m.proposals.contains_key(id));
        }
    }
}

/// What the start of a block leaves alone, and what it does to statuses and schedules.
pub proof fn lemma_block_start<T: Config>(s: State<T>, now: T::BlockNumber)
    ensures
        ({
            let t = s.block_start(now);
            &&& t == (State {
                proposals: t.proposals,
                release_log: t.release_log,
                release_count: t.release_count,
                pending_enactments: s.pending_enactments.remove(now),
                currency: t.currency,
                events: t.events,
                ..s
            })
            &&& t.proposals.dom() == s.proposals.dom()
            &&& forall|id: ProposalId| #[trigger]
                s.proposals.contains_key(id) ==> same_content(s.proposals[id], t.proposals[id])
            &&& forall|id: ProposalId| #[trigger]
                s.proposals.contains_key(id) ==> t.proposals[id].status == if s.scheduled_at(
                    now,
                ).contains(id) && s.is_due(id) {
                    ProposalStatus::Enacted
                } else if s.scheduled_at(now).contains(id) && s.proposals[id].status is Approved
                    && s.projects.contains_key(s.proposals[id].project_id) {
                    ProposalStatus::Voting
                } else {
                    s.proposals[id].status
                }
            &&& forall|b: T::BlockNumber| #[trigger]
                t.scheduled_at(b) == if b == now {
                    Seq::<ProposalId>::empty()
                } else {
                    s.scheduled_at(b)
                }
        }),
{
    let taken = s.taken(now);
    lemma_enacting_all(taken, s.scheduled_at(now), now);
    assert forall|id: ProposalId| #[trigger] s.proposals.contains_key(id) implies taken.is_due(id)
        == s.is_due(id) && taken.proposals.contains_key(id) by {
        lemma_same_quorums(s, taken, id);
    }
}

/// Whether a proposal is due depends on the proposal, the projects, the stakes and the tallies.
pub proof fn lemma_same_quorums<T: Config>(s: State<T>, t: State<T>, id: ProposalId)
    requires
        t.role_stake == s.role_stake,
        t.tallies == s.tallies,
    ensures
        forall|p: ProjectId, info: ProjectInfo<T::Balance, T::BlockNumber>| #[trigger]
            t.meets_quorums(p, info, id) == s.meets_quorums(p, info, id),
{
    assert(forall|r| t.tally(id, r) == s.tally(id, r));
    assert(forall|p, r| t.stake_of_role(p, r) == s.stake_of_role(p, r));
    assert(forall|p, q| t.meets_quorum(p, q, id) == s.meets_quorum(p, q, id));
}

} // verus!
