//! The schedule of enactments.
use crate::bounded::{without, ENACTMENTS_PER_BLOCK};
use crate::config::Config;
use crate::laws::effects::{lemma_block_start, lemma_enrolled};
use crate::model::{enactment_block, Request, State};
use crate::types::{ProposalId, ProposalStatus};
use vstd::prelude::*;

verus! {

/// Taking an element out of a list without duplicates takes out just that.
pub proof fn lemma_without(ids: Seq<ProposalId>, id: ProposalId)
    ensures
        without(ids, id).len() <= ids.len(),
        forall|other: ProposalId| #[trigger]
            without(ids, id).contains(other) <==> ids.contains(other) && other != id,
        ids.no_duplicates() ==> without(ids, id).no_duplicates(),
    decreases ids.len(),
{
    reveal(Seq::filter);
    let keep = |other: ProposalId| other != id;
    if ids.len() > 0 {
        let prior = ids.drop_last();
        lemma_without(prior, id);
        let kept = without(prior, id);
        assert(without(ids, id) == if keep(ids.last()) {
            kept.push(ids.last())
        } else {
            kept
        });
        assert forall|other: ProposalId| #[trigger]
            without(ids, id).contains(other) <==> ids.contains(other) && other != id by {
            assert(ids.contains(other) <==> prior.contains(other) || other == ids.last()) by {
                if ids.contains(other) {
                    let i = choose|i: int| 0 <= i < ids.len() && ids[i] == other;
                    if i < prior.len() {
                        assert(prior[i] == other);
                    }
                }
                if prior.contains(other) {
                    let i = choose|i: int| 0 <= i < prior.len() && prior[i] == other;
                    assert(ids[i] == other);
                }
            }
            lemma_push_contains(kept, ids.last(), other);
        }
        if ids.no_duplicates() {
            assert(!prior.contains(ids.last())) by {
                if prior.contains(ids.last()) {
                    let i = choose|i: int| 0 <= i < prior.len() && prior[i] == ids.last();
                    assert(ids[i] == ids[ids.len() - 1]);
                }
            }
            assert forall|i: int, j: int| 0 <= i < prior.len() && 0 <= j < prior.len() && i
                != j implies prior[i] != prior[j] by {
                assert(ids[i] != ids[j]);
            }
            assert(!kept.contains(ids.last()));
            lemma_push_no_duplicates(kept, ids.last());
        }
    }
}

/// What is in a list after one more element.
proof fn lemma_push_contains(ids: Seq<ProposalId>, id: ProposalId, other: ProposalId)
    ensures
        ids.push(id).contains(other) <==> ids.contains(other) || other == id,
{
    let pushed = ids.push(id);
    if ids.contains(other) {
        let i = choose|i: int| 0 <= i < ids.len() && ids[i] == other;
        assert(pushed[i] == other);
    }
    assert(pushed[ids.len() as int] == id);
    if pushed.contains(other) {
        let i = choose|i: int| 0 <= i < pushed.len() && pushed[i] == other;
        if i < ids.len() {
            assert(ids[i] == other);
        }
    }
}

/// A new element makes no duplicates.
proof fn lemma_push_no_duplicates(ids: Seq<ProposalId>, id: ProposalId)
    requires
        ids.no_duplicates(),
        !ids.contains(id),
    ensures
        ids.push(id).no_duplicates(),
{
    let pushed = ids.push(id);
    assert forall|i: int, j: int| 0 <= i < pushed.len() && 0 <= j < pushed.len() && i != j implies
        pushed[i] != pushed[j] by {
        if i == ids.len() {
            assert(ids.contains(ids[j]));
        } else if j == ids.len() {
            assert(ids.contains(ids[i]));
        }
    }
}

/// Taking a proposal off the schedule of a block leaves all else on it.
pub proof fn lemma_unscheduled<T: Config>(s: State<T>, id: ProposalId, block: T::BlockNumber)
    ensures
        forall|b: T::BlockNumber| #[trigger]
            s.unscheduled(id, block).scheduled_at(b) == if b == block {
                without(s.scheduled_at(b), id)
            } else {
                s.scheduled_at(b)
            },
{
}

/// The schedule and the statuses still agree once a proposal that was approved for `block` is off
/// the schedule and has another status than `Approved`.
proof fn lemma_cancelled<T: Config>(
    s: State<T>,
    t: State<T>,
    id: ProposalId,
    block: T::BlockNumber,
)
    requires
        s.scheduled_when_approved(),
        s.proposals.contains_key(id),
        s.proposals[id].status == (ProposalStatus::Approved { enact_at: block }),
        t.pending_enactments == s.unscheduled(id, block).pending_enactments,
        t.proposals.dom() == s.proposals.dom(),
        !(t.proposals[id].status is Approved),
        forall|other: ProposalId| #[trigger]
            s.proposals.contains_key(other) && other != id ==> t.proposals[other].status
                == s.proposals[other].status,
    ensures
        t.scheduled_when_approved(),
{
    lemma_unscheduled(s, id, block);
    assert forall|b: T::BlockNumber, other: ProposalId| #[trigger]
        t.scheduled_at(b).contains(other) <==> t.proposals.contains_key(other)
            && t.proposals[other].status == (ProposalStatus::Approved { enact_at: b }) by {
        assert(t.scheduled_at(b) == s.unscheduled(id, block).scheduled_at(b));
        assert(s.scheduled_at(b).contains(other) <==> s.proposals.contains_key(other)
            && s.proposals[other].status == (ProposalStatus::Approved { enact_at: b }));
        lemma_without(s.scheduled_at(b), id);
        assert(t.proposals.contains_key(other) == s.proposals.contains_key(other));
    }
    assert forall|b: T::BlockNumber| (#[trigger] t.scheduled_at(b)).no_duplicates()
        && t.scheduled_at(b).len() <= ENACTMENTS_PER_BLOCK by {
        assert(t.scheduled_at(b) == s.unscheduled(id, block).scheduled_at(b));
        assert(s.scheduled_at(b).no_duplicates());
        lemma_without(s.scheduled_at(b), id);
    }
}

/// The schedule and the statuses agree as long as neither changes for an approved proposal.
proof fn lemma_untouched<T: Config>(s: State<T>, t: State<T>)
    requires
        s.scheduled_when_approved(),
        t.pending_enactments == s.pending_enactments,
        forall|id: ProposalId| #[trigger]
            t.proposals.contains_key(id) ==> (t.proposals[id].status is Approved
                ==> s.proposals.contains_key(id) && s.proposals[id].status
                == t.proposals[id].status),
        forall|id: ProposalId| #[trigger]
            s.proposals.contains_key(id) ==> (s.proposals[id].status is Approved
                ==> t.proposals.contains_key(id) && s.proposals[id].status
                == t.proposals[id].status),
    ensures
        t.scheduled_when_approved(),
{
    assert forall|b: T::BlockNumber, id: ProposalId| #[trigger]
        t.scheduled_at(b).contains(id) <==> t.proposals.contains_key(id) && t.proposals[id].status
            == (ProposalStatus::Approved { enact_at: b }) by {
        assert(t.scheduled_at(b) == s.scheduled_at(b));
        assert(s.scheduled_at(b).contains(id) <==> s.proposals.contains_key(id)
            && s.proposals[id].status == (ProposalStatus::Approved { enact_at: b }));
    }
    assert forall|b: T::BlockNumber| (#[trigger] t.scheduled_at(b)).no_duplicates()
        && t.scheduled_at(b).len() <= ENACTMENTS_PER_BLOCK by {
        assert(t.scheduled_at(b) == s.scheduled_at(b));
    }
}

/// A vote keeps the schedules and the statuses in agreement: each proposal is on the schedule of
/// a block, once, if and only if it is approved for that block. It leaves the other proposals of
/// every schedule at their block and in their order. A vote that fails changes nothing at all.
pub proof fn law_votes_keep_the_schedules<T: Config>(
    s: State<T>,
    id: ProposalId,
    who: T::AccountId,
    aye: bool,
    now: T::BlockNumber,
)
    requires
        s.scheduled_when_approved(),
        s.proposals.contains_key(id),
    ensures
        s.voting(id, who, aye, now) matches Ok(t) ==> {
            &&& t.scheduled_when_approved()
            &&& forall|b: T::BlockNumber| #[trigger]
                without(t.scheduled_at(b), id) == without(s.scheduled_at(b), id)
        },
{
    lemma_schedule_voting(s, id, who, aye, now);
    if s.voting(id, who, aye, now) is Ok {
        let t = s.voting(id, who, aye, now)->Ok_0;
        assert forall|b: T::BlockNumber| #[trigger]
            without(t.scheduled_at(b), id) == without(s.scheduled_at(b), id) by {
            lemma_without_pushed(s.scheduled_at(b), id);
            lemma_without_twice(s.scheduled_at(b), id);
        }
    }
}

/// A proposal at the end of a list does not matter once it is taken out.
proof fn lemma_without_pushed(ids: Seq<ProposalId>, id: ProposalId)
    ensures
        without(ids.push(id), id) == without(ids, id),
{
    reveal(Seq::filter);
    assert(ids.push(id).drop_last() =~= ids);
}

/// Taking a proposal out twice is taking it out once.
proof fn lemma_without_twice(ids: Seq<ProposalId>, id: ProposalId)
    ensures
        without(without(ids, id), id) == without(ids, id),
    decreases ids.len(),
{
    reveal(Seq::filter);
    if ids.len() > 0 {
        let prior = ids.drop_last();
        lemma_without_twice(prior, id);
        if ids.last() != id {
            let kept = without(prior, id);
            assert(without(ids, id) == kept.push(ids.last()));
            assert(kept.push(ids.last()).drop_last() =~= kept);
        }
    }
}

/// A vote keeps the schedule and the statuses in agreement.
proof fn lemma_schedule_voting<T: Config>(
    s: State<T>,
    id: ProposalId,
    who: T::AccountId,
    aye: bool,
    now: T::BlockNumber,
)
    requires
        s.scheduled_when_approved(),
        s.proposals.contains_key(id),
    ensures
        s.voting(id, who, aye, now) matches Ok(t) ==> t.scheduled_when_approved(),
{
    if s.voting(id, who, aye, now) is Ok {
        let t = s.voting(id, who, aye, now)->Ok_0;
        let counted = s.with_ballot(id, who, aye);
        lemma_untouched(s, counted);
        let project = s.projects[s.proposals[id].project_id];
        let met = counted.meets_quorums(s.proposals[id].project_id, project, id);
        match s.proposals[id].status {
            ProposalStatus::Voting => {
                if met {
                    let enact_at = enactment_block(now, project.policy.enactment_delay);
                    assert(t == counted.approved(id, enact_at));
                    assert forall|b: T::BlockNumber, other: ProposalId| #[trigger]
                        t.scheduled_at(b).contains(other) <==> t.proposals.contains_key(other)
                            && t.proposals[other].status == (ProposalStatus::Approved {
                            enact_at: b,
                        }) by {
                        assert(counted.scheduled_at(b).contains(other)
                            <==> counted.proposals.contains_key(other)
                            && counted.proposals[other].status == (ProposalStatus::Approved {
                            enact_at: b,
                        }));
                        lemma_push_contains(counted.scheduled_at(b), id, other);
                    }
                    assert forall|b: T::BlockNumber| (#[trigger] t.scheduled_at(b)).no_duplicates()
                        && t.scheduled_at(b).len() <= ENACTMENTS_PER_BLOCK by {
                        assert(counted.scheduled_at(b).no_duplicates());
                        assert(counted.scheduled_at(b).contains(id)
                            <==> counted.proposals.contains_key(id)
                            && counted.proposals[id].status == (ProposalStatus::Approved {
                            enact_at: b,
                        }));
                        lemma_push_no_duplicates(counted.scheduled_at(b), id);
                    }
                }
            },
            ProposalStatus::Approved { enact_at } => {
                if !met {
                    assert(t == counted.revoked(id, enact_at));
                    assert(t.proposals.dom() =~= counted.proposals.dom());
                    lemma_cancelled(counted, t, id, enact_at);
                }
            },
            _ => {},
        }
    }
}

/// A proposal is on the schedule of a block, once, exactly while it is approved for that block.
pub proof fn lemma_schedule_kept<T: Config>(s: State<T>, request: Request<T>)
    requires
        s.identified(),
        s.linked(),
        s.scheduled_when_approved(),
    ensures
        s.step(request).scheduled_when_approved(),
{
    let t = s.step(request);
    match request {
        Request::ProjectGenesis { stakeholders, .. } => {
            lemma_enrolled(s, s.next_project_id, stakeholders);
            lemma_untouched(s, t);
        },
        Request::NewRelease { origin, now, .. } => {
            if s.outcome(request) is Ok {
                let who = origin->Signed_0;
                let proposed = s.proposed(request);
                lemma_untouched(s, proposed);
                lemma_schedule_voting(proposed, s.next_proposal_id, who, true, now);
            }
        },
        Request::Vote { origin, proposal_id, aye, now } => {
            if s.outcome(request) is Ok {
                lemma_schedule_voting(s, proposal_id, origin->Signed_0, aye, now);
            }
        },
        Request::SubmitCounterAttestation { proposal_id, .. } => {
            if s.outcome(request) is Ok {
                assert(t.proposals.dom() =~= s.proposals.dom());
                match s.proposals[proposal_id].status {
                    ProposalStatus::Approved { enact_at } => {
                        lemma_cancelled(s, t, proposal_id, enact_at);
                    },
                    _ => {
                        lemma_untouched(s, t);
                    },
                }
            }
        },
        Request::CloseExpired { .. } => {
            lemma_untouched(s, t);
        },
        Request::OnInitialize { now } => {
            lemma_block_start(s, now);
            assert forall|b: T::BlockNumber, id: ProposalId| #[trigger]
                t.scheduled_at(b).contains(id) <==> t.proposals.contains_key(id)
                    && t.proposals[id].status == (ProposalStatus::Approved { enact_at: b }) by {
                assert(s.scheduled_at(b).contains(id) <==> s.proposals.contains_key(id)
                    && s.proposals[id].status == (ProposalStatus::Approved { enact_at: b }));
                assert(s.scheduled_at(now).contains(id) <==> s.proposals.contains_key(id)
                    && s.proposals[id].status == (ProposalStatus::Approved { enact_at: now }));
                assert(t.proposals.contains_key(id) == s.proposals.contains_key(id));
            }
            assert forall|b: T::BlockNumber| (#[trigger] t.scheduled_at(b)).no_duplicates()
                && t.scheduled_at(b).len() <= ENACTMENTS_PER_BLOCK by {
                assert(s.scheduled_at(b).no_duplicates());
            }
        },
    }
}

} // verus!
