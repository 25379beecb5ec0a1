//! The Official Release Log.
use crate::config::Config;
use crate::invariants::reports;
use crate::laws::effects::{
    lemma_block_start, lemma_enacting_all, lemma_enrolled, lemma_same_quorums,
};
use crate::laws::history::law_enactment_waits_for_the_delay;
use crate::laws::meaning::readings::{accepted, law_quorums_are_the_rule_of_acceptance};
use crate::model::{next, Request, State};
use crate::number::Number;
use crate::types::{ProjectId, ProposalId, ProposalStatus};
use vstd::prelude::*;

verus! {

/// What one enactment does to the log.
proof fn lemma_log_enacting<T: Config>(s: State<T>, id: ProposalId, now: T::BlockNumber)
    requires
        s.log_gapless(),
        s.is_due(id) ==> s.releases(s.proposals[id].project_id) < u32::MAX,
    ensures
        ({
            let t = s.enacting(id, now);
            let p = s.proposals[id].project_id;
            let key = (p, s.releases(p));
            &&& t.log_gapless()
            &&& s.is_due(id) ==> {
                &&& !s.release_log.contains_key(key)
                &&& t.release_log == s.release_log.insert(key, s.release_entry(id, now))
                &&& forall|q: ProjectId| #[trigger]
                    t.releases(q) == if q == p {
                        next(s.releases(q))
                    } else {
                        s.releases(q)
                    }
            }
            &&& !s.is_due(id) ==> {
                &&& t.release_log == s.release_log
                &&& forall|q: ProjectId| #[trigger] t.releases(q) == s.releases(q)
            }
            &&& s.log_is_what_was_enacted() ==> t.log_is_what_was_enacted()
        }),
{
    let t = s.enacting(id, now);
    let p = s.proposals[id].project_id;
    let key = (p, s.releases(p));
    if s.is_due(id) {
        assert(!s.release_log.contains_key(key));
        assert forall|k: (ProjectId, u32)| #[trigger]
            t.release_log.contains_key(k) <==> k.1 < t.releases(k.0) by {
            assert(s.release_log.contains_key(k) <==> k.1 < s.releases(k.0));
        }
        if s.log_is_what_was_enacted() {
            assert forall|k: (ProjectId, u32)| #[trigger] t.release_log.contains_key(k) implies ({
                let entry = t.release_log[k];
                &&& t.proposals.contains_key(entry.proposal_id)
                &&& t.proposals[entry.proposal_id].status is Enacted
                &&& t.proposals[entry.proposal_id].project_id == k.0
                &&& reports(entry, t.proposals[entry.proposal_id])
                &&& k != key ==> entry.proposal_id != id
            }) by {
                if k != key {
                    assert(s.release_log.contains_key(k));
                }
            }
            assert forall|other: ProposalId| #[trigger]
                t.proposals.contains_key(other) && t.proposals[other].status is Enacted implies (
            exists|k: (ProjectId, u32)| #[trigger]
                t.release_log.contains_key(k) && t.release_log[k].proposal_id == other) by {
                if other == id {
                    assert(t.release_log.contains_key(key));
                } else {
                    assert(s.proposals.contains_key(other));
                    let k = choose|k: (ProjectId, u32)| #[trigger]
                        s.release_log.contains_key(k) && s.release_log[k].proposal_id == other;
                    assert(t.release_log.contains_key(k));
                }
            }
            assert forall|j: (ProjectId, u32), k: (ProjectId, u32)| #[trigger]
                t.release_log.contains_key(j) && #[trigger] t.release_log.contains_key(k) && j
                    != k implies t.release_log[j].proposal_id != t.release_log[k].proposal_id by {
                if j != key && k != key {
                    assert(s.release_log.contains_key(j));
                    assert(s.release_log.contains_key(k));
                }
            }
        }
    } else {
        assert forall|k: (ProjectId, u32)| #[trigger]
            t.release_log.contains_key(k) <==> k.1 < t.releases(k.0) by {
            assert(s.release_log.contains_key(k) <==> k.1 < s.releases(k.0));
        }
        if s.log_is_what_was_enacted() {
            lemma_log_untouched(s, t);
        }
    }
}

/// The log and the statuses agree as long as neither changes for an enacted proposal.
proof fn lemma_log_untouched<T: Config>(s: State<T>, t: State<T>)
    requires
        s.log_is_what_was_enacted(),
        t.release_log == s.release_log,
        forall|id: ProposalId| #[trigger]
            s.proposals.contains_key(id) && s.proposals[id].status is Enacted
                ==> t.proposals.contains_key(id) && t.proposals[id] == s.proposals[id],
        forall|id: ProposalId| #[trigger]
            t.proposals.contains_key(id) && t.proposals[id].status is Enacted
                ==> s.proposals.contains_key(id) && s.proposals[id].status is Enacted,
    ensures
        t.log_is_what_was_enacted(),
{
    assert forall|k: (ProjectId, u32)| #[trigger] t.release_log.contains_key(k) implies ({
        let entry = t.release_log[k];
        &&& t.proposals.contains_key(entry.proposal_id)
        &&& t.proposals[entry.proposal_id].status is Enacted
        &&& t.proposals[entry.proposal_id].project_id == k.0
        &&& reports(entry, t.proposals[entry.proposal_id])
    }) by {
        assert(s.release_log.contains_key(k));
        assert(s.proposals.contains_key(s.release_log[k].proposal_id));
    }
    assert forall|id: ProposalId| #[trigger]
        t.proposals.contains_key(id) && t.proposals[id].status is Enacted implies (exists|
        k: (ProjectId, u32),
    | #[trigger]
        t.release_log.contains_key(k) && t.release_log[k].proposal_id == id) by {
        assert(s.proposals.contains_key(id));
        let k = choose|k: (ProjectId, u32)| #[trigger]
            s.release_log.contains_key(k) && s.release_log[k].proposal_id == id;
        assert(t.release_log.contains_key(k));
    }
}

/// What the enactments of a block do to the log: it only grows, by entries of proposals that were
/// due.
proof fn lemma_log_enacting_all<T: Config>(
    s: State<T>,
    ids: Seq<ProposalId>,
    now: T::BlockNumber,
)
    requires
        s.log_gapless(),
        s.appends_fit(ids, now),
    ensures
        ({
            let t = s.enacting_all(ids, now);
            &&& t.log_gapless()
            &&& s.log_is_what_was_enacted() ==> t.log_is_what_was_enacted()
            &&& forall|k: (ProjectId, u32)| #[trigger]
                s.release_log.contains_key(k) ==> t.release_log.contains_key(k)
                    && t.release_log[k] == s.release_log[k]
            &&& forall|p: ProjectId| #[trigger] s.releases(p) <= t.releases(p)
            &&& forall|k: (ProjectId, u32)| #[trigger]
                t.release_log.contains_key(k) && !s.release_log.contains_key(k) ==> {
                    let id = t.release_log[k].proposal_id;
                    &&& ids.contains(id)
                    &&& s.is_due(id)
                    &&& s.proposals[id].project_id == k.0
                    &&& t.release_log[k] == s.release_entry(id, now)
                }
        }),
    decreases ids.len(),
{
    if ids.len() > 0 {
        let prior = ids.drop_last();
        let last = ids.last();
        let m = s.enacting_all(prior, now);
        let t = s.enacting_all(ids, now);
        lemma_log_enacting_all(s, prior, now);
        lemma_log_enacting(m, last, now);
        lemma_enacting_all(s, prior, now);
        assert(t == m.enacting(last, now));
        assert forall|k: (ProjectId, u32)| #[trigger]
            t.release_log.contains_key(k) && !s.release_log.contains_key(k) implies ({
            let id = t.release_log[k].proposal_id;
            &&& ids.contains(id)
            &&& s.is_due(id)
            &&& s.proposals[id].project_id == k.0
            &&& t.release_log[k] == s.release_entry(id, now)
        }) by {
            if m.release_log.contains_key(k) {
                let id = m.release_log[k].proposal_id;
                assert(prior.contains(id));
                let i = choose|i: int| 0 <= i < prior.len() && prior[i] == id;
                assert(ids[i] == id);
            } else {
                assert(m.is_due(last));
                assert(ids[ids.len() - 1] == last);
                lemma_due_before(s, prior, last, now);
            }
        }
        assert forall|p: ProjectId| #[trigger] s.releases(p) <= t.releases(p) by {
            assert(s.releases(p) <= m.releases(p));
        }
    }
}

/// What is due after other enactments was due before them, with the same content.
proof fn lemma_due_before<T: Config>(
    s: State<T>,
    ids: Seq<ProposalId>,
    id: ProposalId,
    now: T::BlockNumber,
)
    requires
        s.enacting_all(ids, now).is_due(id),
    ensures
        s.is_due(id),
        s.release_entry(id, now) == s.enacting_all(ids, now).release_entry(id, now),
        s.proposals[id].project_id == s.enacting_all(ids, now).proposals[id].project_id,
{
    let m = s.enacting_all(ids, now);
    lemma_enacting_all(s, ids, now);
    assert(s.proposals.contains_key(id));
    let p = s.proposals[id].project_id;
    lemma_same_quorums(s, m, id);
    assert(s.meets_quorums(p, s.projects[p], id) == m.meets_quorums(p, m.projects[p], id));
}

/// What the start of a block does to the log: it only grows, by entries of proposals that were
/// scheduled for it and due.
proof fn lemma_log_block_start<T: Config>(s: State<T>, now: T::BlockNumber)
    requires
        s.log_gapless(),
        s.taken(now).appends_fit(s.scheduled_at(now), now),
    ensures
        ({
            let t = s.block_start(now);
            &&& t.log_gapless()
            &&& s.log_is_what_was_enacted() ==> t.log_is_what_was_enacted()
            &&& forall|k: (ProjectId, u32)| #[trigger]
                s.release_log.contains_key(k) ==> t.release_log.contains_key(k)
                    && t.release_log[k] == s.release_log[k]
            &&& forall|p: ProjectId| #[trigger] s.releases(p) <= t.releases(p)
            &&& forall|k: (ProjectId, u32)| #[trigger]
                t.release_log.contains_key(k) && !s.release_log.contains_key(k) ==> {
                    let id = t.release_log[k].proposal_id;
                    &&& s.scheduled_at(now).contains(id)
                    &&& s.is_due(id)
                    &&& s.proposals[id].project_id == k.0
                    &&& t.release_log[k] == s.release_entry(id, now)
                }
        }),
{
    let taken = s.taken(now);
    let t = s.block_start(now);
    assert forall|k: (ProjectId, u32)| #[trigger]
        taken.release_log.contains_key(k) <==> k.1 < taken.releases(k.0) by {
        assert(s.release_log.contains_key(k) <==> k.1 < s.releases(k.0));
    }
    if s.log_is_what_was_enacted() {
        lemma_log_untouched(s, taken);
    }
    lemma_log_enacting_all(taken, s.scheduled_at(now), now);
    assert forall|p: ProjectId| #[trigger] s.releases(p) <= t.releases(p) by {
        assert(s.releases(p) == taken.releases(p));
    }
    assert forall|k: (ProjectId, u32)| #[trigger]
        t.release_log.contains_key(k) && !s.release_log.contains_key(k) implies s.is_due(
        t.release_log[k].proposal_id,
    ) by {
        let id = t.release_log[k].proposal_id;
        assert(taken.is_due(id));
        lemma_same_quorums(s, taken, id);
    }
}

/// The release log is append-only: no request removes or changes an entry of any project's log,
/// and no count falls.
pub proof fn law_log_is_append_only<T: Config>(s: State<T>, request: Request<T>)
    requires
        s.log_gapless(),
        s.has_log_indices_for(request),
    ensures
        forall|k: (ProjectId, u32)| #[trigger]
            s.release_log.contains_key(k) ==> s.step(request).release_log.contains_key(k)
                && s.step(request).release_log[k] == s.release_log[k],
        forall|p: ProjectId| #[trigger] s.releases(p) <= s.step(request).releases(p),
{
    match request {
        Request::ProjectGenesis { stakeholders, .. } => {
            lemma_enrolled(s, s.next_project_id, stakeholders);
        },
        Request::OnInitialize { now } => {
            lemma_log_block_start(s, now);
        },
        _ => {},
    }
}

/// Only the start of a block adds to the log, and what it adds is accepted: a new entry reports a
/// proposal that was scheduled for this block and approved, and whose quorums are met by the
/// tally that stands at this block. It has the version, the commit hash, the binary hash and the
/// address of that proposal, and the number of this block.
pub proof fn law_log_entries_were_accepted<T: Config>(
    s: State<T>,
    request: Request<T>,
    k: (ProjectId, u32),
)
    requires
        s.log_gapless(),
        s.has_log_indices_for(request),
        s.step(request).release_log.contains_key(k),
        !s.release_log.contains_key(k),
    ensures
        request is OnInitialize,
        ({
            let now = request->OnInitialize_now;
            let entry = s.step(request).release_log[k];
            let id = entry.proposal_id;
            &&& s.scheduled_at(now).contains(id)
            &&& s.proposals.contains_key(id)
            &&& s.proposals[id].status is Approved
            &&& s.proposals[id].project_id == k.0
            &&& accepted(s, k.0, s.projects[k.0], id)
            &&& reports(entry, s.proposals[id])
            &&& entry.enacted_at == now
            &&& s.meets_quorums(k.0, s.projects[k.0], id)
            &&& entry == s.release_entry(id, now)
            &&& s.step(request).proposals[id].status is Enacted
        }),
{
    match request {
        Request::ProjectGenesis { stakeholders, .. } => {
            lemma_enrolled(s, s.next_project_id, stakeholders);
        },
        Request::OnInitialize { now } => {
            lemma_log_block_start(s, now);
            lemma_block_start(s, now);
            assert(s.is_due(s.step(request).release_log[k].proposal_id));
            law_quorums_are_the_rule_of_acceptance(
                s,
                k.0,
                s.projects[k.0],
                s.step(request).release_log[k].proposal_id,
            );
        },
        _ => {},
    }
}

/// The start of a block settles every proposal that is approved for it: it is enacted if its
/// quorums are met then, and back under vote otherwise. It leaves all other proposals alone.
pub proof fn law_due_proposals_are_settled<T: Config>(
    s: State<T>,
    now: T::BlockNumber,
    id: ProposalId,
)
    requires
        s.linked(),
        s.scheduled_when_approved(),
        s.proposals.contains_key(id),
    ensures
        s.block_start(now).proposals[id].status == if s.proposals[id].status == (
        ProposalStatus::Approved { enact_at: now }) {
            if accepted(s, s.proposals[id].project_id, s.projects[s.proposals[id].project_id], id) {
                ProposalStatus::Enacted
            } else {
                ProposalStatus::Voting
            }
        } else {
            s.proposals[id].status
        },
        s.block_start(now).scheduled_at(now) == Seq::<ProposalId>::empty(),
{
    lemma_block_start(s, now);
    let p = s.proposals[id].project_id;
    law_quorums_are_the_rule_of_acceptance(s, p, s.projects[p], id);
    assert(s.scheduled_at(now).contains(id) <==> s.proposals.contains_key(id)
        && s.proposals[id].status == (ProposalStatus::Approved { enact_at: now }));
}

/// A proposal is enacted at most once: its enactment leaves alone what is not approved, so a second
/// enactment changes nothing. No log, balance or status moves, and no event is deposited.
pub proof fn law_enactment_happens_once<T: Config>(
    s: State<T>,
    id: ProposalId,
    first: T::BlockNumber,
    second: T::BlockNumber,
)
    ensures
        !(s.proposals.contains_key(id) && s.proposals[id].status is Approved) ==> s.enacting(
            id,
            first,
        ) == s,
        s.enacting(id, first).enacting(id, second) == s.enacting(id, first),
{
}

/// Whether every approved proposal is due at the start of a block that is still to come, where
/// `block` is the one under way.
pub open spec fn nothing_overdue<T: Config>(s: State<T>, block: T::BlockNumber) -> bool {
    forall|id: ProposalId| #[trigger]
        s.proposals.contains_key(id) && s.proposals[id].status is Approved
            ==> s.proposals[id].status->enact_at.value() > block.value()
}

/// Whether a request is made during a block, or starts the block after it.
pub open spec fn follows<T: Config>(request: Request<T>, block: T::BlockNumber) -> bool {
    match request {
        Request::NewRelease { now, .. } => now == block,
        Request::Vote { now, .. } => now == block,
        Request::CloseExpired { now, .. } => now == block,
        Request::OnInitialize { now } => now.value() == block.value() + 1,
        _ => true,
    }
}

/// The block that is under way after a request.
pub open spec fn block_after<T: Config>(
    request: Request<T>,
    block: T::BlockNumber,
) -> T::BlockNumber {
    match request {
        Request::OnInitialize { now } => now,
        _ => block,
    }
}

/// Every approval is settled by the start of a later block: as long as block follows block, no
/// proposal is ever approved for a block whose start is over. What is due at the start of a block
/// is enacted or back under vote after it.
pub proof fn law_every_approval_is_settled<T: Config>(
    s: State<T>,
    request: Request<T>,
    block: T::BlockNumber,
)
    requires
        s.identified(),
        s.linked(),
        s.scheduled_when_approved(),
        nothing_overdue(s, block),
        follows(request, block),
        block.value() < T::BlockNumber::max_value(),
    ensures
        nothing_overdue(s.step(request), block_after(request, block)),
        request is OnInitialize ==> forall|id: ProposalId| #[trigger]
            s.proposals.contains_key(id) && s.proposals[id].status == (ProposalStatus::Approved {
                enact_at: request->OnInitialize_now,
            }) ==> !(s.step(request).proposals[id].status is Approved),
{
    let t = s.step(request);
    if s.outcome(request) is Ok {
        match request {
            Request::ProjectGenesis { stakeholders, .. } => {
                lemma_enrolled(s, s.next_project_id, stakeholders);
                assert(t.proposals == s.proposals);
            },
            Request::NewRelease { origin, now, .. } => {
                let who = origin->Signed_0;
                let proposed = s.proposed(request);
                assert forall|id: ProposalId| #[trigger]
                    proposed.proposals.contains_key(id)
                        && proposed.proposals[id].status is Approved implies
                    proposed.proposals[id].status->enact_at.value() > block.value() by {
                    assert(id != s.next_proposal_id);
                    assert(s.proposals.contains_key(id));
                }
                lemma_overdue_voting(proposed, s.next_proposal_id, who, true, now);
            },
            Request::Vote { origin, proposal_id, aye, now } => {
                lemma_overdue_voting(s, proposal_id, origin->Signed_0, aye, now);
            },
            Request::OnInitialize { now } => {
                lemma_block_start(s, now);
                assert forall|id: ProposalId| #[trigger]
                    t.proposals.contains_key(id) && t.proposals[id].status is Approved implies
                    t.proposals[id].status->enact_at.value() > now.value() by {
                    assert(s.proposals.contains_key(id));
                    law_due_proposals_are_settled(s, now, id);
                    let enact_at = s.proposals[id].status->enact_at;
                    enact_at.value_in_range();
                    now.value_in_range();
                }
                assert forall|id: ProposalId| #[trigger]
                    s.proposals.contains_key(id) && s.proposals[id].status == (
                    ProposalStatus::Approved { enact_at: now }) implies !(
                t.proposals[id].status is Approved) by {
                    law_due_proposals_are_settled(s, now, id);
                }
            },
            _ => {
                assert forall|id: ProposalId| #[trigger]
                    t.proposals.contains_key(id) && t.proposals[id].status is Approved implies
                    t.proposals[id].status->enact_at.value() > block.value() by {
                    assert(s.proposals.contains_key(id));
                }
            },
        }
    }
}

/// A vote approves for a later block only.
proof fn lemma_overdue_voting<T: Config>(
    s: State<T>,
    voted: ProposalId,
    who: T::AccountId,
    aye: bool,
    now: T::BlockNumber,
)
    requires
        s.proposals.contains_key(voted),
        nothing_overdue(s, now),
        now.value() < T::BlockNumber::max_value(),
        s.voting(voted, who, aye, now) is Ok,
    ensures
        nothing_overdue(s.voting(voted, who, aye, now)->Ok_0, now),
{
    let t = s.voting(voted, who, aye, now)->Ok_0;
    assert forall|id: ProposalId| #[trigger]
        t.proposals.contains_key(id) && t.proposals[id].status is Approved implies
        t.proposals[id].status->enact_at.value() > now.value() by {
        assert(s.proposals.contains_key(id));
        if id == voted && s.proposals[id].status is Voting {
            law_enactment_waits_for_the_delay(s, id, who, aye, now);
        }
    }
}

/// The logs stay gapless and stay exactly what was enacted.
pub proof fn lemma_log_kept<T: Config>(s: State<T>, request: Request<T>)
    requires
        s.identified(),
        s.log_gapless(),
        s.log_is_what_was_enacted(),
        s.has_log_indices_for(request),
    ensures
        s.step(request).log_gapless(),
        s.step(request).log_is_what_was_enacted(),
{
    let t = s.step(request);
    match request {
        Request::OnInitialize { now } => {
            lemma_log_block_start(s, now);
        },
        _ => {
            if let Request::ProjectGenesis { stakeholders, .. } = request {
                lemma_enrolled(s, s.next_project_id, stakeholders);
            }
            assert(t.release_log == s.release_log);
            assert(t.release_count == s.release_count);
            assert forall|k: (ProjectId, u32)| #[trigger]
                t.release_log.contains_key(k) <==> k.1 < t.releases(k.0) by {
                assert(s.release_log.contains_key(k) <==> k.1 < s.releases(k.0));
            }
            lemma_log_untouched(s, t);
        },
    }
}

} // verus!
