//! What can happen to a proposal.
use crate::config::Config;
use crate::laws::effects::{lemma_block_start, lemma_enrolled, same_content};
use crate::model::{enactment_block, Request, State};
use crate::number::{capped_sum, lemma_values, Number};
use crate::types::{ProposalId, ProposalStatus};
use vstd::prelude::*;

verus! {

/// Whether one request can take a proposal from one status to another. From `Enacted`, `Rejected`
/// and `Expired` there is no way out.
pub open spec fn can_become<N>(from: ProposalStatus<N>, to: ProposalStatus<N>) -> bool {
    ||| to == from
    ||| from is Voting && (to is Approved || to is Rejected || to is Expired)
    ||| from is Approved && (to is Voting || to is Enacted || to is Rejected)
}

/// A proposal is never removed, and nothing about it but its status ever changes.
pub proof fn law_proposals_keep_their_content<T: Config>(
    s: State<T>,
    request: Request<T>,
    id: ProposalId,
)
    requires
        s.identified(),
        s.proposals.contains_key(id),
    ensures
        s.step(request).proposals.contains_key(id),
        same_content(s.proposals[id], s.step(request).proposals[id]),
{
    lemma_history(s, request, id);
}

/// The status of a proposal moves along its life cycle only. In particular what is enacted,
/// rejected or expired stays so.
pub proof fn law_statuses_follow_the_life_cycle<T: Config>(
    s: State<T>,
    request: Request<T>,
    id: ProposalId,
)
    requires
        s.identified(),
        s.proposals.contains_key(id),
    ensures
        can_become(s.proposals[id].status, s.step(request).proposals[id].status),
{
    lemma_history(s, request, id);
}

/// Every change of a proposal's status has its one cause: a vote on it approves it or takes the
/// approval back, the start of the block for which it is scheduled enacts it or takes the approval
/// back, a counter-attestation against it rejects it, and closing it after its voting period makes
/// it expire.
pub proof fn law_status_changes_have_causes<T: Config>(
    s: State<T>,
    request: Request<T>,
    id: ProposalId,
)
    requires
        s.identified(),
        s.proposals.contains_key(id),
        s.step(request).proposals[id].status != s.proposals[id].status,
    ensures
        match s.step(request).proposals[id].status {
            ProposalStatus::Approved { .. } => request is Vote && request->Vote_proposal_id == id,
            ProposalStatus::Voting => {
                ||| request is Vote && request->Vote_proposal_id == id
                ||| request is OnInitialize && s.scheduled_at(
                    request->OnInitialize_now,
                ).contains(id)
            },
            ProposalStatus::Enacted => request is OnInitialize && s.scheduled_at(
                request->OnInitialize_now,
            ).contains(id),
            ProposalStatus::Rejected => request is SubmitCounterAttestation
                && request->SubmitCounterAttestation_proposal_id == id,
            ProposalStatus::Expired => {
                &&& request is CloseExpired
                &&& request->CloseExpired_proposal_id == id
                &&& request->CloseExpired_now.value() > s.proposals[id].voting_ends.value()
            },
        },
{
    match request {
        Request::ProjectGenesis { stakeholders, .. } => {
            lemma_enrolled(s, s.next_project_id, stakeholders);
        },
        Request::OnInitialize { now } => {
            lemma_block_start(s, now);
        },
        _ => {},
    }
}

/// A proposal that a vote at block `now` gets approved is due when the enactment delay of its
/// project's policy is over, counted from `now`, and at the next block at the earliest.
pub proof fn law_enactment_waits_for_the_delay<T: Config>(
    s: State<T>,
    id: ProposalId,
    who: T::AccountId,
    aye: bool,
    now: T::BlockNumber,
)
    requires
        s.voting(id, who, aye, now) is Ok,
        s.proposals[id].status is Voting,
        s.voting(id, who, aye, now)->Ok_0.proposals[id].status is Approved,
    ensures
        ({
            let delay = s.projects[s.proposals[id].project_id].policy.enactment_delay;
            let enact_at = enactment_block(now, delay);
            &&& s.voting(id, who, aye, now)->Ok_0.proposals[id].status == (
            ProposalStatus::Approved { enact_at })
            &&& delay.value() > 0 ==> enact_at.value() == capped_sum(
                now.value(),
                delay.value(),
                T::BlockNumber::max_value(),
            )
            &&& now.value() < T::BlockNumber::max_value() ==> enact_at.value() > now.value()
        }),
{
    let delay = s.projects[s.proposals[id].project_id].policy.enactment_delay;
    lemma_values(now, delay);
    lemma_values(now, T::BlockNumber::of(1));
}

/// No event is ever taken back.
pub proof fn law_events_are_append_only<T: Config>(s: State<T>, request: Request<T>)
    ensures
        s.events.is_prefix_of(s.step(request).events),
{
    let t = s.step(request);
    match request {
        Request::ProjectGenesis { stakeholders, .. } => {
            lemma_enrolled(s, s.next_project_id, stakeholders);
            if s.outcome(request) is Ok {
                let enrolled = s.enrolling_all(s.next_project_id, stakeholders)->Ok_0;
                assert forall|i: int| 0 <= i < s.events.len() implies s.events[i]
                    == t.events[i] by {
                    assert(enrolled.events.take(s.events.len() as int)[i] == s.events[i]);
                }
            }
        },
        Request::OnInitialize { now } => {
            lemma_events_enacting_all(s.taken(now), s.scheduled_at(now), now);
        },
        _ => {},
    }
    assert(s.events =~= t.events.subrange(0, s.events.len() as int));
}

/// The enactments of a block take no event back.
proof fn lemma_events_enacting_all<T: Config>(
    s: State<T>,
    ids: Seq<ProposalId>,
    now: T::BlockNumber,
)
    ensures
        s.events.len() <= s.enacting_all(ids, now).events.len(),
        forall|i: int|
            0 <= i < s.events.len() ==> #[trigger] s.enacting_all(ids, now).events[i]
                == s.events[i],
    decreases ids.len(),
{
    if ids.len() > 0 {
        lemma_events_enacting_all(s, ids.drop_last(), now);
    }
}

proof fn lemma_history<T: Config>(s: State<T>, request: Request<T>, id: ProposalId)
    requires
        s.identified(),
        s.proposals.contains_key(id),
    ensures
        s.step(request).proposals.contains_key(id),
        same_content(s.proposals[id], s.step(request).proposals[id]),
        can_become(s.proposals[id].status, s.step(request).proposals[id].status),
{
    match request {
        Request::ProjectGenesis { stakeholders, .. } => {
            lemma_enrolled(s, s.next_project_id, stakeholders);
        },
        Request::OnInitialize { now } => {
            lemma_block_start(s, now);
        },
        _ => {},
    }
}

} // verus!
