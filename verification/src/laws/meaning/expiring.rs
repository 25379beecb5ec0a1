//! What closing an expired proposal does.
use crate::config::{CallError, Config, HoldReason, Origin};
use crate::laws::meaning::voting::{same_log, same_registry};
use crate::model::State;
use crate::number::Number;
use crate::types::{Error, Event, ProposalId};
use vstd::prelude::*;

verus! {

/// A proposal can be closed as expired if and only if it is still open for votes after the last
/// block of its voting period. It is refused for the first reason there is, and for no other.
pub proof fn law_expiry_is_refused_for_reasons<T: Config>(
    s: State<T>,
    id: ProposalId,
    now: T::BlockNumber,
)
    ensures
        ({
            let refusal = s.expiry_refusal(id, now);
            let known = s.proposals.contains_key(id);
            let voting = s.proposals[id].status is Voting;
            let over = s.proposals[id].voting_ends.value() < now.value();
            &&& refusal is None <==> known && voting && over
            &&& refusal == Some(Error::ProposalNotFound) <==> !known
            &&& refusal == Some(Error::ProposalNotVoting) <==> known && !voting
            &&& refusal == Some(Error::VotingPeriodNotOver) <==> known && voting && !over
        }),
{
}

/// Any account can close a proposal that is expired: the request succeeds if and only if the
/// proposal can be closed and the token releases the proposer's bond. The proposal is then expired,
/// with its content as it was, the event says so, and nothing else is touched but the books.
pub proof fn law_anyone_closes_expired_proposals<T: Config>(
    s: State<T>,
    origin: Origin<T::AccountId>,
    id: ProposalId,
    now: T::BlockNumber,
)
    ensures
        ({
            let outcome = s.close_expired(origin, id, now);
            let before = s.proposals[id];
            let over = s.proposals.contains_key(id) && before.status is Voting
                && before.voting_ends.value() < now.value();
            let (books, released) = T::release_outcome(
                s.currency,
                HoldReason::ProposalBond,
                before.proposer,
                before.bond,
            );
            &&& outcome is Ok <==> origin is Signed && over && released is Ok
            &&& !(origin is Signed) ==> outcome == Err::<State<T>, CallError>(CallError::BadOrigin)
            &&& origin is Signed && !over ==> outcome == Err::<State<T>, CallError>(
                CallError::Module(s.expiry_refusal(id, now)->Some_0),
            )
            &&& origin is Signed && over && released is Err ==> outcome == Err::<
                State<T>,
                CallError,
            >(CallError::Token(released->Err_0))
            &&& outcome matches Ok(t) ==> {
                let after = t.proposals[id];
                &&& t.proposals.contains_key(id)
                &&& after.status is Expired
                &&& after.project_id == before.project_id
                &&& after.proposer == before.proposer
                &&& after.version == before.version
                &&& after.attestation == before.attestation
                &&& after.attestation_cid == before.attestation_cid
                &&& after.bond == before.bond
                &&& after.submitted_at == before.submitted_at
                &&& after.voting_ends == before.voting_ends
                &&& t.proposals.remove(id) == s.proposals.remove(id)
                &&& t.currency == books
                &&& t.events == s.events.push(Event::ProposalExpired { proposal_id: id })
                &&& same_registry(s, t)
                &&& same_log(s, t)
                &&& t.next_proposal_id == s.next_proposal_id
                &&& t.votes == s.votes
                &&& t.tallies == s.tallies
                &&& t.counter_attestations == s.counter_attestations
                &&& t.pending_enactments == s.pending_enactments
            }
        }),
{
    if s.close_expired(origin, id, now) is Ok {
        let t = s.close_expired(origin, id, now)->Ok_0;
        assert(t.proposals.remove(id) =~= s.proposals.remove(id));
    }
}

} // verus!
