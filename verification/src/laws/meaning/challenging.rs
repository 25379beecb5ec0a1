//! What a counter-attestation does.
use crate::config::{CallError, Config, HoldReason, Origin};
use crate::laws::meaning::readings::{
    law_numbers_saturate, law_others_keep_their_order, law_records_read_as_they_stand,
    law_shares_are_rounded_down, listed, stake_behind, stake_in, taken_out,
};
use crate::laws::meaning::voting::same_log;
use crate::model::State;
use crate::number::{lemma_value_of, Number};
use crate::perbill::{lemma_share_at_most, share};
use crate::types::{Error, Event, Hash32, ProjectId, ProposalId, ProposalStatus, Role};
use vstd::prelude::*;

verus! {

/// Whether an account can challenge a proposal with the hash of a rebuild: the account is a
/// stakeholder of the project, of whatever role, and not the builder; the hash is another than the
/// attested one; the proposal is voting or awaits its enactment; and the builder is registered.
pub open spec fn can_challenge<T: Config>(
    s: State<T>,
    who: T::AccountId,
    id: ProposalId,
    rebuilt: Hash32,
) -> bool {
    let proposal = s.proposals[id];
    &&& s.proposals.contains_key(id)
    &&& s.projects.contains_key(proposal.project_id)
    &&& s.stakeholders.contains_key((proposal.project_id, who))
    &&& who != proposal.attestation.builder
    &&& rebuilt != proposal.attestation.output_binary_hash
    &&& proposal.status is Voting || proposal.status is Approved
    &&& s.stakeholders.contains_key((proposal.project_id, proposal.attestation.builder))
}

/// Whether `due` is the negligence slash of a proposal's builder: so many billionths of its stake
/// as the project's `sigma_neg` has, rounded down.
pub open spec fn is_slash_due<T: Config>(s: State<T>, id: ProposalId, due: T::Balance) -> bool {
    let proposal = s.proposals[id];
    let stake = s.stakeholders[(proposal.project_id, proposal.attestation.builder)].stake.value();
    let parts = s.projects[proposal.project_id].slashing.sigma_neg@ * stake;
    due.value() * 1_000_000_000 <= parts < (due.value() + 1) * 1_000_000_000
}

/// The number that is left when `b` is taken from `a`, or nothing.
pub open spec fn left_of(a: nat, b: nat) -> nat {
    if a < b {
        0
    } else {
        (a - b) as nat
    }
}

/// Whether the vote of a builder counts on one side of an open proposal of a project.
pub open spec fn stands_behind<T: Config>(
    s: State<T>,
    p: ProjectId,
    builder: T::AccountId,
    id: ProposalId,
    side: bool,
) -> bool {
    &&& s.proposals.contains_key(id)
    &&& s.proposals[id].project_id == p
    &&& s.proposals[id].status is Voting || s.proposals[id].status is Approved
    &&& s.votes.contains_key((id, builder))
    &&& s.votes[(id, builder)] == side
}

/// Whether `slashed` is gone from a builder's stake between two states, in the registry, in the
/// stake of its role, and behind each of its votes that still counts. No other stake or tally
/// changes.
pub open spec fn stake_slashed<T: Config>(
    s: State<T>,
    t: State<T>,
    p: ProjectId,
    builder: T::AccountId,
    slashed: T::Balance,
) -> bool {
    let key = (p, builder);
    let role = (p, Role::BuildService);
    &&& t.stakeholders.contains_key(key)
    &&& t.stakeholders[key].role == s.stakeholders[key].role
    &&& t.stakeholders[key].stake.value() == left_of(
        s.stakeholders[key].stake.value(),
        slashed.value(),
    )
    &&& t.stakeholders.remove(key) == s.stakeholders.remove(key)
    &&& stake_in(t, p, Role::BuildService) == left_of(
        stake_in(s, p, Role::BuildService),
        slashed.value(),
    )
    &&& t.role_stake.contains_key(role)
    &&& t.role_stake.remove(role) == s.role_stake.remove(role)
    &&& t.tallies.dom() == s.tallies.dom()
    &&& forall|id: ProposalId, r: Role, side: bool| #[trigger]
        stake_behind(t, id, r, side) == if r == Role::BuildService && stands_behind(
            s,
            p,
            builder,
            id,
            side,
        ) {
            left_of(stake_behind(s, id, r, side), slashed.value())
        } else {
            stake_behind(s, id, r, side)
        }
}

/// Whether a counter-attestation is what was recorded between two states: the proposal is rejected,
/// and off its list where it was on one; the report holds both hashes; the slash is taken; and
/// three events say so. Nothing else is touched but the books.
pub open spec fn rejection_recorded<T: Config>(
    s: State<T>,
    t: State<T>,
    who: T::AccountId,
    id: ProposalId,
    rebuilt: Hash32,
    slashed: T::Balance,
) -> bool {
    let before = s.proposals[id];
    let after = t.proposals[id];
    let p = before.project_id;
    let builder = before.attestation.builder;
    let report = t.counter_attestations[id];
    &&& t.proposals.contains_key(id)
    &&& after.status is Rejected
    &&& after.project_id == before.project_id
    &&& after.proposer == before.proposer
    &&& after.version == before.version
    &&& after.attestation == before.attestation
    &&& after.attestation_cid == before.attestation_cid
    &&& after.bond == before.bond
    &&& after.submitted_at == before.submitted_at
    &&& after.voting_ends == before.voting_ends
    &&& t.proposals.remove(id) == s.proposals.remove(id)
    &&& match before.status {
        ProposalStatus::Approved { enact_at } => {
            &&& taken_out(listed(s, enact_at), id, listed(t, enact_at))
            &&& t.pending_enactments.remove(enact_at) == s.pending_enactments.remove(enact_at)
        },
        _ => t.pending_enactments == s.pending_enactments,
    }
    &&& t.counter_attestations.contains_key(id)
    &&& report.challenger == who
    &&& report.attested_binary_hash == before.attestation.output_binary_hash
    &&& report.rebuilt_binary_hash == rebuilt
    &&& t.counter_attestations.remove(id) == s.counter_attestations.remove(id)
    &&& stake_slashed(s, t, p, builder, slashed)
    &&& t.events == s.events.push(
        Event::CounterAttestationAccepted {
            proposal_id: id,
            challenger: who,
            attested_binary_hash: before.attestation.output_binary_hash,
            rebuilt_binary_hash: rebuilt,
        },
    ).push(
        Event::BuildServiceSlashed {
            project_id: p,
            builder,
            amount: slashed,
            remaining_stake: t.stakeholders[(p, builder)].stake,
        },
    ).push(Event::ProposalRejected { proposal_id: id })
    &&& same_log(s, t)
    &&& t.next_project_id == s.next_project_id
    &&& t.next_proposal_id == s.next_proposal_id
    &&& t.projects == s.projects
    &&& t.votes == s.votes
}

/// A counter-attestation is refused for the first reason there is, and for no other. The role of
/// the stakeholder that sends it is no reason.
pub proof fn law_challenges_are_refused_for_reasons<T: Config>(
    s: State<T>,
    who: T::AccountId,
    id: ProposalId,
    rebuilt: Hash32,
)
    ensures
        ({
            let refusal = s.challenge_refusal(who, id, rebuilt);
            let known = s.proposals.contains_key(id);
            let proposal = s.proposals[id];
            let p = proposal.project_id;
            let builder = proposal.attestation.builder;
            let project_known = known && s.projects.contains_key(p);
            let registered = project_known && s.stakeholders.contains_key((p, who));
            let other = registered && who != builder;
            let differs = other && rebuilt != proposal.attestation.output_binary_hash;
            let closed = proposal.status is Enacted || proposal.status is Rejected
                || proposal.status is Expired;
            &&& refusal is None <==> can_challenge(s, who, id, rebuilt)
            &&& refusal == Some(Error::ProposalNotFound) <==> !known
            &&& refusal == Some(Error::ProjectNotFound) <==> known && !project_known
            &&& refusal == Some(Error::NotStakeholder) <==> project_known && !registered
            &&& refusal == Some(Error::BuilderCannotChallenge) <==> registered && !other
            &&& refusal == Some(Error::NoDiscrepancy) <==> other && !differs
            &&& refusal == Some(Error::ProposalNotChallengeable) <==> differs && closed
            &&& refusal == Some(Error::NotBuildService) <==> differs && !closed
                && !s.stakeholders.contains_key((p, builder))
        }),
{
}

/// What an accepted counter-attestation leaves on record.
pub proof fn law_rejections_are_recorded<T: Config>(
    s: State<T>,
    who: T::AccountId,
    id: ProposalId,
    rebuilt: Hash32,
    slashed: T::Balance,
)
    ensures
        rejection_recorded(
            s,
            s.with_rejection(who, id, rebuilt, slashed),
            who,
            id,
            rebuilt,
            slashed,
        ),
        s.with_rejection(who, id, rebuilt, slashed).currency == s.currency,
{
    let t = s.with_rejection(who, id, rebuilt, slashed);
    let before = s.proposals[id];
    let p = before.project_id;
    let builder = before.attestation.builder;
    let key = (p, builder);
    let role = (p, Role::BuildService);
    law_records_read_as_they_stand(s, p, id, Role::BuildService, who, T::BlockNumber::of(0));
    law_numbers_saturate(s.stakeholders[key].stake, slashed);
    law_numbers_saturate(s.stake_of_role(p, Role::BuildService), slashed);
    assert(t.proposals.remove(id) =~= s.proposals.remove(id));
    assert(t.stakeholders.remove(key) =~= s.stakeholders.remove(key));
    assert(t.role_stake.remove(role) =~= s.role_stake.remove(role));
    assert(t.counter_attestations.remove(id) =~= s.counter_attestations.remove(id));
    assert(t.tallies.dom() =~= s.tallies.dom());
    assert forall|j: ProposalId, r: Role, side: bool| #[trigger]
        stake_behind(t, j, r, side) == (if r == Role::BuildService && stands_behind(
            s,
            p,
            builder,
            j,
            side,
        ) {
            left_of(stake_behind(s, j, r, side), slashed.value())
        } else {
            stake_behind(s, j, r, side)
        }) by {
        assert(t.tallies.dom().contains((j, r)) == s.tallies.dom().contains((j, r)));
        if s.tallies.contains_key((j, r)) {
            law_numbers_saturate(s.tallies[(j, r)].ayes, slashed);
            law_numbers_saturate(s.tallies[(j, r)].nays, slashed);
        }
    }
    match before.status {
        ProposalStatus::Approved { enact_at } => {
            law_others_keep_their_order(listed(s, enact_at), id);
            assert(t.pending_enactments.remove(enact_at) =~= s.pending_enactments.remove(
                enact_at,
            ));
        },
        _ => {},
    }
}

/// The negligence slash is the share of the builder's stake that the project's `sigma_neg` says,
/// and it is one amount only.
pub proof fn law_slash_is_a_share_of_the_stake<T: Config>(s: State<T>, id: ProposalId)
    ensures
        is_slash_due(s, id, s.slash_due(id)),
        forall|due: T::Balance| #[trigger] is_slash_due(s, id, due) ==> due == s.slash_due(id),
{
    let proposal = s.proposals[id];
    let stake = s.stakeholders[(proposal.project_id, proposal.attestation.builder)].stake;
    let sigma = s.projects[proposal.project_id].slashing.sigma_neg;
    sigma.lemma_at_most_whole();
    stake.value_in_range();
    lemma_share_at_most(sigma@, stake.value());
    lemma_value_of::<T::Balance>(share(sigma@, stake.value()));
    law_shares_are_rounded_down(sigma@, stake.value());
    assert forall|due: T::Balance| #[trigger] is_slash_due(s, id, due) implies due == s.slash_due(
        id,
    ) by {
        law_numbers_saturate(due, s.slash_due(id));
    }
}

/// A counter-attestation succeeds if and only if a stakeholder signed it that can challenge the
/// proposal, and the token burns of the builder's stake and releases the proposer's bond. Whatever
/// fails is the answer. In particular no stakeholder but the builder is turned away for its role.
pub proof fn law_discrepancies_are_slashed<T: Config>(
    s: State<T>,
    origin: Origin<T::AccountId>,
    id: ProposalId,
    rebuilt: Hash32,
    due: T::Balance,
)
    requires
        is_slash_due(s, id, due),
    ensures
        ({
            let outcome = s.challenge(origin, id, rebuilt);
            let proposal = s.proposals[id];
            let (burned_books, burned) = T::burn_held_outcome(
                s.currency,
                HoldReason::Stake,
                proposal.attestation.builder,
                due,
            );
            let (books, released) = T::release_outcome(
                burned_books,
                HoldReason::ProposalBond,
                proposal.proposer,
                proposal.bond,
            );
            match origin {
                Origin::Signed(who) => {
                    let able = can_challenge(s, who, id, rebuilt);
                    &&& outcome is Ok <==> able && burned is Ok && released is Ok
                    &&& outcome matches Ok(t) ==> rejection_recorded(
                        s,
                        t,
                        who,
                        id,
                        rebuilt,
                        burned->Ok_0,
                    ) && t.currency == books
                    &&& !able ==> outcome == Err::<State<T>, CallError>(
                        CallError::Module(s.challenge_refusal(who, id, rebuilt)->Some_0),
                    )
                    &&& able && burned is Err ==> outcome == Err::<State<T>, CallError>(
                        CallError::Token(burned->Err_0),
                    )
                    &&& able && burned is Ok && released is Err ==> outcome == Err::<
                        State<T>,
                        CallError,
                    >(CallError::Token(released->Err_0))
                },
                _ => outcome == Err::<State<T>, CallError>(CallError::BadOrigin),
            }
        }),
{
    law_slash_is_a_share_of_the_stake(s, id);
    let proposal = s.proposals[id];
    let (burned_books, burned) = T::burn_held_outcome(
        s.currency,
        HoldReason::Stake,
        proposal.attestation.builder,
        due,
    );
    let (books, released) = T::release_outcome(
        burned_books,
        HoldReason::ProposalBond,
        proposal.proposer,
        proposal.bond,
    );
    if origin is Signed && s.challenge(origin, id, rebuilt) is Ok {
        let who = origin->Signed_0;
        let m = State { currency: books, ..s };
        let t = m.with_rejection(who, id, rebuilt, burned->Ok_0);
        let p = proposal.project_id;
        let builder = proposal.attestation.builder;
        law_rejections_are_recorded(m, who, id, rebuilt, burned->Ok_0);
        assert(stake_in(m, p, Role::BuildService) == stake_in(s, p, Role::BuildService));
        assert forall|j: ProposalId, r: Role, side: bool| #[trigger]
            stake_behind(t, j, r, side) == (if r == Role::BuildService && stands_behind(
                s,
                p,
                builder,
                j,
                side,
            ) {
                left_of(stake_behind(s, j, r, side), (burned->Ok_0).value())
            } else {
                stake_behind(s, j, r, side)
            }) by {
            assert(stake_behind(m, j, r, side) == stake_behind(s, j, r, side));
            assert(stands_behind(m, p, builder, j, side) == stands_behind(s, p, builder, j, side));
        }
        if proposal.status is Approved {
            let enact_at = proposal.status->enact_at;
            assert(listed(m, enact_at) == listed(s, enact_at));
        }
    }
}

} // verus!
