//! What a release proposal does.
use crate::bounded::{role_quorums, VersionLimit};
use crate::config::{CallError, Config, HoldReason, Origin};
use crate::laws::meaning::readings::{
    accepted_after, digests, is_due_block, law_numbers_saturate,
    law_payload_is_the_digests_in_order, listed, stake_behind, stake_behind_after, stake_in,
};
use crate::laws::meaning::voting::{
    law_castable_votes_succeed, law_votes_are_counted, same_log, same_registry, schedule_followed,
    status_after, vote_counted, vote_events,
};
use crate::model::State;
use crate::number::Number;
use crate::types::{
    BuildAttestation, Error, Event, Hash32, ProjectId, Proposal, ProposalId, ProposalStatus, Role,
};
use frame_support::BoundedVec;
use vstd::prelude::*;

verus! {

/// Whether an account can propose a release of a project: it is a Core Developer of the project,
/// the builder is one of its Build Services, and the signature is the builder's, over the digests
/// of the attestation.
pub open spec fn can_propose<T: Config>(
    s: State<T>,
    who: T::AccountId,
    p: ProjectId,
    attestation: BuildAttestation<T::AccountId>,
    signature: T::Signature,
) -> bool {
    &&& s.projects.contains_key(p)
    &&& s.stakeholders.contains_key((p, who))
    &&& s.stakeholders[(p, who)].role == Role::CoreDeveloper
    &&& s.stakeholders.contains_key((p, attestation.builder))
    &&& s.stakeholders[(p, attestation.builder)].role == Role::BuildService
    &&& T::is_signature(signature, digests(attestation), attestation.builder)
}

/// Whether a proposal is the one that was submitted, whatever its status.
pub open spec fn is_as_submitted<T: Config>(
    s: State<T>,
    proposal: Proposal<T::AccountId, T::Balance, T::BlockNumber>,
    who: T::AccountId,
    p: ProjectId,
    version: BoundedVec<u8, VersionLimit>,
    attestation: BuildAttestation<T::AccountId>,
    attestation_cid: Hash32,
    now: T::BlockNumber,
) -> bool {
    let ends = now.value() + s.projects[p].policy.voting_period.value();
    &&& proposal.project_id == p
    &&& proposal.proposer == who
    &&& proposal.version == version
    &&& proposal.attestation.source_commit_hash == attestation.source_commit_hash
    &&& proposal.attestation.source_tree_hash == attestation.source_tree_hash
    &&& proposal.attestation.build_environment_hash == attestation.build_environment_hash
    &&& proposal.attestation.output_binary_hash == attestation.output_binary_hash
    &&& proposal.attestation.builder == attestation.builder
    &&& proposal.attestation_cid == attestation_cid
    &&& proposal.bond == s.projects[p].proposal_bond
    &&& proposal.submitted_at == now
    &&& proposal.voting_ends.value() == if ends > T::BlockNumber::max_value() {
        T::BlockNumber::max_value()
    } else {
        ends
    }
}

/// A release proposal is refused for the first reason there is, and for no other.
pub proof fn law_proposals_are_refused_for_reasons<T: Config>(
    s: State<T>,
    who: T::AccountId,
    p: ProjectId,
    builder: T::AccountId,
    verified: bool,
)
    ensures
        ({
            let refusal = s.release_refusal(who, p, builder, verified);
            let known = s.projects.contains_key(p);
            let registered = s.stakeholders.contains_key((p, who));
            let core = s.stakeholders[(p, who)].role == Role::CoreDeveloper;
            let built = s.stakeholders.contains_key((p, builder))
                && s.stakeholders[(p, builder)].role == Role::BuildService;
            &&& refusal is None <==> known && registered && core && built && verified
            &&& refusal == Some(Error::ProjectNotFound) <==> !known
            &&& refusal == Some(Error::NotStakeholder) <==> known && !registered
            &&& refusal == Some(Error::NotCoreDeveloper) <==> known && registered && !core
            &&& refusal == Some(Error::NotBuildService) <==> known && registered && core && !built
            &&& refusal == Some(Error::InvalidBuilderSignature) <==> known && registered && core
                && built && !verified
        }),
{
}

/// What is recorded of a proposal whose bond is on hold: a new identifier, what was submitted, and
/// the proposer's aye, with what comes of it. Nothing else is touched.
pub open spec fn proposal_recorded<T: Config>(
    s: State<T>,
    t: State<T>,
    who: T::AccountId,
    p: ProjectId,
    version: BoundedVec<u8, VersionLimit>,
    attestation: BuildAttestation<T::AccountId>,
    attestation_cid: Hash32,
    now: T::BlockNumber,
    enact_at: T::BlockNumber,
) -> bool {
    let id = s.next_proposal_id;
    let voter = s.stakeholders[(p, who)];
    let met = accepted_after(s, p, s.projects[p], id, who, true);
    let recorded = t.proposals[id];
    &&& t.next_proposal_id == if id == u32::MAX {
        id as int
    } else {
        id + 1
    }
    &&& t.proposals.contains_key(id)
    &&& t.proposals.remove(id) == s.proposals.remove(id)
    &&& is_as_submitted(s, recorded, who, p, version, attestation, attestation_cid, now)
    &&& recorded.status == status_after(
        ProposalStatus::<T::BlockNumber>::Voting,
        met,
        enact_at,
    )
    &&& vote_counted(s, t, p, id, who, true)
    &&& schedule_followed(
        s,
        t,
        id,
        ProposalStatus::<T::BlockNumber>::Voting,
        recorded.status,
    )
    &&& t.events == vote_events(
        s.events.push(
            Event::ReleaseProposed {
                proposal_id: id,
                project_id: p,
                proposer: who,
                version,
                source_commit_hash: attestation.source_commit_hash,
                output_binary_hash: attestation.output_binary_hash,
                attestation_cid,
                voting_ends: recorded.voting_ends,
            },
        ),
        id,
        who,
        true,
        voter.role,
        voter.stake,
        ProposalStatus::<T::BlockNumber>::Voting,
        recorded.status,
    )
    &&& same_registry(s, t)
    &&& same_log(s, t)
    &&& t.counter_attestations == s.counter_attestations
}

/// Whether a release proposal would be approved at once, for a block that has no place left for it.
pub open spec fn finds_no_place_at_once<T: Config>(
    s: State<T>,
    who: T::AccountId,
    p: ProjectId,
    enact_at: T::BlockNumber,
) -> bool {
    &&& accepted_after(s, p, s.projects[p], s.next_proposal_id, who, true)
    &&& listed(s, enact_at).len() >= 32
}

/// A release proposal with its bond on hold is recorded as it was submitted, and its submission
/// counts as the proposer's aye. It fails only where it would be approved at once and the block has
/// no place left.
pub proof fn law_proposals_are_recorded_as_submitted<T: Config>(
    s: State<T>,
    who: T::AccountId,
    p: ProjectId,
    version: BoundedVec<u8, VersionLimit>,
    attestation: BuildAttestation<T::AccountId>,
    attestation_cid: Hash32,
    now: T::BlockNumber,
    enact_at: T::BlockNumber,
)
    requires
        is_due_block(enact_at, now, s.projects[p].policy.enactment_delay),
    ensures
        ({
            let outcome = s.proposing(who, p, version, attestation, attestation_cid, now);
            &&& outcome is Ok <==> !finds_no_place_at_once(s, who, p, enact_at)
            &&& outcome matches Err(e) ==> e == Error::TooManyEnactments
            &&& outcome matches Ok(t) ==> proposal_recorded(
                s,
                t,
                who,
                p,
                version,
                attestation,
                attestation_cid,
                now,
                enact_at,
            ) && t.currency == s.currency
        }),
{
    let id = s.next_proposal_id;
    let m = s.with_proposal(who, p, version, attestation, attestation_cid, now);
    law_numbers_saturate(now, s.projects[p].policy.voting_period);
    assert(m.proposals[id].project_id == p);
    lemma_same_ballots(s, m, p, id, who);
    law_castable_votes_succeed(m, id, who, true, now, enact_at);
    if m.voting(id, who, true, now) is Ok {
        law_votes_are_counted(m, id, who, true, now, enact_at);
        let t = m.voting(id, who, true, now)->Ok_0;
        assert(t.proposals.remove(id) =~= s.proposals.remove(id));
        assert(listed(m, enact_at) == listed(s, enact_at));
        assert forall|r: Role, side: bool| #[trigger]
            stake_behind(t, id, r, side) == stake_behind_after(s, p, id, who, true, r, side) by {
            assert(stake_behind(t, id, r, side) == stake_behind_after(
                m,
                p,
                id,
                who,
                true,
                r,
                side,
            ));
            assert(stake_behind(m, id, r, side) == stake_behind(s, id, r, side));
        }
    }
}

/// States with the same registry, tallies and votes count a vote alike.
proof fn lemma_same_ballots<T: Config>(
    s: State<T>,
    m: State<T>,
    p: ProjectId,
    id: ProposalId,
    who: T::AccountId,
)
    requires
        m.stakeholders == s.stakeholders,
        m.role_stake == s.role_stake,
        m.tallies == s.tallies,
        m.votes == s.votes,
    ensures
        accepted_after(m, p, s.projects[p], id, who, true) == accepted_after(
            s,
            p,
            s.projects[p],
            id,
            who,
            true,
        ),
{
    let required = role_quorums(s.projects[p].policy.required_roles);
    assert forall|i: int| 0 <= i < required.len() implies stake_in(
        m,
        p,
        (#[trigger] required[i]).role,
    ) == stake_in(s, p, required[i].role) && stake_behind_after(
        m,
        p,
        id,
        who,
        true,
        required[i].role,
        true,
    ) == stake_behind_after(s, p, id, who, true, required[i].role, true) by {
        assert(stake_behind(m, id, required[i].role, true) == stake_behind(
            s,
            id,
            required[i].role,
            true,
        ));
    }
}

/// A request to propose a release succeeds if and only if a Core Developer of the project signed
/// it, the attestation is signed by a Build Service of the project, the proposer's bond can be
/// held, and the proposal finds its place where it is approved at once. Whatever fails is the
/// answer.
pub proof fn law_releases_are_proposed_by_core_developers<T: Config>(
    s: State<T>,
    origin: Origin<T::AccountId>,
    p: ProjectId,
    version: BoundedVec<u8, VersionLimit>,
    attestation: BuildAttestation<T::AccountId>,
    attestation_cid: Hash32,
    signature: T::Signature,
    now: T::BlockNumber,
    enact_at: T::BlockNumber,
)
    requires
        is_due_block(enact_at, now, s.projects[p].policy.enactment_delay),
    ensures
        ({
            let outcome = s.new_release(
                origin,
                p,
                version,
                attestation,
                attestation_cid,
                signature,
                now,
            );
            match origin {
                Origin::Signed(who) => {
                    let able = can_propose(s, who, p, attestation, signature);
                    let held = T::hold_outcome(
                        s.currency,
                        HoldReason::ProposalBond,
                        who,
                        s.projects[p].proposal_bond,
                    ).1;
                    let crowded = finds_no_place_at_once(s, who, p, enact_at);
                    &&& outcome is Ok <==> able && held is Ok && !crowded
                    &&& !able ==> outcome == Err::<State<T>, CallError>(
                        CallError::Module(
                            s.release_refusal(
                                who,
                                p,
                                attestation.builder,
                                T::is_signature(
                                    signature,
                                    digests(attestation),
                                    attestation.builder,
                                ),
                            )->Some_0,
                        ),
                    )
                    &&& able && held is Err ==> outcome == Err::<State<T>, CallError>(
                        CallError::Token(held->Err_0),
                    )
                    &&& able && held is Ok && crowded ==> outcome == Err::<State<T>, CallError>(
                        CallError::Module(Error::TooManyEnactments),
                    )
                },
                _ => outcome == Err::<State<T>, CallError>(CallError::BadOrigin),
            }
        }),
{
    law_payload_is_the_digests_in_order(attestation);
    if origin is Signed {
        let who = origin->Signed_0;
        let m = s.bonded(who, p);
        lemma_same_ballots(s, m, p, s.next_proposal_id, who);
        law_proposals_are_recorded_as_submitted(
            m,
            who,
            p,
            version,
            attestation,
            attestation_cid,
            now,
            enact_at,
        );
        assert(listed(m, enact_at) == listed(s, enact_at));
    }
}

/// After a request that proposes a release, the proposal under the new identifier is exactly what
/// was submitted, field by field, with the sender as proposer, the bond of the project, and the
/// end of its voting period. The digests on record are those that the builder signed. The bond is
/// on hold, the sender's aye is counted, and nothing else is touched.
pub proof fn law_releases_are_recorded_as_submitted<T: Config>(
    s: State<T>,
    who: T::AccountId,
    p: ProjectId,
    version: BoundedVec<u8, VersionLimit>,
    attestation: BuildAttestation<T::AccountId>,
    attestation_cid: Hash32,
    signature: T::Signature,
    now: T::BlockNumber,
    enact_at: T::BlockNumber,
)
    requires
        is_due_block(enact_at, now, s.projects[p].policy.enactment_delay),
        s.new_release(
            Origin::Signed(who),
            p,
            version,
            attestation,
            attestation_cid,
            signature,
            now,
        ) is Ok,
    ensures
        ({
            let t = s.new_release(
                Origin::Signed(who),
                p,
                version,
                attestation,
                attestation_cid,
                signature,
                now,
            )->Ok_0;
            let recorded = t.proposals[s.next_proposal_id];
            &&& proposal_recorded(
                s,
                t,
                who,
                p,
                version,
                attestation,
                attestation_cid,
                now,
                enact_at,
            )
            &&& T::is_signature(
                signature,
                digests(recorded.attestation),
                recorded.attestation.builder,
            )
            &&& t.currency == T::hold_outcome(
                s.currency,
                HoldReason::ProposalBond,
                who,
                recorded.bond,
            ).0
        }),
{
    law_payload_is_the_digests_in_order(attestation);
    let m = s.bonded(who, p);
    let id = s.next_proposal_id;
    lemma_same_ballots(s, m, p, id, who);
    law_proposals_are_recorded_as_submitted(
        m,
        who,
        p,
        version,
        attestation,
        attestation_cid,
        now,
        enact_at,
    );
    let t = m.proposing(who, p, version, attestation, attestation_cid, now)->Ok_0;
    assert(listed(m, enact_at) == listed(s, enact_at));
    assert(t.proposals[id].attestation == attestation);
    assert forall|r: Role, side: bool| #[trigger]
        stake_behind(t, id, r, side) == stake_behind_after(s, p, id, who, true, r, side) by {
        assert(stake_behind(t, id, r, side) == stake_behind_after(m, p, id, who, true, r, side));
        assert(stake_behind(m, id, r, side) == stake_behind(s, id, r, side));
    }
}

} // verus!
