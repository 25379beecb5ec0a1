//! How the records are read, and the arithmetic on them.
use crate::bounded::{role_quorums, without};
use crate::config::{CallError, Config};
use crate::model::{enactment_block, settled, Request, State};
use crate::number::{lemma_values, minus, plus, Number};
use crate::pallet::Pallet;
use crate::perbill::share;
use crate::types::{
    BuildAttestation, Event, ProjectId, ProjectInfo, ProposalId, Role, RoleTally,
};
use vstd::prelude::*;

verus! {

/// The recorded stake of a role; a role without a record has none.
pub open spec fn stake_in<T: Config>(s: State<T>, p: ProjectId, r: Role) -> nat {
    if s.role_stake.contains_key((p, r)) {
        s.role_stake[(p, r)].value()
    } else {
        0
    }
}

/// The recorded stake behind `aye` or nay in a role; a tally without a record has none.
pub open spec fn stake_behind<T: Config>(s: State<T>, id: ProposalId, r: Role, aye: bool) -> nat {
    if !s.tallies.contains_key((id, r)) {
        0
    } else if aye {
        s.tallies[(id, r)].ayes.value()
    } else {
        s.tallies[(id, r)].nays.value()
    }
}

/// The proposals listed for a block, in order; a block without a list has none.
pub open spec fn listed<T: Config>(s: State<T>, b: T::BlockNumber) -> Seq<ProposalId> {
    if s.pending_enactments.contains_key(b) {
        s.pending_enactments[b]
    } else {
        Seq::empty()
    }
}

/// The number of entries in a project's log; a log without a record has none.
pub open spec fn entries_of<T: Config>(s: State<T>, p: ProjectId) -> u32 {
    if s.release_count.contains_key(p) {
        s.release_count[p]
    } else {
        0
    }
}

/// The rule of acceptance on the recorded stakes: in every required role the stake behind aye is
/// at least `quorum` billionths of the stake of the role, and the role has stake.
pub open spec fn accepted<T: Config>(
    s: State<T>,
    p: ProjectId,
    project: ProjectInfo<T::Balance, T::BlockNumber>,
    id: ProposalId,
) -> bool {
    let required = role_quorums(project.policy.required_roles);
    forall|i: int|
        0 <= i < required.len() ==> {
            let r = (#[trigger] required[i]).role;
            &&& stake_in(s, p, r) > 0
            &&& stake_behind(s, id, r, true) * 1_000_000_000 >= required[i].quorum@ * stake_in(
                s,
                p,
                r,
            )
        }
}

/// The stake behind `side` in a role once an account of project `p` votes `aye`: its stake leaves
/// the side that it was on, and joins the other, in its own role.
pub open spec fn stake_behind_after<T: Config>(
    s: State<T>,
    p: ProjectId,
    id: ProposalId,
    who: T::AccountId,
    aye: bool,
    r: Role,
    side: bool,
) -> nat {
    let voter = s.stakeholders[(p, who)];
    let weight = voter.stake.value();
    let before = stake_behind(s, id, r, side);
    if voter.role != r {
        before
    } else {
        let left: nat = if !s.votes.contains_key((id, who)) || s.votes[(id, who)] != side {
            before
        } else if before < weight {
            0
        } else {
            (before - weight) as nat
        };
        if aye != side {
            left
        } else if left + weight > T::Balance::max_value() {
            T::Balance::max_value()
        } else {
            left + weight
        }
    }
}

/// Whether a vote makes the rule of acceptance true.
pub open spec fn accepted_after<T: Config>(
    s: State<T>,
    p: ProjectId,
    project: ProjectInfo<T::Balance, T::BlockNumber>,
    id: ProposalId,
    who: T::AccountId,
    aye: bool,
) -> bool {
    let required = role_quorums(project.policy.required_roles);
    forall|i: int|
        0 <= i < required.len() ==> {
            let r = (#[trigger] required[i]).role;
            &&& stake_in(s, p, r) > 0
            &&& stake_behind_after(s, p, id, who, aye, r, true) * 1_000_000_000
                >= required[i].quorum@ * stake_in(s, p, r)
        }
}

/// Whether `block` is the one at whose start an approval given at `now` is carried out: `delay`
/// blocks later, at the next block at the earliest, and no later than the last block there is.
pub open spec fn is_due_block<N: Number>(block: N, now: N, delay: N) -> bool {
    let wait: nat = if delay.value() == 0 {
        1
    } else {
        delay.value()
    };
    block.value() == if now.value() + wait > N::max_value() {
        N::max_value()
    } else {
        now.value() + wait
    }
}

/// Whether `after` is `before` without `id`, all else in its order, where `id` stands in it once.
pub open spec fn taken_out(
    before: Seq<ProposalId>,
    id: ProposalId,
    after: Seq<ProposalId>,
) -> bool {
    &&& forall|i: int| #![trigger before[i]]
        0 <= i < before.len() && before[i] == id && before.no_duplicates() ==> after
            == before.remove(i)
    &&& !before.contains(id) ==> after == before
    &&& !after.contains(id)
}

/// The four digests, one after the other.
pub open spec fn digests<A>(a: BuildAttestation<A>) -> Seq<u8> {
    Seq::new(
        128,
        |i: int|
            if i < 32 {
                a.source_commit_hash@[i]
            } else if i < 64 {
                a.source_tree_hash@[i - 32]
            } else if i < 96 {
                a.build_environment_hash@[i - 64]
            } else {
                a.output_binary_hash@[i - 96]
            },
    )
}

/// What is signed is the commit hash, the tree hash, the environment hash and the binary hash, in
/// this order.
pub proof fn law_payload_is_the_digests_in_order<A>(a: BuildAttestation<A>)
    ensures
        a.payload() == digests(a),
{
    assert(a.payload() =~= digests(a));
}

/// A record that is absent reads as nothing, and one that is there reads as it stands.
pub proof fn law_records_read_as_they_stand<T: Config>(
    s: State<T>,
    p: ProjectId,
    id: ProposalId,
    r: Role,
    who: T::AccountId,
    b: T::BlockNumber,
)
    ensures
        s.stake_of_role(p, r).value() == stake_in(s, p, r),
        s.role_stake.contains_key((p, r)) ==> s.stake_of_role(p, r) == s.role_stake[(p, r)],
        s.tally(id, r).ayes.value() == stake_behind(s, id, r, true),
        s.tally(id, r).nays.value() == stake_behind(s, id, r, false),
        s.tallies.contains_key((id, r)) ==> s.tally(id, r) == s.tallies[(id, r)],
        s.releases(p) == entries_of(s, p),
        s.scheduled_at(b) == listed(s, b),
        s.votes.contains_key((id, who)) ==> s.vote_of(id, who) == Some(s.votes[(id, who)]),
        !s.votes.contains_key((id, who)) ==> s.vote_of(id, who) is None,
        RoleTally::<T::Balance>::none().ayes.value() == 0,
        RoleTally::<T::Balance>::none().nays.value() == 0,
{
    lemma_values(T::Balance::of(0), T::Balance::of(0));
}

/// The quorum test is the rule of acceptance, on whatever is recorded: `ayes * 10^9` is at least
/// `quorum * total` in every required role, and no required role is without stake.
pub proof fn law_quorums_are_the_rule_of_acceptance<T: Config>(
    s: State<T>,
    p: ProjectId,
    project: ProjectInfo<T::Balance, T::BlockNumber>,
    id: ProposalId,
)
    ensures
        s.meets_quorums(p, project, id) == accepted(s, p, project, id),
{
    lemma_values(T::Balance::of(0), T::Balance::of(0));
    let required = role_quorums(project.policy.required_roles);
    assert forall|i: int| 0 <= i < required.len() implies s.meets_quorum(
        p,
        #[trigger] required[i],
        id,
    ) == {
        let r = required[i].role;
        &&& stake_in(s, p, r) > 0
        &&& stake_behind(s, id, r, true) * 1_000_000_000 >= required[i].quorum@ * stake_in(s, p, r)
    } by {
    }
}

/// Numbers are added and taken away exactly, up to the ends of their range.
pub proof fn law_numbers_saturate<N: Number>(a: N, b: N)
    ensures
        a.value() + b.value() <= N::max_value() ==> plus(a, b).value() == a.value() + b.value(),
        a.value() + b.value() > N::max_value() ==> plus(a, b).value() == N::max_value(),
        b.value() <= a.value() ==> minus(a, b).value() == a.value() - b.value(),
        b.value() > a.value() ==> minus(a, b).value() == 0,
        a.value() == b.value() ==> a == b,
{
    lemma_values(a, b);
    a.value_in_range();
    b.value_in_range();
}

/// A machine number has its own value, its type's range is all of the machine's, and a value in
/// range is that of the number.
pub proof fn law_machine_numbers_are_themselves(a: u32, b: u64, c: u128)
    ensures
        a.value() == a,
        b.value() == b,
        c.value() == c,
        <u32 as Number>::max_value() == 0xffff_ffff,
        <u64 as Number>::max_value() == 0xffff_ffff_ffff_ffff,
        <u128 as Number>::max_value() == 0xffff_ffff_ffff_ffff_ffff_ffff_ffff_ffff,
        <u32 as Number>::of(a as nat) == a,
        <u64 as Number>::of(b as nat) == b,
        <u128 as Number>::of(c as nat) == c,
{
}

/// A share is the largest whole number of which `10^9` fit in `fraction * amount`.
pub proof fn law_shares_are_rounded_down(fraction: nat, amount: nat)
    ensures
        share(fraction, amount) * 1_000_000_000 <= fraction * amount,
        fraction * amount < (share(fraction, amount) + 1) * 1_000_000_000,
{
}

/// An approval is carried out after the delay, and at the next block at the earliest.
pub proof fn law_due_blocks<N: Number>(now: N, delay: N)
    ensures
        is_due_block(enactment_block(now, delay), now, delay),
        forall|b: N| #[trigger]
            is_due_block(b, now, delay) ==> b == enactment_block(now, delay),
{
    lemma_values(now, delay);
    lemma_values(now, N::of(1));
    assert forall|b: N| #[trigger] is_due_block(b, now, delay) implies b == enactment_block(
        now,
        delay,
    ) by {
        law_numbers_saturate(b, enactment_block(now, delay));
    }
}

/// Taking a proposal off a list leaves the others in their order.
pub proof fn law_others_keep_their_order(ids: Seq<ProposalId>, id: ProposalId)
    ensures
        taken_out(ids, id, without(ids, id)),
    decreases ids.len(),
{
    reveal(Seq::filter);
    if ids.len() > 0 {
        let prior = ids.drop_last();
        let last = ids.last();
        let kept = without(prior, id);
        law_others_keep_their_order(prior, id);
        let after = without(ids, id);
        assert(after == if last != id {
            kept.push(last)
        } else {
            kept
        });
        assert(ids =~= prior.push(last));
        if !ids.contains(id) {
            assert(ids[ids.len() - 1] == last);
            assert forall|i: int| 0 <= i < prior.len() implies prior[i] != id by {
                assert(ids[i] == prior[i]);
            }
            assert(!prior.contains(id));
            assert(after =~= ids);
        }
        if after.contains(id) {
            let i = choose|i: int| 0 <= i < after.len() && after[i] == id;
            if i < kept.len() {
                assert(kept[i] == id);
            }
            assert(false);
        }
        assert forall|i: int| #![trigger ids[i]]
            0 <= i < ids.len() && ids[i] == id && ids.no_duplicates() implies after == ids.remove(
            i,
        ) by {
            if i < prior.len() {
                assert(prior[i] == id);
                assert forall|a: int, b: int|
                    0 <= a < prior.len() && 0 <= b < prior.len() && a != b implies prior[a]
                    != prior[b] by {
                    assert(ids[a] != ids[b]);
                }
                assert(prior.no_duplicates());
                assert(ids[i] != ids[ids.len() - 1]);
                assert(kept == prior.remove(i));
                assert(after =~= ids.remove(i));
            } else {
                assert forall|j: int| 0 <= j < prior.len() implies prior[j] != id by {
                    assert(ids[j] != ids[i]);
                }
                assert(!prior.contains(id));
                assert(after =~= ids.remove(i));
            }
        }
    } else {
        assert(without(ids, id) =~= ids);
    }
}

/// A request that succeeds leaves the state that it comes to. One that fails is answered with its
/// error and leaves everything as it was.
pub proof fn law_failures_change_nothing<T: Config, E>(
    before: State<T>,
    outcome: Result<State<T>, E>,
    after: State<T>,
    answer: Result<(), E>,
)
    requires
        settled(before, outcome, after, answer),
    ensures
        answer is Ok <==> outcome is Ok,
        outcome matches Ok(s) ==> after == s,
        outcome matches Err(e) ==> after == before && answer->Err_0 == e,
{
}

/// Before any request nothing is recorded, and the first identifiers are zero.
pub proof fn law_nothing_is_recorded_at_first<T: Config>(
    currency: T::Currency,
    events: Seq<Event<T>>,
)
    ensures
        ({
            let s = State::<T>::empty(currency, events);
            &&& s.next_project_id == 0 && s.next_proposal_id == 0
            &&& forall|k: ProjectId| !#[trigger] s.projects.contains_key(k)
            &&& forall|k: (ProjectId, T::AccountId)| !#[trigger] s.stakeholders.contains_key(k)
            &&& forall|k: (ProjectId, Role)| !#[trigger] s.role_stake.contains_key(k)
            &&& forall|k: ProposalId| !#[trigger] s.proposals.contains_key(k)
            &&& forall|k: (ProposalId, T::AccountId)| !#[trigger] s.votes.contains_key(k)
            &&& forall|k: (ProposalId, Role)| !#[trigger] s.tallies.contains_key(k)
            &&& forall|k: ProjectId| !#[trigger] s.release_count.contains_key(k)
            &&& forall|k: (ProjectId, u32)| !#[trigger] s.release_log.contains_key(k)
            &&& forall|k: ProposalId| !#[trigger] s.counter_attestations.contains_key(k)
            &&& forall|k: T::BlockNumber| !#[trigger] s.pending_enactments.contains_key(k)
            &&& s.currency == currency && s.events == events
        }),
{
}

/// The state of the pallet is what its storage holds, what its books hold, and what the runtime
/// was told.
pub proof fn law_state_is_what_is_stored<T: Config>(pallet: Pallet<T>, b: T::BlockNumber)
    ensures
        pallet@.next_project_id == pallet.next_project_id,
        pallet@.next_proposal_id == pallet.next_proposal_id,
        pallet@.projects == pallet.projects@,
        pallet@.stakeholders == pallet.stakeholders@,
        pallet@.role_stake == pallet.role_stake@,
        pallet@.proposals == pallet.proposals@,
        pallet@.votes == pallet.votes@,
        pallet@.tallies == pallet.tallies@,
        pallet@.release_count == pallet.release_count@,
        pallet@.release_log == pallet.release_log@,
        pallet@.counter_attestations == pallet.counter_attestations@,
        pallet@.pending_enactments.dom() == pallet.pending_enactments@.dom(),
        pallet.pending_enactments@.contains_key(b) ==> pallet@.pending_enactments[b]
            == crate::bounded::scheduled_ids(pallet.pending_enactments@[b]),
        pallet@.currency == pallet.currency,
        pallet@.events == T::announced(pallet.event_log),
{
    assert(pallet@.pending_enactments.dom() =~= pallet.pending_enactments@.dom());
}

/// Every request is one of the calls of the pallet.
pub proof fn law_requests_are_the_calls<T: Config>(s: State<T>, request: Request<T>)
    ensures
        s.outcome(request) == match request {
            Request::ProjectGenesis { origin, stakeholders, project } => s.genesis(
                origin,
                stakeholders,
                project,
            ),
            Request::NewRelease {
                origin,
                project_id,
                version,
                attestation,
                attestation_cid,
                builder_signature,
                now,
            } => s.new_release(
                origin,
                project_id,
                version,
                attestation,
                attestation_cid,
                builder_signature,
                now,
            ),
            Request::Vote { origin, proposal_id, aye, now } => s.vote(
                origin,
                proposal_id,
                aye,
                now,
            ),
            Request::SubmitCounterAttestation { origin, proposal_id, rebuilt_binary_hash } =>
                s.challenge(origin, proposal_id, rebuilt_binary_hash),
            Request::CloseExpired { origin, proposal_id, now } => s.close_expired(
                origin,
                proposal_id,
                now,
            ),
            Request::OnInitialize { now } => Ok::<State<T>, CallError>(s.block_start(now)),
        },
        s.outcome(request) matches Ok(t) ==> s.step(request) == t,
        s.outcome(request) is Err ==> s.step(request) == s,
{
}

} // verus!
