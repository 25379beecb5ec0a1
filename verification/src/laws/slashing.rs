//! Negligence slashes, and the bonds of closed proposals.
use crate::config::{Config, HoldReason, Origin};
use crate::laws::effects::lemma_enrolled;
use crate::laws::escrow::lemma_bond_covered;
use crate::laws::registry::lemma_slash_bounded;
use crate::laws::schedule::lemma_without;
use crate::model::{is_open, Request, State};
use crate::number::{capped_sum, floored_difference, lemma_values, Number};
use crate::perbill::share;
use crate::sums::lemma_sum_remove;
use crate::types::{Hash32, ProposalId, ProposalStatus, Role};
use vstd::prelude::*;

verus! {

/// How much of the builder's registered stake is gone after a counter-attestation.
pub open spec fn lost_stake<T: Config>(s: State<T>, t: State<T>, id: ProposalId) -> int {
    let builder = (s.proposals[id].project_id, s.proposals[id].attestation.builder);
    s.stakeholders[builder].stake.value() - t.stakeholders[builder].stake.value()
}

/// An accepted counter-attestation rejects the proposal and takes it off every schedule. The Build
/// Service loses no more than `sigma_neg` of its stake, rounded down. What it loses in the registry
/// is gone from its hold and from the recorded stake of its role, and at the burn it leaves the
/// issuance. The
/// release logs and the votes stay as they are, and so does every tally that does not count a vote
/// of the Build Service on an open proposal.
pub proof fn law_negligence_slash<T: Config>(
    s: State<T>,
    origin: Origin<T::AccountId>,
    id: ProposalId,
    hash: Hash32,
)
    requires
        s.finite(),
        s.linked(),
        s.roles_totalled(),
        s.scheduled_when_approved(),
        s.challenge(origin, id, hash) is Ok,
    ensures
        ({
            let t = s.challenge(origin, id, hash)->Ok_0;
            let proposal = s.proposals[id];
            let project_id = proposal.project_id;
            let builder = proposal.attestation.builder;
            let stake = s.stakeholders[(project_id, builder)].stake.value();
            let lost = lost_stake(s, t, id);
            let (burned, _) = T::burn_held_outcome(
                s.currency,
                HoldReason::Stake,
                builder,
                s.slash_due(id),
            );
            &&& t.proposals[id].status is Rejected
            &&& forall|b: T::BlockNumber| !#[trigger] t.scheduled_at(b).contains(id)
            &&& 0 <= lost <= share(s.projects[project_id].slashing.sigma_neg@, stake)
            &&& T::on_hold(t.currency, HoldReason::Stake, builder) == T::on_hold(
                s.currency,
                HoldReason::Stake,
                builder,
            ) - lost
            &&& T::total_issuance(burned) == floored_difference(
                T::total_issuance(s.currency),
                lost as nat,
            )
            &&& t.stake_of_role(project_id, Role::BuildService).value() == s.stake_of_role(
                project_id,
                Role::BuildService,
            ).value() - lost
            &&& t.stakeholders.remove((project_id, builder)) == s.stakeholders.remove(
                (project_id, builder),
            )
            &&& t.release_log == s.release_log
            &&& t.votes == s.votes
            &&& forall|other: ProposalId, r: Role|
                !s.counts_builder((other, r), project_id, builder) ==> #[trigger] t.tally(other, r)
                    == s.tally(other, r)
        }),
{
    let t = s.challenge(origin, id, hash)->Ok_0;
    let proposal = s.proposals[id];
    let project_id = proposal.project_id;
    let builder = proposal.attestation.builder;
    let key = (project_id, builder);
    let due = s.slash_due(id);
    let (burned, burn_answer) = T::burn_held_outcome(s.currency, HoldReason::Stake, builder, due);
    let slashed = burn_answer->Ok_0;
    assert(s.proposals.contains_key(id));
    lemma_slash_bounded(s, id);
    lemma_values(s.stakeholders[key].stake, slashed);
    lemma_values(s.stake_of_role(project_id, Role::BuildService), slashed);
    assert(s.stake_of_role(project_id, Role::BuildService).value() == s.role_total(
        project_id,
        Role::BuildService,
    ));
    lemma_sum_remove(s.stakeholders.dom(), s.role_weight(project_id, Role::BuildService), key);
    T::burn_held_effect(s.currency, HoldReason::Stake, builder, due);
    T::release_effect(burned, HoldReason::ProposalBond, proposal.proposer, proposal.bond);
    assert(t.stakeholders.remove(key) =~= s.stakeholders.remove(key));
    assert forall|b: T::BlockNumber| !#[trigger] t.scheduled_at(b).contains(id) by {
        assert(s.scheduled_at(b).no_duplicates());
        lemma_without(s.scheduled_at(b), id);
        assert(s.scheduled_at(b).contains(id) <==> s.proposals.contains_key(id)
            && s.proposals[id].status == (ProposalStatus::Approved { enact_at: b }));
    }
}

/// The Build Service loses exactly `sigma_neg` of its stake, rounded down, as long as its stake is
/// in escrow and nothing else keeps the token from taking that much.
pub proof fn law_slash_is_exact<T: Config>(
    s: State<T>,
    origin: Origin<T::AccountId>,
    id: ProposalId,
    hash: Hash32,
)
    requires
        s.finite(),
        s.stakes_escrowed(),
        s.challenge(origin, id, hash) is Ok,
        T::reducible_on_hold(s.currency, s.proposals[id].attestation.builder) >= s.slash_due(
            id,
        ).value(),
    ensures
        lost_stake(s, s.challenge(origin, id, hash)->Ok_0, id) == share(
            s.projects[s.proposals[id].project_id].slashing.sigma_neg@,
            s.stakeholders[(
                s.proposals[id].project_id,
                s.proposals[id].attestation.builder,
            )].stake.value(),
        ),
{
    let builder = s.proposals[id].attestation.builder;
    let key = (s.proposals[id].project_id, builder);
    let (_, burn_answer) = T::burn_held_outcome(
        s.currency,
        HoldReason::Stake,
        builder,
        s.slash_due(id),
    );
    lemma_slash_bounded(s, id);
    lemma_values(s.stakeholders[key].stake, burn_answer->Ok_0);
    T::burn_held_effect(s.currency, HoldReason::Stake, builder, s.slash_due(id));
    assert(T::on_hold(s.currency, HoldReason::Stake, builder) >= s.account_total(builder));
    lemma_sum_remove(s.stakeholders.dom(), s.account_weight(builder), key);
}

/// A release proposal that is accepted puts the project's bond on hold for the proposer.
pub proof fn law_proposal_bond_is_held<T: Config>(s: State<T>, request: Request<T>)
    requires
        request is NewRelease,
        s.outcome(request) is Ok,
    ensures
        ({
            let who = request->NewRelease_origin->Signed_0;
            let bond = s.projects[request->NewRelease_project_id].proposal_bond;
            T::on_hold(s.step(request).currency, HoldReason::ProposalBond, who) == capped_sum(
                T::on_hold(s.currency, HoldReason::ProposalBond, who),
                bond.value(),
                T::Balance::max_value(),
            )
        }),
{
    let who = request->NewRelease_origin->Signed_0;
    let bond = s.projects[request->NewRelease_project_id].proposal_bond;
    T::hold_effect(s.currency, HoldReason::ProposalBond, who, bond);
}

/// A proposal that a request rejects or closes as expired gives its proposer exactly the bond back
/// out of hold.
pub proof fn law_bond_is_released_on_closing<T: Config>(
    s: State<T>,
    request: Request<T>,
    id: ProposalId,
)
    requires
        s.finite(),
        s.identified(),
        s.bonds_escrowed(),
        s.proposals.contains_key(id),
        is_open(s.proposals[id].status),
        !is_open(s.step(request).proposals[id].status),
        !(request is OnInitialize),
    ensures
        T::on_hold(
            s.step(request).currency,
            HoldReason::ProposalBond,
            s.proposals[id].proposer,
        ) == T::on_hold(s.currency, HoldReason::ProposalBond, s.proposals[id].proposer)
            - s.proposals[id].bond.value(),
{
    let proposer = s.proposals[id].proposer;
    let bond = s.proposals[id].bond;
    lemma_bond_covered(s, id);
    match request {
        Request::ProjectGenesis { stakeholders, .. } => {
            lemma_enrolled(s, s.next_project_id, stakeholders);
        },
        Request::SubmitCounterAttestation { proposal_id, .. } => {
            let builder = s.proposals[proposal_id].attestation.builder;
            let due = s.slash_due(proposal_id);
            let (burned, _) = T::burn_held_outcome(s.currency, HoldReason::Stake, builder, due);
            T::burn_held_effect(s.currency, HoldReason::Stake, builder, due);
            T::release_effect(burned, HoldReason::ProposalBond, proposer, bond);
        },
        Request::CloseExpired { .. } => {
            T::release_effect(s.currency, HoldReason::ProposalBond, proposer, bond);
        },
        _ => {},
    }
}

/// The enactment of a proposal gives its proposer exactly the bond back out of hold, unless the
/// token refuses. A refusal does not stop the enactment.
pub proof fn law_bond_is_released_on_enactment<T: Config>(
    s: State<T>,
    id: ProposalId,
    now: T::BlockNumber,
)
    requires
        s.finite(),
        s.bonds_escrowed(),
        s.is_due(id),
    ensures
        s.enacting(id, now).proposals[id].status is Enacted,
        ({
            let proposer = s.proposals[id].proposer;
            let bond = s.proposals[id].bond;
            let (_, answer) = T::release_outcome(
                s.currency,
                HoldReason::ProposalBond,
                proposer,
                bond,
            );
            answer is Ok ==> T::on_hold(
                s.enacting(id, now).currency,
                HoldReason::ProposalBond,
                proposer,
            ) == T::on_hold(s.currency, HoldReason::ProposalBond, proposer) - bond.value()
        }),
{
    let proposer = s.proposals[id].proposer;
    let bond = s.proposals[id].bond;
    lemma_bond_covered(s, id);
    T::release_effect(s.currency, HoldReason::ProposalBond, proposer, bond);
}

} // verus!
