//! The stake of the roles.
use crate::config::{Config, HoldReason};
use crate::laws::effects::lemma_block_start;
use crate::laws::records::lemma_registry_finite;
use crate::model::{Request, State};
use crate::number::{lemma_value_of, lemma_values, Number};
use crate::perbill::{lemma_share_at_most, share};
use crate::sums::{lemma_sum_agree, lemma_sum_remove, lemma_sum_update};
use crate::types::{Hash32, ProjectId, ProposalId, Role, StakeholderInit};
use vstd::prelude::*;

verus! {

/// A role's total is a function of the registry alone.
pub proof fn lemma_role_total_same<T: Config>(
    s: State<T>,
    t: State<T>,
    project_id: ProjectId,
    role: Role,
)
    requires
        s.stakeholders.dom().finite(),
        t.stakeholders == s.stakeholders,
    ensures
        t.role_total(project_id, role) == s.role_total(project_id, role),
{
    lemma_sum_agree(
        s.stakeholders.dom(),
        s.role_weight(project_id, role),
        t.role_weight(project_id, role),
    );
}

/// The totals stay right as long as neither the registry nor the recorded totals change.
pub proof fn lemma_roles_untouched<T: Config>(s: State<T>, t: State<T>)
    requires
        s.stakeholders.dom().finite(),
        s.roles_totalled(),
        t.stakeholders == s.stakeholders,
        t.role_stake == s.role_stake,
    ensures
        t.roles_totalled(),
{
    assert forall|p: ProjectId, r: Role| #[trigger]
        t.stake_of_role(p, r).value() == t.role_total(p, r) by {
        assert(s.stake_of_role(p, r).value() == s.role_total(p, r));
        lemma_role_total_same(s, t, p, r);
    }
}

/// What a new stakeholder adds to the totals.
pub proof fn lemma_role_total_enrolled<T: Config>(
    s: State<T>,
    project_id: ProjectId,
    init: StakeholderInit<T::AccountId, T::Balance>,
    p: ProjectId,
    r: Role,
)
    requires
        s.stakeholders.dom().finite(),
        !s.stakeholders.contains_key((project_id, init.account)),
    ensures
        s.with_stakeholder(project_id, init).role_total(p, r) == s.role_total(p, r) + if p
            == project_id && r == init.role {
            init.stake.value()
        } else {
            0
        },
{
    let t = s.with_stakeholder(project_id, init);
    let key = (project_id, init.account);
    lemma_sum_update(s.stakeholders.dom(), s.role_weight(p, r), t.role_weight(p, r), key);
    assert(t.stakeholders.dom() =~= s.stakeholders.dom().insert(key));
}

/// Enrolling stakeholders keeps the totals right, provided that they fit in the end.
proof fn lemma_roles_enrolled<T: Config>(
    s: State<T>,
    project_id: ProjectId,
    inits: Seq<StakeholderInit<T::AccountId, T::Balance>>,
)
    requires
        s.stakeholders.dom().finite(),
        s.roles_totalled(),
        s.enrolling_all(project_id, inits) is Ok,
        s.enrolling_all(project_id, inits)->Ok_0.role_totals_fit(project_id),
    ensures
        s.enrolling_all(project_id, inits)->Ok_0.roles_totalled(),
    decreases inits.len(),
{
    if inits.len() > 0 {
        let prior = inits.drop_last();
        let init = inits.last();
        let m = s.enrolling_all(project_id, prior)->Ok_0;
        let t = s.enrolling_all(project_id, inits)->Ok_0;
        let (books, _) = T::hold_outcome(m.currency, HoldReason::Stake, init.account, init.stake);
        let held = State { currency: books, ..m };
        lemma_registry_finite(s, project_id, prior);
        assert(t == held.with_stakeholder(project_id, init));
        assert forall|p: ProjectId, r: Role| #[trigger]
            t.role_total(p, r) == m.role_total(p, r) + if p == project_id && r == init.role {
                init.stake.value()
            } else {
                0
            } by {
            lemma_role_total_same(m, held, p, r);
            lemma_role_total_enrolled(held, project_id, init, p, r);
        }
        assert forall|r: Role| #[trigger]
            m.role_total(project_id, r) <= T::Balance::max_value() by {
            assert(t.role_total(project_id, r) <= T::Balance::max_value());
        }
        lemma_roles_enrolled(s, project_id, prior);
        assert forall|p: ProjectId, r: Role| #[trigger]
            t.stake_of_role(p, r).value() == t.role_total(p, r) by {
            assert(m.stake_of_role(p, r).value() == m.role_total(p, r));
            assert(held.stake_of_role(p, r) == m.stake_of_role(p, r));
            lemma_values(m.stake_of_role(project_id, init.role), init.stake);
            assert(t.role_total(project_id, init.role) <= T::Balance::max_value());
        }
    }
}

/// A burn never takes more than the builder's registered stake.
pub proof fn lemma_slash_bounded<T: Config>(s: State<T>, proposal_id: ProposalId)
    ensures
        ({
            let proposal = s.proposals[proposal_id];
            let builder = s.stakeholders[(proposal.project_id, proposal.attestation.builder)];
            let (_, answer) = T::burn_held_outcome(
                s.currency,
                HoldReason::Stake,
                proposal.attestation.builder,
                s.slash_due(proposal_id),
            );
            &&& s.slash_due(proposal_id).value() == share(
                s.projects[proposal.project_id].slashing.sigma_neg@,
                builder.stake.value(),
            )
            &&& s.slash_due(proposal_id).value() <= builder.stake.value()
            &&& answer matches Ok(slashed) ==> slashed.value() <= s.slash_due(proposal_id).value()
        }),
{
    let proposal = s.proposals[proposal_id];
    let builder = s.stakeholders[(proposal.project_id, proposal.attestation.builder)];
    let sigma_neg = s.projects[proposal.project_id].slashing.sigma_neg;
    sigma_neg.lemma_at_most_whole();
    lemma_share_at_most(sigma_neg@, builder.stake.value());
    builder.stake.value_in_range();
    lemma_value_of::<T::Balance>(share(sigma_neg@, builder.stake.value()));
    T::burn_held_effect(
        s.currency,
        HoldReason::Stake,
        proposal.attestation.builder,
        s.slash_due(proposal_id),
    );
}

/// What a slash takes from the totals.
pub proof fn lemma_role_total_slashed<T: Config>(
    s: State<T>,
    who: T::AccountId,
    proposal_id: ProposalId,
    hash: Hash32,
    slashed: T::Balance,
    p: ProjectId,
    r: Role,
)
    requires
        s.stakeholders.dom().finite(),
        ({
            let proposal = s.proposals[proposal_id];
            let key = (proposal.project_id, proposal.attestation.builder);
            &&& s.stakeholders.contains_key(key)
            &&& s.stakeholders[key].role == Role::BuildService
            &&& slashed.value() <= s.stakeholders[key].stake.value()
        }),
    ensures
        s.with_rejection(who, proposal_id, hash, slashed).role_total(p, r) + (if p
            == s.proposals[proposal_id].project_id && r == Role::BuildService {
            slashed.value()
        } else {
            0
        }) == s.role_total(p, r),
{
    let t = s.with_rejection(who, proposal_id, hash, slashed);
    let proposal = s.proposals[proposal_id];
    let key = (proposal.project_id, proposal.attestation.builder);
    lemma_values(s.stakeholders[key].stake, slashed);
    lemma_sum_update(s.stakeholders.dom(), s.role_weight(p, r), t.role_weight(p, r), key);
    assert(t.stakeholders.dom() =~= s.stakeholders.dom().insert(key));
    lemma_sum_remove(s.stakeholders.dom(), s.role_weight(p, r), key);
}

/// The recorded stake of every role in every project stays the sum of the stakes of its
/// stakeholders.
pub proof fn lemma_roles_kept<T: Config>(s: State<T>, request: Request<T>)
    requires
        s.stakeholders.dom().finite(),
        s.linked(),
        s.roles_totalled(),
        s.has_balances_for(request),
    ensures
        s.step(request).roles_totalled(),
{
    let t = s.step(request);
    match request {
        Request::ProjectGenesis { stakeholders, .. } => {
            if s.outcome(request) is Ok {
                let project_id = s.next_project_id;
                let enrolled = s.enrolling_all(project_id, stakeholders)->Ok_0;
                lemma_registry_finite(s, project_id, stakeholders);
                assert forall|r: Role| #[trigger]
                    enrolled.role_total(project_id, r) <= T::Balance::max_value() by {
                    lemma_role_total_same(enrolled, t, project_id, r);
                    assert(t.role_total(project_id, r) <= T::Balance::max_value());
                }
                lemma_roles_enrolled(s, project_id, stakeholders);
                lemma_roles_untouched(enrolled, t);
            }
        },
        Request::SubmitCounterAttestation { origin, proposal_id, rebuilt_binary_hash } => {
            if s.outcome(request) is Ok {
                let proposal = s.proposals[proposal_id];
                let who = origin->Signed_0;
                let (burned, burn_answer) = T::burn_held_outcome(
                    s.currency,
                    HoldReason::Stake,
                    proposal.attestation.builder,
                    s.slash_due(proposal_id),
                );
                let (books, _) = T::release_outcome(
                    burned,
                    HoldReason::ProposalBond,
                    proposal.proposer,
                    proposal.bond,
                );
                let slashed = burn_answer->Ok_0;
                let paid = State { currency: books, ..s };
                assert(t == paid.with_rejection(who, proposal_id, rebuilt_binary_hash, slashed));
                lemma_slash_bounded(s, proposal_id);
                assert forall|p: ProjectId, r: Role| #[trigger]
                    t.stake_of_role(p, r).value() == t.role_total(p, r) by {
                    assert(s.stake_of_role(p, r).value() == s.role_total(p, r));
                    assert(paid.stake_of_role(p, r) == s.stake_of_role(p, r));
                    lemma_role_total_same(s, paid, p, r);
                    lemma_role_total_slashed(
                        paid,
                        who,
                        proposal_id,
                        rebuilt_binary_hash,
                        slashed,
                        p,
                        r,
                    );
                    lemma_values(s.stake_of_role(proposal.project_id, Role::BuildService), slashed);
                }
            }
        },
        Request::OnInitialize { now } => {
            lemma_block_start(s, now);
            lemma_roles_untouched(s, t);
        },
        _ => {
            lemma_roles_untouched(s, t);
        },
    }
}

} // verus!
