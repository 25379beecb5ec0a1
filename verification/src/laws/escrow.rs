//! The money behind the records.
use crate::config::{Config, HoldReason};
use crate::laws::effects::{lemma_block_start, lemma_enacting_all, lemma_enrolled};
use crate::laws::records::lemma_registry_finite;
use crate::laws::registry::lemma_slash_bounded;
use crate::model::{is_open, Request, State};
use crate::number::{lemma_values, Number};
use crate::sums::{lemma_sum_agree, lemma_sum_remove, lemma_sum_update};
use crate::types::{Hash32, ProjectId, ProposalId, StakeholderInit};
use vstd::prelude::*;

verus! {

/// An account's stakes are a function of the registry alone.
proof fn lemma_account_total_same<T: Config>(s: State<T>, t: State<T>, a: T::AccountId)
    requires
        s.stakeholders.dom().finite(),
        t.stakeholders == s.stakeholders,
    ensures
        t.account_total(a) == s.account_total(a),
{
    lemma_sum_agree(s.stakeholders.dom(), s.account_weight(a), t.account_weight(a));
}

/// What a new stakeholder adds to the stakes of the accounts.
proof fn lemma_account_total_enrolled<T: Config>(
    s: State<T>,
    project_id: ProjectId,
    init: StakeholderInit<T::AccountId, T::Balance>,
    a: T::AccountId,
)
    requires
        s.stakeholders.dom().finite(),
        !s.stakeholders.contains_key((project_id, init.account)),
    ensures
        s.with_stakeholder(project_id, init).account_total(a) == s.account_total(a) + if a
            == init.account {
            init.stake.value()
        } else {
            0
        },
{
    let t = s.with_stakeholder(project_id, init);
    let key = (project_id, init.account);
    lemma_sum_update(s.stakeholders.dom(), s.account_weight(a), t.account_weight(a), key);
    assert(t.stakeholders.dom() =~= s.stakeholders.dom().insert(key));
}

/// Enrolling stakeholders puts on hold what it registers.
proof fn lemma_stakes_enrolled<T: Config>(
    s: State<T>,
    project_id: ProjectId,
    inits: Seq<StakeholderInit<T::AccountId, T::Balance>>,
)
    requires
        s.stakeholders.dom().finite(),
        s.stakes_escrowed(),
        s.enrolling_all(project_id, inits) is Ok,
        forall|a: T::AccountId| #[trigger]
            s.enrolling_all(project_id, inits)->Ok_0.account_total(a) <= T::Balance::max_value(),
    ensures
        s.enrolling_all(project_id, inits)->Ok_0.stakes_escrowed(),
    decreases inits.len(),
{
    if inits.len() > 0 {
        let prior = inits.drop_last();
        let init = inits.last();
        let m = s.enrolling_all(project_id, prior)->Ok_0;
        let t = s.enrolling_all(project_id, inits)->Ok_0;
        let (books, _) = T::hold_outcome(m.currency, HoldReason::Stake, init.account, init.stake);
        let held = State { currency: books, ..m };
        lemma_registry_finite(s, project_id, prior);
        assert(t == held.with_stakeholder(project_id, init));
        assert forall|a: T::AccountId| #[trigger]
            t.account_total(a) == m.account_total(a) + if a == init.account {
                init.stake.value()
            } else {
                0
            } by {
            lemma_account_total_same(m, held, a);
            lemma_account_total_enrolled(held, project_id, init, a);
        }
        assert forall|a: T::AccountId| #[trigger]
            m.account_total(a) <= T::Balance::max_value() by {
            assert(t.account_total(a) <= T::Balance::max_value());
        }
        lemma_stakes_enrolled(s, project_id, prior);
        T::hold_effect(m.currency, HoldReason::Stake, init.account, init.stake);
        assert forall|a: T::AccountId| #[trigger]
            T::on_hold(t.currency, HoldReason::Stake, a) >= t.account_total(a) by {
            assert(T::on_hold(m.currency, HoldReason::Stake, a) >= m.account_total(a));
            assert(t.account_total(a) <= T::Balance::max_value());
        }
    }
}

/// Enrolling stakeholders puts on hold, for every account, what it adds to the account's stakes.
proof fn lemma_holds_enrolled<T: Config>(
    s: State<T>,
    project_id: ProjectId,
    inits: Seq<StakeholderInit<T::AccountId, T::Balance>>,
    a: T::AccountId,
)
    requires
        s.stakeholders.dom().finite(),
        s.enrolling_all(project_id, inits) is Ok,
        T::on_hold(s.currency, HoldReason::Stake, a) + s.enrolling_all(
            project_id,
            inits,
        )->Ok_0.account_total(a) - s.account_total(a) <= T::Balance::max_value(),
    ensures
        T::on_hold(
            s.enrolling_all(project_id, inits)->Ok_0.currency,
            HoldReason::Stake,
            a,
        ) == T::on_hold(s.currency, HoldReason::Stake, a) + s.enrolling_all(
            project_id,
            inits,
        )->Ok_0.account_total(a) - s.account_total(a),
    decreases inits.len(),
{
    if inits.len() > 0 {
        let prior = inits.drop_last();
        let init = inits.last();
        let m = s.enrolling_all(project_id, prior)->Ok_0;
        let t = s.enrolling_all(project_id, inits)->Ok_0;
        let (books, _) = T::hold_outcome(m.currency, HoldReason::Stake, init.account, init.stake);
        let held = State { currency: books, ..m };
        lemma_registry_finite(s, project_id, prior);
        assert(t == held.with_stakeholder(project_id, init));
        lemma_account_total_same(m, held, a);
        lemma_account_total_enrolled(held, project_id, init, a);
        lemma_holds_enrolled(s, project_id, prior, a);
        T::hold_effect(m.currency, HoldReason::Stake, init.account, init.stake);
    }
}

/// Project genesis puts on hold exactly what it adds to an account's stakes, provided that the
/// hold still fits in a balance.
pub proof fn law_genesis_escrows_the_stakes<T: Config>(
    s: State<T>,
    request: Request<T>,
    a: T::AccountId,
)
    requires
        s.finite(),
        request is ProjectGenesis,
        s.outcome(request) is Ok,
        T::on_hold(s.currency, HoldReason::Stake, a) + s.step(request).account_total(a)
            - s.account_total(a) <= T::Balance::max_value(),
    ensures
        T::on_hold(s.step(request).currency, HoldReason::Stake, a) == T::on_hold(
            s.currency,
            HoldReason::Stake,
            a,
        ) + s.step(request).account_total(a) - s.account_total(a),
{
    let inits = request->ProjectGenesis_stakeholders;
    let enrolled = s.enrolling_all(s.next_project_id, inits)->Ok_0;
    lemma_registry_finite(s, s.next_project_id, inits);
    lemma_account_total_same(enrolled, s.step(request), a);
    lemma_holds_enrolled(s, s.next_project_id, inits, a);
}

/// What a slash takes from the stakes of the accounts.
proof fn lemma_account_total_slashed<T: Config>(
    s: State<T>,
    who: T::AccountId,
    proposal_id: ProposalId,
    hash: Hash32,
    slashed: T::Balance,
    a: T::AccountId,
)
    requires
        s.stakeholders.dom().finite(),
        ({
            let proposal = s.proposals[proposal_id];
            let key = (proposal.project_id, proposal.attestation.builder);
            &&& s.stakeholders.contains_key(key)
            &&& slashed.value() <= s.stakeholders[key].stake.value()
        }),
    ensures
        s.with_rejection(who, proposal_id, hash, slashed).account_total(a) + (if a
            == s.proposals[proposal_id].attestation.builder {
            slashed.value()
        } else {
            0
        }) == s.account_total(a),
{
    let t = s.with_rejection(who, proposal_id, hash, slashed);
    let proposal = s.proposals[proposal_id];
    let key = (proposal.project_id, proposal.attestation.builder);
    lemma_values(s.stakeholders[key].stake, slashed);
    lemma_sum_update(s.stakeholders.dom(), s.account_weight(a), t.account_weight(a), key);
    assert(t.stakeholders.dom() =~= s.stakeholders.dom().insert(key));
    lemma_sum_remove(s.stakeholders.dom(), s.account_weight(a), key);
}

/// What the enactments of a block do to the holds: those of the stakes are left alone, and what
/// is left on hold for bonds still covers the proposals that are open.
proof fn lemma_holds_enacting_all<T: Config>(
    s: State<T>,
    ids: Seq<ProposalId>,
    now: T::BlockNumber,
)
    requires
        s.proposals.dom().finite(),
    ensures
        ({
            let t = s.enacting_all(ids, now);
            &&& forall|a: T::AccountId| #[trigger]
                T::on_hold(t.currency, HoldReason::Stake, a) == T::on_hold(
                    s.currency,
                    HoldReason::Stake,
                    a,
                )
            &&& s.bonds_escrowed() ==> t.bonds_escrowed()
        }),
    decreases ids.len(),
{
    if ids.len() > 0 {
        let prior = ids.drop_last();
        let last = ids.last();
        let m = s.enacting_all(prior, now);
        let t = s.enacting_all(ids, now);
        lemma_holds_enacting_all(s, prior, now);
        lemma_enacting_all(s, prior, now);
        assert(t == m.enacting(last, now));
        let proposal = m.proposals[last];
        assert(m.proposals.contains_key(last) ==> t.proposals.dom() =~= m.proposals.dom());
        if m.is_due(last) {
            T::release_effect(
                m.currency,
                HoldReason::ProposalBond,
                proposal.proposer,
                proposal.bond,
            );
            if m.bonds_escrowed() {
                lemma_bonds_closed(m, t, last);
            }
        } else if m.bonds_escrowed() {
            lemma_bonds_untouched(m, t);
        }
        assert forall|a: T::AccountId| #[trigger]
            T::on_hold(t.currency, HoldReason::Stake, a) == T::on_hold(
                s.currency,
                HoldReason::Stake,
                a,
            ) by {
            assert(T::on_hold(m.currency, HoldReason::Stake, a) == T::on_hold(
                s.currency,
                HoldReason::Stake,
                a,
            ));
        }
    }
}

/// Bonds stay covered as long as the holds stay and no proposal opens or closes.
proof fn lemma_bonds_untouched<T: Config>(s: State<T>, t: State<T>)
    requires
        s.proposals.dom().finite(),
        s.bonds_escrowed(),
        t.proposals.dom() == s.proposals.dom(),
        forall|id: ProposalId| #[trigger]
            s.proposals.contains_key(id) ==> t.proposals[id].proposer == s.proposals[id].proposer
                && t.proposals[id].bond == s.proposals[id].bond && (is_open(
                t.proposals[id].status,
            ) == is_open(s.proposals[id].status)),
        forall|a: T::AccountId| #[trigger]
            T::on_hold(t.currency, HoldReason::ProposalBond, a) == T::on_hold(
                s.currency,
                HoldReason::ProposalBond,
                a,
            ),
    ensures
        t.bonds_escrowed(),
{
    assert forall|a: T::AccountId| #[trigger]
        T::on_hold(t.currency, HoldReason::ProposalBond, a) >= t.bond_total(a) by {
        assert(T::on_hold(s.currency, HoldReason::ProposalBond, a) >= s.bond_total(a));
        assert forall|id: ProposalId| #[trigger]
            s.proposals.dom().contains(id) implies s.bond_weight(a)(id) == t.bond_weight(a)(
            id,
        ) by {
            assert(s.proposals.contains_key(id));
        }
        lemma_sum_agree(s.proposals.dom(), s.bond_weight(a), t.bond_weight(a));
    }
}

/// The bond of an open proposal is covered by what its proposer has on hold.
pub proof fn lemma_bond_covered<T: Config>(s: State<T>, id: ProposalId)
    requires
        s.proposals.dom().finite(),
        s.bonds_escrowed(),
        s.proposals.contains_key(id),
        is_open(s.proposals[id].status),
    ensures
        s.proposals[id].bond.value() <= T::on_hold(
            s.currency,
            HoldReason::ProposalBond,
            s.proposals[id].proposer,
        ),
{
    let a = s.proposals[id].proposer;
    lemma_sum_remove(s.proposals.dom(), s.bond_weight(a), id);
    assert(T::on_hold(s.currency, HoldReason::ProposalBond, a) >= s.bond_total(a));
}

/// Bonds stay covered when a proposal closes and at most its bond leaves the hold of its proposer.
proof fn lemma_bonds_closed<T: Config>(s: State<T>, t: State<T>, id: ProposalId)
    requires
        s.proposals.dom().finite(),
        s.bonds_escrowed(),
        s.proposals.contains_key(id),
        is_open(s.proposals[id].status),
        !is_open(t.proposals[id].status),
        t.proposals.dom() == s.proposals.dom(),
        forall|other: ProposalId| #[trigger]
            s.proposals.contains_key(other) && other != id ==> t.proposals[other]
                == s.proposals[other],
        forall|a: T::AccountId| #[trigger]
            T::on_hold(t.currency, HoldReason::ProposalBond, a) + (if a
                == s.proposals[id].proposer {
                s.proposals[id].bond.value()
            } else {
                0
            }) >= T::on_hold(s.currency, HoldReason::ProposalBond, a),
    ensures
        t.bonds_escrowed(),
{
    assert forall|a: T::AccountId| #[trigger]
        T::on_hold(t.currency, HoldReason::ProposalBond, a) >= t.bond_total(a) by {
        assert(T::on_hold(s.currency, HoldReason::ProposalBond, a) >= s.bond_total(a));
        assert forall|other: ProposalId| #[trigger]
            s.proposals.dom().contains(other) && other != id implies s.bond_weight(a)(other)
            == t.bond_weight(a)(other) by {
            assert(s.proposals.contains_key(other));
        }
        lemma_sum_update(s.proposals.dom(), s.bond_weight(a), t.bond_weight(a), id);
        assert(s.proposals.dom().insert(id) =~= s.proposals.dom());
    }
}

/// Every stake in the registry stays on hold: escrowed at genesis, and slashed in the registry by
/// just what is burned.
pub proof fn law_stakes_stay_escrowed<T: Config>(s: State<T>, request: Request<T>)
    requires
        s.finite(),
        s.stakes_escrowed(),
        s.has_stakes_for(request),
    ensures
        s.step(request).stakes_escrowed(),
{
    let t = s.step(request);
    if s.outcome(request) is Ok {
        match request {
            Request::ProjectGenesis { stakeholders, .. } => {
                let project_id = s.next_project_id;
                let enrolled = s.enrolling_all(project_id, stakeholders)->Ok_0;
                lemma_registry_finite(s, project_id, stakeholders);
                assert forall|a: T::AccountId| #[trigger]
                    enrolled.account_total(a) <= T::Balance::max_value() by {
                    lemma_account_total_same(enrolled, t, a);
                    assert(t.account_total(a) <= T::Balance::max_value());
                }
                lemma_stakes_enrolled(s, project_id, stakeholders);
                lemma_stakes_untouched(enrolled, t);
            },
            Request::NewRelease { origin, project_id, .. } => {
                T::hold_effect(
                    s.currency,
                    HoldReason::ProposalBond,
                    origin->Signed_0,
                    s.projects[project_id].proposal_bond,
                );
                lemma_stakes_untouched(s, t);
            },
            Request::Vote { .. } => {
                lemma_stakes_untouched(s, t);
            },
            Request::SubmitCounterAttestation { origin, proposal_id, rebuilt_binary_hash } => {
                let proposal = s.proposals[proposal_id];
                let who = origin->Signed_0;
                let builder = proposal.attestation.builder;
                let due = s.slash_due(proposal_id);
                let (burned, burn_answer) = T::burn_held_outcome(
                    s.currency,
                    HoldReason::Stake,
                    builder,
                    due,
                );
                let (books, _) = T::release_outcome(
                    burned,
                    HoldReason::ProposalBond,
                    proposal.proposer,
                    proposal.bond,
                );
                let slashed = burn_answer->Ok_0;
                let paid = State { currency: books, ..s };
                assert(t == paid.with_rejection(who, proposal_id, rebuilt_binary_hash, slashed));
                lemma_slash_bounded(s, proposal_id);
                T::burn_held_effect(s.currency, HoldReason::Stake, builder, due);
                T::release_effect(
                    burned,
                    HoldReason::ProposalBond,
                    proposal.proposer,
                    proposal.bond,
                );
                assert forall|a: T::AccountId| #[trigger]
                    T::on_hold(t.currency, HoldReason::Stake, a) >= t.account_total(a) by {
                    assert(T::on_hold(s.currency, HoldReason::Stake, a) >= s.account_total(a));
                    assert(T::on_hold(books, HoldReason::Stake, a) == T::on_hold(
                        burned,
                        HoldReason::Stake,
                        a,
                    ));
                    lemma_account_total_same(s, paid, a);
                    lemma_account_total_slashed(
                        paid,
                        who,
                        proposal_id,
                        rebuilt_binary_hash,
                        slashed,
                        a,
                    );
                }
            },
            Request::CloseExpired { proposal_id, .. } => {
                let proposal = s.proposals[proposal_id];
                T::release_effect(
                    s.currency,
                    HoldReason::ProposalBond,
                    proposal.proposer,
                    proposal.bond,
                );
                lemma_stakes_untouched(s, t);
            },
            Request::OnInitialize { now } => {
                lemma_block_start(s, now);
                lemma_holds_enacting_all(s.taken(now), s.scheduled_at(now), now);
                lemma_stakes_untouched(s, t);
            },
        }
    }
}

/// Stakes stay covered as long as neither the registry nor their holds change.
proof fn lemma_stakes_untouched<T: Config>(s: State<T>, t: State<T>)
    requires
        s.stakeholders.dom().finite(),
        s.stakes_escrowed(),
        t.stakeholders == s.stakeholders,
        forall|a: T::AccountId| #[trigger]
            T::on_hold(t.currency, HoldReason::Stake, a) == T::on_hold(
                s.currency,
                HoldReason::Stake,
                a,
            ),
    ensures
        t.stakes_escrowed(),
{
    assert forall|a: T::AccountId| #[trigger]
        T::on_hold(t.currency, HoldReason::Stake, a) >= t.account_total(a) by {
        assert(T::on_hold(s.currency, HoldReason::Stake, a) >= s.account_total(a));
        lemma_account_total_same(s, t, a);
    }
}

/// The bond of every open proposal stays on hold, from the proposal until it is enacted, rejected
/// or expired.
pub proof fn law_bonds_stay_escrowed<T: Config>(s: State<T>, request: Request<T>)
    requires
        s.finite(),
        s.identified(),
        s.bonds_escrowed(),
        s.has_bonds_for(request),
    ensures
        s.step(request).bonds_escrowed(),
{
    let t = s.step(request);
    if s.outcome(request) is Ok {
        match request {
            Request::ProjectGenesis { stakeholders, .. } => {
                lemma_enrolled(s, s.next_project_id, stakeholders);
                lemma_bond_holds_enrolled(s, s.next_project_id, stakeholders);
                lemma_bonds_untouched(s, t);
            },
            Request::NewRelease { origin, project_id, .. } => {
                let who = origin->Signed_0;
                let bond = s.projects[project_id].proposal_bond;
                let fresh = s.next_proposal_id;
                T::hold_effect(s.currency, HoldReason::ProposalBond, who, bond);
                assert(!s.proposals.contains_key(fresh));
                assert(t.proposals.dom() =~= s.proposals.dom().insert(fresh));
                assert forall|a: T::AccountId| #[trigger]
                    T::on_hold(t.currency, HoldReason::ProposalBond, a) >= t.bond_total(a) by {
                    assert(T::on_hold(s.currency, HoldReason::ProposalBond, a) >= s.bond_total(a));
                    lemma_sum_update(s.proposals.dom(), s.bond_weight(a), t.bond_weight(a), fresh);
                    assert(t.bond_total(a) <= T::Balance::max_value());
                }
            },
            Request::Vote { .. } => {
                assert(t.proposals.dom() =~= s.proposals.dom());
                lemma_bonds_untouched(s, t);
            },
            Request::SubmitCounterAttestation { proposal_id, .. } => {
                let proposal = s.proposals[proposal_id];
                let builder = proposal.attestation.builder;
                let due = s.slash_due(proposal_id);
                let (burned, _) = T::burn_held_outcome(
                    s.currency,
                    HoldReason::Stake,
                    builder,
                    due,
                );
                T::burn_held_effect(s.currency, HoldReason::Stake, builder, due);
                T::release_effect(
                    burned,
                    HoldReason::ProposalBond,
                    proposal.proposer,
                    proposal.bond,
                );
                assert(t.proposals.dom() =~= s.proposals.dom());
                assert forall|a: T::AccountId| #[trigger]
                    T::on_hold(t.currency, HoldReason::ProposalBond, a) + (if a
                        == proposal.proposer {
                        proposal.bond.value()
                    } else {
                        0
                    }) >= T::on_hold(s.currency, HoldReason::ProposalBond, a) by {
                    assert(T::on_hold(burned, HoldReason::ProposalBond, a) == T::on_hold(
                        s.currency,
                        HoldReason::ProposalBond,
                        a,
                    ));
                }
                lemma_bonds_closed(s, t, proposal_id);
            },
            Request::CloseExpired { proposal_id, .. } => {
                let proposal = s.proposals[proposal_id];
                T::release_effect(
                    s.currency,
                    HoldReason::ProposalBond,
                    proposal.proposer,
                    proposal.bond,
                );
                assert(t.proposals.dom() =~= s.proposals.dom());
                lemma_bonds_closed(s, t, proposal_id);
            },
            Request::OnInitialize { now } => {
                let taken = s.taken(now);
                lemma_bonds_untouched(s, taken);
                lemma_holds_enacting_all(taken, s.scheduled_at(now), now);
            },
        }
    }
}

/// Enrolling stakeholders leaves the holds for bonds alone.
proof fn lemma_bond_holds_enrolled<T: Config>(
    s: State<T>,
    project_id: ProjectId,
    inits: Seq<StakeholderInit<T::AccountId, T::Balance>>,
)
    ensures
        s.enrolling_all(project_id, inits) matches Ok(t) ==> forall|a: T::AccountId| #[trigger]
            T::on_hold(t.currency, HoldReason::ProposalBond, a) == T::on_hold(
                s.currency,
                HoldReason::ProposalBond,
                a,
            ),
    decreases inits.len(),
{
    if inits.len() > 0 {
        let prior = inits.drop_last();
        let init = inits.last();
        lemma_bond_holds_enrolled(s, project_id, prior);
        if s.enrolling_all(project_id, inits) is Ok {
            let m = s.enrolling_all(project_id, prior)->Ok_0;
            let t = s.enrolling_all(project_id, inits)->Ok_0;
            T::hold_effect(m.currency, HoldReason::Stake, init.account, init.stake);
            assert forall|a: T::AccountId| #[trigger]
                T::on_hold(t.currency, HoldReason::ProposalBond, a) == T::on_hold(
                    s.currency,
                    HoldReason::ProposalBond,
                    a,
                ) by {
                assert(T::on_hold(m.currency, HoldReason::ProposalBond, a) == T::on_hold(
                    s.currency,
                    HoldReason::ProposalBond,
                    a,
                ));
            }
        }
    }
}

} // verus!
