//! The records are consistent after every request.
use crate::config::{Config, HoldReason};
use crate::laws::escrow::{law_bonds_stay_escrowed, law_stakes_stay_escrowed};
use crate::laws::history::{
    law_proposals_keep_their_content, law_statuses_follow_the_life_cycle,
};
use crate::laws::log::lemma_log_kept;
use crate::laws::records::{
    lemma_finite_kept, lemma_identified_kept, lemma_linked_kept, lemma_rejected_kept,
};
use crate::laws::registry::lemma_roles_kept;
use crate::laws::schedule::lemma_schedule_kept;
use crate::laws::tallies::law_tallies_count_stake;
use crate::model::{Request, State};
use crate::number::{lemma_value_of, Number};
use crate::sums::lemma_sum_zero;
use crate::types::{Event, ProjectId, ProposalId, Role, RoleTally};
use vstd::prelude::*;

verus! {

/// The pallet's records are consistent before any request.
pub proof fn law_empty_state_is_consistent<T: Config>(
    currency: T::Currency,
    events: Seq<Event<T>>,
)
    ensures
        State::<T>::empty(currency, events).consistent(),
{
    let s = State::<T>::empty(currency, events);
    lemma_value_of::<T::Balance>(0);
    T::Balance::of(0).value_in_range();
    assert forall|p: ProjectId, r: Role| #[trigger]
        s.stake_of_role(p, r).value() == s.role_total(p, r) by {
        lemma_sum_zero(s.stakeholders.dom(), s.role_weight(p, r));
    }
    assert forall|id: ProposalId, r: Role| #[trigger] s.tally_exact(id, r) by {
        assert(s.tally(id, r) == RoleTally::<T::Balance>::none());
        lemma_sum_zero(s.votes.dom(), s.ballot_weight(id, r, true));
        lemma_sum_zero(s.votes.dom(), s.ballot_weight(id, r, false));
    }
    assert forall|b: T::BlockNumber| #[trigger] s.scheduled_at(b) == Seq::<ProposalId>::empty() by {
    }
}

/// Every request takes consistent records to consistent records, as long as the identifiers, log
/// indices and balances that it counts up stay within their range.
pub proof fn law_consistency_is_kept<T: Config>(s: State<T>, request: Request<T>)
    requires
        s.consistent(),
        s.has_room(request),
    ensures
        s.step(request).consistent(),
{
    lemma_finite_kept(s, request);
    lemma_identified_kept(s, request);
    lemma_linked_kept(s, request);
    lemma_roles_kept(s, request);
    lemma_schedule_kept(s, request);
    lemma_log_kept(s, request);
    lemma_rejected_kept(s, request);
    let t = s.step(request);
    assert forall|id: ProposalId, r: Role| !t.is_closed(id) implies #[trigger] t.tally_exact(
        id,
        r,
    ) by {
        if s.is_closed(id) {
            law_statuses_follow_the_life_cycle(s, request, id);
            law_proposals_keep_their_content(s, request, id);
        }
        assert(s.tally_exact(id, r));
        law_tallies_count_stake(s, request, id, r);
    }
}

/// The records are consistent after any requests whatever, from the empty state on.
pub proof fn law_every_run_is_consistent<T: Config>(
    currency: T::Currency,
    events: Seq<Event<T>>,
    requests: Seq<Request<T>>,
)
    requires
        forall|i: int|
            0 <= i < requests.len() ==> State::<T>::empty(currency, events).run(
                #[trigger] requests.take(i),
            ).has_room(requests[i]),
    ensures
        State::<T>::empty(currency, events).run(requests).consistent(),
    decreases requests.len(),
{
    let s = State::<T>::empty(currency, events);
    if requests.len() == 0 {
        law_empty_state_is_consistent::<T>(currency, events);
    } else {
        let prior = requests.drop_last();
        assert forall|i: int| 0 <= i < prior.len() implies s.run(
            #[trigger] prior.take(i),
        ).has_room(prior[i]) by {
            assert(prior.take(i) =~= requests.take(i));
        }
        law_every_run_is_consistent::<T>(currency, events, prior);
        assert(requests.take(requests.len() - 1) =~= prior);
        law_consistency_is_kept(s.run(prior), requests.last());
    }
}

/// Every stake and every bond of an open proposal is on hold after any requests whatever, from
/// the empty state on.
pub proof fn law_every_run_is_escrowed<T: Config>(
    currency: T::Currency,
    events: Seq<Event<T>>,
    requests: Seq<Request<T>>,
)
    requires
        forall|i: int|
            0 <= i < requests.len() ==> {
                let s = State::<T>::empty(currency, events).run(#[trigger] requests.take(i));
                s.has_identifiers_for(requests[i]) && s.has_stakes_for(requests[i])
                    && s.has_bonds_for(requests[i])
            },
    ensures
        State::<T>::empty(currency, events).run(requests).stakes_escrowed(),
        State::<T>::empty(currency, events).run(requests).bonds_escrowed(),
{
    lemma_run_escrowed::<T>(currency, events, requests);
}

proof fn lemma_run_escrowed<T: Config>(
    currency: T::Currency,
    events: Seq<Event<T>>,
    requests: Seq<Request<T>>,
)
    requires
        forall|i: int|
            0 <= i < requests.len() ==> {
                let s = State::<T>::empty(currency, events).run(#[trigger] requests.take(i));
                s.has_identifiers_for(requests[i]) && s.has_stakes_for(requests[i])
                    && s.has_bonds_for(requests[i])
            },
    ensures
        ({
            let t = State::<T>::empty(currency, events).run(requests);
            t.finite() && t.identified() && t.stakes_escrowed() && t.bonds_escrowed()
        }),
    decreases requests.len(),
{
    let s = State::<T>::empty(currency, events);
    if requests.len() == 0 {
        assert forall|a: T::AccountId| #[trigger]
            T::on_hold(s.currency, HoldReason::Stake, a) >= s.account_total(a) by {
            lemma_sum_zero(s.stakeholders.dom(), s.account_weight(a));
        }
        assert forall|a: T::AccountId| #[trigger]
            T::on_hold(s.currency, HoldReason::ProposalBond, a) >= s.bond_total(a) by {
            lemma_sum_zero(s.proposals.dom(), s.bond_weight(a));
        }
    } else {
        let prior = requests.drop_last();
        let last = requests.last();
        assert forall|i: int| 0 <= i < prior.len() implies {
            let s = State::<T>::empty(currency, events).run(#[trigger] prior.take(i));
            s.has_identifiers_for(prior[i]) && s.has_stakes_for(prior[i]) && s.has_bonds_for(
                prior[i],
            )
        } by {
            assert(prior.take(i) =~= requests.take(i));
        }
        lemma_run_escrowed::<T>(currency, events, prior);
        assert(requests.take(requests.len() - 1) =~= prior);
        let m = s.run(prior);
        lemma_finite_kept(m, last);
        lemma_identified_kept(m, last);
        law_stakes_stay_escrowed(m, last);
        law_bonds_stay_escrowed(m, last);
    }
}

} // verus!
