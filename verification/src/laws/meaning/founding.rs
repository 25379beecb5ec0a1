//! What a project genesis does.
use crate::bounded::role_quorums;
use crate::config::{CallError, Config, HoldReason, Origin};
use crate::laws::effects::lemma_first_failure_decides;
use crate::laws::meaning::readings::{
    law_numbers_saturate, law_records_read_as_they_stand, stake_in,
};
use crate::laws::meaning::voting::same_log;
use crate::model::State;
use crate::number::Number;
use crate::types::{Error, Event, ProjectId, ProjectInfo, Role, StakeholderInit};
use vstd::prelude::*;

verus! {

/// The books after the stakes of stakeholders are put on hold, one after the other.
pub open spec fn books_after<T: Config>(
    books: T::Currency,
    inits: Seq<StakeholderInit<T::AccountId, T::Balance>>,
) -> T::Currency
    decreases inits.len(),
{
    if inits.len() == 0 {
        books
    } else {
        T::hold_outcome(
            books_after::<T>(books, inits.drop_last()),
            HoldReason::Stake,
            inits.last().account,
            inits.last().stake,
        ).0
    }
}

/// What the token answers to the hold of a stakeholder's stake, once those before it are on hold.
pub open spec fn hold_answer<T: Config>(
    books: T::Currency,
    inits: Seq<StakeholderInit<T::AccountId, T::Balance>>,
    i: int,
) -> Result<(), sp_runtime::DispatchError> {
    T::hold_outcome(
        books_after::<T>(books, inits.take(i)),
        HoldReason::Stake,
        inits[i].account,
        inits[i].stake,
    ).1
}

/// The sum of the stakes of a role among stakeholders.
pub open spec fn stake_among<A, B: Number>(inits: Seq<StakeholderInit<A, B>>, r: Role) -> nat
    decreases inits.len(),
{
    if inits.len() == 0 {
        0
    } else {
        stake_among(inits.drop_last(), r) + if inits.last().role == r {
            inits.last().stake.value()
        } else {
            0
        }
    }
}

/// Whether an account is new to a project and to the stakeholders that come before it.
pub open spec fn is_new<T: Config>(
    s: State<T>,
    p: ProjectId,
    inits: Seq<StakeholderInit<T::AccountId, T::Balance>>,
    i: int,
) -> bool {
    &&& !s.stakeholders.contains_key((p, inits[i].account))
    &&& forall|j: int| 0 <= j < i ==> (#[trigger] inits[j]).account != inits[i].account
}

/// Whether the first `n` stakeholders can be enrolled in a project: each account is new, and the
/// token holds each stake.
pub open spec fn can_enroll<T: Config>(
    s: State<T>,
    p: ProjectId,
    inits: Seq<StakeholderInit<T::AccountId, T::Balance>>,
    n: int,
) -> bool {
    forall|i: int|
        #![trigger inits[i]]
        0 <= i < n ==> is_new(s, p, inits, i) && hold_answer::<T>(s.currency, inits, i) is Ok
}

/// The number itself, or the largest one of the type where it is out of range.
pub open spec fn in_range<N: Number>(n: nat) -> nat {
    if n > N::max_value() {
        N::max_value()
    } else {
        n
    }
}

/// Whether the stakes of the roles of all projects but one are the same in two states.
pub open spec fn same_stakes_elsewhere<T: Config>(s: State<T>, t: State<T>, p: ProjectId) -> bool {
    forall|k: (ProjectId, Role)|
        #![trigger t.role_stake.contains_key(k)]
        #![trigger s.role_stake.contains_key(k)]
        k.0 != p ==> {
            &&& t.role_stake.contains_key(k) == s.role_stake.contains_key(k)
            &&& s.role_stake.contains_key(k) ==> t.role_stake[k] == s.role_stake[k]
        }
}

/// Whether stakeholders are what was added to a project between two states: each is registered with
/// its role and its stake, which is on hold and in the total of its role, and reported, in order.
/// Nothing else is touched.
pub open spec fn stakeholders_registered<T: Config>(
    s: State<T>,
    t: State<T>,
    p: ProjectId,
    inits: Seq<StakeholderInit<T::AccountId, T::Balance>>,
) -> bool {
    &&& forall|i: int|
        #![trigger inits[i]]
        0 <= i < inits.len() ==> {
            let key = (p, inits[i].account);
            &&& t.stakeholders.contains_key(key)
            &&& t.stakeholders[key].role == inits[i].role
            &&& t.stakeholders[key].stake == inits[i].stake
        }
    &&& forall|k: (ProjectId, T::AccountId)|
        #![trigger t.stakeholders.contains_key(k)]
        #![trigger s.stakeholders.contains_key(k)]
        (forall|i: int| 0 <= i < inits.len() ==> k != (p, (#[trigger] inits[i]).account)) ==> {
            &&& t.stakeholders.contains_key(k) == s.stakeholders.contains_key(k)
            &&& s.stakeholders.contains_key(k) ==> t.stakeholders[k] == s.stakeholders[k]
        }
    &&& forall|r: Role| #[trigger]
        stake_in(t, p, r) == in_range::<T::Balance>(stake_in(s, p, r) + stake_among(inits, r))
    &&& same_stakes_elsewhere(s, t, p)
    &&& t.currency == books_after::<T>(s.currency, inits)
    &&& t.next_proposal_id == s.next_proposal_id
    &&& t.proposals == s.proposals
    &&& t.votes == s.votes
    &&& t.tallies == s.tallies
    &&& same_log(s, t)
    &&& t.counter_attestations == s.counter_attestations
    &&& t.pending_enactments == s.pending_enactments
}

/// The events of stakeholders that are registered, in order.
pub open spec fn registration_events<T: Config>(
    events: Seq<Event<T>>,
    p: ProjectId,
    inits: Seq<StakeholderInit<T::AccountId, T::Balance>>,
) -> Seq<Event<T>> {
    events + Seq::new(
        inits.len(),
        |i: int|
            Event::StakeholderRegistered {
                project_id: p,
                account: inits[i].account,
                role: inits[i].role,
                stake: inits[i].stake,
            },
    )
}

/// A stakeholder whose stake is on hold is registered with its role and stake, which is added to
/// the stake of the role.
pub proof fn law_stakeholders_are_registered<T: Config>(
    s: State<T>,
    p: ProjectId,
    init: StakeholderInit<T::AccountId, T::Balance>,
)
    ensures
        ({
            let t = s.with_stakeholder(p, init);
            let key = (p, init.account);
            &&& t.stakeholders.contains_key(key)
            &&& t.stakeholders[key].role == init.role
            &&& t.stakeholders[key].stake == init.stake
            &&& t.stakeholders.remove(key) == s.stakeholders.remove(key)
            &&& stake_in(t, p, init.role) == in_range::<T::Balance>(
                stake_in(s, p, init.role) + init.stake.value(),
            )
            &&& t.role_stake.contains_key((p, init.role))
            &&& t.role_stake.remove((p, init.role)) == s.role_stake.remove((p, init.role))
            &&& t.events == s.events.push(
                Event::StakeholderRegistered {
                    project_id: p,
                    account: init.account,
                    role: init.role,
                    stake: init.stake,
                },
            )
            &&& t.next_project_id == s.next_project_id
            &&& t.projects == s.projects
            &&& t.next_proposal_id == s.next_proposal_id
            &&& t.proposals == s.proposals
            &&& t.votes == s.votes
            &&& t.tallies == s.tallies
            &&& same_log(s, t)
            &&& t.counter_attestations == s.counter_attestations
            &&& t.pending_enactments == s.pending_enactments
            &&& t.currency == s.currency
        }),
{
    let t = s.with_stakeholder(p, init);
    let key = (p, init.account);
    let role = (p, init.role);
    law_records_read_as_they_stand(s, p, 0, init.role, init.account, T::BlockNumber::of(0));
    law_numbers_saturate(s.stake_of_role(p, init.role), init.stake);
    assert(t.stakeholders.remove(key) =~= s.stakeholders.remove(key));
    assert(t.role_stake.remove(role) =~= s.role_stake.remove(role));
}

/// A stakeholder is enrolled if and only if the account is new to the project and the token holds
/// the stake. Whatever fails is the answer.
pub proof fn law_new_accounts_are_enrolled<T: Config>(
    s: State<T>,
    p: ProjectId,
    init: StakeholderInit<T::AccountId, T::Balance>,
    held: State<T>,
)
    requires
        held == (State {
            currency: T::hold_outcome(s.currency, HoldReason::Stake, init.account, init.stake).0,
            ..s
        }),
    ensures
        ({
            let outcome = s.enrolling(p, init);
            let answer = T::hold_outcome(s.currency, HoldReason::Stake, init.account, init.stake).1;
            let known = s.stakeholders.contains_key((p, init.account));
            &&& known ==> outcome == Err::<State<T>, CallError>(
                CallError::Module(Error::DuplicateStakeholder),
            )
            &&& !known && answer is Err ==> outcome == Err::<State<T>, CallError>(
                CallError::Token(answer->Err_0),
            )
            &&& !known && answer is Ok ==> outcome == Ok::<State<T>, CallError>(
                held.with_stakeholder(p, init),
            )
        }),
{
}

/// Stakeholders are enrolled one after the other, in the order in which they are given.
pub proof fn law_enrolment_goes_in_order<T: Config>(
    s: State<T>,
    p: ProjectId,
    inits: Seq<StakeholderInit<T::AccountId, T::Balance>>,
    init: StakeholderInit<T::AccountId, T::Balance>,
)
    ensures
        s.enrolling_all(p, Seq::empty()) == Ok::<State<T>, CallError>(s),
        s.enrolling_all(p, inits) matches Ok(m) ==> s.enrolling_all(p, inits.push(init))
            == m.enrolling(p, init),
        s.enrolling_all(p, inits) is Err ==> s.enrolling_all(p, inits.push(init))
            == s.enrolling_all(p, inits),
{
    assert(inits.push(init).drop_last() =~= inits);
}

/// Stakeholders that can be enrolled are, and are registered.
pub proof fn law_stakeholders_are_enrolled<T: Config>(
    s: State<T>,
    p: ProjectId,
    inits: Seq<StakeholderInit<T::AccountId, T::Balance>>,
)
    requires
        can_enroll(s, p, inits, inits.len() as int),
    ensures
        ({
            let outcome = s.enrolling_all(p, inits);
            &&& outcome is Ok
            &&& stakeholders_registered(s, outcome->Ok_0, p, inits)
            &&& outcome->Ok_0.events == registration_events(s.events, p, inits)
            &&& outcome->Ok_0.next_project_id == s.next_project_id
            &&& outcome->Ok_0.projects == s.projects
        }),
    decreases inits.len(),
{
    if inits.len() == 0 {
        let t = s.enrolling_all(p, inits)->Ok_0;
        assert(t == s);
        assert(registration_events(s.events, p, inits) =~= s.events);
        assert forall|r: Role| #[trigger] stake_in(t, p, r) == in_range::<T::Balance>(
            stake_in(s, p, r) + stake_among(inits, r),
        ) by {
            law_records_read_as_they_stand(
                s,
                p,
                0,
                r,
                arbitrary::<T::AccountId>(),
                T::BlockNumber::of(0),
            );
            s.stake_of_role(p, r).value_in_range();
        }
    } else {
        let n = inits.len() - 1;
        let prior = inits.drop_last();
        let last = inits.last();
        assert forall|i: int| #![trigger prior[i]] 0 <= i < n implies is_new(s, p, prior, i)
            && hold_answer::<T>(s.currency, prior, i) is Ok by {
            assert(prior[i] == inits[i]);
            assert(is_new(s, p, inits, i));
            assert forall|j: int| 0 <= j < i implies (#[trigger] prior[j]).account
                != prior[i].account by {
                assert(prior[j] == inits[j]);
            }
            assert(prior.take(i) =~= inits.take(i));
        }
        law_stakeholders_are_enrolled(s, p, prior);
        let m = s.enrolling_all(p, prior)->Ok_0;
        assert(inits[n] == last);
        assert(inits.take(n) =~= prior);
        assert(hold_answer::<T>(s.currency, inits, n) is Ok);
        assert(is_new(s, p, inits, n));
        let key = (p, last.account);
        assert forall|i: int| 0 <= i < prior.len() implies key != (
            p,
            (#[trigger] prior[i]).account,
        ) by {
            assert(prior[i] == inits[i]);
        }
        assert(!m.stakeholders.contains_key(key)) by {
            assert(!s.stakeholders.contains_key(key));
        }
        let held = State {
            currency: T::hold_outcome(m.currency, HoldReason::Stake, last.account, last.stake).0,
            ..m
        };
        law_new_accounts_are_enrolled(m, p, last, held);
        lemma_one_more(s, m, held, p, inits);
    }
}

/// One more stakeholder, whose stake is on hold, joins those that are registered.
proof fn lemma_one_more<T: Config>(
    s: State<T>,
    m: State<T>,
    held: State<T>,
    p: ProjectId,
    inits: Seq<StakeholderInit<T::AccountId, T::Balance>>,
)
    requires
        inits.len() > 0,
        stakeholders_registered(s, m, p, inits.drop_last()),
        m.events == registration_events(s.events, p, inits.drop_last()),
        is_new(s, p, inits, inits.len() - 1),
        held == (State {
            currency: T::hold_outcome(
                m.currency,
                HoldReason::Stake,
                inits.last().account,
                inits.last().stake,
            ).0,
            ..m
        }),
    ensures
        stakeholders_registered(s, held.with_stakeholder(p, inits.last()), p, inits),
        held.with_stakeholder(p, inits.last()).events == registration_events(s.events, p, inits),
{
    let n = inits.len() - 1;
    let prior = inits.drop_last();
    let last = inits.last();
    let key = (p, last.account);
    let t = held.with_stakeholder(p, last);
    law_stakeholders_are_registered(held, p, last);
    lemma_one_more_role(s, m, held, t, p, inits);
    assert(t.stakeholders =~= m.stakeholders.insert(key, t.stakeholders[key])) by {
        assert(t.stakeholders.remove(key) == m.stakeholders.remove(key));
    }
    assert forall|i: int| #![trigger inits[i]] 0 <= i < inits.len() implies ({
        let k = (p, inits[i].account);
        &&& t.stakeholders.contains_key(k)
        &&& t.stakeholders[k].role == inits[i].role
        &&& t.stakeholders[k].stake == inits[i].stake
    }) by {
        if i < n {
            assert(prior[i] == inits[i]);
            assert(inits[i].account != inits[n].account);
        }
    }
    assert forall|k: (ProjectId, T::AccountId)|
        #![trigger t.stakeholders.contains_key(k)]
        #![trigger s.stakeholders.contains_key(k)]
        (forall|i: int| 0 <= i < inits.len() ==> k != (
            p,
            (#[trigger] inits[i]).account,
        )) implies {
        &&& t.stakeholders.contains_key(k) == s.stakeholders.contains_key(k)
        &&& s.stakeholders.contains_key(k) ==> t.stakeholders[k] == s.stakeholders[k]
    } by {
        assert(k != (p, inits[n].account));
        assert forall|i: int| 0 <= i < prior.len() implies k != (
            p,
            (#[trigger] prior[i]).account,
        ) by {
            assert(prior[i] == inits[i]);
        }
        assert(m.stakeholders.contains_key(k) == s.stakeholders.contains_key(k));
    }
    assert(t.events =~= registration_events(s.events, p, inits)) by {
        assert forall|i: int| 0 <= i < prior.len() implies prior[i] == inits[i] by {}
    }
}

/// One more stakeholder adds its stake to the stake of its role, and to no other.
proof fn lemma_one_more_role<T: Config>(
    s: State<T>,
    m: State<T>,
    held: State<T>,
    t: State<T>,
    p: ProjectId,
    inits: Seq<StakeholderInit<T::AccountId, T::Balance>>,
)
    requires
        inits.len() > 0,
        held.role_stake == m.role_stake,
        t == held.with_stakeholder(p, inits.last()),
        forall|r: Role| #[trigger]
            stake_in(m, p, r) == in_range::<T::Balance>(
                stake_in(s, p, r) + stake_among(inits.drop_last(), r),
            ),
        same_stakes_elsewhere(s, m, p),
    ensures
        forall|r: Role| #[trigger]
            stake_in(t, p, r) == in_range::<T::Balance>(
                stake_in(s, p, r) + stake_among(inits, r),
            ),
        same_stakes_elsewhere(s, t, p),
{
    let last = inits.last();
    let role = (p, last.role);
    law_stakeholders_are_registered(held, p, last);
    assert(t.role_stake =~= m.role_stake.insert(role, t.role_stake[role]));
    assert forall|r: Role| #[trigger] stake_in(t, p, r) == in_range::<T::Balance>(
        stake_in(s, p, r) + stake_among(inits, r),
    ) by {
        assert(stake_in(m, p, r) == in_range::<T::Balance>(
            stake_in(s, p, r) + stake_among(inits.drop_last(), r),
        ));
        assert(stake_in(held, p, r) == stake_in(m, p, r));
    }
    assert forall|k: (ProjectId, Role)|
        #![trigger t.role_stake.contains_key(k)]
        #![trigger s.role_stake.contains_key(k)]
        k.0 != p implies {
        &&& t.role_stake.contains_key(k) == s.role_stake.contains_key(k)
        &&& s.role_stake.contains_key(k) ==> t.role_stake[k] == s.role_stake[k]
    } by {
        assert(m.role_stake.contains_key(k) == s.role_stake.contains_key(k));
        assert(k != role);
    }
}

/// The first stakeholder that cannot be enrolled decides: with an account that is registered
/// already, or that comes twice, the answer is that; with a stake that the token does not hold, it
/// is the token's.
pub proof fn law_first_failure_is_the_answer<T: Config>(
    s: State<T>,
    p: ProjectId,
    inits: Seq<StakeholderInit<T::AccountId, T::Balance>>,
    n: int,
)
    requires
        0 <= n < inits.len(),
        can_enroll(s, p, inits, n),
        !can_enroll(s, p, inits, n + 1),
    ensures
        s.enrolling_all(p, inits) == Err::<State<T>, CallError>(
            if !is_new(s, p, inits, n) {
                CallError::Module(Error::DuplicateStakeholder)
            } else {
                CallError::Token(hold_answer::<T>(s.currency, inits, n)->Err_0)
            },
        ),
        is_new(s, p, inits, n) ==> hold_answer::<T>(s.currency, inits, n) is Err,
{
    let prior = inits.take(n);
    let upto = inits.take(n + 1);
    assert(upto.drop_last() =~= prior);
    assert(upto.last() == inits[n]);
    assert forall|i: int| #![trigger prior[i]] 0 <= i < n implies is_new(s, p, prior, i)
        && hold_answer::<T>(s.currency, prior, i) is Ok by {
        assert(prior[i] == inits[i]);
        assert(is_new(s, p, inits, i));
        assert forall|j: int| 0 <= j < i implies (#[trigger] prior[j]).account
            != prior[i].account by {
            assert(prior[j] == inits[j]);
        }
        assert(prior.take(i) =~= inits.take(i));
    }
    law_stakeholders_are_enrolled(s, p, prior);
    let m = s.enrolling_all(p, prior)->Ok_0;
    let key = (p, inits[n].account);
    if is_new(s, p, inits, n) {
        assert forall|i: int| 0 <= i < prior.len() implies key != (
            p,
            (#[trigger] prior[i]).account,
        ) by {
            assert(prior[i] == inits[i]);
        }
        assert(!m.stakeholders.contains_key(key)) by {
            assert(!s.stakeholders.contains_key(key));
        }
        if hold_answer::<T>(s.currency, inits, n) is Ok {
            assert(can_enroll(s, p, inits, n + 1));
        }
    } else {
        assert(m.stakeholders.contains_key(key)) by {
            if s.stakeholders.contains_key(key) {
                if exists|i: int| 0 <= i < prior.len() && key == (
                    p,
                    (#[trigger] prior[i]).account,
                ) {
                    let i = choose|i: int|
                        0 <= i < prior.len() && key == (p, (#[trigger] prior[i]).account);
                    assert(m.stakeholders.contains_key((p, prior[i].account)));
                }
            } else {
                let j = choose|j: int|
                    0 <= j < n && (#[trigger] inits[j]).account == inits[n].account;
                assert(prior[j] == inits[j]);
                assert(m.stakeholders.contains_key((p, prior[j].account)));
            }
        }
    }
    assert(s.enrolling_all(p, upto) == m.enrolling(p, inits[n]));
    lemma_first_failure_decides(s, p, inits, n + 1);
}

/// Whether every role that a project requires has stake in it, where the given stakeholders join
/// those that it has.
pub open spec fn every_required_role_has_stake<T: Config>(
    s: State<T>,
    p: ProjectId,
    inits: Seq<StakeholderInit<T::AccountId, T::Balance>>,
    project: ProjectInfo<T::Balance, T::BlockNumber>,
) -> bool {
    let required = role_quorums(project.policy.required_roles);
    forall|i: int|
        0 <= i < required.len() ==> stake_in(s, p, (#[trigger] required[i]).role) + stake_among(
            inits,
            required[i].role,
        ) > 0
}

/// A project genesis succeeds if and only if it comes from the chain's authority, requires a role,
/// its stakeholders can all be enrolled, and every role that it requires has stake among them.
/// The project is then registered as it was given, under the next identifier, with all its
/// stakeholders.
pub proof fn law_genesis_registers_the_project<T: Config>(
    s: State<T>,
    origin: Origin<T::AccountId>,
    inits: Seq<StakeholderInit<T::AccountId, T::Balance>>,
    project: ProjectInfo<T::Balance, T::BlockNumber>,
)
    ensures
        ({
            let outcome = s.genesis(origin, inits, project);
            let p = s.next_project_id;
            &&& outcome is Ok <==> {
                &&& origin is Root
                &&& role_quorums(project.policy.required_roles).len() > 0
                &&& can_enroll(s, p, inits, inits.len() as int)
                &&& every_required_role_has_stake(s, p, inits, project)
            }
            &&& outcome matches Ok(t) ==> {
                &&& t.projects.contains_key(p)
                &&& t.projects[p] == project
                &&& t.projects.remove(p) == s.projects.remove(p)
                &&& t.next_project_id == if p == u32::MAX {
                    p as int
                } else {
                    p + 1
                }
                &&& stakeholders_registered(s, t, p, inits)
                &&& t.events == registration_events(s.events, p, inits).push(
                    Event::ProjectCreated { project_id: p, name: project.name },
                )
            }
        }),
{
    let p = s.next_project_id;
    let all = inits.len() as int;
    let required = role_quorums(project.policy.required_roles);
    if can_enroll(s, p, inits, all) {
        law_stakeholders_are_enrolled(s, p, inits);
        let m = s.enrolling_all(p, inits)->Ok_0;
        lemma_required_roles(s, m, p, inits, project);
        if s.genesis(origin, inits, project) is Ok {
            let t = s.genesis(origin, inits, project)->Ok_0;
            assert(t.projects.remove(p) =~= s.projects.remove(p));
            assert forall|r: Role| #[trigger] stake_in(t, p, r) == in_range::<T::Balance>(
                stake_in(s, p, r) + stake_among(inits, r),
            ) by {
                assert(stake_in(t, p, r) == stake_in(m, p, r));
            }
            assert(stakeholders_registered(s, m, p, inits));
        }
    } else {
        let n = lemma_first_failure(s, p, inits, all);
        law_first_failure_is_the_answer(s, p, inits, n);
    }
}

/// A project genesis that fails is answered with the first reason there is: the origin, no required
/// role, the first stakeholder that cannot be enrolled, or a required role without stake.
pub proof fn law_genesis_is_refused_for_reasons<T: Config>(
    s: State<T>,
    origin: Origin<T::AccountId>,
    inits: Seq<StakeholderInit<T::AccountId, T::Balance>>,
    project: ProjectInfo<T::Balance, T::BlockNumber>,
    n: int,
)
    ensures
        ({
            let outcome = s.genesis(origin, inits, project);
            let p = s.next_project_id;
            let no_roles = role_quorums(project.policy.required_roles).len() == 0;
            let all = inits.len() as int;
            &&& !(origin is Root) ==> outcome == Err::<State<T>, CallError>(CallError::BadOrigin)
            &&& origin is Root && no_roles ==> outcome == Err::<State<T>, CallError>(
                CallError::Module(Error::NoRequiredRoles),
            )
            &&& origin is Root && !no_roles && 0 <= n < all && can_enroll(s, p, inits, n)
                && !can_enroll(s, p, inits, n + 1) ==> outcome == Err::<State<T>, CallError>(
                if !is_new(s, p, inits, n) {
                    CallError::Module(Error::DuplicateStakeholder)
                } else {
                    CallError::Token(hold_answer::<T>(s.currency, inits, n)->Err_0)
                },
            )
            &&& origin is Root && !no_roles && can_enroll(s, p, inits, all)
                && !every_required_role_has_stake(s, p, inits, project) ==> outcome == Err::<
                State<T>,
                CallError,
            >(CallError::Module(Error::RequiredRoleHasNoStake))
        }),
{
    let p = s.next_project_id;
    let all = inits.len() as int;
    if 0 <= n < all && can_enroll(s, p, inits, n) && !can_enroll(s, p, inits, n + 1) {
        law_first_failure_is_the_answer(s, p, inits, n);
    }
    if can_enroll(s, p, inits, all) {
        law_stakeholders_are_enrolled(s, p, inits);
        lemma_required_roles(s, s.enrolling_all(p, inits)->Ok_0, p, inits, project);
    }
}

/// Where not all stakeholders can be enrolled, one is the first.
proof fn lemma_first_failure<T: Config>(
    s: State<T>,
    p: ProjectId,
    inits: Seq<StakeholderInit<T::AccountId, T::Balance>>,
    m: int,
) -> (n: int)
    requires
        0 <= m <= inits.len(),
        !can_enroll(s, p, inits, m),
    ensures
        0 <= n < m,
        can_enroll(s, p, inits, n),
        !can_enroll(s, p, inits, n + 1),
    decreases m,
{
    if m > 0 && !can_enroll(s, p, inits, m - 1) {
        lemma_first_failure(s, p, inits, m - 1)
    } else {
        m - 1
    }
}

/// The required roles have stake once the stakeholders are registered if and only if the
/// stakeholders bring it.
proof fn lemma_required_roles<T: Config>(
    s: State<T>,
    m: State<T>,
    p: ProjectId,
    inits: Seq<StakeholderInit<T::AccountId, T::Balance>>,
    project: ProjectInfo<T::Balance, T::BlockNumber>,
)
    requires
        stakeholders_registered(s, m, p, inits),
    ensures
        m.required_roles_staked(p, project.policy) == every_required_role_has_stake(
            s,
            p,
            inits,
            project,
        ),
{
    let required = role_quorums(project.policy.required_roles);
    assert forall|i: int| 0 <= i < required.len() implies (m.stake_of_role(
        p,
        (#[trigger] required[i]).role,
    ).value() != 0) == (stake_in(s, p, required[i].role) + stake_among(inits, required[i].role)
        > 0) by {
        let r = required[i].role;
        law_records_read_as_they_stand(
            m,
            p,
            0,
            r,
            arbitrary::<T::AccountId>(),
            T::BlockNumber::of(0),
        );
        m.stake_of_role(p, r).value_in_range();
        assert(stake_in(m, p, r) == in_range::<T::Balance>(
            stake_in(s, p, r) + stake_among(inits, r),
        ));
    }
}

} // verus!
