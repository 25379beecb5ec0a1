//! Project genesis.
use crate::bounded::{as_role_quorums, duplicate_bytes, role_quorums, NameLimit};
use crate::config::{CallError, Config, HoldReason, Origin};
use crate::laws::effects::{lemma_enrolled, lemma_first_failure_decides};
use crate::model::{settled, State};
use crate::number::Number;
use crate::pallet::Pallet;
use crate::storage::StorageKey;
use crate::types::{
    Error, Event, ProjectId, ProjectInfo, ReleasePolicy, Role, RoleQuorum, SlashingParams,
    Stakeholder, StakeholderInit,
};
use frame_support::BoundedVec;
use vstd::prelude::*;

verus! {

impl<T: Config> Pallet<T> {
    /// Registers a stakeholder whose stake is on hold.
    pub fn record_stakeholder(
        &mut self,
        project_id: ProjectId,
        init: &StakeholderInit<T::AccountId, T::Balance>,
    )
        requires
            old(self).wf(),
        ensures
            final(self).wf(),
            final(self)@ == old(self)@.with_stakeholder(project_id, *init),
    {
        self.stakeholders.insert(
            (project_id, init.account.duplicate()),
            Stakeholder { role: init.role, stake: init.stake },
        );
        let total = self.stake_of_role(project_id, init.role).saturating_add(init.stake);
        self.role_stake.insert((project_id, init.role), total);
        self.deposit_event(
            Event::StakeholderRegistered {
                project_id,
                account: init.account.duplicate(),
                role: init.role,
                stake: init.stake,
            },
        );
        proof {
            assert(self@ =~= old(self)@.with_stakeholder(project_id, *init));
        }
    }

    /// Enrols one stakeholder: puts its stake on hold and registers it. A token that refuses
    /// the hold may leave its books changed.
    fn enroll(
        &mut self,
        project_id: ProjectId,
        init: &StakeholderInit<T::AccountId, T::Balance>,
    ) -> (answer: Result<(), CallError>)
        requires
            old(self).wf(),
        ensures
            final(self).wf(),
            match old(self)@.enrolling(project_id, *init) {
                Ok(s) => answer is Ok && final(self)@ == s,
                Err(e) => {
                    &&& answer == Err::<(), CallError>(e)
                    &&& final(self)@ == (State { currency: final(self).currency, ..old(self)@ })
                },
            },
    {
        if self.stakeholders.contains_key(&(project_id, init.account.duplicate())) {
            return Err(CallError::Module(Error::DuplicateStakeholder));
        }
        let held = T::hold(&mut self.currency, HoldReason::Stake, &init.account, init.stake);
        proof {
            assert(self@ =~= (State { currency: self.currency, ..old(self)@ }));
        }
        match held {
            Ok(_) => {
                self.record_stakeholder(project_id, init);
                Ok(())
            },
            Err(e) => Err(CallError::Token(e)),
        }
    }

    /// The stake of a role, as it stands in the storage.
    fn stored_role_stake(&self, project_id: ProjectId, role: Role) -> (stake: Option<T::Balance>)
        requires
            self.wf(),
        ensures
            stake is Some <==> self@.role_stake.contains_key((project_id, role)),
            stake matches Some(b) ==> b == self@.role_stake[(project_id, role)],
    {
        match self.role_stake.get(&(project_id, role)) {
            Some(stake) => Some(*stake),
            None => None,
        }
    }

    /// Whether every role that a policy requires has stake in a project.
    fn required_roles_staked(
        &self,
        project_id: ProjectId,
        policy: &ReleasePolicy<T::BlockNumber>,
    ) -> (staked: bool)
        requires
            self.wf(),
        ensures
            staked == self@.required_roles_staked(project_id, *policy),
    {
        let required = as_role_quorums(&policy.required_roles);
        let mut i: usize = 0;
        while i < required.len()
            invariant
                self.wf(),
                i <= required@.len(),
                required@ == role_quorums(policy.required_roles),
                forall|j: int|
                    0 <= j < i ==> self@.stake_of_role(
                        project_id,
                        (#[trigger] required@[j]).role,
                    ).value() != 0,
            decreases required@.len() - i,
        {
            let rq: RoleQuorum = required[i];
            if self.stake_of_role(project_id, rq.role).to_u128() == 0 {
                assert(self@.stake_of_role(project_id, required@[i as int].role).value() == 0);
                return false;
            }
            i = i + 1;
        }
        true
    }

    /// `ProjectGenesis`: register a project, its stakeholders (escrowing each one's initial
    /// stake), its release policy and its slashing parameters. Root-only in this prototype;
    /// root stands in for the founding maintainer set's collective signature.
    pub fn project_genesis(
        &mut self,
        origin: Origin<T::AccountId>,
        name: BoundedVec<u8, NameLimit>,
        stakeholders: Vec<StakeholderInit<T::AccountId, T::Balance>>,
        policy: ReleasePolicy<T::BlockNumber>,
        slashing: SlashingParams<T::BlockNumber>,
        proposal_bond: T::Balance,
    ) -> (answer: Result<(), CallError>)
        requires
            old(self).wf(),
        ensures
            final(self).wf(),
            settled(
                old(self)@,
                old(self)@.genesis(
                    origin,
                    stakeholders@,
                    ProjectInfo { name, policy, slashing, proposal_bond },
                ),
                final(self)@,
                answer,
            ),
    {
        match origin {
            Origin::Root => {},
            _ => return Err(CallError::BadOrigin),
        }
        if as_role_quorums(&policy.required_roles).len() == 0 {
            return Err(CallError::Module(Error::NoRequiredRoles));
        }
        let project_id = self.next_project_id;
        let saved = T::snapshot(&self.currency);
        let told = T::log_snapshot(&self.event_log);
        let core = self.stored_role_stake(project_id, Role::CoreDeveloper);
        let audit = self.stored_role_stake(project_id, Role::SecurityAuditor);
        let trust = self.stored_role_stake(project_id, Role::CommunityTrustee);
        let build = self.stored_role_stake(project_id, Role::BuildService);

        let (enrolled, answer) = self.enroll_all(project_id, &stakeholders);
        let answer = match answer {
            Ok(_) => if self.required_roles_staked(project_id, &policy) {
                Ok(())
            } else {
                Err(CallError::Module(Error::RequiredRoleHasNoStake))
            },
            Err(e) => Err(e),
        };
        match answer {
            Ok(_) => {
                let event = Event::ProjectCreated { project_id, name: duplicate_bytes(&name) };
                let ghost enrolled_all = self@;
                let ghost project = ProjectInfo { name, policy, slashing, proposal_bond };
                self.projects.insert(
                    project_id,
                    ProjectInfo { name, policy, slashing, proposal_bond },
                );
                self.next_project_id = project_id.saturating_add(1);
                self.deposit_event(event);
                proof {
                    assert(self@ =~= enrolled_all.with_project(project_id, project));
                }
                Ok(())
            },
            Err(e) => {
                let ghost partial = self@;
                proof {
                    lemma_enrolled(old(self)@, project_id, stakeholders@.take(enrolled as int));
                    if enrolled == stakeholders@.len() {
                        assert(stakeholders@.take(enrolled as int) =~= stakeholders@);
                    }
                }
                self.unregister(project_id, &stakeholders, enrolled);
                self.role_stake.restore((project_id, Role::CoreDeveloper), core);
                self.role_stake.restore((project_id, Role::SecurityAuditor), audit);
                self.role_stake.restore((project_id, Role::CommunityTrustee), trust);
                self.role_stake.restore((project_id, Role::BuildService), build);
                self.event_log = told;
                self.currency = saved;
                proof {
                    let inits = stakeholders@.take(enrolled as int);
                    assert forall|k: (ProjectId, T::AccountId)|
                        self@.stakeholders.contains_key(k) == old(self)@.stakeholders.contains_key(
                            k,
                        ) by {
                        if old(self)@.stakeholders.contains_key(k) {
                            assert(partial.stakeholders.contains_key(k));
                            if exists|i: int|
                                0 <= i < enrolled && k == (
                                    project_id,
                                    (#[trigger] stakeholders@[i]).account,
                                ) {
                                let i = choose|i: int|
                                    0 <= i < enrolled && k == (
                                        project_id,
                                        (#[trigger] stakeholders@[i]).account,
                                    );
                                assert(inits[i] == stakeholders@[i]);
                            }
                        } else if partial.stakeholders.contains_key(k) {
                            let i = choose|i: int|
                                0 <= i < inits.len() && k == (
                                    project_id,
                                    (#[trigger] inits[i]).account,
                                );
                            assert(inits[i] == stakeholders@[i]);
                        }
                    }
                    assert(self@.stakeholders =~= old(self)@.stakeholders);
                    assert forall|k: (ProjectId, Role)|
                        #![trigger self@.role_stake.dom().contains(k)]
                        #![trigger self@.role_stake[k]]
                        self@.role_stake.contains_key(k) == old(self)@.role_stake.contains_key(k)
                            && (old(self)@.role_stake.contains_key(k) ==> self@.role_stake[k]
                            == old(self)@.role_stake[k]) by {
                        if k.0 == project_id {
                            match k.1 {
                                Role::CoreDeveloper => {},
                                Role::SecurityAuditor => {},
                                Role::CommunityTrustee => {},
                                Role::BuildService => {},
                            }
                        } else {
                            assert(partial.role_stake.contains_key(k)
                                == old(self)@.role_stake.contains_key(k));
                        }
                    }
                    assert(self@.role_stake =~= old(self)@.role_stake);
                    assert(self@ =~= old(self)@);
                }
                Err(e)
            },
        }
    }

    /// Enrols the stakeholders in order, up to the first that fails. Answers with how many were
    /// enrolled.
    fn enroll_all(
        &mut self,
        project_id: ProjectId,
        stakeholders: &Vec<StakeholderInit<T::AccountId, T::Balance>>,
    ) -> (r: (usize, Result<(), CallError>))
        requires
            old(self).wf(),
        ensures
            final(self).wf(),
            r.0 <= stakeholders@.len(),
            match r.1 {
                Ok(_) => {
                    &&& r.0 == stakeholders@.len()
                    &&& old(self)@.enrolling_all(project_id, stakeholders@) == Ok::<
                        State<T>,
                        CallError,
                    >(final(self)@)
                },
                Err(e) => {
                    &&& old(self)@.enrolling_all(project_id, stakeholders@) == Err::<
                        State<T>,
                        CallError,
                    >(e)
                    &&& old(self)@.enrolling_all(project_id, stakeholders@.take(r.0 as int)) is Ok
                    &&& final(self)@ == (State {
                        currency: final(self).currency,
                        ..old(self)@.enrolling_all(project_id, stakeholders@.take(r.0 as int))->Ok_0
                    })
                },
            },
    {
        let mut i: usize = 0;
        while i < stakeholders.len()
            invariant
                self.wf(),
                i <= stakeholders@.len(),
                old(self)@.enrolling_all(project_id, stakeholders@.take(i as int)) == Ok::<
                    State<T>,
                    CallError,
                >(self@),
            decreases stakeholders@.len() - i,
        {
            proof {
                assert(stakeholders@.take(i + 1).drop_last() =~= stakeholders@.take(i as int));
            }
            match self.enroll(project_id, &stakeholders[i]) {
                Ok(_) => {},
                Err(e) => {
                    proof {
                        lemma_first_failure_decides(
                            old(self)@,
                            project_id,
                            stakeholders@,
                            i + 1,
                        );
                    }
                    return (i, Err(e));
                },
            }
            i = i + 1;
        }
        proof {
            assert(stakeholders@.take(i as int) =~= stakeholders@);
        }
        (i, Ok(()))
    }

    /// Removes the first `n` of the stakeholders from the registry.
    fn unregister(
        &mut self,
        project_id: ProjectId,
        stakeholders: &Vec<StakeholderInit<T::AccountId, T::Balance>>,
        n: usize,
    )
        requires
            old(self).wf(),
            n <= stakeholders@.len(),
        ensures
            final(self).wf(),
            final(self)@ == (State { stakeholders: final(self)@.stakeholders, ..old(self)@ }),
            forall|k: (ProjectId, T::AccountId)| #[trigger]
                final(self)@.stakeholders.contains_key(k) <==> old(
                    self,
                )@.stakeholders.contains_key(k) && !(exists|i: int|
                    0 <= i < n && k == (project_id, (#[trigger] stakeholders@[i]).account)),
            forall|k: (ProjectId, T::AccountId)| #[trigger]
                final(self)@.stakeholders.contains_key(k) ==> final(self)@.stakeholders[k] == old(
                    self,
                )@.stakeholders[k],
    {
        let mut i: usize = 0;
        while i < n
            invariant
                self.wf(),
                i <= n <= stakeholders@.len(),
                self@ == (State { stakeholders: self@.stakeholders, ..old(self)@ }),
                forall|k: (ProjectId, T::AccountId)| #[trigger]
                    self@.stakeholders.contains_key(k) <==> old(self)@.stakeholders.contains_key(k)
                        && !(exists|j: int|
                        0 <= j < i && k == (project_id, (#[trigger] stakeholders@[j]).account)),
                forall|k: (ProjectId, T::AccountId)| #[trigger]
                    self@.stakeholders.contains_key(k) ==> self@.stakeholders[k] == old(
                        self,
                    )@.stakeholders[k],
            decreases n - i,
        {
            let ghost before = self@;
            let key = (project_id, stakeholders[i].account.duplicate());
            let _ = self.stakeholders.take(&key);
            proof {
                assert(self@ =~= (State { stakeholders: self@.stakeholders, ..old(self)@ }));
                assert forall|k: (ProjectId, T::AccountId)| #[trigger]
                    self@.stakeholders.contains_key(k) <==> old(self)@.stakeholders.contains_key(k)
                        && !(exists|j: int|
                        0 <= j < i + 1 && k == (
                            project_id,
                            (#[trigger] stakeholders@[j]).account,
                        )) by {
                    assert(self@.stakeholders.contains_key(k) <==> before.stakeholders.contains_key(
                        k,
                    ) && k != key);
                    if k == key {
                        assert(k == (project_id, stakeholders@[i as int].account));
                    }
                }
            }
            i = i + 1;
        }
    }
}

} // verus!
