//! How the records refer to one another.
use crate::config::Config;
use crate::laws::effects::{lemma_block_start, lemma_enrolled};
use crate::model::{Request, State};
use crate::types::{ProjectId, StakeholderInit};
use vstd::prelude::*;

verus! {

/// The registry, the votes and the proposals stay finite.
pub proof fn lemma_finite_kept<T: Config>(s: State<T>, request: Request<T>)
    requires
        s.finite(),
    ensures
        s.step(request).finite(),
{
    match request {
        Request::ProjectGenesis { stakeholders, .. } => {
            lemma_enrolled(s, s.next_project_id, stakeholders);
            lemma_registry_finite(s, s.next_project_id, stakeholders);
        },
        Request::OnInitialize { now } => {
            lemma_block_start(s, now);
        },
        _ => {},
    }
}

/// Enrolling stakeholders leaves a finite registry finite.
pub proof fn lemma_registry_finite<T: Config>(
    s: State<T>,
    project_id: ProjectId,
    inits: Seq<StakeholderInit<T::AccountId, T::Balance>>,
)
    requires
        s.stakeholders.dom().finite(),
    ensures
        s.enrolling_all(project_id, inits) matches Ok(t) ==> t.stakeholders.dom().finite(),
    decreases inits.len(),
{
    if inits.len() > 0 {
        lemma_registry_finite(s, project_id, inits.drop_last());
    }
}

/// Nothing is ever recorded under an identifier that was not given out.
pub proof fn lemma_identified_kept<T: Config>(s: State<T>, request: Request<T>)
    requires
        s.identified(),
        s.has_identifiers_for(request),
    ensures
        s.step(request).identified(),
{
    match request {
        Request::ProjectGenesis { stakeholders, .. } => {
            lemma_enrolled(s, s.next_project_id, stakeholders);
        },
        Request::OnInitialize { now } => {
            lemma_block_start(s, now);
        },
        _ => {},
    }
}

/// Proposals and votes keep referring to registered projects and stakeholders.
pub proof fn lemma_linked_kept<T: Config>(s: State<T>, request: Request<T>)
    requires
        s.identified(),
        s.linked(),
    ensures
        s.step(request).linked(),
{
    match request {
        Request::ProjectGenesis { stakeholders, .. } => {
            lemma_enrolled(s, s.next_project_id, stakeholders);
        },
        Request::OnInitialize { now } => {
            lemma_block_start(s, now);
        },
        _ => {},
    }
}

/// A proposal is rejected exactly when a counter-attestation against it was accepted.
pub proof fn lemma_rejected_kept<T: Config>(s: State<T>, request: Request<T>)
    requires
        s.identified(),
        s.linked(),
        s.rejected_when_challenged(),
    ensures
        s.step(request).rejected_when_challenged(),
{
    match request {
        Request::ProjectGenesis { stakeholders, .. } => {
            lemma_enrolled(s, s.next_project_id, stakeholders);
        },
        Request::OnInitialize { now } => {
            lemma_block_start(s, now);
        },
        _ => {},
    }
}

} // verus!
