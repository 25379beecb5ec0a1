//! Who may do what.
use crate::bounded::role_quorums;
use crate::config::Config;
use crate::laws::effects::{lemma_block_start, lemma_enrolled};
use crate::model::{Request, State};
use crate::number::Number;
use crate::types::{BuildAttestation, ProjectId, Role};
use vstd::prelude::*;

verus! {

/// Only root registers a project. A registered project stays as it is, and it requires at least
/// one role, each of which has stake when it is registered.
pub proof fn law_only_root_registers_projects<T: Config>(s: State<T>, request: Request<T>)
    requires
        s.identified(),
    ensures
        s.step(request).projects != s.projects ==> {
            &&& request matches Request::ProjectGenesis { origin, project, .. }
            &&& origin is Root
            &&& s.step(request).projects == s.projects.insert(s.next_project_id, project)
            &&& role_quorums(project.policy.required_roles).len() > 0
            &&& s.step(request).required_roles_staked(s.next_project_id, project.policy)
        },
        forall|p: ProjectId| #[trigger]
            s.projects.contains_key(p) ==> s.step(request).projects.contains_key(p) && s.step(
                request,
            ).projects[p] == s.projects[p],
{
    match request {
        Request::ProjectGenesis { stakeholders, project, .. } => {
            lemma_enrolled(s, s.next_project_id, stakeholders);
            if s.outcome(request) is Ok {
                let enrolled = s.enrolling_all(s.next_project_id, stakeholders)->Ok_0;
                let t = s.step(request);
                let required = role_quorums(project.policy.required_roles);
                assert forall|i: int| 0 <= i < required.len() implies t.stake_of_role(
                    s.next_project_id,
                    (#[trigger] required[i]).role,
                ).value() != 0 by {
                    assert(enrolled.stake_of_role(s.next_project_id, required[i].role).value()
                        != 0);
                }
            }
        },
        Request::OnInitialize { now } => {
            lemma_block_start(s, now);
        },
        _ => {},
    }
}

/// A release is proposed only by a Core Developer of its project, and only with an attestation
/// that a registered Build Service of the project signed.
pub proof fn law_only_core_developers_propose<T: Config>(s: State<T>, request: Request<T>)
    ensures
        request is NewRelease && s.outcome(request) is Ok ==> {
            let project_id = request->NewRelease_project_id;
            let attestation = request->NewRelease_attestation;
            let who = request->NewRelease_origin->Signed_0;
            &&& request->NewRelease_origin is Signed
            &&& s.stakeholders.contains_key((project_id, who))
            &&& s.stakeholders[(project_id, who)].role == Role::CoreDeveloper
            &&& s.stakeholders.contains_key((project_id, attestation.builder))
            &&& s.stakeholders[(project_id, attestation.builder)].role == Role::BuildService
            &&& T::is_signature(
                request->NewRelease_builder_signature,
                attestation.payload(),
                attestation.builder,
            )
        },
{
}

/// A vote is recorded only for a stakeholder of the proposal's project, while the proposal is open,
/// and, unless it is approved, while its voting period is not over.
pub proof fn law_only_stakeholders_vote<T: Config>(s: State<T>, request: Request<T>)
    ensures
        request is Vote && s.outcome(request) is Ok ==> {
            let proposal = s.proposals[request->Vote_proposal_id];
            let who = request->Vote_origin->Signed_0;
            &&& request->Vote_origin is Signed
            &&& s.proposals.contains_key(request->Vote_proposal_id)
            &&& s.stakeholders.contains_key((proposal.project_id, who))
            &&& proposal.status is Voting || proposal.status is Approved
            &&& proposal.status is Voting ==> request->Vote_now.value()
                <= proposal.voting_ends.value()
        },
{
}

/// A Build Service is slashed only for a real discrepancy, reported by another stakeholder of the
/// project, on a proposal that is not closed. In particular an enacted release is out of reach.
pub proof fn law_only_discrepancies_are_slashed<T: Config>(s: State<T>, request: Request<T>)
    ensures
        request is SubmitCounterAttestation && s.outcome(request) is Ok ==> {
            let proposal = s.proposals[request->SubmitCounterAttestation_proposal_id];
            let who = request->SubmitCounterAttestation_origin->Signed_0;
            &&& request->SubmitCounterAttestation_origin is Signed
            &&& s.proposals.contains_key(request->SubmitCounterAttestation_proposal_id)
            &&& s.stakeholders.contains_key((proposal.project_id, who))
            &&& who != proposal.attestation.builder
            &&& request->SubmitCounterAttestation_rebuilt_binary_hash
                != proposal.attestation.output_binary_hash
            &&& proposal.status is Voting || proposal.status is Approved
        },
{
}

/// Nothing that is requested for one project touches the registry of another: a stakeholder's
/// role never changes, and its stake changes only when a counter-attestation against its own
/// attestation is accepted.
pub proof fn law_registrations_last<T: Config>(
    s: State<T>,
    request: Request<T>,
    k: (ProjectId, T::AccountId),
)
    requires
        s.stakeholders.contains_key(k),
    ensures
        s.step(request).stakeholders.contains_key(k),
        s.step(request).stakeholders[k].role == s.stakeholders[k].role,
        s.step(request).stakeholders[k] != s.stakeholders[k] ==> {
            &&& request matches Request::SubmitCounterAttestation { proposal_id, .. }
            &&& k == (
                s.proposals[proposal_id].project_id,
                s.proposals[proposal_id].attestation.builder,
            )
        },
{
    match request {
        Request::ProjectGenesis { stakeholders, .. } => {
            lemma_enrolled(s, s.next_project_id, stakeholders);
        },
        Request::OnInitialize { now } => {
            lemma_block_start(s, now);
        },
        _ => {},
    }
}

/// The bytes that a Build Service signs are the four digests and nothing else: there are 128 of
/// them, and two attestations with the same bytes have the same digests.
pub proof fn law_payload_identifies_the_digests<A>(a: BuildAttestation<A>, b: BuildAttestation<A>)
    ensures
        a.payload().len() == 128,
        a.payload() == b.payload() <==> {
            &&& a.source_commit_hash == b.source_commit_hash
            &&& a.source_tree_hash == b.source_tree_hash
            &&& a.build_environment_hash == b.build_environment_hash
            &&& a.output_binary_hash == b.output_binary_hash
        },
{
    if a.payload() == b.payload() {
        let p = a.payload();
        let q = b.payload();
        assert(a.source_commit_hash@ =~= p.subrange(0, 32));
        assert(b.source_commit_hash@ =~= q.subrange(0, 32));
        assert(a.source_tree_hash@ =~= p.subrange(32, 64));
        assert(b.source_tree_hash@ =~= q.subrange(32, 64));
        assert(a.build_environment_hash@ =~= p.subrange(64, 96));
        assert(b.build_environment_hash@ =~= q.subrange(64, 96));
        assert(a.output_binary_hash@ =~= p.subrange(96, 128));
        assert(b.output_binary_hash@ =~= q.subrange(96, 128));
        assert(a.source_commit_hash =~= b.source_commit_hash);
        assert(a.source_tree_hash =~= b.source_tree_hash);
        assert(a.build_environment_hash =~= b.build_environment_hash);
        assert(a.output_binary_hash =~= b.output_binary_hash);
    }
}

} // verus!
