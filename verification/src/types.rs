//! The records of the release-governance protocol.
use crate::bounded::{MaxRequiredRoles, NameLimit, VersionLimit};
use crate::config::Config;
use crate::number::Number;
use crate::perbill::Perbill;
use crate::storage::StorageKey;
use frame_support::BoundedVec;
use vstd::prelude::*;

verus! {

/// Identifier of a registered project.
pub type ProjectId = u32;

/// Identifier of a release proposal.
pub type ProposalId = u32;

/// A 32-byte digest (sha256 / blake2-256 / padded git hash).
pub type Hash32 = [u8; 32];

/// Stakeholder roles.
#[derive(Clone, Copy, Debug, PartialEq, Eq, PartialOrd, Ord, Structural)]
pub enum Role {
    CoreDeveloper,
    SecurityAuditor,
    CommunityTrustee,
    BuildService,
}

impl StorageKey for Role {
    fn same(&self, other: &Self) -> (b: bool) {
        *self == *other
    }

    fn duplicate(&self) -> (copy: Self) {
        *self
    }
}

/// A required role together with its stake-weighted approval quorum `tau_r`.
#[derive(Clone, Copy, Debug, PartialEq, Eq)]
pub struct RoleQuorum {
    pub role: Role,
    pub quorum: Perbill,
}

/// The release policy for the `New Release` track.
#[derive(Debug, PartialEq, Eq)]
pub struct ReleasePolicy<BlockNumber> {
    /// `R_req` with the quorum for each required role.
    pub required_roles: BoundedVec<RoleQuorum, MaxRequiredRoles>,
    /// Number of blocks a proposal stays open for voting.
    pub voting_period: BlockNumber,
    /// Blocks between acceptance and appending to the release log. With none, the next block
    /// appends.
    pub enactment_delay: BlockNumber,
}

/// Slashing parameters `(sigma_neg, sigma_mal, delta_max)`.
#[derive(Clone, Copy, Debug, PartialEq, Eq)]
pub struct SlashingParams<BlockNumber> {
    /// Fraction of stake slashed for a negligence offence (chain-adjudicated).
    pub sigma_neg: Perbill,
    /// Fraction of stake slashed for a malice offence (dispute track; recorded, not enforced here).
    pub sigma_mal: Perbill,
    /// Statute of limitations for disputes (recorded, not enforced here).
    pub delta_max: BlockNumber,
}

/// Stakeholder entry supplied at project genesis.
#[derive(Clone, Debug, PartialEq, Eq)]
pub struct StakeholderInit<AccountId, Balance> {
    pub account: AccountId,
    pub role: Role,
    pub stake: Balance,
}

/// Registered stakeholder.
#[derive(Clone, Copy, Debug, PartialEq, Eq)]
pub struct Stakeholder<Balance> {
    pub role: Role,
    pub stake: Balance,
}

/// Registered project.
#[derive(Debug, PartialEq, Eq)]
pub struct ProjectInfo<Balance, BlockNumber> {
    pub name: BoundedVec<u8, NameLimit>,
    pub policy: ReleasePolicy<BlockNumber>,
    pub slashing: SlashingParams<BlockNumber>,
    pub proposal_bond: Balance,
}

/// The build attestation `A_build` minus the detached signature.
#[derive(Clone, Debug, PartialEq, Eq)]
pub struct BuildAttestation<AccountId> {
    pub source_commit_hash: Hash32,
    pub source_tree_hash: Hash32,
    pub build_environment_hash: Hash32,
    pub output_binary_hash: Hash32,
    /// The Build Service stakeholder that produced and signed this attestation.
    pub builder: AccountId,
}

impl<AccountId> BuildAttestation<AccountId> {
    /// The four digests, one after the other.
    pub open spec fn payload(self) -> Seq<u8> {
        self.source_commit_hash@ + self.source_tree_hash@ + self.build_environment_hash@
            + self.output_binary_hash@
    }

    /// The exact bytes the Build Service signs: the four digests concatenated (128 bytes).
    pub fn signing_payload(&self) -> (out: [u8; 128])
        ensures
            out@ == self.payload(),
    {
        let mut out: [u8; 128] = [0u8; 128];
        let mut i: usize = 0;
        while i < 32
            invariant
                i <= 32,
                forall|j: int| 0 <= j < i ==> out@[j] == self.source_commit_hash@[j],
                forall|j: int| 0 <= j < i ==> out@[32 + j] == self.source_tree_hash@[j],
                forall|j: int| 0 <= j < i ==> out@[64 + j] == self.build_environment_hash@[j],
                forall|j: int| 0 <= j < i ==> out@[96 + j] == self.output_binary_hash@[j],
            decreases 32 - i,
        {
            out[i] = self.source_commit_hash[i];
            out[32 + i] = self.source_tree_hash[i];
            out[64 + i] = self.build_environment_hash[i];
            out[96 + i] = self.output_binary_hash[i];
            i = i + 1;
        }
        proof {
            let payload = self.payload();
            assert forall|j: int| 0 <= j < 128 implies out@[j] == payload[j] by {
                if j < 32 {
                } else if j < 64 {
                    assert(out@[32 + (j - 32)] == self.source_tree_hash@[j - 32]);
                } else if j < 96 {
                    assert(out@[64 + (j - 64)] == self.build_environment_hash@[j - 64]);
                } else {
                    assert(out@[96 + (j - 96)] == self.output_binary_hash@[j - 96]);
                }
            }
            assert(out@ =~= payload);
        }
        out
    }
}

/// Whether two digests are the same.
pub fn same_hash(a: &Hash32, b: &Hash32) -> (same: bool)
    ensures
        same == (*a == *b),
{
    let mut i: usize = 0;
    while i < 32
        invariant
            i <= 32,
            forall|j: int| 0 <= j < i ==> a@[j] == b@[j],
        decreases 32 - i,
    {
        if a[i] != b[i] {
            return false;
        }
        i = i + 1;
    }
    proof {
        assert(*a =~= *b);
    }
    true
}

/// Where a proposal stands.
#[derive(Clone, Copy, Debug, PartialEq, Eq)]
pub enum ProposalStatus<BlockNumber> {
    /// Open for votes.
    Voting,
    /// Quorums met; will be appended to the release log at `enact_at`.
    Approved { enact_at: BlockNumber },
    /// Appended to the Official Release Log.
    Enacted,
    /// Rejected by an accepted counter-attestation.
    Rejected,
    /// Voting period elapsed without meeting the quorums.
    Expired,
}

/// A release proposal.
#[derive(Debug, PartialEq, Eq)]
pub struct Proposal<AccountId, Balance, BlockNumber> {
    pub project_id: ProjectId,
    pub proposer: AccountId,
    pub version: BoundedVec<u8, VersionLimit>,
    pub attestation: BuildAttestation<AccountId>,
    /// Content address of the full signed attestation JSON in the artifact store.
    pub attestation_cid: Hash32,
    pub bond: Balance,
    pub submitted_at: BlockNumber,
    pub voting_ends: BlockNumber,
    pub status: ProposalStatus<BlockNumber>,
}

/// The stake behind either answer to a proposal, within one role.
#[derive(Clone, Copy, Debug, PartialEq, Eq)]
pub struct RoleTally<Balance> {
    pub ayes: Balance,
    pub nays: Balance,
}

impl<Balance: Number> RoleTally<Balance> {
    /// The tally before any vote.
    pub open spec fn none() -> RoleTally<Balance> {
        RoleTally { ayes: Balance::of(0), nays: Balance::of(0) }
    }
}

impl<Balance: Number> Default for RoleTally<Balance> {
    fn default() -> (tally: Self)
        ensures
            tally == RoleTally::<Balance>::none(),
    {
        RoleTally { ayes: Balance::zero(), nays: Balance::zero() }
    }
}

/// One entry of a project's Official Release Log.
#[derive(Debug, PartialEq, Eq)]
pub struct ReleaseEntry<BlockNumber> {
    pub proposal_id: ProposalId,
    pub version: BoundedVec<u8, VersionLimit>,
    pub source_commit_hash: Hash32,
    pub output_binary_hash: Hash32,
    pub attestation_cid: Hash32,
    pub enacted_at: BlockNumber,
}

/// An accepted report of a rebuild that came out differently from the attested build.
#[derive(Clone, Debug, PartialEq, Eq)]
pub struct CounterAttestation<AccountId> {
    pub challenger: AccountId,
    pub attested_binary_hash: Hash32,
    pub rebuilt_binary_hash: Hash32,
}

/// What the pallet reports to the outside.
#[verifier::reject_recursive_types(T)]
pub enum Event<T: Config> {
    ProjectCreated { project_id: ProjectId, name: BoundedVec<u8, NameLimit> },
    StakeholderRegistered {
        project_id: ProjectId,
        account: T::AccountId,
        role: Role,
        stake: T::Balance,
    },
    ReleaseProposed {
        proposal_id: ProposalId,
        project_id: ProjectId,
        proposer: T::AccountId,
        version: BoundedVec<u8, VersionLimit>,
        source_commit_hash: Hash32,
        output_binary_hash: Hash32,
        attestation_cid: Hash32,
        voting_ends: T::BlockNumber,
    },
    Voted {
        proposal_id: ProposalId,
        voter: T::AccountId,
        role: Role,
        aye: bool,
        weight: T::Balance,
    },
    /// All required-role quorums are met; enactment is scheduled.
    ProposalApproved { proposal_id: ProposalId, enact_at: T::BlockNumber },
    /// A changed vote broke a quorum before enactment; the proposal is back to voting.
    ProposalApprovalRevoked { proposal_id: ProposalId },
    /// The blessed binary hash was appended to the Official Release Log.
    ReleaseEnacted {
        project_id: ProjectId,
        proposal_id: ProposalId,
        index: u32,
        version: BoundedVec<u8, VersionLimit>,
        output_binary_hash: Hash32,
    },
    CounterAttestationAccepted {
        proposal_id: ProposalId,
        challenger: T::AccountId,
        attested_binary_hash: Hash32,
        rebuilt_binary_hash: Hash32,
    },
    BuildServiceSlashed {
        project_id: ProjectId,
        builder: T::AccountId,
        amount: T::Balance,
        remaining_stake: T::Balance,
    },
    ProposalRejected { proposal_id: ProposalId },
    ProposalExpired { proposal_id: ProposalId },
}

/// Why the pallet refuses a request.
#[derive(Clone, Copy, Debug, PartialEq, Eq, Structural)]
pub enum Error {
    ProjectNotFound,
    ProposalNotFound,
    /// The caller is not a registered stakeholder of the project.
    NotStakeholder,
    /// Only Core Developers may submit release proposals.
    NotCoreDeveloper,
    /// The attestation's `builder` is not a registered Build Service of the project.
    NotBuildService,
    DuplicateStakeholder,
    /// The release policy must name at least one required role.
    NoRequiredRoles,
    /// A required role has no staked stakeholders, so its quorum could never be met.
    RequiredRoleHasNoStake,
    /// The Build Service signature over `A_build` does not verify.
    InvalidBuilderSignature,
    /// The proposal is not open for voting.
    ProposalNotVoting,
    VotingPeriodOver,
    VotingPeriodNotOver,
    /// Only proposals that are voting or awaiting enactment can be counter-attested.
    ProposalNotChallengeable,
    /// The rebuilt hash equals the attested hash: there is no discrepancy to slash for.
    NoDiscrepancy,
    /// The Build Service cannot counter-attest its own attestation.
    BuilderCannotChallenge,
    TooManyEnactments,
}

} // verus!
