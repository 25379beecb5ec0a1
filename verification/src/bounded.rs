//! The bounded lists of `frame_support`, and the calls that the pallet makes on them.
use crate::types::{ProposalId, RoleQuorum};
use frame_support::traits::ConstU32;
use frame_support::BoundedVec;
use vstd::prelude::*;

verus! {

/// `frame_support::BoundedVec`: a vector that never grows beyond its bound.
#[verifier::external_type_specification]
#[verifier::external_body]
#[verifier::reject_recursive_types(T)]
#[verifier::reject_recursive_types(S)]
pub struct ExBoundedVec<T, S>(BoundedVec<T, S>);

/// `frame_support::traits::ConstU32`: a bound that is part of a type.
#[verifier::external_type_specification]
#[verifier::external_body]
pub struct ExConstU32<const T: u32>(ConstU32<T>);

/// The most bytes that a project's name has.
pub type NameLimit = ConstU32<64>;

/// The most bytes that a version has.
pub type VersionLimit = ConstU32<32>;

/// The most stakeholders that one project genesis registers.
pub type MaxStakeholdersPerGenesis = ConstU32<64>;

/// The most roles that a release policy requires.
pub type MaxRequiredRoles = ConstU32<4>;

/// The most proposals that are enacted in one block.
pub type MaxEnactmentsPerBlock = ConstU32<32>;

/// The bound behind `MaxEnactmentsPerBlock`, as a number.
pub const ENACTMENTS_PER_BLOCK: usize = 32;

/// The proposals on a list of scheduled enactments, in order.
pub uninterp spec fn scheduled_ids(list: BoundedVec<ProposalId, MaxEnactmentsPerBlock>) -> Seq<
    ProposalId,
>;

/// The required roles of a policy, in order.
pub uninterp spec fn role_quorums(list: BoundedVec<RoleQuorum, MaxRequiredRoles>) -> Seq<
    RoleQuorum,
>;

/// The proposals other than `id`, in order.
pub open spec fn without(ids: Seq<ProposalId>, id: ProposalId) -> Seq<ProposalId> {
    ids.filter(|other: ProposalId| other != id)
}

/// `BoundedVec::new`: the list of no enactments.
#[verifier::external_body]
pub(crate) fn no_enactments() -> (list: BoundedVec<ProposalId, MaxEnactmentsPerBlock>)
    ensures
        scheduled_ids(list) == Seq::<ProposalId>::empty(),
{
    BoundedVec::new()
}

/// `BoundedVec::try_push`: appends the proposal where the list is below its bound; leaves a full
/// list alone and hands the proposal back.
#[verifier::external_body]
pub(crate) fn try_push(
    list: &mut BoundedVec<ProposalId, MaxEnactmentsPerBlock>,
    id: ProposalId,
) -> (r: Result<(), ProposalId>)
    ensures
        r is Ok <==> scheduled_ids(*old(list)).len() < ENACTMENTS_PER_BLOCK,
        r is Ok ==> scheduled_ids(*final(list)) == scheduled_ids(*old(list)).push(id),
        r is Err ==> *final(list) == *old(list) && r->Err_0 == id,
{
    list.try_push(id)
}

/// Whether `other` is another proposal than `id`.
fn is_other(other: &ProposalId, id: ProposalId) -> (b: bool)
    ensures
        b == (*other != id),
{
    *other != id
}

/// `BoundedVec::retain`: keeps, in order, the proposals other than `id`.
#[verifier::external_body]
pub(crate) fn retain_others(
    list: &mut BoundedVec<ProposalId, MaxEnactmentsPerBlock>,
    id: ProposalId,
)
    ensures
        scheduled_ids(*final(list)) == without(scheduled_ids(*old(list)), id),
{
    list.retain(|other| is_other(other, id))
}

/// `BoundedVec::into_inner`: the vector of the proposals on the list, no longer than the bound.
#[verifier::external_body]
pub(crate) fn into_ids(list: BoundedVec<ProposalId, MaxEnactmentsPerBlock>) -> (ids: Vec<
    ProposalId,
>)
    ensures
        ids@ == scheduled_ids(list),
        ids@.len() <= ENACTMENTS_PER_BLOCK,
{
    list.into_inner()
}

/// `BoundedVec::deref`: the vector of the required roles, as it stands in the list.
#[verifier::external_body]
pub(crate) fn as_role_quorums(list: &BoundedVec<RoleQuorum, MaxRequiredRoles>) -> (roles: &Vec<
    RoleQuorum,
>)
    ensures
        roles@ == role_quorums(*list),
{
    core::ops::Deref::deref(list)
}

/// `BoundedVec::clone`, on bytes: the same bytes once more.
#[verifier::external_body]
pub(crate) fn duplicate_bytes<S>(list: &BoundedVec<u8, S>) -> (copy: BoundedVec<u8, S>)
    ensures
        copy == *list,
{
    list.clone()
}

} // verus!
