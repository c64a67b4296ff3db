//! Scope-qualified identity. Node and scope identifiers are 128-bit
//! values; at load time every local identifier is rehashed as the
//! version-5 hash of the enclosing scope's identifier over its sixteen
//! big-endian bytes, which keeps identifiers globally unique across
//! nested sub-graphs.
use vstd::prelude::*;

verus! {

/// A node or scope identifier.
#[derive(Clone, Copy, Debug, PartialEq, Eq, Structural, Hash)]
pub struct NodeId(pub u128);

/// The version-5 hash of a namespace identifier over the sixteen
/// big-endian bytes of a local identifier: a pure function of the two.
pub uninterp spec fn scoped_of(scope: u128, local: u128) -> u128;

/// Relies on `uuid::Uuid::new_v5`: the name-based SHA-1 identifier, a
/// deterministic function of the namespace and the name bytes; the name
/// here is the local identifier's sixteen big-endian bytes, as
/// `Uuid::as_bytes` presents them.
#[verifier::external_body]
pub fn scoped_id_raw(scope: u128, local: u128) -> (r: u128)
    ensures
        r == scoped_of(scope, local),
{
    uuid::Uuid::new_v5(&uuid::Uuid::from_u128(scope), uuid::Uuid::from_u128(local).as_bytes())
        .as_u128()
}

/// Relies on `uuid::Uuid::new_v4`: a freshly drawn random identifier, of
/// which nothing is promised.
#[verifier::external_body]
pub fn fresh_id() -> u128 {
    uuid::Uuid::new_v4().as_u128()
}

/// Rehashes a local identifier into the given scope.
pub fn convert_id(scope: u128, local: NodeId) -> (r: NodeId)
    ensures
        r == NodeId(scoped_of(scope, local.0)),
{
    NodeId(scoped_id_raw(scope, local.0))
}

} // verus!
