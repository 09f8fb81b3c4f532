use vstd::prelude::*;

verus! {

/// A node of the cluster, identified by a small integer.
pub type NodeId = u32;

/// The 128-bit identifier of a value slot, minted at spawn time.
pub type DFutId = u128;

/// The 128-bit identifier of one reference to a value slot.
pub type InstanceId = u128;

/// The instance that stands for the reference held by the caller of a spawn.
pub const NIL_INSTANCE: InstanceId = 0;

/// A fresh random identifier.
///
/// Relies on `uuid::Uuid::new_v4` and `Uuid::as_u128`: a version-4 UUID has
/// its version and variant bits set, so it is never the nil UUID.
#[verifier::external_body]
pub(crate) fn fresh_id() -> (r: u128)
    ensures
        r != NIL_INSTANCE,
{
    uuid::Uuid::new_v4().as_u128()
}

} // verus!
