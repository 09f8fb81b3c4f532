use vstd::prelude::*;

use crate::types::{fresh_id, DFutId, InstanceId, NodeId, NIL_INSTANCE};

verus! {

/// The wire form of a reference to a value slot, and the ref-delta that a
/// consumer of the reference hands to the slot's owner.
pub struct DFutData {
    /// The node that owns the slot.
    pub node: NodeId,
    /// The slot.
    pub id: DFutId,
    /// This reference.
    pub instance_id: InstanceId,
    /// The reference this one was cloned from (`NIL_INSTANCE` for the first).
    pub parent: InstanceId,
    /// How many clones have been taken from this reference.
    pub children: i32,
}

impl Clone for DFutData {
    fn clone(&self) -> (r: Self)
        ensures
            r == *self,
    {
        DFutData {
            node: self.node,
            id: self.id,
            instance_id: self.instance_id,
            parent: self.parent,
            children: self.children,
        }
    }
}

/// A handle to a value that is, or will be, stored on some node.
///
/// Taking a clone is a change of state: the source counts its children, so
/// the owner can tell when the last reference to the slot is gone.
pub struct DFut {
    data: DFutData,
}

impl DFut {
    /// The reference's current wire form.
    pub closed spec fn data(&self) -> DFutData {
        self.data
    }

    /// A first reference to slot `id` on `node_id`, held by the caller of
    /// the spawn that created the slot.
    pub fn new(node_id: NodeId, id: DFutId) -> (r: DFut)
        ensures
            r.data().node == node_id,
            r.data().id == id,
            r.data().instance_id != NIL_INSTANCE,
            r.data().parent == NIL_INSTANCE,
            r.data().children == 0,
    {
        DFut {
            data: DFutData {
                node: node_id,
                id,
                instance_id: fresh_id(),
                parent: NIL_INSTANCE,
                children: 0,
            },
        }
    }

    /// Takes a clone of this reference: the clone is a new instance whose
    /// parent is this one, and this one counts one more child.
    pub fn fork(&mut self) -> (r: DFut)
        requires
            old(self).data().children < i32::MAX,
        ensures
            final(self).data() == (DFutData {
                children: (old(self).data().children + 1) as i32,
                ..old(self).data()
            }),
            r.data().node == old(self).data().node,
            r.data().id == old(self).data().id,
            r.data().parent == old(self).data().instance_id,
            r.data().instance_id != NIL_INSTANCE,
            r.data().children == 0,
    {
        self.data.children = self.data.children + 1;
        DFut {
            data: DFutData {
                node: self.data.node,
                id: self.data.id,
                instance_id: fresh_id(),
                parent: self.data.instance_id,
                children: 0,
            },
        }
    }

    /// How many clones have been taken from this reference.
    pub fn children(&self) -> (r: i32)
        ensures
            r == self.data().children,
    {
        self.data.children
    }

    /// Gives up the reference, handing back its wire form.
    pub fn into_data(self) -> (r: DFutData)
        ensures
            r == self.data(),
    {
        self.data
    }

    /// The slot this reference names, with its owner.
    pub fn get_remote_dep(&self) -> (r: Option<(NodeId, DFutId)>)
        ensures
            r == Some((self.data().node, self.data().id)),
    {
        Some((self.data.node, self.data.id))
    }
}

/// A call argument: a literal value, or a reference to a value elsewhere.
pub enum MaybeFut<T> {
    Val(T),
    Fut(DFutData),
}

impl<T> From<T> for MaybeFut<T> {
    fn from(value: T) -> (r: Self)
        ensures
            r == MaybeFut::<T>::Val(value),
    {
        MaybeFut::Val(value)
    }
}

impl<T> vstd::std_specs::convert::FromSpecImpl<T> for MaybeFut<T> {
    open spec fn obeys_from_spec() -> bool {
        true
    }

    open spec fn from_spec(value: T) -> Self {
        MaybeFut::Val(value)
    }
}

impl<T> MaybeFut<T> {
    /// Wraps a reference as an argument; the reference is given up.
    pub fn from_fut(f: DFut) -> (r: MaybeFut<T>)
        ensures
            r == MaybeFut::<T>::Fut(f.data()),
    {
        MaybeFut::Fut(f.into_data())
    }

    /// The slot that this argument must fetch before the call can run, if any.
    pub fn get_remote_dep(&self) -> (r: Option<(NodeId, DFutId)>)
        ensures
            r == (match self {
                MaybeFut::Fut(d) => Some((d.node, d.id)),
                MaybeFut::Val(_) => None,
            }),
    {
        match self {
            MaybeFut::Fut(d) => Some((d.node, d.id)),
            MaybeFut::Val(_) => None,
        }
    }
}

} // verus!
