use vstd::prelude::*;

use crate::resource::ResourceConfig;
use crate::schedule::{eligible, place, ScheduleError};
use crate::session::{Connection, SessionKind};
use crate::types::NodeId;

verus! {

/// No node id is configured twice.
pub open spec fn ids_unique(peers: Seq<(NodeId, ResourceConfig)>) -> bool {
    forall|i: int, j: int|
        0 <= i < peers.len() && 0 <= j < peers.len() && (#[trigger] peers[i]).0 == (#[trigger] peers[j]).0
            ==> i == j
}

/// Node `id` is configured.
pub open spec fn has_peer(peers: Seq<(NodeId, ResourceConfig)>, id: NodeId) -> bool {
    exists|i: int| 0 <= i < peers.len() && (#[trigger] peers[i]).0 == id
}

/// Why a cluster configuration is refused.
#[derive(PartialEq, Eq, Structural, Debug, Clone, Copy)]
pub enum ConfigError {
    /// Two entries name the same node.
    DuplicateNode,
    /// The configuration has no entry for the node itself.
    MissingSelf,
    /// No remote peer has that id.
    UnknownPeer,
}

/// The fixed set of nodes as one node sees it: every peer (itself
/// included) with the resources it advertises and the session with it.
pub struct Cluster<S> {
    me: NodeId,
    peers: Vec<(NodeId, ResourceConfig)>,
    connections: Vec<Connection<S>>,
}

impl<S> Cluster<S> {
    pub closed spec fn me(&self) -> NodeId {
        self.me
    }

    pub closed spec fn peers(&self) -> Seq<(NodeId, ResourceConfig)> {
        self.peers@
    }

    /// The state of the session with the peer at position `i`.
    pub closed spec fn session_at(&self, i: int) -> SessionKind<S> {
        self.connections@[i].state()
    }

    pub closed spec fn wf(&self) -> bool {
        &&& ids_unique(self.peers@)
        &&& has_peer(self.peers@, self.me)
        &&& self.connections@.len() == self.peers@.len()
        &&& forall|i: int|
            0 <= i < self.peers@.len() ==> (#[trigger] self.connections@[i]).peer()
                == self.peers@[i].0
        &&& forall|i: int| 0 <= i < self.peers@.len() ==> (#[trigger] self.peers@[i]).1.wf()
        &&& forall|i: int|
            0 <= i < self.peers@.len() && (#[trigger] self.connections@[i]).state() is Local
                ==> self.peers@[i].0 == self.me
    }

    /// The cluster of node `me`, with one session per configured node, none
    /// started yet.
    pub fn new(me: NodeId, peers: Vec<(NodeId, ResourceConfig)>) -> (r: Result<Self, ConfigError>)
        requires
            forall|i: int| 0 <= i < peers@.len() ==> (#[trigger] peers@[i]).1.wf(),
        ensures
            match r {
                Ok(c) => {
                    &&& c.wf()
                    &&& c.me() == me
                    &&& c.peers() == peers@
                    &&& forall|i: int| 0 <= i < peers@.len() ==> c.session_at(i) is Uninitialised
                },
                Err(ConfigError::DuplicateNode) => !ids_unique(peers@),
                Err(ConfigError::MissingSelf) => ids_unique(peers@) && !has_peer(peers@, me),
                Err(ConfigError::UnknownPeer) => false,
            },
    {
        let mut connections: Vec<Connection<S>> = Vec::new();
        let mut found = false;
        let mut i: usize = 0;
        while i < peers.len()
            invariant
                i <= peers@.len(),
                connections@.len() == i,
                forall|k: int| 0 <= k < i ==> (#[trigger] connections@[k]).peer() == peers@[k].0,
                forall|k: int| 0 <= k < i ==> (#[trigger] connections@[k]).state() is Uninitialised,
                ids_unique(peers@.subrange(0, i as int)),
                found == has_peer(peers@.subrange(0, i as int), me),
            decreases peers@.len() - i,
        {
            let id = peers[i].0;
            let mut j: usize = 0;
            while j < i
                invariant
                    i < peers@.len(),
                    j <= i,
                    id == peers@[i as int].0,
                    forall|k: int| 0 <= k < j ==> (#[trigger] peers@[k]).0 != id,
                decreases i - j,
            {
                if peers[j].0 == id {
                    proof {
                        assert(peers@[j as int].0 == peers@[i as int].0);
                    }
                    return Err(ConfigError::DuplicateNode);
                }
                j = j + 1;
            }
            let ghost before = peers@.subrange(0, i as int);
            let ghost after = peers@.subrange(0, i + 1);
            assert(forall|k: int| 0 <= k < i ==> after[k] == before[k]);
            assert(after[i as int] == peers@[i as int]);
            assert(ids_unique(after));
            if id == me {
                found = true;
                assert(after[i as int].0 == me);
            } else {
                assert(has_peer(after, me) == has_peer(before, me)) by {
                    if has_peer(after, me) {
                        let k = choose|k: int| 0 <= k < after.len() && (#[trigger] after[k]).0 == me;
                        assert(before[k].0 == me);
                    }
                    if has_peer(before, me) {
                        let k = choose|k: int| 0 <= k < before.len() && (#[trigger] before[k]).0 == me;
                        assert(after[k].0 == me);
                    }
                }
            }
            connections.push(Connection::new(id));
            i = i + 1;
        }
        assert(peers@.subrange(0, peers@.len() as int) =~= peers@);
        if !found {
            return Err(ConfigError::MissingSelf);
        }
        Ok(Cluster { me, peers, connections })
    }

    /// Where node `id` stands among the peers.
    fn position(&self, id: NodeId) -> (r: Option<usize>)
        requires
            self.wf(),
        ensures
            match r {
                Some(i) => i < self.peers@.len() && self.peers@[i as int].0 == id,
                None => !has_peer(self.peers@, id),
            },
    {
        let mut i: usize = 0;
        while i < self.peers.len()
            invariant
                i <= self.peers@.len(),
                forall|k: int| 0 <= k < i ==> (#[trigger] self.peers@[k]).0 != id,
            decreases self.peers@.len() - i,
        {
            if self.peers[i].0 == id {
                return Some(i);
            }
            i = i + 1;
        }
        None
    }

    /// The node itself.
    pub fn id(&self) -> (r: NodeId)
        ensures
            r == self.me(),
    {
        self.me
    }

    /// The resources that the node itself advertises.
    pub fn local_resources(&self) -> (r: &ResourceConfig)
        requires
            self.wf(),
        ensures
            r.wf(),
            exists|i: int|
                0 <= i < self.peers().len() && (#[trigger] self.peers()[i]).0 == self.me()
                    && self.peers()[i].1 == *r,
    {
        match self.position(self.me) {
            Some(i) => {
                assert(self.peers()[i as int].0 == self.me());
                &self.peers[i].1
            },
            None => {
                assert(false);
                &self.peers[0].1
            },
        }
    }

    /// The session with node `id`, if `id` is configured.
    pub fn connection(&self, id: NodeId) -> (r: Option<&Connection<S>>)
        requires
            self.wf(),
        ensures
            match r {
                Some(c) => exists|i: int|
                    0 <= i < self.peers().len() && (#[trigger] self.peers()[i]).0 == id
                        && c.peer() == id && c.state() == self.session_at(i),
                None => !has_peer(self.peers(), id),
            },
    {
        match self.position(id) {
            Some(i) => {
                assert(self.peers()[i as int].0 == id);
                assert(self.connections@[i as int].peer() == id);
                Some(&self.connections[i])
            },
            None => None,
        }
    }

    /// Picks the node that runs a call with requirements `reqs`: one of the
    /// nodes that advertise enough of every resource, drawn at random.
    pub fn place(&self, reqs: &Vec<(String, usize)>) -> (r: Result<NodeId, ScheduleError>)
        requires
            self.wf(),
        ensures
            match r {
                Ok(p) => eligible(reqs@, self.peers()).contains(p),
                Err(e) => e == ScheduleError::NoEligiblePeer && eligible(reqs@, self.peers()).len()
                    == 0,
            },
    {
        place(reqs, &self.peers)
    }

    /// Starts the node's loopback session.
    pub fn start_local(&mut self)
        requires
            old(self).wf(),
            forall|i: int|
                0 <= i < old(self).peers().len() && (#[trigger] old(self).peers()[i]).0
                    == old(self).me() ==> old(self).session_at(i) is Uninitialised,
        ensures
            final(self).wf(),
            final(self).me() == old(self).me(),
            final(self).peers() == old(self).peers(),
            forall|i: int|
                0 <= i < final(self).peers().len() ==> #[trigger] final(self).session_at(i)
                    == (if final(self).peers()[i].0 == final(self).me() {
                    SessionKind::Local
                } else {
                    old(self).session_at(i)
                }),
    {
        match self.position(self.me) {
            Some(i) => {
                assert(old(self).peers()[i as int].0 == old(self).me());
                assert(old(self).session_at(i as int) is Uninitialised);
                let mut c = self.connections.remove(i);
                c.start_local();
                self.connections.insert(i, c);
                assert forall|k: int| 0 <= k < self.peers@.len() implies #[trigger] self.session_at(k)
                    == (if self.peers@[k].0 == self.me {
                    SessionKind::Local
                } else {
                    old(self).session_at(k)
                }) by {
                    if k != i {
                        assert(self.peers@[k].0 != self.me);
                    }
                }
            },
            None => {
                assert(false);
            },
        }
    }

    /// Starts a session with remote peer `id` over a new stream. A session
    /// that ran over an earlier stream is handed back, to be aborted.
    pub fn start_remote(&mut self, id: NodeId, session: S) -> (r: Result<Option<S>, ConfigError>)
        requires
            old(self).wf(),
        ensures
            final(self).wf(),
            final(self).me() == old(self).me(),
            final(self).peers() == old(self).peers(),
            match r {
                Ok(prev) => {
                    &&& id != old(self).me()
                    &&& has_peer(old(self).peers(), id)
                    &&& forall|i: int|
                        0 <= i < final(self).peers().len() ==> #[trigger] final(self).session_at(i)
                            == (if final(self).peers()[i].0 == id {
                            SessionKind::Remote(session)
                        } else {
                            old(self).session_at(i)
                        })
                },
                Err(e) => {
                    &&& e == ConfigError::UnknownPeer
                    &&& id == old(self).me() || !has_peer(old(self).peers(), id)
                    &&& forall|i: int|
                        0 <= i < final(self).peers().len() ==> #[trigger] final(self).session_at(i)
                            == old(self).session_at(i)
                },
            },
            r matches Ok(Some(prev)) ==> exists|i: int|
                0 <= i < old(self).peers().len() && (#[trigger] old(self).peers()[i]).0 == id
                    && old(self).session_at(i) == SessionKind::Remote(prev),
    {
        if id == self.me {
            return Err(ConfigError::UnknownPeer);
        }
        match self.position(id) {
            Some(i) => {
                let ghost before = self.connections@;
                assert(old(self).peers()[i as int].0 == id);
                let mut c = self.connections.remove(i);
                assert(!(c.state() is Local));
                let prev = c.start_remote(session);
                self.connections.insert(i, c);
                assert forall|k: int| 0 <= k < self.peers@.len() implies #[trigger] self.session_at(k)
                    == (if self.peers@[k].0 == id {
                    SessionKind::Remote(session)
                } else {
                    old(self).session_at(k)
                }) by {
                    if k != i {
                        assert(self.peers@[k].0 != id);
                        assert(self.connections@[k] == before[k]);
                    }
                }
                assert(old(self).peers()[i as int].0 == id);
                Ok(prev)
            },
            None => Err(ConfigError::UnknownPeer),
        }
    }
}

} // verus!
