use vstd::prelude::*;

use std::collections::HashMap;

use crate::dfut::DFutData;
use crate::types::{DFutId, InstanceId, NodeId};

verus! {

broadcast use vstd::std_specs::hash::group_hash_axioms;

/// A message between two nodes. The reply handle of a retrieval stays with
/// the session that sent it and never travels.
pub enum Command<C> {
    /// Run `call` and store its value in slot `id`.
    Call { id: DFutId, call: C },
    /// Send back the value of the slot that `data` names, applying its ref-delta.
    Retrieve { data: DFutData },
    /// The serialised value asked for by the retrieval of instance `id`.
    Completed { id: InstanceId, payload: Vec<u8> },
}

/// What the session must do with an incoming command.
pub enum Action<C, R> {
    /// Run the call and put its task in the local store.
    RunTask { id: DFutId, call: C },
    /// Resolve the slot locally and answer with a `Completed` for `reply_to`.
    Serve { data: DFutData, reply_to: InstanceId },
    /// Hand the payload to the retrieval that waits on `reply`.
    Reply { reply: R, payload: Vec<u8> },
}

/// Protocol errors: each ends the session.
#[derive(PartialEq, Eq, Structural, Debug, Clone, Copy)]
pub enum SessionError {
    /// A retrieval for an instance that already waits for its answer.
    DuplicateRequest,
    /// An answer that no retrieval of this session waits for.
    UnknownRequest,
}

/// The retrievals of one session that wait for their answers, each under
/// the instance it retrieves, with the handle its answer goes to.
pub struct Outstanding<R> {
    requests: HashMap<InstanceId, R>,
}

impl<R> View for Outstanding<R> {
    type V = Map<InstanceId, R>;

    closed spec fn view(&self) -> Map<InstanceId, R> {
        self.requests@
    }
}

impl<R> Outstanding<R> {
    pub fn new() -> (r: Self)
        ensures
            r@ == Map::<InstanceId, R>::empty(),
    {
        Outstanding { requests: HashMap::new() }
    }

    /// The number of retrievals that wait.
    pub fn len(&self) -> (r: usize)
        ensures
            r == self@.len(),
    {
        self.requests.len()
    }

    /// Registers an outgoing retrieval before it is sent.
    pub fn register(&mut self, data: &DFutData, reply: R) -> (r: Result<(), SessionError>)
        ensures
            match r {
                Ok(()) => {
                    &&& !old(self)@.contains_key(data.instance_id)
                    &&& final(self)@ == old(self)@.insert(data.instance_id, reply)
                },
                Err(e) => {
                    &&& old(self)@.contains_key(data.instance_id)
                    &&& e == SessionError::DuplicateRequest
                    &&& final(self)@ == old(self)@
                },
            },
    {
        if self.requests.contains_key(&data.instance_id) {
            return Err(SessionError::DuplicateRequest);
        }
        self.requests.insert(data.instance_id, reply);
        Ok(())
    }

    /// Takes the retrieval that an answer for instance `id` satisfies.
    pub fn complete(&mut self, id: InstanceId) -> (r: Result<R, SessionError>)
        ensures
            match r {
                Ok(reply) => {
                    &&& old(self)@.contains_key(id)
                    &&& reply == old(self)@[id]
                    &&& final(self)@ == old(self)@.remove(id)
                },
                Err(e) => {
                    &&& !old(self)@.contains_key(id)
                    &&& e == SessionError::UnknownRequest
                    &&& final(self)@ == old(self)@
                },
            },
    {
        match self.requests.remove(&id) {
            Some(reply) => Ok(reply),
            None => Err(SessionError::UnknownRequest),
        }
    }

    /// Ends every retrieval that waits: the session is gone, and dropping
    /// the handles tells their waiters so.
    pub fn abort(&mut self) -> (r: HashMap<InstanceId, R>)
        ensures
            r@ == old(self)@,
            final(self)@ == Map::<InstanceId, R>::empty(),
    {
        let mut gone = HashMap::new();
        std::mem::swap(&mut gone, &mut self.requests);
        gone
    }

    /// Decides what an incoming command asks of the session.
    pub fn on_incoming<C>(&mut self, cmd: Command<C>) -> (r: Result<Action<C, R>, SessionError>)
        ensures
            match cmd {
                Command::Call { id, call } => {
                    &&& r == Ok::<Action<C, R>, SessionError>(Action::RunTask { id, call })
                    &&& final(self)@ == old(self)@
                },
                Command::Retrieve { data } => {
                    &&& r == Ok::<Action<C, R>, SessionError>(
                        Action::Serve { data, reply_to: data.instance_id },
                    )
                    &&& final(self)@ == old(self)@
                },
                Command::Completed { id, payload } => match r {
                    Ok(a) => {
                        &&& old(self)@.contains_key(id)
                        &&& a == Action::<C, R>::Reply { reply: old(self)@[id], payload }
                        &&& final(self)@ == old(self)@.remove(id)
                    },
                    Err(e) => {
                        &&& !old(self)@.contains_key(id)
                        &&& e == SessionError::UnknownRequest
                        &&& final(self)@ == old(self)@
                    },
                },
            },
    {
        match cmd {
            Command::Call { id, call } => Ok(Action::RunTask { id, call }),
            Command::Retrieve { data } => {
                let reply_to = data.instance_id;
                Ok(Action::Serve { data, reply_to })
            },
            Command::Completed { id, payload } => match self.complete(id) {
                Ok(reply) => Ok(Action::Reply { reply, payload }),
                Err(e) => Err(e),
            },
        }
    }
}

/// The session with one peer.
pub enum SessionKind<S> {
    /// Not started yet.
    Uninitialised,
    /// The node itself: calls run in place, values are not serialised.
    Local,
    /// A peer across a stream, with the handle of the task that drives it.
    Remote(S),
}

/// One peer of the node and the session with it.
pub struct Connection<S> {
    id: NodeId,
    session: SessionKind<S>,
}

impl<S> Connection<S> {
    pub closed spec fn peer(&self) -> NodeId {
        self.id
    }

    pub closed spec fn state(&self) -> SessionKind<S> {
        self.session
    }

    /// A connection to peer `id` whose session has not started.
    pub fn new(id: NodeId) -> (r: Self)
        ensures
            r.peer() == id,
            r.state() is Uninitialised,
    {
        Connection { id, session: SessionKind::Uninitialised }
    }

    /// The peer this connection leads to.
    pub fn id(&self) -> (r: NodeId)
        ensures
            r == self.peer(),
    {
        self.id
    }

    /// Whether a session has started.
    pub fn is_started(&self) -> (r: bool)
        ensures
            r == !(self.state() is Uninitialised),
    {
        match self.session {
            SessionKind::Uninitialised => false,
            _ => true,
        }
    }

    /// Whether the session is with the node itself.
    pub fn is_local(&self) -> (r: bool)
        ensures
            r == (self.state() is Local),
    {
        match self.session {
            SessionKind::Local => true,
            _ => false,
        }
    }

    /// The remote session's handle, if the session is remote.
    pub fn remote(&self) -> (r: Option<&S>)
        ensures
            match self.state() {
                SessionKind::Remote(s) => r == Some(&s),
                _ => r is None,
            },
    {
        match &self.session {
            SessionKind::Remote(s) => Some(s),
            _ => None,
        }
    }

    /// Starts the loopback session of the node with itself.
    pub fn start_local(&mut self)
        requires
            old(self).state() is Uninitialised,
        ensures
            final(self).peer() == old(self).peer(),
            final(self).state() is Local,
    {
        self.session = SessionKind::Local;
    }

    /// Starts a session over a new stream. A session that was running over
    /// an earlier stream is handed back, to be aborted.
    pub fn start_remote(&mut self, session: S) -> (r: Option<S>)
        requires
            !(old(self).state() is Local),
        ensures
            final(self).peer() == old(self).peer(),
            final(self).state() == SessionKind::Remote(session),
            match old(self).state() {
                SessionKind::Remote(s) => r == Some(s),
                _ => r is None,
            },
    {
        let mut next = SessionKind::Remote(session);
        std::mem::swap(&mut next, &mut self.session);
        match next {
            SessionKind::Remote(s) => Some(s),
            _ => None,
        }
    }
}

} // verus!
