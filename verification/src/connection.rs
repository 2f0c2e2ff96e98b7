//! The registry of display connections that surfaces share.
//!
//! A connection is opened by a worker thread when the first surface asks
//! for it, is shared by reference count, and is closed when the last
//! reference goes. The registry decides; starting, asking to close and
//! joining the worker are left to the caller, who holds the registry lock
//! around each call.
use crate::Error;
use std::collections::HashMap;
use vstd::prelude::*;

verus! {

broadcast use vstd::std_specs::hash::group_hash_axioms;

/// The number of round trips that the worker makes to discover the globals
/// of a connection before it reports the connection ready.
pub const DISCOVERY_ROUNDTRIPS: u32 = 2;

/// Where a registered connection is in its life. A connection that is not
/// registered is absent.
#[derive(Debug, Clone, Copy, PartialEq, Eq, Hash, Structural)]
pub enum ConnectionState {
    /// The worker was started and has not reported yet.
    Connecting,
    /// The worker serves the connection.
    Ready,
    /// The worker was asked to close and has not exited yet.
    Closing,
}

/// A registered connection.
#[derive(Debug, Clone, Copy, PartialEq, Eq, Hash, Structural)]
pub struct Connection {
    /// Where the connection is in its life.
    pub state: ConnectionState,
    /// The number of references held on it.
    pub refs: usize,
}

/// What the caller of `acquire` has to do.
#[derive(Debug, Clone, Copy, PartialEq, Eq, Hash, Structural)]
pub enum Acquired {
    /// The connection was absent and is registered now, with this first
    /// reference: start its worker.
    Spawn,
    /// The connection exists and has one reference more: use its handle.
    Shared,
    /// The connection is closing: wait until its worker has exited, then
    /// acquire again.
    Busy,
}

/// What the caller of `release` has to do.
#[derive(Debug, Clone, Copy, PartialEq, Eq, Hash, Structural)]
pub enum Released {
    /// Other references remain: nothing.
    Kept,
    /// This was the last reference: confirm the close, and if it is
    /// confirmed, ask the worker to close and join it.
    Teardown,
}

/// The registry as a map from a connection's identity to its entry.
pub type Connections = Map<u64, Connection>;

/// What holds of every registry: a closing connection has no reference.
pub open spec fn connections_wf(m: Connections) -> bool {
    forall|id: u64| #[trigger]
        m.contains_key(id) && m[id].state == ConnectionState::Closing ==> m[id].refs == 0
}

/// A reference is asked for.
pub open spec fn acquire(m: Connections, id: u64) -> (Connections, Result<Acquired, Error>) {
    if !m.contains_key(id) {
        (
            m.insert(id, Connection { state: ConnectionState::Connecting, refs: 1 }),
            Ok(Acquired::Spawn),
        )
    } else if m[id].state == ConnectionState::Closing {
        (m, Ok(Acquired::Busy))
    } else if m[id].refs == usize::MAX {
        (m, Err(Error::Overflow))
    } else {
        (
            m.insert(id, Connection { state: m[id].state, refs: (m[id].refs + 1) as usize }),
            Ok(Acquired::Shared),
        )
    }
}

/// The worker reports that the connection is open and discovered.
pub open spec fn worker_ready(m: Connections, id: u64) -> (Connections, bool) {
    if m.contains_key(id) && m[id].state == ConnectionState::Connecting {
        (m.insert(id, Connection { state: ConnectionState::Ready, refs: m[id].refs }), true)
    } else {
        (m, false)
    }
}

/// A reference is dropped.
pub open spec fn release(m: Connections, id: u64) -> (Connections, Result<Released, Error>) {
    if !m.contains_key(id) || m[id].refs == 0 {
        (m, Err(Error::InvalidState))
    } else {
        (
            m.insert(id, Connection { state: m[id].state, refs: (m[id].refs - 1) as usize }),
            Ok(
                if m[id].refs == 1 {
                    Released::Teardown
                } else {
                    Released::Kept
                },
            ),
        )
    }
}

/// The second look at the reference count, before a close is asked for:
/// the close goes ahead only if still nobody holds the connection.
pub open spec fn confirm_close(m: Connections, id: u64) -> (Connections, bool) {
    if m.contains_key(id) && m[id].refs == 0 && m[id].state != ConnectionState::Closing {
        (m.insert(id, Connection { state: ConnectionState::Closing, refs: 0 }), true)
    } else {
        (m, false)
    }
}

/// The worker of a closing connection has exited.
pub open spec fn worker_exited(m: Connections, id: u64) -> (Connections, bool) {
    if m.contains_key(id) && m[id].state == ConnectionState::Closing {
        (m.remove(id), true)
    } else {
        (m, false)
    }
}

/// The process-wide registry of display connections.
pub struct Registry {
    entries: HashMap<u64, Connection>,
}

impl View for Registry {
    type V = Connections;

    closed spec fn view(&self) -> Connections {
        self.entries@
    }
}

impl Registry {
    /// Holds of every registry that this module hands out: see
    /// [`connections_wf`].
    pub open spec fn wf(&self) -> bool {
        connections_wf(self@)
    }

    /// A registry without connections.
    pub fn new() -> (r: Self)
        ensures
            r.wf(),
            r@ == Connections::empty(),
    {
        Registry { entries: HashMap::new() }
    }

    /// The entry of connection `id`, if it is registered.
    pub fn get(&self, id: u64) -> (r: Option<Connection>)
        ensures
            r == if self@.contains_key(id) {
                Some(self@[id])
            } else {
                None
            },
    {
        match self.entries.get(&id) {
            Some(c) => Some(*c),
            None => None,
        }
    }

    /// Whether connection `id` is registered.
    pub fn contains(&self, id: u64) -> (b: bool)
        ensures
            b == self@.contains_key(id),
    {
        self.get(id).is_some()
    }

    /// Asks for a reference on connection `id`. An absent connection is
    /// registered as connecting, with one reference, and the caller starts
    /// its worker. A closing one is left alone. Any other gets one
    /// reference more, unless the count is at its maximum.
    pub fn acquire(&mut self, id: u64) -> (r: Result<Acquired, Error>)
        requires
            old(self).wf(),
        ensures
            final(self).wf(),
            (final(self)@, r) == self::acquire(old(self)@, id),
    {
        match self.get(id) {
            None => {
                self.entries.insert(id, Connection { state: ConnectionState::Connecting, refs: 1 });
                Ok(Acquired::Spawn)
            },
            Some(c) => {
                if c.state == ConnectionState::Closing {
                    Ok(Acquired::Busy)
                } else if c.refs == usize::MAX {
                    Err(Error::Overflow)
                } else {
                    self.entries.insert(id, Connection { state: c.state, refs: c.refs + 1 });
                    Ok(Acquired::Shared)
                }
            },
        }
    }

    /// Takes note that the worker of connection `id` has opened it. Returns
    /// whether the connection was connecting; only then it is ready now.
    pub fn worker_ready(&mut self, id: u64) -> (b: bool)
        requires
            old(self).wf(),
        ensures
            final(self).wf(),
            (final(self)@, b) == self::worker_ready(old(self)@, id),
    {
        match self.get(id) {
            Some(c) => {
                if c.state == ConnectionState::Connecting {
                    self.entries.insert(id, Connection { state: ConnectionState::Ready, refs: c.refs });
                    true
                } else {
                    false
                }
            },
            None => false,
        }
    }

    /// Drops a reference on connection `id`. Fails with `InvalidState`,
    /// changing nothing, where there is no reference to drop.
    pub fn release(&mut self, id: u64) -> (r: Result<Released, Error>)
        requires
            old(self).wf(),
        ensures
            final(self).wf(),
            (final(self)@, r) == self::release(old(self)@, id),
    {
        match self.get(id) {
            Some(c) => {
                if c.refs == 0 {
                    Err(Error::InvalidState)
                } else {
                    self.entries.insert(id, Connection { state: c.state, refs: c.refs - 1 });
                    if c.refs == 1 {
                        Ok(Released::Teardown)
                    } else {
                        Ok(Released::Kept)
                    }
                }
            },
            None => Err(Error::InvalidState),
        }
    }

    /// Looks at the reference count of connection `id` once more, after the
    /// registry lock was taken again. Returns whether the close goes ahead:
    /// only if the connection still has no reference; it is closing then.
    pub fn confirm_close(&mut self, id: u64) -> (b: bool)
        requires
            old(self).wf(),
        ensures
            final(self).wf(),
            (final(self)@, b) == self::confirm_close(old(self)@, id),
    {
        match self.get(id) {
            Some(c) => {
                if c.refs == 0 && c.state != ConnectionState::Closing {
                    self.entries.insert(id, Connection { state: ConnectionState::Closing, refs: 0 });
                    true
                } else {
                    false
                }
            },
            None => false,
        }
    }

    /// Takes note that the worker of connection `id` has exited. Returns
    /// whether the connection was closing; only then it is absent now.
    pub fn worker_exited(&mut self, id: u64) -> (b: bool)
        requires
            old(self).wf(),
        ensures
            final(self).wf(),
            (final(self)@, b) == self::worker_exited(old(self)@, id),
    {
        match self.get(id) {
            Some(c) => {
                if c.state == ConnectionState::Closing {
                    self.entries.remove(&id);
                    true
                } else {
                    false
                }
            },
            None => false,
        }
    }
}

/// When the last reference on a ready connection is dropped and nobody
/// takes a new one, the close is confirmed, and once the worker has exited
/// the connection is absent.
pub proof fn lemma_last_release_removes(m: Connections, id: u64)
    requires
        connections_wf(m),
        m.contains_key(id),
        m[id] == (Connection { state: ConnectionState::Ready, refs: 1 }),
    ensures
        release(m, id).1 == Ok::<Released, Error>(Released::Teardown),
        confirm_close(release(m, id).0, id).1,
        worker_exited(confirm_close(release(m, id).0, id).0, id).1,
        !worker_exited(confirm_close(release(m, id).0, id).0, id).0.contains_key(id),
        worker_exited(confirm_close(release(m, id).0, id).0, id).0 == m.remove(id),
{
    let a = release(m, id).0;
    let b = confirm_close(a, id).0;
    let c = worker_exited(b, id).0;
    assert(c =~= m.remove(id));
}

/// A connection that is taken again between the last release and the
/// second look at its count is not closed: it keeps its state and has the
/// new reference.
pub proof fn lemma_reuse_cancels_teardown(m: Connections, id: u64)
    requires
        connections_wf(m),
        m.contains_key(id),
        m[id].refs == 1,
        m[id].state != ConnectionState::Closing,
    ensures
        release(m, id).1 == Ok::<Released, Error>(Released::Teardown),
        acquire(release(m, id).0, id).1 == Ok::<Acquired, Error>(Acquired::Shared),
        !confirm_close(acquire(release(m, id).0, id).0, id).1,
        confirm_close(acquire(release(m, id).0, id).0, id).0 == m,
{
    let a = release(m, id).0;
    let b = acquire(a, id).0;
    assert(b =~= m);
}

/// A closing connection is not handed out: acquiring it changes nothing
/// until its worker has exited, and then starts a new worker.
pub proof fn lemma_closing_is_not_shared(m: Connections, id: u64)
    requires
        m.contains_key(id),
        m[id].state == ConnectionState::Closing,
    ensures
        acquire(m, id) == (m, Ok::<Acquired, Error>(Acquired::Busy)),
        acquire(worker_exited(m, id).0, id).1 == Ok::<Acquired, Error>(Acquired::Spawn),
{
}

} // verus!
