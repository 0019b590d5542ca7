//! The live connection registry: the single source of truth for whether a
//! user is currently reachable, and through which connection.
//!
//! At most one entry is live per user at any instant. Registering again for
//! the same user supersedes the prior handle; unregistering removes the entry
//! only when the caller still holds the stored handle, so a stale connection
//! that lingers past its replacement cannot evict the newer one.

use crate::table::{has_key, keys_unique, lemma_key_at, lemma_push_row, lemma_remove_row,
    lemma_update_value, value_of};
use vstd::prelude::*;

verus! {

/// An addressable endpoint capable of receiving a message. The transport
/// layer maps the numeric id back to the socket it stands for.
#[derive(Clone, Copy, PartialEq, Eq, Structural, Debug)]
pub struct ConnHandle {
    pub id: u64,
}

/// One live mapping from a user to its currently reachable connection.
pub struct RegistryEntry {
    pub user: String,
    pub handle: ConnHandle,
}

/// What a successful send hands to the transport layer: which connection to
/// write to, and the exact payload to write.
#[derive(Debug)]
pub struct Delivery {
    pub target: ConnHandle,
    pub message: String,
}

/// Routing failure: the addressed user has no live entry.
#[derive(Clone, Copy, PartialEq, Eq, Structural, Debug)]
pub enum RouteError {
    Unreachable,
}

/// The registry itself: a table of entries keyed by user id.
pub struct Registry {
    entries: Vec<RegistryEntry>,
}

impl Registry {
    /// The registry rows, abstractly: each entry as its user id with the
    /// stored handle.
    pub closed spec fn rows(&self) -> Seq<(Seq<char>, ConnHandle)> {
        self.entries@.map(|i: int, e: RegistryEntry| (e.user@, e.handle))
    }

    /// At most one live entry exists per user.
    pub open spec fn valid(&self) -> bool {
        keys_unique(self.rows())
    }

    /// Whether `u` currently has a live connection.
    pub open spec fn is_live(&self, u: Seq<char>) -> bool {
        has_key(self.rows(), u)
    }

    /// The handle of `u`'s live connection (meaningful only under `is_live`).
    pub open spec fn handle_of(&self, u: Seq<char>) -> ConnHandle {
        value_of(self.rows(), u)
    }

    /// A fresh registry with no live connections.
    pub fn new() -> (r: Registry)
        ensures
            r.valid(),
            forall|u: Seq<char>| !r.is_live(u),
    {
        Registry { entries: Vec::new() }
    }

    /// The index of `user`'s entry, if one is live.
    fn find_index(&self, user: &String) -> (r: Option<usize>)
        ensures
            match r {
                Some(i) => i < self.rows().len() && self.rows()[i as int].0 == user@,
                None => !self.is_live(user@),
            },
    {
        let mut i: usize = 0;
        while i < self.entries.len()
            invariant
                i <= self.entries.len(),
                forall|j: int| 0 <= j < i ==> (#[trigger] self.rows()[j]).0 != user@,
            decreases self.entries.len() - i,
        {
            if self.entries[i].user.eq(user) {
                return Some(i);
            }
            i = i + 1;
        }
        None
    }

    /// Insert or replace the entry for `user`. A prior handle is superseded
    /// without error: at-most-one-live-connection-per-user semantics.
    pub fn register(&mut self, user: &String, handle: ConnHandle)
        requires
            old(self).valid(),
        ensures
            final(self).valid(),
            register_step(*old(self), *final(self), user@, handle),
    {
        let found = self.find_index(user);
        match found {
            Some(i) => {
                self.entries[i] = RegistryEntry { user: user.clone(), handle };
                proof {
                    assert(self.rows() =~= old(self).rows().update(i as int, (user@, handle)));
                    lemma_update_value(old(self).rows(), self.rows(), i as int, user@, handle);
                }
            },
            None => {
                self.entries.push(RegistryEntry { user: user.clone(), handle });
                proof {
                    assert(self.rows() =~= old(self).rows().push((user@, handle)));
                    lemma_push_row(old(self).rows(), self.rows(), user@, handle);
                }
            },
        }
    }

    /// Remove the entry for `user` only if the stored handle is the caller's
    /// own. Absent or superseded entries are left alone: a disconnecting
    /// stale connection never evicts a newer one.
    pub fn unregister(&mut self, user: &String, handle: ConnHandle)
        requires
            old(self).valid(),
        ensures
            final(self).valid(),
            unregister_step(*old(self), *final(self), user@, handle),
    {
        let found = self.find_index(user);
        match found {
            Some(i) => {
                proof {
                    lemma_key_at(self.rows(), i as int);
                }
                if self.entries[i].handle == handle {
                    self.entries.remove(i);
                    proof {
                        assert(self.rows() =~= old(self).rows().remove(i as int));
                        lemma_remove_row(old(self).rows(), self.rows(), i as int, user@);
                    }
                }
            },
            None => {},
        }
    }

    /// The live handle for `user`, or nothing if the user is not connected.
    pub fn lookup(&self, user: &String) -> (r: Option<ConnHandle>)
        requires
            self.valid(),
        ensures
            match r {
                Some(h) => self.is_live(user@) && h == self.handle_of(user@),
                None => !self.is_live(user@),
            },
    {
        match self.find_index(user) {
            Some(i) => {
                proof {
                    lemma_key_at(self.rows(), i as int);
                }
                Some(self.entries[i].handle)
            },
            None => None,
        }
    }

    /// Look up `user` and hand the payload to its live connection, or report
    /// that the user is unreachable. Does not retry.
    pub fn send(&self, user: &String, message: String) -> (r: Result<Delivery, RouteError>)
        requires
            self.valid(),
        ensures
            match r {
                Ok(d) => self.is_live(user@) && d.target == self.handle_of(user@) && d.message
                    == message,
                Err(e) => !self.is_live(user@) && e == RouteError::Unreachable,
            },
    {
        match self.lookup(user) {
            Some(h) => Ok(Delivery { target: h, message }),
            None => Err(RouteError::Unreachable),
        }
    }

    /// Drop every entry: teardown when the serving process stops.
    pub fn clear(&mut self)
        ensures
            final(self).valid(),
            forall|u: Seq<char>| !final(self).is_live(u),
    {
        self.entries.clear();
    }
}

/// How `register` changes the registry: `u` is live through `h`, and every
/// other user keeps exactly the connection state it had.
pub open spec fn register_step(pre: Registry, post: Registry, u: Seq<char>, h: ConnHandle) -> bool {
    &&& post.is_live(u)
    &&& post.handle_of(u) == h
    &&& forall|v: Seq<char>| v != u ==> post.is_live(v) == pre.is_live(v)
    &&& forall|v: Seq<char>| v != u && pre.is_live(v) ==> post.handle_of(v) == pre.handle_of(v)
}

/// How `unregister` changes the registry: `u`'s entry goes away only when it
/// still stored the caller's handle `h`; a mismatch is a no-op, and every
/// other user keeps exactly the connection state it had.
pub open spec fn unregister_step(
    pre: Registry,
    post: Registry,
    u: Seq<char>,
    h: ConnHandle,
) -> bool {
    &&& pre.is_live(u) && pre.handle_of(u) == h ==> !post.is_live(u)
    &&& pre.is_live(u) && pre.handle_of(u) != h ==> post.is_live(u) && post.handle_of(u)
        == pre.handle_of(u)
    &&& !pre.is_live(u) ==> !post.is_live(u)
    &&& forall|v: Seq<char>| v != u ==> post.is_live(v) == pre.is_live(v)
    &&& forall|v: Seq<char>| v != u && pre.is_live(v) ==> post.handle_of(v) == pre.handle_of(v)
}

/// Two registries agree on every observable connection.
pub open spec fn same_connections(a: Registry, b: Registry) -> bool {
    forall|u: Seq<char>|
        (#[trigger] a.is_live(u)) == b.is_live(u) && (a.is_live(u) ==> a.handle_of(u)
            == b.handle_of(u))
}

/// At most one registry row exists for any user at any observable instant:
/// two rows that carry the same user are the same row.
pub proof fn lemma_at_most_one_entry(r: Registry, i: int, j: int)
    requires
        r.valid(),
        0 <= i < r.rows().len(),
        0 <= j < r.rows().len(),
        r.rows()[i].0 == r.rows()[j].0,
    ensures
        i == j,
{
}

/// Stale-handle protection. Registering `h2` right after `h1` for the same
/// user makes the lookup state yield `h2` and never `h1`, and an unregister
/// that still presents `h1` changes nothing at all.
pub proof fn lemma_supersede_then_stale_unregister(
    r0: Registry,
    r1: Registry,
    r2: Registry,
    r3: Registry,
    u: Seq<char>,
    h1: ConnHandle,
    h2: ConnHandle,
)
    requires
        h1 != h2,
        register_step(r0, r1, u, h1),
        register_step(r1, r2, u, h2),
        unregister_step(r2, r3, u, h1),
    ensures
        r2.is_live(u) && r2.handle_of(u) == h2,
        same_connections(r3, r2),
{
    assert forall|v: Seq<char>|
        (#[trigger] r3.is_live(v)) == r2.is_live(v) && (r3.is_live(v) ==> r3.handle_of(v)
            == r2.handle_of(v)) by {
        if v == u {
            assert(r2.handle_of(u) != h1);
        }
    }
}

} // verus!
