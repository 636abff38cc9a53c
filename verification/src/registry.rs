//! The concurrent connection registry: a `dashmap::DashMap` keyed by
//! connection id, held opaquely inside `ConnMap`. The proofs see the registry
//! only through its view, `conn_map_of`, the mathematical map of its current
//! contents; every access the core makes goes through the small trusted
//! methods below, and everything built on them is verified against their
//! contracts.

use vstd::prelude::*;

use crate::conn::PeerConn;
use dashmap::DashMap;

verus! {

/// The connection registry. Concurrent insertion, lookup, iteration and
/// removal are the reason the underlying map is a `dashmap::DashMap` rather
/// than a plain hash map behind one coarse lock.
#[verifier::external_body]
pub struct ConnMap {
    inner: DashMap<u128, PeerConn>,
}

/// The entries a registry currently holds, as a mathematical map.
pub uninterp spec fn conn_map_of(m: ConnMap) -> Map<u128, PeerConn>;

/// The contents of a registry that holds nothing.
pub open spec fn empty_conn_map() -> Map<u128, PeerConn> {
    Map::empty()
}

impl View for ConnMap {
    type V = Map<u128, PeerConn>;

    open spec fn view(&self) -> Map<u128, PeerConn> {
        conn_map_of(*self)
    }
}

impl ConnMap {
    /// Relies on dashmap::DashMap::new: a freshly created map holds no
    /// entries.
    #[verifier::external_body]
    pub(crate) fn new() -> (r: ConnMap)
        ensures
            r@ == empty_conn_map(),
    {
        ConnMap { inner: DashMap::new() }
    }

    /// Relies on dashmap::DashMap::insert: the value is stored under the key,
    /// replacing any previous entry for that key and leaving every other
    /// entry in place.
    #[verifier::external_body]
    pub(crate) fn insert(&mut self, id: u128, conn: PeerConn)
        ensures
            conn_map_of(*final(self)) =~= conn_map_of(*old(self)).insert(id, conn),
    {
        self.inner.insert(id, conn);
    }

    /// Relies on dashmap::DashMap::contains_key: a point existence check.
    #[verifier::external_body]
    pub(crate) fn contains(&self, id: &u128) -> (r: bool)
        ensures
            r == conn_map_of(*self).contains_key(*id),
    {
        self.inner.contains_key(id)
    }

    /// Relies on dashmap::DashMap::remove: returns the stored entry if the
    /// key was present (a removal of a missing key is a no-op), and leaves
    /// every other entry in place.
    #[verifier::external_body]
    pub(crate) fn remove(&mut self, id: &u128) -> (r: Option<PeerConn>)
        ensures
            old(self)@.contains_key(*id) ==> {
                &&& r == Some(old(self)@[*id])
                &&& conn_map_of(*final(self)) =~= conn_map_of(*old(self)).remove(*id)
            },
            !old(self)@.contains_key(*id) ==> {
                &&& r == None::<PeerConn>
                &&& conn_map_of(*final(self)) =~= conn_map_of(*old(self))
            },
    {
        self.inner.remove(id).map(|kv| kv.1)
    }

    /// Relies on dashmap::DashMap::iter, taking only its first item: the
    /// iterator yields some entry of the map when one exists and yields
    /// nothing only when the map is empty; which entry comes first is
    /// arbitrary.
    #[verifier::external_body]
    pub(crate) fn first(&self) -> (r: Option<(u128, PeerConn)>)
        ensures
            match r {
                Some(p) => self@.contains_key(p.0) && self@[p.0] == p.1,
                None => self@ == empty_conn_map(),
            },
    {
        self.inner.iter().next().map(|e| (*e.key(), *e.value()))
    }

    /// Relies on dashmap::DashMap::iter: with the map exclusively borrowed,
    /// the iterator yields each entry exactly once, in arbitrary order.
    #[verifier::external_body]
    pub(crate) fn entries(&self) -> (r: Vec<(u128, PeerConn)>)
        ensures
            r@.len() == self@.dom().len(),
            forall|i: int|
                0 <= i < r@.len() ==> self@.contains_key((#[trigger] r@[i]).0)
                    && self@[r@[i].0] == r@[i].1,
            forall|i: int, j: int| 0 <= i < j < r@.len() ==> r@[i].0 != r@[j].0,
            forall|id: u128| #[trigger]
                self@.contains_key(id) ==> exists|i: int| 0 <= i < r@.len() && r@[i].0 == id,
    {
        self.inner.iter().map(|e| (*e.key(), *e.value())).collect()
    }
}

} // verus!
