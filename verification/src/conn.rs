//! Connection handles as this core sees them, the diagnostic records derived
//! from them, and the error taxonomy of the facade operations.

use vstd::prelude::*;

verus! {

/// What the core reads of one handshaken transport connection: its stable
/// connection id and the identity of the remote node it reaches. The byte-level
/// transport behind a connection is owned by the surrounding runtime; the core
/// only routes ids and payloads towards it.
#[derive(Clone, Copy)]
pub struct PeerConn {
    conn_id: u128,
    peer_node_id: u128,
}

/// Diagnostic record describing one connection, as reported by
/// `list_peer_conns` and carried by the added/removed events.
#[derive(Clone, Copy, Debug, PartialEq, Eq, Structural)]
pub struct PeerConnInfo {
    pub conn_id: u128,
    pub peer_node_id: u128,
}

impl PeerConn {
    pub fn new(conn_id: u128, peer_node_id: u128) -> (c: PeerConn)
        ensures
            c.spec_conn_id() == conn_id,
            c.spec_peer_node_id() == peer_node_id,
    {
        PeerConn { conn_id, peer_node_id }
    }

    pub closed spec fn spec_conn_id(self) -> u128 {
        self.conn_id
    }

    pub closed spec fn spec_peer_node_id(self) -> u128 {
        self.peer_node_id
    }

    /// The diagnostic record of this connection, as a spec-level value.
    pub open spec fn spec_info(self) -> PeerConnInfo {
        PeerConnInfo { conn_id: self.spec_conn_id(), peer_node_id: self.spec_peer_node_id() }
    }

    pub fn get_conn_id(&self) -> (id: u128)
        ensures
            id == self.spec_conn_id(),
    {
        self.conn_id
    }

    pub fn get_conn_info(&self) -> (info: PeerConnInfo)
        ensures
            info == self.spec_info(),
    {
        PeerConnInfo { conn_id: self.conn_id, peer_node_id: self.peer_node_id }
    }
}

} // verus!
