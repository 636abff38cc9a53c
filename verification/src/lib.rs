//! Peer-connection multiplexing core of a mesh networking node.
//!
//! A `Peer` stands for one logical remote node that may be reachable over
//! several redundant transport connections at once. The library owns the
//! connection registry, the single funnel through which every removal goes,
//! and the shutdown protocol; the surrounding runtime performs the actual
//! transport I/O and event delivery.

pub mod conn;
pub mod peer;
pub mod registry;
