//! The `Peer` facade: one logical remote node, its connection registry, the
//! closure funnel through which every removal goes, and the shutdown flag.
//!
//! The facade decides; the surrounding runtime acts. `add_peer_conn` and the
//! funnel return the diagnostic events to issue, `send_msg` returns the
//! connection chosen to carry a payload, and the caller performs the actual
//! transport I/O, so that every decision made here is verified.

use vstd::prelude::*;

use crate::conn::{PeerConn, PeerConnInfo};
use crate::registry::ConnMap;
use crate::registry::empty_conn_map;

verus! {

/// The errors a facade operation can surface to its caller. Unsolicited
/// connection failures are never surfaced as errors: the funnel handles them
/// and they are observable only through later listings and events.
#[derive(Debug)]
pub enum Error {
    /// A send found the peer with zero connections; carries the peer's node
    /// id so the caller knows which peer to reconnect.
    PeerNoConnectionError(u128),
    /// An explicit close referenced a connection id that is not present.
    NotFound,
    /// A transport-level send failure, carried unmodified from the connection
    /// that reported it; this core neither interprets nor retries it.
    TransportFailure(String),
}

/// A fire-and-forget diagnostic event for the node's global context. The
/// facade returns events as values; delivering them is the caller's job and
/// never fails a facade operation.
#[derive(Clone, Copy, Debug, PartialEq, Eq, Structural)]
pub enum GlobalCtxEvent {
    PeerConnAdded(PeerConnInfo),
    PeerConnRemoved(PeerConnInfo),
}

/// One send, decided: the registry entry chosen to carry the payload. The
/// caller locks that one connection and performs the transport send,
/// propagating the connection's own failure unmodified.
pub struct SendTask {
    pub conn_id: u128,
    pub payload: Vec<u8>,
}

/// One logical remote peer, reachable over any number of redundant
/// connections.
pub struct Peer {
    /// Stable identifier of the remote logical node, immutable for the
    /// object's lifetime.
    pub peer_node_id: u128,
    conns: ConnMap,
    close_queue: Vec<u128>,
    shut_down: bool,
}

/// One funnel step on the registry contents: the id is removed if present; a
/// second report of the same id finds it gone and changes nothing.
pub open spec fn funnel_step_conns(conns: Map<u128, PeerConn>, id: u128) -> Map<u128, PeerConn> {
    if conns.contains_key(id) {
        conns.remove(id)
    } else {
        conns
    }
}

/// The diagnostic event one funnel step issues: exactly one removed-event
/// when the id was present, none when it had already gone.
pub open spec fn funnel_step_event(conns: Map<u128, PeerConn>, id: u128) -> Option<
    GlobalCtxEvent,
> {
    if conns.contains_key(id) {
        Some(GlobalCtxEvent::PeerConnRemoved(conns[id].spec_info()))
    } else {
        None
    }
}

/// The registry contents after the funnel has processed a queue of reported
/// ids, oldest first.
pub open spec fn funnel_run_conns(conns: Map<u128, PeerConn>, q: Seq<u128>) -> Map<u128, PeerConn>
    decreases q.len(),
{
    if q.len() == 0 {
        conns
    } else {
        funnel_run_conns(funnel_step_conns(conns, q[0]), q.drop_first())
    }
}

/// The diagnostic events the funnel issues while processing a queue of
/// reported ids, oldest first.
pub open spec fn funnel_run_events(conns: Map<u128, PeerConn>, q: Seq<u128>) -> Seq<GlobalCtxEvent>
    decreases q.len(),
{
    if q.len() == 0 {
        Seq::empty()
    } else {
        let rest = funnel_run_events(funnel_step_conns(conns, q[0]), q.drop_first());
        match funnel_step_event(conns, q[0]) {
            Some(e) => seq![e] + rest,
            None => rest,
        }
    }
}

impl Peer {
    /// The peer's stable node id, as a spec-level value.
    pub closed spec fn spec_node_id(self) -> u128 {
        self.peer_node_id
    }

    /// The registry's current contents.
    pub closed spec fn conns_spec(self) -> Map<u128, PeerConn> {
        self.conns@
    }

    /// The connection ids enqueued for removal and not yet processed by the
    /// funnel, oldest first.
    pub closed spec fn queue_spec(self) -> Seq<u128> {
        self.close_queue@
    }

    /// Whether the shutdown signal has fired.
    pub closed spec fn is_shut_down(self) -> bool {
        self.shut_down
    }

    /// Well-formedness: the registry is finite, every entry sits under its
    /// own connection id, and every entry belongs to this peer's node.
    pub open spec fn wf(self) -> bool {
        &&& self.conns_spec().dom().finite()
        &&& forall|id: u128|
            self.conns_spec().contains_key(id) ==> (#[trigger] self.conns_spec()[id]).spec_conn_id()
                == id && self.conns_spec()[id].spec_peer_node_id() == self.spec_node_id()
    }

    /// A new peer starts with an empty registry, an idle funnel and the
    /// shutdown signal unfired. Construction cannot fail.
    pub fn new(peer_node_id: u128) -> (p: Peer)
        ensures
            p.wf(),
            p.spec_node_id() == peer_node_id,
            p.conns_spec() == empty_conn_map(),
            p.queue_spec().len() == 0,
            !p.is_shut_down(),
    {
        Peer { peer_node_id, conns: ConnMap::new(), close_queue: Vec::new(), shut_down: false }
    }

    /// Registers a fully-handshaken connection and returns the added-event to
    /// issue. Cannot fail; ids are caller-generated and assumed unique, so an
    /// insert under a present id (unsupported usage) simply replaces it.
    pub fn add_peer_conn(&mut self, conn: PeerConn) -> (ev: GlobalCtxEvent)
        requires
            old(self).wf(),
            conn.spec_peer_node_id() == old(self).spec_node_id(),
        ensures
            final(self).wf(),
            final(self).spec_node_id() == old(self).spec_node_id(),
            final(self).conns_spec() == old(self).conns_spec().insert(conn.spec_conn_id(), conn),
            final(self).queue_spec() == old(self).queue_spec(),
            final(self).is_shut_down() == old(self).is_shut_down(),
            ev == GlobalCtxEvent::PeerConnAdded(conn.spec_info()),
    {
        let ev = GlobalCtxEvent::PeerConnAdded(conn.get_conn_info());
        let id = conn.get_conn_id();
        self.conns.insert(id, conn);
        ev
    }

    /// Decides one send: an arbitrary currently-present connection carries
    /// the payload, unchanged; with zero connections the send fails, naming
    /// this peer's node id. At most one attempt, no retry across connections.
    pub fn send_msg(&self, msg: Vec<u8>) -> (r: Result<SendTask, Error>)
        requires
            self.wf(),
        ensures
            match r {
                Ok(t) => self.conns_spec().contains_key(t.conn_id) && t.payload@ == msg@
                    && self.conns_spec().len() != 0,
                Err(e) => e == Error::PeerNoConnectionError(self.spec_node_id())
                    && self.conns_spec().len() == 0,
            },
    {
        match self.conns.first() {
            None => Err(Error::PeerNoConnectionError(self.peer_node_id)),
            Some(p) => Ok(SendTask { conn_id: p.0, payload: msg }),
        }
    }

    /// Requests removal of one connection: fails with `NotFound` if the id is
    /// not present, otherwise enqueues the id for the funnel and returns at
    /// once — removal is initiated, not yet performed.
    pub fn close_peer_conn(&mut self, conn_id: &u128) -> (r: Result<(), Error>)
        requires
            old(self).wf(),
            // the closure channel is never closed while the facade is alive
            old(self).conns_spec().contains_key(*conn_id) ==> !old(self).is_shut_down(),
        ensures
            final(self).wf(),
            final(self).spec_node_id() == old(self).spec_node_id(),
            final(self).conns_spec() == old(self).conns_spec(),
            final(self).is_shut_down() == old(self).is_shut_down(),
            match r {
                Ok(_) => old(self).conns_spec().contains_key(*conn_id) && final(self).queue_spec()
                    == old(self).queue_spec().push(*conn_id),
                Err(e) => e == Error::NotFound && !old(self).conns_spec().contains_key(*conn_id)
                    && final(self).queue_spec() == old(self).queue_spec(),
            },
    {
        if !self.conns.contains(conn_id) {
            return Err(Error::NotFound);
        }
        self.close_queue.push(*conn_id);
        Ok(())
    }

    /// The failure-notification hook of a connection: reports an unsolicited
    /// closure into the funnel. Never fails the reporter; once the shutdown
    /// signal has fired the funnel accepts no further work and the report is
    /// dropped.
    pub fn notify_conn_closed(&mut self, conn_id: u128)
        requires
            old(self).wf(),
        ensures
            final(self).wf(),
            final(self).spec_node_id() == old(self).spec_node_id(),
            final(self).conns_spec() == old(self).conns_spec(),
            final(self).is_shut_down() == old(self).is_shut_down(),
            final(self).queue_spec() == if old(self).is_shut_down() {
                old(self).queue_spec()
            } else {
                old(self).queue_spec().push(conn_id)
            },
    {
        if !self.shut_down {
            self.close_queue.push(conn_id);
        }
    }

    /// One wake-up of the closure funnel for one reported id: removes the
    /// entry if it is still present and returns the removed-event to issue;
    /// an id that already raced away is a silent no-op, not an error.
    pub fn handle_close_event(&mut self, conn_id: u128) -> (ev: Option<GlobalCtxEvent>)
        requires
            old(self).wf(),
        ensures
            final(self).wf(),
            final(self).spec_node_id() == old(self).spec_node_id(),
            final(self).queue_spec() == old(self).queue_spec(),
            final(self).is_shut_down() == old(self).is_shut_down(),
            final(self).conns_spec() == funnel_step_conns(old(self).conns_spec(), conn_id),
            ev == funnel_step_event(old(self).conns_spec(), conn_id),
    {
        match self.conns.remove(&conn_id) {
            Some(conn) => Some(GlobalCtxEvent::PeerConnRemoved(conn.get_conn_info())),
            None => None,
        }
    }

    /// Fires the shutdown signal: non-blocking, safe to repeat, and the only
    /// effect is that the funnel stops accepting further work. Registered
    /// connections are not forcibly closed.
    pub fn shutdown(&mut self)
        ensures
            final(self).is_shut_down(),
            final(self).spec_node_id() == old(self).spec_node_id(),
            final(self).conns_spec() == old(self).conns_spec(),
            final(self).queue_spec() == old(self).queue_spec(),
            final(self).wf() == old(self).wf(),
    {
        self.shut_down = true;
    }

    /// Whether the shutdown signal has fired.
    pub fn has_shut_down(&self) -> (r: bool)
        ensures
            r == self.is_shut_down(),
    {
        self.shut_down
    }

    /// Runs the funnel over every id enqueued so far, oldest first, and
    /// returns the removed-events to issue, in processing order. This is what
    /// the funnel task achieves between two suspensions: each reported id is
    /// handled once, one at a time, so no two removals ever race.
    pub fn drain_close_events(&mut self) -> (evs: Vec<GlobalCtxEvent>)
        requires
            old(self).wf(),
        ensures
            final(self).wf(),
            final(self).spec_node_id() == old(self).spec_node_id(),
            final(self).is_shut_down() == old(self).is_shut_down(),
            final(self).queue_spec().len() == 0,
            final(self).conns_spec() == funnel_run_conns(
                old(self).conns_spec(),
                old(self).queue_spec(),
            ),
            evs@ == funnel_run_events(old(self).conns_spec(), old(self).queue_spec()),
    {
        let ghost q = self.queue_spec();
        let mut evs: Vec<GlobalCtxEvent> = Vec::new();
        let mut i: usize = 0;
        let n = self.close_queue.len();
        proof {
            assert(q.skip(0) =~= q);
            assert(evs@ + funnel_run_events(self.conns_spec(), q) =~= funnel_run_events(
                self.conns_spec(),
                q,
            ));
        }
        while i < n
            invariant
                self.wf(),
                n == q.len(),
                self.queue_spec() == q,
                self.spec_node_id() == old(self).spec_node_id(),
                self.is_shut_down() == old(self).is_shut_down(),
                i <= n,
                funnel_run_conns(old(self).conns_spec(), q) == funnel_run_conns(
                    self.conns_spec(),
                    q.skip(i as int),
                ),
                funnel_run_events(old(self).conns_spec(), q) == evs@ + funnel_run_events(
                    self.conns_spec(),
                    q.skip(i as int),
                ),
            decreases n - i,
        {
            let id = self.close_queue[i];
            let ghost pre = self.conns_spec();
            let ghost tail = q.skip(i as int);
            proof {
                assert(tail[0] == id);
                assert(tail.drop_first() =~= q.skip(i as int + 1));
            }
            let ev = self.handle_close_event(id);
            match ev {
                Some(e) => {
                    proof {
                        assert(funnel_run_events(pre, tail) == seq![e] + funnel_run_events(
                            self.conns_spec(),
                            q.skip(i as int + 1),
                        ));
                        assert(evs@ + funnel_run_events(pre, tail) =~= evs@.push(e)
                            + funnel_run_events(self.conns_spec(), q.skip(i as int + 1)));
                    }
                    evs.push(e);
                },
                None => {
                    proof {
                        assert(funnel_run_events(pre, tail) == funnel_run_events(
                            self.conns_spec(),
                            q.skip(i as int + 1),
                        ));
                    }
                },
            }
            i += 1;
        }
        proof {
            assert(q.skip(n as int) =~= Seq::empty());
            assert(evs@ + funnel_run_events(self.conns_spec(), q.skip(n as int)) =~= evs@);
        }
        self.close_queue = Vec::new();
        evs
    }

    /// A snapshot of the diagnostic info of every connection present: one
    /// record per entry, in arbitrary order.
    pub fn list_peer_conns(&self) -> (r: Vec<PeerConnInfo>)
        requires
            self.wf(),
        ensures
            r@.len() == self.conns_spec().len(),
            forall|i: int|
                0 <= i < r@.len() ==> self.conns_spec().contains_key((#[trigger] r@[i]).conn_id)
                    && r@[i] == self.conns_spec()[r@[i].conn_id].spec_info(),
            forall|i: int, j: int| 0 <= i < j < r@.len() ==> r@[i].conn_id != r@[j].conn_id,
            forall|id: u128| #[trigger]
                self.conns_spec().contains_key(id) ==> exists|i: int|
                    0 <= i < r@.len() && (#[trigger] r@[i]).conn_id == id,
    {
        let entries = self.conns.entries();
        let mut r: Vec<PeerConnInfo> = Vec::new();
        let mut i: usize = 0;
        while i < entries.len()
            invariant
                self.wf(),
                i <= entries@.len(),
                r@.len() == i,
                entries@.len() == self.conns_spec().len(),
                forall|k: int|
                    0 <= k < entries@.len() ==> self.conns_spec().contains_key(
                        (#[trigger] entries@[k]).0,
                    ) && self.conns_spec()[entries@[k].0] == entries@[k].1,
                forall|k: int, l: int|
                    0 <= k < l < entries@.len() ==> entries@[k].0 != entries@[l].0,
                forall|id: u128| #[trigger]
                    self.conns_spec().contains_key(id) ==> exists|k: int|
                        0 <= k < entries@.len() && entries@[k].0 == id,
                forall|k: int|
                    0 <= k < i ==> (#[trigger] r@[k]) == entries@[k].1.spec_info() && r@[k].conn_id
                        == entries@[k].0,
            decreases entries@.len() - i,
        {
            let info = entries[i].1.get_conn_info();
            r.push(info);
            i += 1;
        }
        proof {
            assert forall|id: u128| #[trigger]
                self.conns_spec().contains_key(id) implies exists|j: int|
                0 <= j < r@.len() && (#[trigger] r@[j]).conn_id == id by {
                let k = choose|k: int| 0 <= k < entries@.len() && entries@[k].0 == id;
                assert(r@[k].conn_id == id);
            }
        }
        r
    }
}

/// How many of the events in a sequence report the removal of a given
/// connection id.
pub open spec fn count_removed_events(evs: Seq<GlobalCtxEvent>, id: u128) -> int
    decreases evs.len(),
{
    if evs.len() == 0 {
        0
    } else {
        (match evs[0] {
            GlobalCtxEvent::PeerConnRemoved(info) => if info.conn_id == id {
                1int
            } else {
                0int
            },
            _ => 0int,
        }) + count_removed_events(evs.drop_first(), id)
    }
}

/// The registry contents after a sequence of connections has been added,
/// first to last.
pub open spec fn add_all(conns: Map<u128, PeerConn>, cs: Seq<PeerConn>) -> Map<u128, PeerConn>
    decreases cs.len(),
{
    if cs.len() == 0 {
        conns
    } else {
        add_all(conns.insert(cs[0].spec_conn_id(), cs[0]), cs.drop_first())
    }
}

proof fn lemma_drop_first_contains(q: Seq<u128>, id: u128)
    requires
        q.len() > 0,
        q[0] != id,
    ensures
        q.contains(id) == q.drop_first().contains(id),
{
    if q.contains(id) {
        let j = choose|j: int| 0 <= j < q.len() && q[j] == id;
        assert(q.drop_first()[j - 1] == id);
        assert(q.drop_first().contains(id));
    }
    if q.drop_first().contains(id) {
        let j = choose|j: int| 0 <= j < q.drop_first().len() && q.drop_first()[j] == id;
        assert(q[j + 1] == id);
        assert(q.contains(id));
    }
}

proof fn lemma_funnel_run_preserves_absence(conns: Map<u128, PeerConn>, q: Seq<u128>, id: u128)
    requires
        !conns.contains_key(id),
    ensures
        !funnel_run_conns(conns, q).contains_key(id),
    decreases q.len(),
{
    if q.len() > 0 {
        assert(!funnel_step_conns(conns, q[0]).contains_key(id));
        lemma_funnel_run_preserves_absence(funnel_step_conns(conns, q[0]), q.drop_first(), id);
    }
}

/// Law: once an id has been reported to the funnel, processing the queue
/// leaves the registry without an entry for it.
pub proof fn lemma_funnel_removes_reported(conns: Map<u128, PeerConn>, q: Seq<u128>, id: u128)
    requires
        q.contains(id),
    ensures
        !funnel_run_conns(conns, q).contains_key(id),
    decreases q.len(),
{
    let j = choose|j: int| 0 <= j < q.len() && q[j] == id;
    if q[0] == id {
        assert(!funnel_step_conns(conns, id).contains_key(id));
        lemma_funnel_run_preserves_absence(funnel_step_conns(conns, id), q.drop_first(), id);
    } else {
        lemma_drop_first_contains(q, id);
        lemma_funnel_removes_reported(funnel_step_conns(conns, q[0]), q.drop_first(), id);
    }
}

proof fn lemma_funnel_run_concat(conns: Map<u128, PeerConn>, q1: Seq<u128>, q2: Seq<u128>)
    ensures
        funnel_run_conns(conns, q1 + q2) == funnel_run_conns(funnel_run_conns(conns, q1), q2),
        funnel_run_events(conns, q1 + q2) == funnel_run_events(conns, q1) + funnel_run_events(
            funnel_run_conns(conns, q1),
            q2,
        ),
    decreases q1.len(),
{
    if q1.len() == 0 {
        assert(q1 + q2 =~= q2);
        assert(funnel_run_events(conns, q1) + funnel_run_events(funnel_run_conns(conns, q1), q2)
            =~= funnel_run_events(conns, q2));
    } else {
        let stepped = funnel_step_conns(conns, q1[0]);
        assert((q1 + q2)[0] == q1[0]);
        assert((q1 + q2).drop_first() =~= q1.drop_first() + q2);
        lemma_funnel_run_concat(stepped, q1.drop_first(), q2);
        match funnel_step_event(conns, q1[0]) {
            Some(e) => {
                assert(seq![e] + (funnel_run_events(stepped, q1.drop_first())
                    + funnel_run_events(funnel_run_conns(conns, q1), q2)) =~= (seq![e]
                    + funnel_run_events(stepped, q1.drop_first())) + funnel_run_events(
                    funnel_run_conns(conns, q1),
                    q2,
                ));
            },
            None => {},
        }
    }
}

/// Law (idempotent removal): reporting a connection id that is already
/// enqueued for removal is a silent no-op — after the funnel has processed
/// the queue, the registry and the events issued are exactly those of the
/// queue without the duplicate, so racing an explicit close against an
/// unsolicited failure of the same connection removes it only once.
pub proof fn lemma_duplicate_close_report(conns: Map<u128, PeerConn>, q: Seq<u128>, id: u128)
    requires
        q.contains(id),
    ensures
        funnel_run_conns(conns, q.push(id)) == funnel_run_conns(conns, q),
        funnel_run_events(conns, q.push(id)) == funnel_run_events(conns, q),
{
    assert(q.push(id) =~= q + seq![id]);
    lemma_funnel_run_concat(conns, q, seq![id]);
    lemma_funnel_removes_reported(conns, q, id);
    let m = funnel_run_conns(conns, q);
    let empty_ids: Seq<u128> = Seq::empty();
    assert(seq![id].len() == 1);
    assert(seq![id][0] == id);
    assert(seq![id].drop_first() =~= empty_ids);
    assert(!m.contains_key(id));
    assert(funnel_step_conns(m, id) == m);
    assert(funnel_run_conns(m, empty_ids) == m);
    assert(funnel_run_conns(m, seq![id]) == funnel_run_conns(funnel_step_conns(m, id), seq![id].drop_first()));
    assert(funnel_run_conns(m, seq![id]) == m);
    let no_events: Seq<GlobalCtxEvent> = Seq::empty();
    assert(funnel_step_event(m, id) == None::<GlobalCtxEvent>);
    assert(funnel_run_events(m, empty_ids) == no_events);
    assert(funnel_run_events(m, seq![id]) =~= no_events);
    assert(funnel_run_events(conns, q) + funnel_run_events(m, seq![id]) =~= funnel_run_events(
        conns,
        q,
    ));
}

/// Law (one removed-event per connection): over any run of the funnel,
/// exactly one removed-event names a connection id that was present and
/// reported, and none names an id that was absent or never reported — however
/// many times the id was enqueued.
pub proof fn lemma_one_removed_event_per_conn(conns: Map<u128, PeerConn>, q: Seq<u128>, id: u128)
    requires
        forall|k: u128| conns.contains_key(k) ==> (#[trigger] conns[k]).spec_conn_id() == k,
    ensures
        count_removed_events(funnel_run_events(conns, q), id) == if conns.contains_key(id)
            && q.contains(id) {
            1int
        } else {
            0int
        },
    decreases q.len(),
{
    if q.len() > 0 {
        let q0 = q[0];
        let stepped = funnel_step_conns(conns, q0);
        lemma_one_removed_event_per_conn(stepped, q.drop_first(), id);
        let rest = funnel_run_events(stepped, q.drop_first());
        if conns.contains_key(q0) {
            let e = GlobalCtxEvent::PeerConnRemoved(conns[q0].spec_info());
            assert(funnel_run_events(conns, q) == seq![e] + rest);
            assert((seq![e] + rest)[0] == e);
            assert((seq![e] + rest).drop_first() =~= rest);
            assert(conns[q0].spec_info().conn_id == q0);
            if id == q0 {
                assert(!stepped.contains_key(id));
                assert(q.contains(id)) by { assert(q[0] == id); }
            } else {
                lemma_drop_first_contains(q, id);
            }
        } else {
            assert(funnel_run_events(conns, q) == rest);
            if id != q0 {
                lemma_drop_first_contains(q, id);
            }
        }
    }
}

proof fn lemma_funnel_run_no_additions(conns: Map<u128, PeerConn>, q: Seq<u128>)
    ensures
        forall|k: u128| #[trigger]
            funnel_run_conns(conns, q).contains_key(k) ==> conns.contains_key(k),
    decreases q.len(),
{
    if q.len() > 0 {
        let stepped = funnel_step_conns(conns, q[0]);
        lemma_funnel_run_no_additions(stepped, q.drop_first());
        assert forall|k: u128| #[trigger]
            funnel_run_conns(conns, q).contains_key(k) implies conns.contains_key(k) by {
            assert(funnel_run_conns(conns, q) == funnel_run_conns(stepped, q.drop_first()));
            assert(stepped.contains_key(k));
        }
    }
}

/// Law (closing the only connection empties the peer): when the registry
/// holds exactly one connection and its id is reported to the funnel —
/// explicitly or by its own failure hook — then once the queue is processed
/// the registry reports zero connections, and exactly one removed-event was
/// issued for it.
pub proof fn lemma_close_only_conn(conns: Map<u128, PeerConn>, q: Seq<u128>, id: u128)
    requires
        conns.contains_key(id),
        forall|k: u128| #[trigger] conns.contains_key(k) ==> k == id,
        conns[id].spec_conn_id() == id,
        q.contains(id),
    ensures
        forall|k: u128| !(#[trigger] funnel_run_conns(conns, q).contains_key(k)),
        count_removed_events(funnel_run_events(conns, q), id) == 1,
{
    lemma_funnel_removes_reported(conns, q, id);
    lemma_funnel_run_no_additions(conns, q);
    assert forall|k: u128| !(#[trigger] funnel_run_conns(conns, q).contains_key(k)) by {
        if funnel_run_conns(conns, q).contains_key(k) {
            assert(conns.contains_key(k));
            assert(k == id);
        }
    }
    assert forall|k: u128| conns.contains_key(k) implies (#[trigger] conns[k]).spec_conn_id()
        == k by {
        assert(k == id);
    }
    lemma_one_removed_event_per_conn(conns, q, id);
}

/// Law (additions are all listed): adding any sequence of connections with
/// pairwise distinct, previously unseen ids grows the registry by exactly the
/// length of the sequence, which is therefore the number of records a listing
/// reports afterwards.
pub proof fn lemma_add_distinct_conns_count(conns: Map<u128, PeerConn>, cs: Seq<PeerConn>)
    requires
        conns.dom().finite(),
        forall|i: int, j: int|
            0 <= i < j < cs.len() ==> (#[trigger] cs[i]).spec_conn_id() != (
            #[trigger] cs[j]).spec_conn_id(),
        forall|i: int| 0 <= i < cs.len() ==> !conns.contains_key((#[trigger] cs[i]).spec_conn_id()),
    ensures
        add_all(conns, cs).dom().finite(),
        add_all(conns, cs).len() == conns.len() + cs.len(),
    decreases cs.len(),
{
    if cs.len() > 0 {
        let c0 = cs[0];
        let m1 = conns.insert(c0.spec_conn_id(), c0);
        assert(m1.dom() =~= conns.dom().insert(c0.spec_conn_id()));
        assert(m1.len() == conns.len() + 1);
        assert forall|i: int| 0 <= i < cs.drop_first().len() implies !m1.contains_key(
            (#[trigger] cs.drop_first()[i]).spec_conn_id(),
        ) by {
            assert(cs.drop_first()[i] == cs[i + 1]);
            assert(cs[i + 1].spec_conn_id() != cs[0].spec_conn_id());
        }
        assert forall|i: int, j: int|
            0 <= i < j < cs.drop_first().len() implies (
        #[trigger] cs.drop_first()[i]).spec_conn_id() != (
        #[trigger] cs.drop_first()[j]).spec_conn_id() by {
            assert(cs.drop_first()[i] == cs[i + 1]);
            assert(cs.drop_first()[j] == cs[j + 1]);
        }
        lemma_add_distinct_conns_count(m1, cs.drop_first());
    }
}

} // verus!
