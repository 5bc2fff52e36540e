//! One transport adapter: the connection table and per-channel buffers for a
//! single backend. The same shape serves both backends — the native adapter
//! keys its peers by `ConnectionHandle::Native` and registers channels
//! globally before setup; the remote adapter keys its peers by
//! `ConnectionHandle::Naia`, holds the queue of newly accepted connections
//! that the pump drains, and provisions channels per connection from a stored
//! blueprint.
//!
//! The byte-level backends live outside this crate. They meet the adapter at
//! plain-value boundary functions: accepting a connection, delivering inbound
//! data, and draining outbound queues.

use vstd::prelude::*;

use crate::channel::ChannelRegistry;
use crate::shared::{
    ConnectionHandle, DisconnectError, MessageChannelID, RawInbound, SendMessageError,
    SocketAddress,
};

verus! {

/// One logical lane of one connection: inbound messages already demultiplexed
/// to this channel, and outbound messages queued for the backend to transmit.
#[derive(Debug)]
pub struct ChannelBuffer {
    pub id: u8,
    pub capacity: usize,
    pub incoming: Vec<Vec<u8>>,
    pub outgoing: Vec<Vec<u8>>,
}

/// Per-peer state: the peer's identity, its per-channel buffers, whether a
/// channel multiplexer is attached, and the raw inbound items the backend has
/// delivered but the pump has not yet dispatched.
#[derive(Debug)]
pub struct Connection {
    pub handle: ConnectionHandle,
    pub live: bool,
    pub has_mux: bool,
    pub buffers: Vec<ChannelBuffer>,
    pub raw_inbound: Vec<RawInbound>,
}

impl Connection {
    /// Buffer ids are pairwise distinct.
    pub open spec fn wf(self) -> bool {
        forall|i: int, j: int|
            0 <= i < j < self.buffers@.len() ==> self.buffers@[i].id != self.buffers@[j].id
    }

    pub open spec fn has_channel(self, id: u8) -> bool {
        exists|i: int| 0 <= i < self.buffers@.len() && self.buffers@[i].id == id
    }

    /// The index of the buffer for `id`; meaningful only when `has_channel`.
    pub open spec fn buffer_index_of(self, id: u8) -> int {
        choose|i: int| 0 <= i < self.buffers@.len() && self.buffers@[i].id == id
    }

    /// A fresh connection: live, with one empty buffer per registry entry
    /// when a multiplexer is attached, and nothing buffered anywhere.
    pub fn make(handle: ConnectionHandle, mux: bool, registry: &ChannelRegistry) -> (r: Self)
        requires
            registry.wf(),
        ensures
            r.wf(),
            r.handle == handle,
            r.live,
            r.has_mux == mux,
            r.raw_inbound@.len() == 0,
            mux ==> r.buffers@.len() == registry.entries@.len() && forall|k: int|
                0 <= k < registry.entries@.len() ==> (#[trigger] r.buffers@[k]).id
                    == registry.entries@[k].id && r.buffers@[k].capacity
                    == registry.entries@[k].capacity && r.buffers@[k].incoming@.len() == 0
                    && r.buffers@[k].outgoing@.len() == 0,
            !mux ==> r.buffers@.len() == 0,
            forall|id: u8| r.has_channel(id) ==> mux && registry.contains_id(id),
    {
        let mut buffers: Vec<ChannelBuffer> = Vec::new();
        if mux {
            let mut k: usize = 0;
            while k < registry.entries.len()
                invariant
                    k <= registry.entries@.len(),
                    registry.wf(),
                    buffers@.len() == k,
                    forall|m: int|
                        0 <= m < k ==> (#[trigger] buffers@[m]).id == registry.entries@[m].id
                            && buffers@[m].capacity == registry.entries@[m].capacity
                            && buffers@[m].incoming@.len() == 0 && buffers@[m].outgoing@.len()
                            == 0,
                decreases registry.entries@.len() - k,
            {
                let entry = registry.entries[k];
                buffers.push(
                    ChannelBuffer {
                        id: entry.id,
                        capacity: entry.capacity,
                        incoming: Vec::new(),
                        outgoing: Vec::new(),
                    },
                );
                k += 1;
            }
        }
        let r = Connection { handle, live: true, has_mux: mux, buffers, raw_inbound: Vec::new() };
        assert forall|id: u8| r.has_channel(id) implies mux && registry.contains_id(id) by {
            let i = choose|i: int| 0 <= i < r.buffers@.len() && r.buffers@[i].id == id;
            assert(registry.entries@[i].id == id);
        }
        r
    }

    /// The index of the buffer for `id`, if this connection has that lane.
    pub fn find_buffer(&self, id: u8) -> (r: Option<usize>)
        ensures
            match r {
                Some(i) => i < self.buffers@.len() && self.buffers@[i as int].id == id
                    && self.has_channel(id) && (self.wf() ==> i == self.buffer_index_of(id)),
                None => !self.has_channel(id),
            },
    {
        let mut i: usize = 0;
        while i < self.buffers.len()
            invariant
                i <= self.buffers@.len(),
                forall|k: int| 0 <= k < i ==> self.buffers@[k].id != id,
            decreases self.buffers@.len() - i,
        {
            if self.buffers[i].id == id {
                proof {
                    if self.wf() {
                        let c = self.buffer_index_of(id);
                        assert(self.buffers@[i as int].id == id);
                        if c != i {
                            assert(self.buffers@[c].id == id);
                        }
                    }
                }
                return Some(i);
            }
            i += 1;
        }
        None
    }
}

/// Why one connection would refuse a message on one channel, if it would.
pub open spec fn conn_refusal(c: Connection, chan: u8) -> Option<SendMessageError> {
    if !c.has_mux || !c.has_channel(chan) {
        Some(SendMessageError::MessageTypeUnregistered)
    } else if c.buffers@[c.buffer_index_of(chan)].outgoing@.len()
        >= c.buffers@[c.buffer_index_of(chan)].capacity {
        Some(SendMessageError::ChannelFull)
    } else {
        None
    }
}

/// `b_new` is `b_old` with `msg` appended to its outbound queue.
pub open spec fn buffer_enqueued(b_old: ChannelBuffer, b_new: ChannelBuffer, msg: Seq<u8>) -> bool {
    &&& b_new.id == b_old.id
    &&& b_new.capacity == b_old.capacity
    &&& b_new.incoming == b_old.incoming
    &&& b_new.outgoing@.len() == b_old.outgoing@.len() + 1
    &&& forall|m: int| 0 <= m < b_old.outgoing@.len() ==> b_new.outgoing@[m] == b_old.outgoing@[m]
    &&& b_new.outgoing@.last()@ == msg
}

/// `c_new` is `c_old` with `msg` appended to the outbound queue of channel
/// `chan`, everything else unchanged.
pub open spec fn conn_enqueued(c_old: Connection, c_new: Connection, chan: u8, msg: Seq<u8>) -> bool {
    let j = c_old.buffer_index_of(chan);
    &&& c_new.handle == c_old.handle
    &&& c_new.live == c_old.live
    &&& c_new.has_mux == c_old.has_mux
    &&& c_new.raw_inbound == c_old.raw_inbound
    &&& c_new.buffers@.len() == c_old.buffers@.len()
    &&& forall|l: int|
        0 <= l < c_old.buffers@.len() && l != j ==> c_new.buffers@[l] == c_old.buffers@[l]
    &&& buffer_enqueued(c_old.buffers@[j], c_new.buffers@[j], msg)
}

/// A byte-for-byte copy; sends enqueue a copy of the payload per destination.
pub fn copy_bytes(v: &Vec<u8>) -> (r: Vec<u8>)
    ensures
        r@ == v@,
{
    let mut r: Vec<u8> = Vec::new();
    let mut i: usize = 0;
    while i < v.len()
        invariant
            i <= v@.len(),
            r@ == v@.take(i as int),
        decreases v@.len() - i,
    {
        r.push(v[i]);
        i += 1;
        assert(v@.take(i as int) == v@.take(i - 1).push(v@[i - 1]));
    }
    assert(v@.take(v@.len() as int) == v@);
    r
}

/// One backend's connection table, channel registry and setup state.
#[derive(Debug)]
pub struct Adapter {
    /// The native adapter's global channel set, or the remote adapter's
    /// per-connection blueprint once a channels builder is stored.
    pub registry: ChannelRegistry,
    /// Whether a channels builder was stored (remote adapter only): new
    /// remote connections get a multiplexer exactly when it was.
    pub builder_set: bool,
    pub connections: Vec<Connection>,
    /// Connections the backend has accepted that the pump has not yet
    /// admitted to the table (remote adapter only).
    pub pending_accepts: usize,
    /// The next remote handle to assign; handles are per-process and never
    /// reused (remote adapter only).
    pub connection_sequence: u32,
    /// The endpoints given to `listen`/`connect`.
    pub endpoints: Vec<SocketAddress>,
    /// The maximum packet size given at setup (native adapter only).
    pub max_packet_size: usize,
    /// Whether `listen`/`connect` has run on this adapter.
    pub active: bool,
}

impl Adapter {
    /// Registry and connections are well formed, connection identities are
    /// pairwise distinct, and every remote handle in the table is below the
    /// assignment counter.
    pub open spec fn wf(self) -> bool {
        &&& self.registry.wf()
        &&& forall|i: int| 0 <= i < self.connections@.len() ==> (#[trigger] self.connections@[i]).wf()
        &&& forall|i: int, j: int|
            0 <= i < j < self.connections@.len() ==> self.connections@[i].handle
                != self.connections@[j].handle
        &&& forall|i: int|
            0 <= i < self.connections@.len() ==> ((#[trigger] self.connections@[i]).handle
                matches ConnectionHandle::Naia(h) ==> h < self.connection_sequence)
    }

    pub open spec fn contains_handle(self, h: ConnectionHandle) -> bool {
        exists|i: int| 0 <= i < self.connections@.len() && self.connections@[i].handle == h
    }

    /// The index of the connection with identity `h`; meaningful only when
    /// `contains_handle`.
    pub open spec fn conn_index_of(self, h: ConnectionHandle) -> int {
        choose|i: int| 0 <= i < self.connections@.len() && self.connections@[i].handle == h
    }

    pub fn new() -> (r: Self)
        ensures
            r.wf(),
            !r.builder_set,
            r.connections@.len() == 0,
            r.pending_accepts == 0,
            r.connection_sequence == 0,
            r.endpoints@.len() == 0,
            r.registry.entries@.len() == 0,
            !r.active,
    {
        Adapter {
            registry: ChannelRegistry::new(),
            builder_set: false,
            connections: Vec::new(),
            pending_accepts: 0,
            connection_sequence: 0,
            endpoints: Vec::new(),
            max_packet_size: 0,
            active: false,
        }
    }

    /// The index of the connection with identity `h`, if the table has one.
    pub fn find_connection(&self, h: &ConnectionHandle) -> (r: Option<usize>)
        ensures
            match r {
                Some(i) => i < self.connections@.len() && self.connections@[i as int].handle == *h
                    && self.contains_handle(*h) && (self.wf() ==> i == self.conn_index_of(*h)),
                None => !self.contains_handle(*h),
            },
    {
        let mut i: usize = 0;
        while i < self.connections.len()
            invariant
                i <= self.connections@.len(),
                forall|k: int| 0 <= k < i ==> self.connections@[k].handle != *h,
            decreases self.connections@.len() - i,
        {
            if self.connections[i].handle == *h {
                proof {
                    if self.wf() {
                        let c = self.conn_index_of(*h);
                        if c != i {
                            assert(self.connections@[c].handle == *h);
                        }
                    }
                }
                return Some(i);
            }
            i += 1;
        }
        None
    }

    /// Admits a peer to the table, with a fresh record built from `registry`
    /// when `mux` is set. Refuses, changing nothing, when the identity is
    /// already present.
    pub fn accept(&mut self, handle: ConnectionHandle, mux: bool) -> (r: bool)
        requires
            old(self).wf(),
            handle matches ConnectionHandle::Naia(h) ==> h < old(self).connection_sequence,
        ensures
            final(self).wf(),
            old(self).contains_handle(handle) ==> !r && *final(self) == *old(self),
            !old(self).contains_handle(handle) ==> r && final(self).connections@.len() == old(self).connections@.len() + 1 && final(self).connections@.drop_last() == old(self).connections@ && {
                let c = final(self).connections@.last();
                &&& c.handle == handle
                &&& c.live
                &&& c.has_mux == mux
                &&& c.raw_inbound@.len() == 0
                &&& (mux ==> c.buffers@.len() == old(self).registry.entries@.len() && forall|
                    k: int,
                |
                    0 <= k < old(self).registry.entries@.len() ==> (#[trigger] c.buffers@[k]).id
                        == old(self).registry.entries@[k].id && c.buffers@[k].capacity == old(self).registry.entries@[k].capacity && c.buffers@[k].incoming@.len() == 0
                        && c.buffers@[k].outgoing@.len() == 0)
                &&& (!mux ==> c.buffers@.len() == 0)
            } && final(self).registry == old(self).registry && final(self).builder_set == old(self).builder_set && final(self).pending_accepts == old(self).pending_accepts && final(self).connection_sequence == old(self).connection_sequence && final(self).endpoints == old(self).endpoints && final(self).active == old(self).active,
            final(self).contains_handle(handle),
    {
        if self.find_connection(&handle).is_some() {
            return false;
        }
        let conn = Connection::make(handle, mux, &self.registry);
        self.connections.push(conn);
        proof {
            let n = self.connections@.len() - 1;
            assert(self.connections@[n].handle == handle);
            assert(self.connections@.drop_last() =~= old(self).connections@);
            assert forall|i: int, j: int| 0 <= i < j < self.connections@.len() implies self
                .connections@[i].handle != self.connections@[j].handle by {
                if j == n {
                    assert(!old(self).contains_handle(handle));
                    assert(old(self).connections@[i].handle == self.connections@[i].handle);
                }
            }
        }
        true
    }

    /// Removes the peer with identity `h`. Fails with `NotConnected`,
    /// changing nothing, exactly when the table has no such peer.
    pub fn disconnect(&mut self, h: &ConnectionHandle) -> (r: Result<(), DisconnectError>)
        requires
            old(self).wf(),
        ensures
            final(self).wf(),
            !old(self).contains_handle(*h) ==> r == Err::<(), DisconnectError>(
                DisconnectError::NotConnected,
            ) && *final(self) == *old(self),
            old(self).contains_handle(*h) ==> r == Ok::<(), DisconnectError>(()) && final(self).connections@ == old(self).connections@.remove(old(self).conn_index_of(*h)) && !final(self).contains_handle(*h) && final(self).registry == old(self).registry && final(self).builder_set == old(self).builder_set && final(self).pending_accepts == old(self).pending_accepts && final(self).connection_sequence == old(self).connection_sequence
                && final(self).endpoints == old(self).endpoints && final(self).active == old(self).active,
    {
        match self.find_connection(h) {
            None => Err(DisconnectError::NotConnected),
            Some(i) => {
                self.connections.remove(i);
                proof {
                    let s = old(self).connections@;
                    assert forall|k: int|
                        0 <= k < self.connections@.len() implies self.connections@[k].handle
                        != *h by {
                        if k < i {
                            assert(self.connections@[k] == s[k]);
                        } else {
                            assert(self.connections@[k] == s[k + 1]);
                        }
                    }
                }
                Ok(())
            },
        }
    }

    /// Empties the connection table.
    pub fn disconnect_all(&mut self)
        requires
            old(self).wf(),
        ensures
            final(self).wf(),
            final(self).connections@.len() == 0,
            final(self).registry == old(self).registry,
            final(self).builder_set == old(self).builder_set,
            final(self).pending_accepts == old(self).pending_accepts,
            final(self).connection_sequence == old(self).connection_sequence,
            final(self).endpoints == old(self).endpoints,
            final(self).active == old(self).active,
    {
        self.connections.clear();
    }

    /// Whether at least one peer is connected.
    pub fn is_connected(&self) -> (r: bool)
        ensures
            r == (self.connections@.len() > 0),
    {
        self.connections.len() > 0
    }
}

/// `c_new` is `c_old` with the inbound queue of channel `chan` emptied,
/// everything else unchanged; a connection without that lane is untouched.
pub open spec fn conn_drained(c_old: Connection, c_new: Connection, chan: u8) -> bool {
    if c_old.has_channel(chan) {
        let j = c_old.buffer_index_of(chan);
        &&& c_new.handle == c_old.handle
        &&& c_new.live == c_old.live
        &&& c_new.has_mux == c_old.has_mux
        &&& c_new.raw_inbound == c_old.raw_inbound
        &&& c_new.buffers@.len() == c_old.buffers@.len()
        &&& forall|l: int|
            0 <= l < c_old.buffers@.len() && l != j ==> c_new.buffers@[l] == c_old.buffers@[l]
        &&& c_new.buffers@[j].id == c_old.buffers@[j].id
        &&& c_new.buffers@[j].capacity == c_old.buffers@[j].capacity
        &&& c_new.buffers@[j].outgoing == c_old.buffers@[j].outgoing
        &&& c_new.buffers@[j].incoming@.len() == 0
    } else {
        c_new == c_old
    }
}

/// What draining channel `chan` of one connection yields: each buffered
/// inbound message paired with the connection's identity, in arrival order.
pub open spec fn conn_collected(c: Connection, chan: u8) -> Seq<(ConnectionHandle, Vec<u8>)> {
    if c.has_channel(chan) {
        c.buffers@[c.buffer_index_of(chan)].incoming@.map_values(|v: Vec<u8>| (c.handle, v))
    } else {
        Seq::empty()
    }
}

/// What draining channel `chan` across a connection table yields: the
/// per-connection drains concatenated in table order.
pub open spec fn collected(conns: Seq<Connection>, chan: u8) -> Seq<(ConnectionHandle, Vec<u8>)>
    decreases conns.len(),
{
    if conns.len() == 0 {
        Seq::empty()
    } else {
        collected(conns.drop_last(), chan) + conn_collected(conns.last(), chan)
    }
}

/// Appends `message` to the outbound queue of channel `chan` of one
/// connection that accepts it.
fn enqueue_one(conn: &mut Connection, chan: u8, message: &Vec<u8>)
    requires
        old(conn).wf(),
        conn_refusal(*old(conn), chan) is None,
    ensures
        final(conn).wf(),
        conn_enqueued(*old(conn), *final(conn), chan, message@),
{
    let j = match conn.find_buffer(chan) {
        Some(j) => j,
        None => unreached(),
    };
    let mut buf = conn.buffers.remove(j);
    buf.outgoing.push(copy_bytes(message));
    conn.buffers.insert(j, buf);
    proof {
        let bs = old(conn).buffers@;
        assert(conn.buffers@ =~= bs.update(j as int, conn.buffers@[j as int]));
        assert(buffer_enqueued(bs[j as int], conn.buffers@[j as int], message@));
    }
}

/// Moves every buffered inbound message of channel `chan` out of one
/// connection, appending each with the connection's identity to `out`.
fn drain_one(conn: &mut Connection, chan: u8, out: &mut Vec<(ConnectionHandle, Vec<u8>)>)
    requires
        old(conn).wf(),
    ensures
        final(conn).wf(),
        conn_drained(*old(conn), *final(conn), chan),
        final(out)@ == old(out)@ + conn_collected(*old(conn), chan),
{
    let j = match conn.find_buffer(chan) {
        Some(j) => j,
        None => {
            assert(final(out)@ =~= old(out)@ + conn_collected(*old(conn), chan));
            return ;
        },
    };
    let mut buf = conn.buffers.remove(j);
    let mut msgs: Vec<Vec<u8>> = Vec::new();
    core::mem::swap(&mut msgs, &mut buf.incoming);
    let ghost orig = msgs@;
    let ghost handle = conn.handle;
    let ghost out0 = out@;
    let total: usize = msgs.len();
    let mut t: usize = 0;
    while msgs.len() > 0
        invariant
            t <= orig.len(),
            orig.len() == total,
            conn.handle == handle,
            msgs@ == orig.skip(t as int),
            out@ == out0 + orig.take(t as int).map_values(|v: Vec<u8>| (handle, v)),
        decreases msgs@.len(),
    {
        let v = msgs.remove(0);
        out.push((conn.handle, v));
        proof {
            assert(orig.skip(t as int).remove(0) =~= orig.skip(t + 1));
            assert(orig.take(t + 1) =~= orig.take(t as int).push(orig[t as int]));
            assert(orig.take(t + 1).map_values(|v: Vec<u8>| (handle, v)) =~= orig.take(
                t as int,
            ).map_values(|v: Vec<u8>| (handle, v)).push((handle, orig[t as int])));
        }
        t += 1;
    }
    proof {
        assert(orig.take(orig.len() as int) =~= orig);
    }
    conn.buffers.insert(j, buf);
    proof {
        let bs = old(conn).buffers@;
        assert(conn.buffers@ =~= bs.update(j as int, conn.buffers@[j as int]));
    }
}

impl Adapter {
    /// Enqueues `message` for the peer named `h` on channel `channel`.
    /// Fails with `NotConnected` when the table has no such peer, with
    /// `MessageTypeUnregistered` when the peer has no multiplexer or no lane
    /// for the channel, and with `ChannelFull` when the lane's outbound
    /// queue is at capacity; a failure changes nothing.
    pub fn send_message(
        &mut self,
        message: &Vec<u8>,
        channel: &MessageChannelID,
        h: &ConnectionHandle,
    ) -> (r: Result<(), SendMessageError>)
        requires
            old(self).wf(),
        ensures
            final(self).wf(),
            !old(self).contains_handle(*h) ==> r == Err::<(), SendMessageError>(
                SendMessageError::NotConnected,
            ) && *final(self) == *old(self),
            old(self).contains_handle(*h) ==> {
                let i = old(self).conn_index_of(*h);
                match conn_refusal(old(self).connections@[i], channel.id) {
                    Some(e) => r == Err::<(), SendMessageError>(e) && *final(self) == *old(self),
                    None => r == Ok::<(), SendMessageError>(()) && final(self).connections@.len()
                        == old(self).connections@.len() && (forall|k: int|
                        0 <= k < old(self).connections@.len() && k != i ==> final(self).connections@[k] == old(self).connections@[k]) && conn_enqueued(
                        old(self).connections@[i],
                        final(self).connections@[i],
                        channel.id,
                        message@,
                    ) && final(self).registry == old(self).registry && final(self).builder_set
                        == old(self).builder_set && final(self).pending_accepts == old(self).pending_accepts && final(self).connection_sequence == old(self).connection_sequence && final(self).endpoints == old(self).endpoints && final(self).active == old(self).active,
                }
            },
    {
        let i = match self.find_connection(h) {
            Some(i) => i,
            None => {
                return Err(SendMessageError::NotConnected);
            },
        };
        let refusal: Option<SendMessageError> = {
            let conn = &self.connections[i];
            if !conn.has_mux {
                Some(SendMessageError::MessageTypeUnregistered)
            } else {
                match conn.find_buffer(channel.id) {
                    None => Some(SendMessageError::MessageTypeUnregistered),
                    Some(j) => {
                        if conn.buffers[j].outgoing.len() >= conn.buffers[j].capacity {
                            Some(SendMessageError::ChannelFull)
                        } else {
                            None
                        }
                    },
                }
            }
        };
        match refusal {
            Some(e) => Err(e),
            None => {
                let mut conn = self.connections.remove(i);
                enqueue_one(&mut conn, channel.id, message);
                self.connections.insert(i, conn);
                proof {
                    let s = old(self).connections@;
                    assert(self.connections@ =~= s.update(i as int, self.connections@[i as int]));
                    assert forall|k: int, l: int|
                        0 <= k < l < self.connections@.len() implies self.connections@[k].handle
                        != self.connections@[l].handle by {
                        assert(self.connections@[k].handle == s[k].handle);
                        assert(self.connections@[l].handle == s[l].handle);
                    }
                    assert forall|k: int|
                        0 <= k < self.connections@.len() implies (#[trigger] self.connections@[k])
                        .wf() by {
                        if k != i {
                            assert(self.connections@[k] == s[k]);
                        }
                    }
                }
                Ok(())
            },
        }
    }

    /// Why a broadcast through this adapter would fail, if it would: a peer
    /// without the channel outranks a peer whose lane is full.
    pub open spec fn broadcast_refusal(self, chan: u8) -> Option<SendMessageError> {
        if exists|i: int|
            0 <= i < self.connections@.len() && #[trigger] conn_refusal(
                self.connections@[i],
                chan,
            ) == Some(SendMessageError::MessageTypeUnregistered) {
            Some(SendMessageError::MessageTypeUnregistered)
        } else if exists|i: int|
            0 <= i < self.connections@.len() && #[trigger] conn_refusal(
                self.connections@[i],
                chan,
            ) == Some(SendMessageError::ChannelFull) {
            Some(SendMessageError::ChannelFull)
        } else {
            None
        }
    }

    /// Reports, without changing anything, why a broadcast on `channel`
    /// would fail.
    pub fn check_broadcast(&self, channel: &MessageChannelID) -> (r: Option<SendMessageError>)
        requires
            self.wf(),
        ensures
            r == self.broadcast_refusal(channel.id),
    {
        let mut any_missing: bool = false;
        let mut any_full: bool = false;
        let mut i: usize = 0;
        while i < self.connections.len()
            invariant
                self.wf(),
                i <= self.connections@.len(),
                any_missing == exists|k: int|
                    0 <= k < i && #[trigger] conn_refusal(self.connections@[k], channel.id)
                        == Some(SendMessageError::MessageTypeUnregistered),
                any_full == exists|k: int|
                    0 <= k < i && #[trigger] conn_refusal(self.connections@[k], channel.id)
                        == Some(SendMessageError::ChannelFull),
            decreases self.connections@.len() - i,
        {
            let conn = &self.connections[i];
            let ref_i: Option<SendMessageError> = if !conn.has_mux {
                Some(SendMessageError::MessageTypeUnregistered)
            } else {
                match conn.find_buffer(channel.id) {
                    None => Some(SendMessageError::MessageTypeUnregistered),
                    Some(j) => {
                        if conn.buffers[j].outgoing.len() >= conn.buffers[j].capacity {
                            Some(SendMessageError::ChannelFull)
                        } else {
                            None
                        }
                    },
                }
            };
            proof {
                assert(ref_i == conn_refusal(self.connections@[i as int], channel.id));
            }
            if matches!(ref_i, Some(SendMessageError::MessageTypeUnregistered)) {
                any_missing = true;
            }
            if matches!(ref_i, Some(SendMessageError::ChannelFull)) {
                any_full = true;
            }
            i += 1;
        }
        if any_missing {
            Some(SendMessageError::MessageTypeUnregistered)
        } else if any_full {
            Some(SendMessageError::ChannelFull)
        } else {
            None
        }
    }

    /// Appends `message` to every peer's outbound queue for `channel`. The
    /// caller has already checked that every peer accepts it.
    pub fn enqueue_all(&mut self, message: &Vec<u8>, channel: &MessageChannelID)
        requires
            old(self).wf(),
            old(self).broadcast_refusal(channel.id) is None,
        ensures
            final(self).wf(),
            final(self).connections@.len() == old(self).connections@.len(),
            forall|k: int|
                0 <= k < old(self).connections@.len() ==> conn_enqueued(
                    old(self).connections@[k],
                    final(self).connections@[k],
                    channel.id,
                    message@,
                ),
            final(self).registry == old(self).registry,
            final(self).builder_set == old(self).builder_set,
            final(self).pending_accepts == old(self).pending_accepts,
            final(self).connection_sequence == old(self).connection_sequence,
            final(self).endpoints == old(self).endpoints,
            final(self).active == old(self).active,
    {
        let n = self.connections.len();
        let mut i: usize = 0;
        while i < n
            invariant
                n == old(self).connections@.len(),
                i <= n,
                self.connections@.len() == n,
                old(self).wf(),
                old(self).broadcast_refusal(channel.id) is None,
                forall|k: int|
                    i <= k < n ==> self.connections@[k] == old(self).connections@[k],
                forall|k: int|
                    0 <= k < i ==> conn_enqueued(
                        old(self).connections@[k],
                        self.connections@[k],
                        channel.id,
                        message@,
                    ),
                self.registry == old(self).registry,
                self.builder_set == old(self).builder_set,
                self.pending_accepts == old(self).pending_accepts,
                self.connection_sequence == old(self).connection_sequence,
                self.endpoints == old(self).endpoints,
                self.active == old(self).active,
            decreases n - i,
        {
            proof {
                let c = old(self).connections@[i as int];
                if conn_refusal(c, channel.id) == Some(SendMessageError::MessageTypeUnregistered) {
                    assert(false);
                }
                if conn_refusal(c, channel.id) == Some(SendMessageError::ChannelFull) {
                    assert(false);
                }
                assert(conn_refusal(c, channel.id) is None);
            }
            let mut conn = self.connections.remove(i);
            enqueue_one(&mut conn, channel.id, message);
            self.connections.insert(i, conn);
            proof {
                let prev = old(self).connections@.map_values(|c: Connection| c);
                assert(self.connections@.len() == n);
            }
            i += 1;
        }
        proof {
            assert forall|k: int, l: int|
                0 <= k < l < self.connections@.len() implies self.connections@[k].handle != self
                .connections@[l].handle by {
                assert(conn_enqueued(
                    old(self).connections@[k],
                    self.connections@[k],
                    channel.id,
                    message@,
                ));
                assert(conn_enqueued(
                    old(self).connections@[l],
                    self.connections@[l],
                    channel.id,
                    message@,
                ));
            }
            assert forall|k: int|
                0 <= k < self.connections@.len() implies (#[trigger] self.connections@[k]).wf()
                by {
                assert(conn_enqueued(
                    old(self).connections@[k],
                    self.connections@[k],
                    channel.id,
                    message@,
                ));
            }
        }
    }

    /// Moves every buffered inbound message of `channel` out of every peer,
    /// in table order, each paired with its peer's identity.
    pub fn drain_channel(&mut self, channel: &MessageChannelID) -> (r: Vec<
        (ConnectionHandle, Vec<u8>),
    >)
        requires
            old(self).wf(),
        ensures
            final(self).wf(),
            r@ == collected(old(self).connections@, channel.id),
            final(self).connections@.len() == old(self).connections@.len(),
            forall|k: int|
                0 <= k < old(self).connections@.len() ==> conn_drained(
                    old(self).connections@[k],
                    final(self).connections@[k],
                    channel.id,
                ),
            final(self).registry == old(self).registry,
            final(self).builder_set == old(self).builder_set,
            final(self).pending_accepts == old(self).pending_accepts,
            final(self).connection_sequence == old(self).connection_sequence,
            final(self).endpoints == old(self).endpoints,
            final(self).active == old(self).active,
    {
        let mut out: Vec<(ConnectionHandle, Vec<u8>)> = Vec::new();
        let n = self.connections.len();
        let mut i: usize = 0;
        while i < n
            invariant
                n == old(self).connections@.len(),
                i <= n,
                self.connections@.len() == n,
                old(self).wf(),
                forall|k: int|
                    i <= k < n ==> self.connections@[k] == old(self).connections@[k],
                forall|k: int|
                    0 <= k < i ==> conn_drained(
                        old(self).connections@[k],
                        self.connections@[k],
                        channel.id,
                    ),
                forall|k: int|
                    0 <= k < i ==> (#[trigger] self.connections@[k]).wf(),
                out@ == collected(old(self).connections@.take(i as int), channel.id),
                self.registry == old(self).registry,
                self.builder_set == old(self).builder_set,
                self.pending_accepts == old(self).pending_accepts,
                self.connection_sequence == old(self).connection_sequence,
                self.endpoints == old(self).endpoints,
                self.active == old(self).active,
            decreases n - i,
        {
            let mut conn = self.connections.remove(i);
            drain_one(&mut conn, channel.id, &mut out);
            self.connections.insert(i, conn);
            proof {
                let s = old(self).connections@;
                assert(s.take(i + 1).drop_last() =~= s.take(i as int));
                assert(s.take(i + 1).last() == s[i as int]);
                assert(collected(s.take(i + 1), channel.id) == collected(
                    s.take(i as int),
                    channel.id,
                ) + conn_collected(s[i as int], channel.id));
            }
            i += 1;
        }
        proof {
            assert(old(self).connections@.take(n as int) =~= old(self).connections@);
            assert forall|k: int, l: int|
                0 <= k < l < self.connections@.len() implies self.connections@[k].handle != self
                .connections@[l].handle by {
                assert(conn_drained(
                    old(self).connections@[k],
                    self.connections@[k],
                    channel.id,
                ));
                assert(conn_drained(
                    old(self).connections@[l],
                    self.connections@[l],
                    channel.id,
                ));
            }
        }
        out
    }
}

/// Every peer has a multiplexer and a lane for channel `chan`.
pub open spec fn all_have_channel(conns: Seq<Connection>, chan: u8) -> bool {
    forall|i: int|
        0 <= i < conns.len() ==> (#[trigger] conns[i]).has_mux && conns[i].has_channel(chan)
}

impl Adapter {
    /// Whether every peer has a lane for `channel` behind a multiplexer.
    pub fn check_all_have(&self, channel: &MessageChannelID) -> (r: bool)
        ensures
            r == all_have_channel(self.connections@, channel.id),
    {
        let mut i: usize = 0;
        while i < self.connections.len()
            invariant
                i <= self.connections@.len(),
                forall|k: int|
                    0 <= k < i ==> (#[trigger] self.connections@[k]).has_mux
                        && self.connections@[k].has_channel(channel.id),
            decreases self.connections@.len() - i,
        {
            let conn = &self.connections[i];
            if !conn.has_mux {
                return false;
            }
            if conn.find_buffer(channel.id).is_none() {
                return false;
            }
            i += 1;
        }
        true
    }
}

/// `c_new` is `c_old` with `msg` appended to the inbound queue of channel
/// `chan`, everything else unchanged.
pub open spec fn conn_received(c_old: Connection, c_new: Connection, chan: u8, msg: Vec<u8>) -> bool {
    let j = c_old.buffer_index_of(chan);
    &&& c_new.handle == c_old.handle
    &&& c_new.live == c_old.live
    &&& c_new.has_mux == c_old.has_mux
    &&& c_new.raw_inbound == c_old.raw_inbound
    &&& c_new.buffers@.len() == c_old.buffers@.len()
    &&& forall|l: int|
        0 <= l < c_old.buffers@.len() && l != j ==> c_new.buffers@[l] == c_old.buffers@[l]
    &&& c_new.buffers@[j].id == c_old.buffers@[j].id
    &&& c_new.buffers@[j].capacity == c_old.buffers@[j].capacity
    &&& c_new.buffers@[j].outgoing == c_old.buffers@[j].outgoing
    &&& c_new.buffers@[j].incoming@ == c_old.buffers@[j].incoming@.push(msg)
}

impl Adapter {
    /// Marks the adapter active with the endpoints and maximum packet size
    /// its backend was set up with.
    pub fn setup(&mut self, endpoints: Vec<SocketAddress>, max_packet_size: usize)
        requires
            old(self).wf(),
        ensures
            final(self).wf(),
            final(self).active,
            final(self).endpoints == endpoints,
            final(self).max_packet_size == max_packet_size,
            final(self).registry == old(self).registry,
            final(self).builder_set == old(self).builder_set,
            final(self).connections == old(self).connections,
            final(self).pending_accepts == old(self).pending_accepts,
            final(self).connection_sequence == old(self).connection_sequence,
    {
        self.endpoints = endpoints;
        self.max_packet_size = max_packet_size;
        self.active = true;
    }

    /// The backend hands one already-demultiplexed inbound message to the
    /// peer's lane for `channel`. Reports whether the peer and the lane
    /// exist; when they do not, nothing changes.
    pub fn deliver_message(
        &mut self,
        h: &ConnectionHandle,
        channel: &MessageChannelID,
        bytes: Vec<u8>,
    ) -> (r: bool)
        requires
            old(self).wf(),
        ensures
            final(self).wf(),
            r == (old(self).contains_handle(*h) && old(self).connections@[old(self).conn_index_of(
                *h,
            )].has_channel(channel.id)),
            !r ==> *final(self) == *old(self),
            r ==> {
                let i = old(self).conn_index_of(*h);
                &&& final(self).connections@.len() == old(self).connections@.len()
                &&& (forall|k: int|
                    0 <= k < old(self).connections@.len() && k != i ==> final(self).connections@[k]
                        == old(self).connections@[k])
                &&& conn_received(
                    old(self).connections@[i],
                    final(self).connections@[i],
                    channel.id,
                    bytes,
                )
                &&& final(self).registry == old(self).registry
                &&& final(self).builder_set == old(self).builder_set
                &&& final(self).pending_accepts == old(self).pending_accepts
                &&& final(self).connection_sequence == old(self).connection_sequence
                &&& final(self).endpoints == old(self).endpoints
                &&& final(self).active == old(self).active
            },
    {
        let i = match self.find_connection(h) {
            Some(i) => i,
            None => {
                return false;
            },
        };
        let j = match self.connections[i].find_buffer(channel.id) {
            Some(j) => j,
            None => {
                return false;
            },
        };
        let mut conn = self.connections.remove(i);
        let mut buf = conn.buffers.remove(j);
        buf.incoming.push(bytes);
        conn.buffers.insert(j, buf);
        self.connections.insert(i, conn);
        proof {
            let s = old(self).connections@;
            let bs = s[i as int].buffers@;
            assert(self.connections@ =~= s.update(i as int, self.connections@[i as int]));
            assert(self.connections@[i as int].buffers@ =~= bs.update(
                j as int,
                self.connections@[i as int].buffers@[j as int],
            ));
            assert forall|k: int, l: int|
                0 <= k < l < self.connections@.len() implies self.connections@[k].handle != self
                .connections@[l].handle by {
                assert(self.connections@[k].handle == s[k].handle);
                assert(self.connections@[l].handle == s[l].handle);
            }
            assert forall|k: int|
                0 <= k < self.connections@.len() implies (#[trigger] self.connections@[k]).wf()
                by {
                if k != i {
                    assert(self.connections@[k] == s[k]);
                }
            }
        }
        true
    }

    /// The backend hands one raw inbound item — a datagram or a
    /// receive-level failure — to the peer named `h`, for the pump to
    /// dispatch. Reports whether the peer exists; when it does not, nothing
    /// changes.
    pub fn deliver_raw(&mut self, h: &ConnectionHandle, raw: RawInbound) -> (r: bool)
        requires
            old(self).wf(),
        ensures
            final(self).wf(),
            r == old(self).contains_handle(*h),
            !r ==> *final(self) == *old(self),
            r ==> {
                let i = old(self).conn_index_of(*h);
                &&& final(self).connections@.len() == old(self).connections@.len()
                &&& (forall|k: int|
                    0 <= k < old(self).connections@.len() && k != i ==> final(self).connections@[k]
                        == old(self).connections@[k])
                &&& final(self).connections@[i].handle == old(self).connections@[i].handle
                &&& final(self).connections@[i].live == old(self).connections@[i].live
                &&& final(self).connections@[i].has_mux == old(self).connections@[i].has_mux
                &&& final(self).connections@[i].buffers == old(self).connections@[i].buffers
                &&& final(self).connections@[i].raw_inbound@ == old(self).connections@[i].raw_inbound@.push(raw)
                &&& final(self).registry == old(self).registry
                &&& final(self).builder_set == old(self).builder_set
                &&& final(self).pending_accepts == old(self).pending_accepts
                &&& final(self).connection_sequence == old(self).connection_sequence
                &&& final(self).endpoints == old(self).endpoints
                &&& final(self).active == old(self).active
            },
    {
        let i = match self.find_connection(h) {
            Some(i) => i,
            None => {
                return false;
            },
        };
        let mut conn = self.connections.remove(i);
        conn.raw_inbound.push(raw);
        self.connections.insert(i, conn);
        proof {
            let s = old(self).connections@;
            assert(self.connections@ =~= s.update(i as int, self.connections@[i as int]));
            assert forall|k: int, l: int|
                0 <= k < l < self.connections@.len() implies self.connections@[k].handle != self
                .connections@[l].handle by {
                assert(self.connections@[k].handle == s[k].handle);
                assert(self.connections@[l].handle == s[l].handle);
            }
            assert forall|k: int|
                0 <= k < self.connections@.len() implies (#[trigger] self.connections@[k]).wf()
                by {
                if k != i {
                    assert(self.connections@[k] == s[k]);
                }
            }
        }
        true
    }

    /// The backend drains the outbound queue of `channel` for the peer named
    /// `h`, to transmit its messages in order. Yields nothing, changing
    /// nothing, when the peer or the lane does not exist.
    pub fn take_outgoing(&mut self, h: &ConnectionHandle, channel: &MessageChannelID) -> (r: Option<
        Vec<Vec<u8>>,
    >)
        requires
            old(self).wf(),
        ensures
            final(self).wf(),
            r is Some == (old(self).contains_handle(*h) && old(self).connections@[old(self).conn_index_of(*h)].has_channel(channel.id)),
            r is None ==> *final(self) == *old(self),
            r matches Some(msgs) ==> {
                let i = old(self).conn_index_of(*h);
                let j = old(self).connections@[i].buffer_index_of(channel.id);
                &&& msgs == old(self).connections@[i].buffers@[j].outgoing
                &&& final(self).connections@.len() == old(self).connections@.len()
                &&& (forall|k: int|
                    0 <= k < old(self).connections@.len() && k != i ==> final(self).connections@[k]
                        == old(self).connections@[k])
                &&& final(self).connections@[i].handle == old(self).connections@[i].handle
                &&& final(self).connections@[i].live == old(self).connections@[i].live
                &&& final(self).connections@[i].has_mux == old(self).connections@[i].has_mux
                &&& final(self).connections@[i].raw_inbound == old(self).connections@[i].raw_inbound
                &&& final(self).connections@[i].buffers@.len() == old(self).connections@[i].buffers@.len()
                &&& (forall|l: int|
                    0 <= l < old(self).connections@[i].buffers@.len() && l != j ==> final(self).connections@[i].buffers@[l] == old(self).connections@[i].buffers@[l])
                &&& final(self).connections@[i].buffers@[j].id == old(self).connections@[i].buffers@[j].id
                &&& final(self).connections@[i].buffers@[j].capacity == old(self).connections@[i].buffers@[j].capacity
                &&& final(self).connections@[i].buffers@[j].incoming == old(self).connections@[i].buffers@[j].incoming
                &&& final(self).connections@[i].buffers@[j].outgoing@.len() == 0
                &&& final(self).registry == old(self).registry
                &&& final(self).builder_set == old(self).builder_set
                &&& final(self).pending_accepts == old(self).pending_accepts
                &&& final(self).connection_sequence == old(self).connection_sequence
                &&& final(self).endpoints == old(self).endpoints
                &&& final(self).active == old(self).active
            },
    {
        let i = match self.find_connection(h) {
            Some(i) => i,
            None => {
                return None;
            },
        };
        let j = match self.connections[i].find_buffer(channel.id) {
            Some(j) => j,
            None => {
                return None;
            },
        };
        let mut conn = self.connections.remove(i);
        let mut buf = conn.buffers.remove(j);
        let mut msgs: Vec<Vec<u8>> = Vec::new();
        core::mem::swap(&mut msgs, &mut buf.outgoing);
        conn.buffers.insert(j, buf);
        self.connections.insert(i, conn);
        proof {
            let s = old(self).connections@;
            let bs = s[i as int].buffers@;
            assert(self.connections@ =~= s.update(i as int, self.connections@[i as int]));
            assert(self.connections@[i as int].buffers@ =~= bs.update(
                j as int,
                self.connections@[i as int].buffers@[j as int],
            ));
            assert forall|k: int, l: int|
                0 <= k < l < self.connections@.len() implies self.connections@[k].handle != self
                .connections@[l].handle by {
                assert(self.connections@[k].handle == s[k].handle);
                assert(self.connections@[l].handle == s[l].handle);
            }
            assert forall|k: int|
                0 <= k < self.connections@.len() implies (#[trigger] self.connections@[k]).wf()
                by {
                if k != i {
                    assert(self.connections@[k] == s[k]);
                }
            }
        }
        Some(msgs)
    }
}

} // verus!
