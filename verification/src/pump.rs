//! The per-tick packet pump. Once per host tick it admits the remote
//! connections the backend's acceptor queued since the last tick — assigning
//! each the next value of the monotonically increasing handle counter — and
//! then dispatches every raw inbound item buffered on every remote
//! connection into one ordered event sequence: an empty datagram is a
//! liveness heartbeat and is discarded; a datagram on a connection with a
//! channel multiplexer is dispatched to the lane its leading byte names, or
//! reported as a dispatch error when no such lane exists; a datagram on a
//! connection without a multiplexer surfaces directly as a `Packet` event;
//! a receive-level failure surfaces as an `Error` event. Events for one
//! connection keep packet arrival order; no order is defined across
//! connections.

use vstd::prelude::*;

use crate::adapter::{Adapter, Connection};
use crate::frame::decode_frame;
use crate::resource::NetworkResource;
use crate::shared::{ConnectionHandle, NetworkError, NetworkEvent, RawInbound};

verus! {

/// The views of a queue of byte messages.
pub open spec fn views_of(s: Seq<Vec<u8>>) -> Seq<Seq<u8>> {
    s.map_values(|v: Vec<u8>| v@)
}

/// The events one raw inbound item produces on connection `c`: a transport
/// failure reports an error; an empty datagram is discarded; a multiplexed
/// datagram produces an event only when its leading byte names no lane; a
/// bare datagram surfaces as a packet.
pub open spec fn step_events(c: Connection, raw: RawInbound) -> Seq<NetworkEvent> {
    match raw {
        RawInbound::TransportFailure => seq![
            NetworkEvent::Error(c.handle, NetworkError::Transport),
        ],
        RawInbound::Payload(v) => {
            if v@.len() == 0 {
                Seq::empty()
            } else if c.has_mux {
                if c.has_channel(v@[0]) {
                    Seq::empty()
                } else {
                    seq![NetworkEvent::Error(c.handle, NetworkError::ChannelDispatch)]
                }
            } else {
                seq![NetworkEvent::Packet(c.handle, v)]
            }
        },
    }
}

/// The events a queue of raw inbound items produces on connection `c`, in
/// arrival order.
pub open spec fn raw_events(c: Connection, raws: Seq<RawInbound>) -> Seq<NetworkEvent>
    decreases raws.len(),
{
    if raws.len() == 0 {
        Seq::empty()
    } else {
        raw_events(c, raws.drop_last()) + step_events(c, raws.last())
    }
}

/// The payload one raw inbound item adds to the inbound queue of lane
/// `chan` of connection `c`: the tail of a non-empty multiplexed datagram
/// whose leading byte is `chan`.
pub open spec fn demux_step(c: Connection, chan: u8, raw: RawInbound) -> Seq<Seq<u8>> {
    match raw {
        RawInbound::TransportFailure => Seq::empty(),
        RawInbound::Payload(v) => {
            if v@.len() > 0 && c.has_mux && v@[0] == chan {
                seq![v@.skip(1)]
            } else {
                Seq::empty()
            }
        },
    }
}

/// The payloads a queue of raw inbound items adds to lane `chan` of
/// connection `c`, in arrival order.
pub open spec fn demuxed(c: Connection, chan: u8, raws: Seq<RawInbound>) -> Seq<Seq<u8>>
    decreases raws.len(),
{
    if raws.len() == 0 {
        Seq::empty()
    } else {
        demuxed(c, chan, raws.drop_last()) + demux_step(c, chan, raws.last())
    }
}

/// `c_new` is `c_old` after one pump pass: the raw queue is empty, each
/// lane's inbound queue grew by exactly the payloads demultiplexed to it,
/// and everything else stands.
pub open spec fn conn_pumped(c_old: Connection, c_new: Connection) -> bool {
    &&& c_new.handle == c_old.handle
    &&& c_new.live == c_old.live
    &&& c_new.has_mux == c_old.has_mux
    &&& c_new.raw_inbound@.len() == 0
    &&& c_new.buffers@.len() == c_old.buffers@.len()
    &&& forall|j: int|
        0 <= j < c_old.buffers@.len() ==> (#[trigger] c_new.buffers@[j]).id == c_old.buffers@[j].id
            && c_new.buffers@[j].capacity == c_old.buffers@[j].capacity && c_new.buffers@[j].outgoing
            == c_old.buffers@[j].outgoing && views_of(c_new.buffers@[j].incoming@) == views_of(
            c_old.buffers@[j].incoming@,
        ) + demuxed(c_old, c_old.buffers@[j].id, c_old.raw_inbound@)
}

/// The `Connected` events for `n` handles assigned sequentially from
/// `start`.
pub open spec fn connected_events(start: u32, n: nat) -> Seq<NetworkEvent>
    decreases n,
{
    if n == 0 {
        Seq::empty()
    } else {
        connected_events(start, (n - 1) as nat).push(
            NetworkEvent::Connected(ConnectionHandle::Naia((start + n - 1) as u32)),
        )
    }
}

/// The events a whole connection table produces, in table order.
pub open spec fn conn_events_all(conns: Seq<Connection>) -> Seq<NetworkEvent>
    decreases conns.len(),
{
    if conns.len() == 0 {
        Seq::empty()
    } else {
        conn_events_all(conns.drop_last()) + raw_events(conns.last(), conns.last().raw_inbound@)
    }
}

/// A connection the pump just admitted for adapter state `b` under handle
/// `h`: live, with lanes from the stored blueprint exactly when a channels
/// builder was stored, and nothing buffered anywhere.
pub open spec fn is_fresh_remote(c: Connection, b: Adapter, h: u32) -> bool {
    &&& c.handle == ConnectionHandle::Naia(h)
    &&& c.live
    &&& c.has_mux == b.builder_set
    &&& c.raw_inbound@.len() == 0
    &&& (b.builder_set ==> c.buffers@.len() == b.registry.entries@.len() && forall|k: int|
        0 <= k < b.registry.entries@.len() ==> (#[trigger] c.buffers@[k]).id
            == b.registry.entries@[k].id && c.buffers@[k].capacity == b.registry.entries@[k].capacity
            && c.buffers@[k].incoming@.len() == 0 && c.buffers@[k].outgoing@.len() == 0)
    &&& (!b.builder_set ==> c.buffers@.len() == 0)
}

/// Dispatches every raw inbound item of one connection, appending the
/// events it produces in arrival order.
fn pump_connection(conn: &mut Connection, events: &mut Vec<NetworkEvent>)
    requires
        old(conn).wf(),
    ensures
        final(conn).wf(),
        conn_pumped(*old(conn), *final(conn)),
        final(events)@ == old(events)@ + raw_events(*old(conn), old(conn).raw_inbound@),
{
    let ghost c0 = *old(conn);
    let mut raws: Vec<RawInbound> = Vec::new();
    core::mem::swap(&mut raws, &mut conn.raw_inbound);
    let ghost orig = raws@;
    let ghost ev0 = events@;
    let total: usize = raws.len();
    let mut t: usize = 0;
    while raws.len() > 0
        invariant
            t <= orig.len(),
            orig.len() == total,
            orig == c0.raw_inbound@,
            c0.wf(),
            raws@ == orig.skip(t as int),
            conn.wf(),
            conn.handle == c0.handle,
            conn.live == c0.live,
            conn.has_mux == c0.has_mux,
            conn.raw_inbound@.len() == 0,
            conn.buffers@.len() == c0.buffers@.len(),
            forall|j: int|
                0 <= j < c0.buffers@.len() ==> (#[trigger] conn.buffers@[j]).id
                    == c0.buffers@[j].id && conn.buffers@[j].capacity == c0.buffers@[j].capacity
                    && conn.buffers@[j].outgoing == c0.buffers@[j].outgoing && views_of(
                    conn.buffers@[j].incoming@,
                ) == views_of(c0.buffers@[j].incoming@) + demuxed(
                    c0,
                    c0.buffers@[j].id,
                    orig.take(t as int),
                ),
            events@ == ev0 + raw_events(c0, orig.take(t as int)),
        decreases raws@.len(),
    {
        let raw = raws.remove(0);
        proof {
            assert(orig.skip(t as int).remove(0) =~= orig.skip(t + 1));
            assert(raw == orig[t as int]);
            assert(orig.take(t + 1).drop_last() =~= orig.take(t as int));
            assert(orig.take(t + 1).last() == orig[t as int]);
        }
        match raw {
            RawInbound::TransportFailure => {
                events.push(NetworkEvent::Error(conn.handle, NetworkError::Transport));
                proof {
                    assert(events@ =~= ev0 + raw_events(c0, orig.take(t + 1)));
                    assert forall|j: int| 0 <= j < c0.buffers@.len() implies views_of(
                        (#[trigger] conn.buffers@[j]).incoming@,
                    ) == views_of(c0.buffers@[j].incoming@) + demuxed(
                        c0,
                        c0.buffers@[j].id,
                        orig.take(t + 1),
                    ) by {
                        assert(demux_step(c0, c0.buffers@[j].id, orig[t as int]) =~= Seq::<
                            Seq<u8>,
                        >::empty());
                        assert(demuxed(c0, c0.buffers@[j].id, orig.take(t + 1)) =~= demuxed(
                            c0,
                            c0.buffers@[j].id,
                            orig.take(t as int),
                        ));
                    }
                }
            },
            RawInbound::Payload(v) => {
                if v.len() == 0 {
                    proof {
                        assert(step_events(c0, orig[t as int]) =~= Seq::<NetworkEvent>::empty());
                        assert(events@ =~= ev0 + raw_events(c0, orig.take(t + 1)));
                        assert forall|j: int| 0 <= j < c0.buffers@.len() implies views_of(
                            (#[trigger] conn.buffers@[j]).incoming@,
                        ) == views_of(c0.buffers@[j].incoming@) + demuxed(
                            c0,
                            c0.buffers@[j].id,
                            orig.take(t + 1),
                        ) by {
                            assert(demux_step(c0, c0.buffers@[j].id, orig[t as int]) =~= Seq::<
                                Seq<u8>,
                            >::empty());
                            assert(demuxed(c0, c0.buffers@[j].id, orig.take(t + 1)) =~= demuxed(
                                c0,
                                c0.buffers@[j].id,
                                orig.take(t as int),
                            ));
                        }
                    }
                } else if conn.has_mux {
                    match decode_frame(&v) {
                        Some((id, payload)) => {
                            match conn.find_buffer(id) {
                                Some(j) => {
                                    let ghost before = conn.buffers@;
                                    let mut buf = conn.buffers.remove(j);
                                    buf.incoming.push(payload);
                                    conn.buffers.insert(j, buf);
                                    proof {
                                        assert(conn.buffers@ =~= before.update(
                                            j as int,
                                            conn.buffers@[j as int],
                                        ));
                                        assert(c0.buffers@[j as int].id == id);
                                        assert(c0.has_channel(id));
                                        assert(step_events(c0, orig[t as int]) =~= Seq::<
                                            NetworkEvent,
                                        >::empty());
                                        assert(events@ =~= ev0 + raw_events(c0, orig.take(t + 1)));
                                        assert forall|l: int|
                                            0 <= l < c0.buffers@.len() implies views_of(
                                            (#[trigger] conn.buffers@[l]).incoming@,
                                        ) == views_of(c0.buffers@[l].incoming@) + demuxed(
                                            c0,
                                            c0.buffers@[l].id,
                                            orig.take(t + 1),
                                        ) by {
                                            if l == j {
                                                assert(demux_step(
                                                    c0,
                                                    c0.buffers@[l].id,
                                                    orig[t as int],
                                                ) =~= seq![v@.skip(1)]);
                                                assert(views_of(
                                                    before[l].incoming@.push(payload),
                                                ) =~= views_of(before[l].incoming@).push(
                                                    payload@,
                                                ));
                                                assert(views_of(conn.buffers@[l].incoming@)
                                                    =~= views_of(c0.buffers@[l].incoming@)
                                                    + demuxed(
                                                    c0,
                                                    c0.buffers@[l].id,
                                                    orig.take(t + 1),
                                                ));
                                            } else {
                                                assert(c0.buffers@[l].id != id);
                                                assert(demux_step(
                                                    c0,
                                                    c0.buffers@[l].id,
                                                    orig[t as int],
                                                ) =~= Seq::<Seq<u8>>::empty());
                                                assert(demuxed(
                                                    c0,
                                                    c0.buffers@[l].id,
                                                    orig.take(t + 1),
                                                ) =~= demuxed(
                                                    c0,
                                                    c0.buffers@[l].id,
                                                    orig.take(t as int),
                                                ));
                                            }
                                        }
                                    }
                                },
                                None => {
                                    events.push(
                                        NetworkEvent::Error(
                                            conn.handle,
                                            NetworkError::ChannelDispatch,
                                        ),
                                    );
                                    proof {
                                        assert forall|l: int|
                                            0 <= l < c0.buffers@.len() implies c0.buffers@[l].id
                                            != id by {
                                            assert(conn.buffers@[l].id == c0.buffers@[l].id);
                                        }
                                        assert(!c0.has_channel(id));
                                        assert(events@ =~= ev0 + raw_events(c0, orig.take(t + 1)));
                                        assert forall|l: int|
                                            0 <= l < c0.buffers@.len() implies views_of(
                                            (#[trigger] conn.buffers@[l]).incoming@,
                                        ) == views_of(c0.buffers@[l].incoming@) + demuxed(
                                            c0,
                                            c0.buffers@[l].id,
                                            orig.take(t + 1),
                                        ) by {
                                            assert(demux_step(c0, c0.buffers@[l].id, orig[t as int])
                                                =~= Seq::<Seq<u8>>::empty());
                                            assert(demuxed(c0, c0.buffers@[l].id, orig.take(t + 1))
                                                =~= demuxed(
                                                c0,
                                                c0.buffers@[l].id,
                                                orig.take(t as int),
                                            ));
                                        }
                                    }
                                },
                            }
                        },
                        None => {
                            proof {
                                assert(false);
                            }
                        },
                    }
                } else {
                    events.push(NetworkEvent::Packet(conn.handle, v));
                    proof {
                        assert(events@ =~= ev0 + raw_events(c0, orig.take(t + 1)));
                        assert forall|j: int| 0 <= j < c0.buffers@.len() implies views_of(
                            (#[trigger] conn.buffers@[j]).incoming@,
                        ) == views_of(c0.buffers@[j].incoming@) + demuxed(
                            c0,
                            c0.buffers@[j].id,
                            orig.take(t + 1),
                        ) by {
                            assert(demux_step(c0, c0.buffers@[j].id, orig[t as int]) =~= Seq::<
                                Seq<u8>,
                            >::empty());
                            assert(demuxed(c0, c0.buffers@[j].id, orig.take(t + 1)) =~= demuxed(
                                c0,
                                c0.buffers@[j].id,
                                orig.take(t as int),
                            ));
                        }
                    }
                }
            },
        }
        t += 1;
    }
    proof {
        assert(orig.take(orig.len() as int) =~= orig);
    }
}

/// The events of a concatenation of connection tables are the
/// concatenation of their events.
proof fn lemma_conn_events_all_concat(s: Seq<Connection>, t: Seq<Connection>)
    ensures
        conn_events_all(s + t) == conn_events_all(s) + conn_events_all(t),
    decreases t.len(),
{
    if t.len() == 0 {
        assert(s + t =~= s);
        assert(conn_events_all(s) + conn_events_all(t) =~= conn_events_all(s));
    } else {
        assert((s + t).drop_last() =~= s + t.drop_last());
        lemma_conn_events_all_concat(s, t.drop_last());
        assert((s + t).last() == t.last());
        assert(conn_events_all(s) + (conn_events_all(t.drop_last()) + raw_events(
            t.last(),
            t.last().raw_inbound@,
        )) =~= (conn_events_all(s) + conn_events_all(t.drop_last())) + raw_events(
            t.last(),
            t.last().raw_inbound@,
        ));
    }
}

/// Connections with nothing buffered produce no events.
proof fn lemma_conn_events_all_silent(t: Seq<Connection>)
    requires
        forall|i: int| 0 <= i < t.len() ==> (#[trigger] t[i]).raw_inbound@.len() == 0,
    ensures
        conn_events_all(t) == Seq::<NetworkEvent>::empty(),
    decreases t.len(),
{
    if t.len() > 0 {
        lemma_conn_events_all_silent(t.drop_last());
        assert(t.last().raw_inbound@.len() == 0);
        assert(conn_events_all(t) =~= Seq::<NetworkEvent>::empty());
    }
}

/// An empty inbound datagram is a liveness heartbeat: removing it from a
/// connection's raw queue changes neither the events the pump produces nor
/// what any lane receives — it is discarded without a trace, whatever the
/// connection's state.
pub proof fn lemma_heartbeat_discarded(c: Connection, raws: Seq<RawInbound>, i: int, chan: u8)
    requires
        0 <= i < raws.len(),
        raws[i] matches RawInbound::Payload(v) && v@.len() == 0,
    ensures
        raw_events(c, raws) == raw_events(c, raws.remove(i)),
        demuxed(c, chan, raws) == demuxed(c, chan, raws.remove(i)),
    decreases raws.len(),
{
    if i == raws.len() - 1 {
        assert(raws.remove(i) =~= raws.drop_last());
        assert(step_events(c, raws.last()) =~= Seq::<NetworkEvent>::empty());
        assert(raw_events(c, raws.drop_last()) + Seq::<NetworkEvent>::empty() =~= raw_events(
            c,
            raws.drop_last(),
        ));
        assert(demux_step(c, chan, raws.last()) =~= Seq::<Seq<u8>>::empty());
        assert(demuxed(c, chan, raws.drop_last()) + Seq::<Seq<u8>>::empty() =~= demuxed(
            c,
            chan,
            raws.drop_last(),
        ));
    } else {
        assert(raws.remove(i).drop_last() =~= raws.drop_last().remove(i));
        assert(raws.drop_last()[i] == raws[i]);
        lemma_heartbeat_discarded(c, raws.drop_last(), i, chan);
        assert(raws.remove(i).last() == raws.last());
    }
}

/// The pump side of the message round trip: a datagram framed for lane
/// `chan` of a connection that has that lane is dispatched silently — no
/// event — and adds exactly the framed payload to that lane and nothing to
/// any other, so the peer's later drain of the lane yields the payload
/// byte for byte.
pub proof fn lemma_framed_delivery(c: Connection, raw: RawInbound, chan: u8, payload: Seq<u8>)
    requires
        c.has_mux,
        c.has_channel(chan),
        raw matches RawInbound::Payload(v) && v@ == crate::frame::frame_spec(chan, payload),
    ensures
        step_events(c, raw) == Seq::<NetworkEvent>::empty(),
        demux_step(c, chan, raw) == seq![payload],
        forall|other: u8| other != chan ==> demux_step(c, other, raw) == Seq::<Seq<u8>>::empty(),
{
    crate::frame::lemma_frame_round_trip(chan, payload);
    assert(step_events(c, raw) =~= Seq::<NetworkEvent>::empty());
    assert(demux_step(c, chan, raw) =~= seq![payload]);
    assert forall|other: u8| other != chan implies demux_step(c, other, raw) == Seq::<
        Seq<u8>,
    >::empty() by {
        assert(demux_step(c, other, raw) =~= Seq::<Seq<u8>>::empty());
    }
}

/// Which peer an event concerns.
pub open spec fn event_handle(e: NetworkEvent) -> ConnectionHandle {
    match e {
        NetworkEvent::Connected(h) => h,
        NetworkEvent::Packet(h, _) => h,
        NetworkEvent::Error(h, _) => h,
    }
}

/// Every event one connection's raw queue produces concerns that
/// connection.
proof fn lemma_raw_events_handles(c: Connection, raws: Seq<RawInbound>)
    ensures
        forall|i: int|
            0 <= i < raw_events(c, raws).len() ==> event_handle(#[trigger] raw_events(c, raws)[i])
                == c.handle,
    decreases raws.len(),
{
    if raws.len() > 0 {
        lemma_raw_events_handles(c, raws.drop_last());
        assert forall|i: int|
            0 <= i < raw_events(c, raws).len() implies event_handle(
            #[trigger] raw_events(c, raws)[i],
        ) == c.handle by {
            if i < raw_events(c, raws.drop_last()).len() {
                assert(raw_events(c, raws)[i] == raw_events(c, raws.drop_last())[i]);
            } else {
                assert(raw_events(c, raws)[i] == step_events(c, raws.last())[i - raw_events(
                    c,
                    raws.drop_last(),
                ).len()]);
            }
        }
    }
}

/// Every event a connection table produces concerns one of its
/// connections.
proof fn lemma_conn_events_handles(conns: Seq<Connection>)
    ensures
        forall|i: int|
            0 <= i < conn_events_all(conns).len() ==> exists|k: int|
                0 <= k < conns.len() && event_handle(#[trigger] conn_events_all(conns)[i])
                    == conns[k].handle,
    decreases conns.len(),
{
    if conns.len() > 0 {
        lemma_conn_events_handles(conns.drop_last());
        lemma_raw_events_handles(conns.last(), conns.last().raw_inbound@);
        assert forall|i: int| 0 <= i < conn_events_all(conns).len() implies exists|k: int|
            0 <= k < conns.len() && event_handle(#[trigger] conn_events_all(conns)[i])
                == conns[k].handle by {
            let pre = conn_events_all(conns.drop_last());
            if i < pre.len() {
                assert(conn_events_all(conns)[i] == pre[i]);
                let k = choose|k: int|
                    0 <= k < conns.drop_last().len() && event_handle(pre[i])
                        == conns.drop_last()[k].handle;
                assert(conns.drop_last()[k] == conns[k]);
                assert(event_handle(conn_events_all(conns)[i]) == conns[k].handle);
            } else {
                let tail = raw_events(conns.last(), conns.last().raw_inbound@);
                assert(conn_events_all(conns)[i] == tail[i - pre.len()]);
                assert(event_handle(tail[i - pre.len()]) == conns.last().handle);
                assert(conns[conns.len() - 1] == conns.last());
                assert(event_handle(conn_events_all(conns)[i]) == conns[conns.len() - 1].handle);
            }
        }
    }
}

/// The index form of `connected_events`: the i-th admission event connects
/// the handle `start + i`.
proof fn lemma_connected_events_index(start: u32, n: nat, i: int)
    requires
        0 <= i < n,
        start + n <= u32::MAX + 1,
    ensures
        connected_events(start, n).len() == n,
        connected_events(start, n)[i] == NetworkEvent::Connected(
            ConnectionHandle::Naia((start + i) as u32),
        ),
    decreases n,
{
    lemma_connected_events_len(start, n);
    lemma_connected_events_len(start, (n - 1) as nat);
    if i < n - 1 {
        lemma_connected_events_index(start, (n - 1) as nat, i);
    }
}

/// `connected_events` emits one event per admitted connection.
proof fn lemma_connected_events_len(start: u32, n: nat)
    ensures
        connected_events(start, n).len() == n,
    decreases n,
{
    if n > 0 {
        lemma_connected_events_len(start, (n - 1) as nat);
    }
}

/// Sequential remote handle assignment: admitting the pending connections
/// of adapter state `b` in one tick produces, first, one `Connected` event
/// per admitted connection with strictly increasing, pairwise distinct
/// handles counted up from the assignment counter — and no later event of
/// that tick concerns any of the newly assigned handles, so each
/// connection's `Connected` event precedes any `Packet` or `Error` event
/// for its handle.
pub proof fn lemma_sequential_handle_assignment(b: Adapter, events: Seq<NetworkEvent>)
    requires
        b.wf(),
        b.connection_sequence + b.pending_accepts <= u32::MAX,
        events == connected_events(b.connection_sequence, b.pending_accepts as nat)
            + conn_events_all(b.connections@),
    ensures
        events.len() >= b.pending_accepts,
        forall|i: int|
            0 <= i < b.pending_accepts ==> events[i] == NetworkEvent::Connected(
                ConnectionHandle::Naia((b.connection_sequence + i) as u32),
            ),
        forall|i: int, j: int|
            0 <= i < j < b.pending_accepts ==> event_handle(events[i]) != event_handle(events[j]),
        forall|i: int, h: u32|
            b.pending_accepts <= i < events.len() && b.connection_sequence <= h ==> event_handle(
                events[i],
            ) != ConnectionHandle::Naia(h),
{
    let n = b.pending_accepts as nat;
    let start = b.connection_sequence;
    if n > 0 {
        lemma_connected_events_index(start, n, 0);
    } else {
        assert(connected_events(start, n).len() == 0);
    }
    assert forall|i: int| 0 <= i < b.pending_accepts implies events[i] == NetworkEvent::Connected(
        ConnectionHandle::Naia((start + i) as u32),
    ) by {
        lemma_connected_events_index(start, n, i);
        assert(events[i] == connected_events(start, n)[i]);
    }
    lemma_conn_events_handles(b.connections@);
    assert forall|i: int, h: u32|
        b.pending_accepts <= i < events.len() && start <= h implies event_handle(events[i])
        != ConnectionHandle::Naia(h) by {
        if n > 0 {
            lemma_connected_events_index(start, n, 0);
        }
        assert(connected_events(start, n).len() == n);
        let tail = conn_events_all(b.connections@);
        assert(events[i] == tail[i - n]);
        let k = choose|k: int|
            0 <= k < b.connections@.len() && event_handle(tail[i - n]) == b.connections@[k].handle;
        assert(b.connections@[k].handle matches ConnectionHandle::Naia(x) ==> x
            < b.connection_sequence);
    }
}

impl NetworkResource {
    /// One pump pass, to run once per host scheduler tick. It admits every
    /// pending remote connection — assigning each the next handle in
    /// sequence and emitting `Connected` — then dispatches every buffered
    /// raw inbound item of every remote connection, in table order and per
    /// connection in arrival order, returning the tick's events. A resource
    /// without the remote adapter has nothing to pump.
    pub fn tick(&mut self) -> (events: Vec<NetworkEvent>)
        requires
            old(self).wf(),
            old(self).naia matches Some(b) ==> b.connection_sequence + b.pending_accepts
                <= u32::MAX,
        ensures
            final(self).wf(),
            final(self).native == old(self).native && final(self).server == old(self).server
                && final(self).setup_done == old(self).setup_done,
            old(self).naia is None ==> events@.len() == 0 && *final(self) == *old(self),
            old(self).naia matches Some(b) ==> (final(self).naia matches Some(nb)
                && nb.pending_accepts == 0 && nb.connection_sequence == b.connection_sequence
                + b.pending_accepts && nb.registry == b.registry && nb.builder_set == b.builder_set
                && nb.endpoints == b.endpoints && nb.active == b.active && nb.connections@.len()
                == b.connections@.len() + b.pending_accepts && (forall|k: int|
                0 <= k < b.connections@.len() ==> conn_pumped(
                    b.connections@[k],
                    nb.connections@[k],
                )) && (forall|k: int|
                b.connections@.len() <= k < nb.connections@.len() ==> is_fresh_remote(
                    nb.connections@[k],
                    b,
                    (b.connection_sequence + k - b.connections@.len()) as u32,
                )) && events@ == connected_events(
                b.connection_sequence,
                b.pending_accepts as nat,
            ) + conn_events_all(b.connections@)),
    {
        match &mut self.naia {
            None => Vec::new(),
            Some(b) => {
                let ghost b0 = old(self).naia->Some_0;
                let n: usize = b.pending_accepts;
                b.pending_accepts = 0;
                let start: u32 = b.connection_sequence;
                let ghost conns0 = b0.connections@;
                let old_len: usize = b.connections.len();
                let mut events: Vec<NetworkEvent> = Vec::new();
                let mut c: usize = 0;
                while c < n
                    invariant
                        c <= n,
                        b.wf(),
                        n == b0.pending_accepts,
                        start == b0.connection_sequence,
                        old_len == conns0.len(),
                        b0.connection_sequence + b0.pending_accepts <= u32::MAX,
                        b.connection_sequence == start + c,
                        b.pending_accepts == 0,
                        b.registry == b0.registry,
                        b.builder_set == b0.builder_set,
                        b.endpoints == b0.endpoints,
                        b.active == b0.active,
                        b.connections@.len() == old_len + c,
                        b.connections@.take(old_len as int) == conns0,
                        forall|k: int|
                            old_len <= k < old_len + c ==> is_fresh_remote(
                                b.connections@[k],
                                b0,
                                (start + k - old_len) as u32,
                            ),
                        events@ == connected_events(start, c as nat),
                    decreases n - c,
                {
                    let h: u32 = b.connection_sequence;
                    proof {
                        assert forall|i: int| 0 <= i < b.connections@.len() implies (
                        #[trigger] b.connections@[i]).handle != ConnectionHandle::Naia(h) by {}
                        assert(!b.contains_handle(ConnectionHandle::Naia(h)));
                    }
                    b.connection_sequence = b.connection_sequence + 1;
                    let mux = b.builder_set;
                    let ghost prev = b.connections@;
                    let admitted = b.accept(ConnectionHandle::Naia(h), mux);
                    proof {
                        assert(admitted);
                        assert(b.connections@.take(old_len as int) =~= conns0);
                        assert(is_fresh_remote(b.connections@[old_len + c], b0, h));
                        assert forall|k: int|
                            old_len <= k < old_len + c + 1 implies is_fresh_remote(
                            b.connections@[k],
                            b0,
                            (start + k - old_len) as u32,
                        ) by {
                            if k < old_len + c {
                                assert(b.connections@[k] == b.connections@.drop_last()[k]);
                                assert(b.connections@.drop_last()[k] == prev[k]);
                            }
                        }
                    }
                    events.push(NetworkEvent::Connected(ConnectionHandle::Naia(h)));
                    proof {
                        assert(events@ =~= connected_events(start, (c + 1) as nat));
                    }
                    c += 1;
                }
                let m: usize = b.connections.len();
                let ghost mid = b.connections@;
                let mut k: usize = 0;
                while k < m
                    invariant
                        k <= m,
                        m == mid.len(),
                        b.wf(),
                        b.connections@.len() == m,
                        n == b0.pending_accepts,
                        start == b0.connection_sequence,
                        old_len == conns0.len(),
                        m == old_len + n,
                        b0.connection_sequence + b0.pending_accepts <= u32::MAX,
                        b.connection_sequence == start + n,
                        b.pending_accepts == 0,
                        b.registry == b0.registry,
                        b.builder_set == b0.builder_set,
                        b.endpoints == b0.endpoints,
                        b.active == b0.active,
                        mid.take(old_len as int) == conns0,
                        forall|i: int|
                            old_len <= i < m ==> is_fresh_remote(
                                mid[i],
                                b0,
                                (start + i - old_len) as u32,
                            ),
                        forall|i: int| 0 <= i < mid.len() ==> (#[trigger] mid[i]).wf(),
                        forall|i: int| k <= i < m ==> b.connections@[i] == mid[i],
                        forall|i: int| 0 <= i < k ==> conn_pumped(mid[i], b.connections@[i]),
                        events@ == connected_events(start, n as nat) + conn_events_all(
                            mid.take(k as int),
                        ),
                    decreases m - k,
                {
                    let ghost cur = b.connections@;
                    let mut conn = b.connections.remove(k);
                    pump_connection(&mut conn, &mut events);
                    b.connections.insert(k, conn);
                    proof {
                        assert(b.connections@ =~= cur.update(k as int, b.connections@[k as int]));
                        assert(mid.take(k + 1).drop_last() =~= mid.take(k as int));
                        assert(mid.take(k + 1).last() == mid[k as int]);
                        assert(events@ == connected_events(start, n as nat) + conn_events_all(
                            mid.take(k as int),
                        ) + raw_events(mid[k as int], mid[k as int].raw_inbound@));
                        assert(connected_events(start, n as nat) + conn_events_all(
                            mid.take(k as int),
                        ) + raw_events(mid[k as int], mid[k as int].raw_inbound@)
                            =~= connected_events(start, n as nat) + conn_events_all(
                            mid.take(k + 1),
                        ));
                        assert forall|i: int, j: int|
                            0 <= i < j < b.connections@.len() implies b.connections@[i].handle != b
                            .connections@[j].handle by {
                            assert(b.connections@[i].handle == cur[i].handle);
                            assert(b.connections@[j].handle == cur[j].handle);
                        }
                        assert forall|i: int|
                            0 <= i < b.connections@.len() implies (#[trigger] b.connections@[i]).wf()
                            by {
                            if i != k {
                                assert(b.connections@[i] == cur[i]);
                            }
                        }
                        assert forall|i: int|
                            0 <= i < b.connections@.len() implies ((
                        #[trigger] b.connections@[i]).handle matches ConnectionHandle::Naia(x)
                            ==> x < b.connection_sequence) by {
                            assert(b.connections@[i].handle == cur[i].handle);
                        }
                    }
                    k += 1;
                }
                proof {
                    assert(mid.take(m as int) =~= mid);
                    assert(mid =~= conns0 + mid.skip(old_len as int));
                    lemma_conn_events_all_concat(conns0, mid.skip(old_len as int));
                    assert forall|i: int|
                        0 <= i < mid.skip(old_len as int).len() implies (#[trigger] mid.skip(
                        old_len as int,
                    )[i]).raw_inbound@.len() == 0 by {
                        assert(mid.skip(old_len as int)[i] == mid[old_len + i]);
                        assert(is_fresh_remote(
                            mid[old_len + i],
                            b0,
                            (start + i) as u32,
                        ));
                    }
                    lemma_conn_events_all_silent(mid.skip(old_len as int));
                    assert(conn_events_all(conns0) + Seq::<NetworkEvent>::empty()
                        =~= conn_events_all(conns0));
                    assert(events@ == connected_events(start, n as nat) + conn_events_all(conns0));
                    assert forall|i: int|
                        0 <= i < conns0.len() implies conn_pumped(
                        conns0[i],
                        b.connections@[i],
                    ) by {
                        assert(mid[i] == mid.take(old_len as int)[i]);
                    }
                    assert forall|i: int|
                        0 <= i < b.connections@.len() implies (#[trigger] b.connections@[i]).handle is Naia by {
                        if i < conns0.len() {
                            assert(conn_pumped(conns0[i], b.connections@[i]));
                            assert(b0.connections@[i].handle is Naia);
                        } else {
                            assert(is_fresh_remote(mid[i], b0, (start + i - old_len) as u32));
                            assert(conn_pumped(mid[i], b.connections@[i]));
                        }
                    }
                    assert forall|i: int|
                        conns0.len() <= i < b.connections@.len() implies is_fresh_remote(
                        b.connections@[i],
                        b0,
                        (start + i - old_len) as u32,
                    ) by {
                        assert(conn_pumped(mid[i], b.connections@[i]));
                        assert(is_fresh_remote(mid[i], b0, (start + i - old_len) as u32));
                        let cn = b.connections@[i];
                        let cm = mid[i];
                        if b0.builder_set {
                            assert forall|j: int|
                                0 <= j < b0.registry.entries@.len() implies (
                            #[trigger] cn.buffers@[j]).id == b0.registry.entries@[j].id
                                && cn.buffers@[j].capacity == b0.registry.entries@[j].capacity
                                && cn.buffers@[j].incoming@.len() == 0
                                && cn.buffers@[j].outgoing@.len() == 0 by {
                                assert(demuxed(cm, cm.buffers@[j].id, cm.raw_inbound@)
                                    =~= Seq::<Seq<u8>>::empty());
                                assert(views_of(cn.buffers@[j].incoming@).len() == 0);
                                assert(cn.buffers@[j].incoming@.len() == views_of(
                                    cn.buffers@[j].incoming@,
                                ).len());
                            }
                        }
                    }
                }
                events
            },
        }
    }
}

} // verus!
