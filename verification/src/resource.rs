//! The network resource: the one object application code touches. It
//! composes up to two transport adapters — native and remote — behind one
//! send/receive/connect/disconnect surface, tracks the server-vs-client role
//! fixed at construction, and records whether listening or connecting has
//! completed.

use vstd::prelude::*;

use crate::adapter::{
    all_have_channel, collected, conn_drained, conn_enqueued, conn_received, conn_refusal, Adapter,
    Connection,
};
use crate::channel::{ChannelEntry, ChannelRegistry};
use crate::shared::{
    ChannelAlreadyRegistered, ChannelProcessingError, ChannelType, ConnID, ConnectionHandle,
    DisconnectError, MessageChannelID, MessageChannelMode, MessageChannelSettings, RawInbound,
    SendMessageError, SetupError, SocketAddress,
};

verus! {

/// Which transport backends a deployment target compiles in: a native build
/// carries the socket transport, a web build only the browser-compatible
/// datagram transport.
#[derive(Clone, Copy, Debug, PartialEq, Eq, Structural)]
pub enum Capability {
    Native,
    Web,
}

/// The connections of an optional adapter; an absent adapter has none.
pub open spec fn adapter_conns(a: Option<Adapter>) -> Seq<Connection> {
    match a {
        Some(ad) => ad.connections@,
        None => Seq::empty(),
    }
}

/// The reliability class the native transport uses for a channel mode:
/// everything but an unreliable mode rides the reliable lane.
pub open spec fn native_channel_type(mode: MessageChannelMode) -> ChannelType {
    match mode {
        MessageChannelMode::Unreliable => ChannelType::Unreliable,
        _ => ChannelType::Reliable,
    }
}

/// A freshly constructed adapter: empty in every respect and not yet active.
pub open spec fn adapter_fresh(a: Adapter) -> bool {
    &&& a.wf()
    &&& a.connections@.len() == 0
    &&& a.registry.entries@.len() == 0
    &&& !a.builder_set
    &&& a.pending_accepts == 0
    &&& a.connection_sequence == 0
    &&& !a.active
}

/// How one adapter relates to its old self after a send of `msg` on channel
/// `chan` to peer `h` that returned `r`: an unknown peer fails with
/// `NotConnected`, a refusing peer fails with its refusal — both changing
/// nothing — and otherwise the message is appended to that peer's lane and
/// nothing else moves.
pub open spec fn sent_via(
    a: Adapter,
    new_opt: Option<Adapter>,
    chan: u8,
    h: ConnectionHandle,
    msg: Seq<u8>,
    r: Result<(), SendMessageError>,
) -> bool {
    new_opt matches Some(na) && {
        if !a.contains_handle(h) {
            r == Err::<(), SendMessageError>(SendMessageError::NotConnected) && na == a
        } else {
            let i = a.conn_index_of(h);
            match conn_refusal(a.connections@[i], chan) {
                Some(e) => r == Err::<(), SendMessageError>(e) && na == a,
                None => r == Ok::<(), SendMessageError>(()) && na.connections@.len()
                    == a.connections@.len() && (forall|k: int|
                    0 <= k < a.connections@.len() && k != i ==> na.connections@[k]
                        == a.connections@[k]) && conn_enqueued(
                    a.connections@[i],
                    na.connections@[i],
                    chan,
                    msg,
                ) && na.registry == a.registry && na.builder_set == a.builder_set
                    && na.pending_accepts == a.pending_accepts && na.connection_sequence
                    == a.connection_sequence && na.endpoints == a.endpoints && na.active
                    == a.active,
            }
        }
    }
}

/// How one adapter relates to its old self after disconnecting peer `h`
/// with result `r`: an unknown peer fails with `NotConnected` changing
/// nothing; otherwise the peer's record is removed and nothing else moves.
pub open spec fn disconnected_via(
    a: Adapter,
    new_opt: Option<Adapter>,
    h: ConnectionHandle,
    r: Result<(), DisconnectError>,
) -> bool {
    new_opt matches Some(na) && {
        if !a.contains_handle(h) {
            r == Err::<(), DisconnectError>(DisconnectError::NotConnected) && na == a
        } else {
            r == Ok::<(), DisconnectError>(()) && na.connections@ == a.connections@.remove(
                a.conn_index_of(h),
            ) && !na.contains_handle(h) && na.registry == a.registry && na.builder_set
                == a.builder_set && na.pending_accepts == a.pending_accepts
                && na.connection_sequence == a.connection_sequence && na.endpoints == a.endpoints
                && na.active == a.active
        }
    }
}

/// Stores all the networking state for one process.
#[derive(Debug)]
pub struct NetworkResource {
    /// The native socket adapter, when that capability is compiled in.
    pub native: Option<Adapter>,
    /// The remote/browser adapter: servers always carry it, clients only on
    /// web builds.
    pub naia: Option<Adapter>,
    pub server: bool,
    pub setup_done: bool,
}

impl NetworkResource {
    /// Both adapters, where present, are well formed, and each holds only
    /// identities of its own kind.
    pub open spec fn wf(self) -> bool {
        &&& (self.native matches Some(a) ==> a.wf() && forall|i: int|
            0 <= i < a.connections@.len() ==> (#[trigger] a.connections@[i]).handle is Native)
        &&& (self.naia matches Some(a) ==> a.wf() && forall|i: int|
            0 <= i < a.connections@.len() ==> (#[trigger] a.connections@[i]).handle is Naia)
    }

    pub open spec fn has_native(self) -> bool {
        self.native is Some
    }

    pub open spec fn has_naia(self) -> bool {
        self.naia is Some
    }

    /// How many peers are connected over both adapters together.
    pub open spec fn conn_count(self) -> nat {
        adapter_conns(self.native).len() + adapter_conns(self.naia).len()
    }

    /// Constructs a server. A server always carries both the native and the
    /// remote adapter.
    pub fn new_server() -> (r: Self)
        ensures
            r.wf(),
            r.server,
            !r.setup_done,
            r.native matches Some(a) && adapter_fresh(a),
            r.naia matches Some(a) && adapter_fresh(a),
    {
        NetworkResource {
            native: Some(Adapter::new()),
            naia: Some(Adapter::new()),
            server: true,
            setup_done: false,
        }
    }

    /// Constructs a client. A native build uses the native adapter alone; a
    /// web build uses the remote adapter alone.
    pub fn new_client(cap: Capability) -> (r: Self)
        ensures
            r.wf(),
            !r.server,
            !r.setup_done,
            cap == Capability::Native ==> (r.native matches Some(a) && adapter_fresh(a))
                && r.naia is None,
            cap == Capability::Web ==> r.native is None && (r.naia matches Some(a)
                && adapter_fresh(a)),
    {
        match cap {
            Capability::Native => NetworkResource {
                native: Some(Adapter::new()),
                naia: None,
                server: false,
                setup_done: false,
            },
            Capability::Web => NetworkResource {
                native: None,
                naia: Some(Adapter::new()),
                server: false,
                setup_done: false,
            },
        }
    }

    pub fn is_server(&self) -> (r: bool)
        ensures
            r == self.server,
    {
        self.server
    }

    pub fn is_client(&self) -> (r: bool)
        ensures
            r == !self.server,
    {
        !self.server
    }

    /// Whether `listen` or `connect` has completed on this resource.
    pub fn is_setup(&self) -> (r: bool)
        ensures
            r == self.setup_done,
    {
        self.setup_done
    }

    /// Whether either adapter reports at least one live connection.
    pub fn is_connected(&self) -> (r: bool)
        ensures
            r == (self.conn_count() > 0),
    {
        let native_connected = match &self.native {
            Some(a) => a.is_connected(),
            None => false,
        };
        let naia_connected = match &self.naia {
            Some(a) => a.is_connected(),
            None => false,
        };
        native_connected || naia_connected
    }

    /// Starts listening: server-only. The native adapter binds the stream
    /// and datagram addresses; the remote adapter advertises its signalling
    /// address, local listen address and publicly advertised address.
    /// Refused with `WrongRole` on a client, and with a missing-input error
    /// when a present adapter lacks what it needs; a refusal changes
    /// nothing.
    pub fn listen(
        &mut self,
        tcp_addr: SocketAddress,
        udp_addr: SocketAddress,
        webrtc_listen_info: Option<(SocketAddress, SocketAddress, SocketAddress)>,
        max_native_packet_size: Option<usize>,
    ) -> (r: Result<(), SetupError>)
        requires
            old(self).wf(),
            !old(self).setup_done,
        ensures
            final(self).wf(),
            !old(self).server ==> r == Err::<(), SetupError>(SetupError::WrongRole) && *final(self)
                == *old(self),
            old(self).server && old(self).has_native() && max_native_packet_size is None ==> r
                == Err::<(), SetupError>(SetupError::MissingMaxPacketSize) && *final(self) == *old(self),
            old(self).server && (old(self).has_native() ==> max_native_packet_size is Some) && old(self).has_naia() && webrtc_listen_info is None ==> r == Err::<(), SetupError>(
                SetupError::MissingRemoteListenInfo,
            ) && *final(self) == *old(self),
            old(self).server && (old(self).has_native() ==> max_native_packet_size is Some) && (old(self).has_naia() ==> webrtc_listen_info is Some) ==> r == Ok::<(), SetupError>(())
                && final(self).setup_done && final(self).server == old(self).server && (old(self).native matches Some(a) ==> final(self).native matches Some(na) && na.active
                && na.endpoints@ == seq![tcp_addr, udp_addr] && na.max_packet_size
                == max_native_packet_size.unwrap() && na.registry == a.registry && na.connections
                == a.connections && na.builder_set == a.builder_set && na.pending_accepts
                == a.pending_accepts && na.connection_sequence == a.connection_sequence) && (old(self).native is None ==> final(self).native is None) && (old(self).naia matches Some(b)
                ==> final(self).naia matches Some(nb) && nb.active && nb.endpoints@ == seq![
                webrtc_listen_info.unwrap().0,
                webrtc_listen_info.unwrap().1,
                webrtc_listen_info.unwrap().2,
            ] && nb.registry == b.registry && nb.connections == b.connections && nb.builder_set
                == b.builder_set && nb.pending_accepts == b.pending_accepts
                && nb.connection_sequence == b.connection_sequence) && (old(self).naia is None
                ==> final(self).naia is None),
    {
        if !self.server {
            return Err(SetupError::WrongRole);
        }
        if self.native.is_some() && max_native_packet_size.is_none() {
            return Err(SetupError::MissingMaxPacketSize);
        }
        if self.naia.is_some() && webrtc_listen_info.is_none() {
            return Err(SetupError::MissingRemoteListenInfo);
        }
        match &mut self.native {
            Some(a) => {
                let max = match max_native_packet_size {
                    Some(m) => m,
                    None => unreached(),
                };
                let mut endpoints: Vec<SocketAddress> = Vec::new();
                endpoints.push(tcp_addr);
                endpoints.push(udp_addr);
                assert(endpoints@ =~= seq![tcp_addr, udp_addr]);
                a.setup(endpoints, max);
            },
            None => {},
        }
        match &mut self.naia {
            Some(b) => {
                let (naia_addr, webrtc_addr, public_addr) = match webrtc_listen_info {
                    Some(info) => info,
                    None => unreached(),
                };
                let mut endpoints: Vec<SocketAddress> = Vec::new();
                endpoints.push(naia_addr);
                endpoints.push(webrtc_addr);
                endpoints.push(public_addr);
                assert(endpoints@ =~= seq![naia_addr, webrtc_addr, public_addr]);
                b.setup(endpoints, 0);
            },
            None => {},
        }
        self.setup_done = true;
        Ok(())
    }

    /// Connects: client-only. The first address is the stream address on a
    /// native build and the signalling address on a web build; the datagram
    /// address and maximum packet size are needed only by the native
    /// adapter. Refused with `WrongRole` on a server, and with a
    /// missing-input error when the native adapter lacks what it needs; a
    /// refusal changes nothing.
    pub fn connect(
        &mut self,
        addr: SocketAddress,
        udp_addr: Option<SocketAddress>,
        max_native_packet_size: Option<usize>,
    ) -> (r: Result<(), SetupError>)
        requires
            old(self).wf(),
            !old(self).setup_done,
        ensures
            final(self).wf(),
            old(self).server ==> r == Err::<(), SetupError>(SetupError::WrongRole) && *final(self)
                == *old(self),
            !old(self).server && old(self).has_native() && udp_addr is None ==> r == Err::<
                (),
                SetupError,
            >(SetupError::MissingUdpAddress) && *final(self) == *old(self),
            !old(self).server && old(self).has_native() && udp_addr is Some
                && max_native_packet_size is None ==> r == Err::<(), SetupError>(
                SetupError::MissingMaxPacketSize,
            ) && *final(self) == *old(self),
            !old(self).server && (old(self).has_native() ==> udp_addr is Some
                && max_native_packet_size is Some) ==> r == Ok::<(), SetupError>(()) && final(self).setup_done && final(self).server == old(self).server && (old(self).native matches Some(a) ==> final(self).native matches Some(na) && na.active
                && na.endpoints@ == seq![addr, udp_addr.unwrap()] && na.max_packet_size
                == max_native_packet_size.unwrap() && na.registry == a.registry && na.connections
                == a.connections && na.builder_set == a.builder_set && na.pending_accepts
                == a.pending_accepts && na.connection_sequence == a.connection_sequence) && (old(self).native is None ==> final(self).native is None) && (old(self).naia matches Some(b)
                ==> final(self).naia matches Some(nb) && nb.active && nb.endpoints@ == seq![addr]
                && nb.registry == b.registry && nb.connections == b.connections && nb.builder_set
                == b.builder_set && nb.pending_accepts == b.pending_accepts
                && nb.connection_sequence == b.connection_sequence) && (old(self).naia is None
                ==> final(self).naia is None),
    {
        if self.server {
            return Err(SetupError::WrongRole);
        }
        if self.native.is_some() && udp_addr.is_none() {
            return Err(SetupError::MissingUdpAddress);
        }
        if self.native.is_some() && max_native_packet_size.is_none() {
            return Err(SetupError::MissingMaxPacketSize);
        }
        match &mut self.native {
            Some(a) => {
                let udp = match udp_addr {
                    Some(u) => u,
                    None => unreached(),
                };
                let max = match max_native_packet_size {
                    Some(m) => m,
                    None => unreached(),
                };
                let mut endpoints: Vec<SocketAddress> = Vec::new();
                endpoints.push(addr);
                endpoints.push(udp);
                assert(endpoints@ =~= seq![addr, udp]);
                a.setup(endpoints, max);
            },
            None => {},
        }
        match &mut self.naia {
            Some(b) => {
                let mut endpoints: Vec<SocketAddress> = Vec::new();
                endpoints.push(addr);
                assert(endpoints@ =~= seq![addr]);
                b.setup(endpoints, 0);
            },
            None => {},
        }
        self.setup_done = true;
        Ok(())
    }

    /// Registers a channel with the native adapter, mapping the settings'
    /// mode onto the native reliability classes; a build without the native
    /// adapter accepts and ignores the registration. Fails, changing
    /// nothing, exactly when the native adapter already has the id.
    /// Registration happens before connection setup completes.
    pub fn register_message_channel_native(
        &mut self,
        settings: MessageChannelSettings,
        channel: &MessageChannelID,
    ) -> (r: Result<(), ChannelAlreadyRegistered>)
        requires
            old(self).wf(),
            !old(self).setup_done,
        ensures
            final(self).wf(),
            old(self).native is None ==> r == Ok::<(), ChannelAlreadyRegistered>(()) && *final(self)
                == *old(self),
            old(self).native matches Some(a) ==> {
                &&& a.registry.contains_id(channel.id) ==> r == Err::<(), ChannelAlreadyRegistered>(
                    ChannelAlreadyRegistered { channel: channel.id },
                ) && *final(self) == *old(self)
                &&& !a.registry.contains_id(channel.id) ==> r == Ok::<(), ChannelAlreadyRegistered>(
                    (),
                ) && (final(self).native matches Some(na) && na.registry.contains_id(channel.id)
                    && na.registry.entries@
                    == a.registry.entries@.push(
                    ChannelEntry {
                        id: channel.id,
                        channel_type: native_channel_type(settings.channel_mode),
                        capacity: settings.message_buffer_size,
                    },
                ) && na.connections == a.connections && na.builder_set == a.builder_set
                    && na.pending_accepts == a.pending_accepts && na.connection_sequence
                    == a.connection_sequence && na.endpoints == a.endpoints && na.active
                    == a.active) && final(self).naia == old(self).naia && final(self).server == old(self).server && final(self).setup_done == old(self).setup_done
            },
    {
        match &mut self.native {
            None => Ok(()),
            Some(a) => {
                let channel_type = match settings.channel_mode {
                    MessageChannelMode::Unreliable => ChannelType::Unreliable,
                    _ => ChannelType::Reliable,
                };
                a.registry.register(channel.id, channel_type, settings.message_buffer_size)
            },
        }
    }

    /// Why a broadcast on this resource would fail, if it would: with no
    /// peer at all a client is not connected and a server broadcasts to
    /// nobody; otherwise a peer without the channel outranks a peer whose
    /// lane is full, across both adapters.
    pub open spec fn broadcast_refusal(self, chan: u8) -> Option<SendMessageError> {
        let native_r = match self.native {
            Some(a) => a.broadcast_refusal(chan),
            None => None,
        };
        let naia_r = match self.naia {
            Some(b) => b.broadcast_refusal(chan),
            None => None,
        };
        if self.conn_count() == 0 {
            if self.server {
                None
            } else {
                Some(SendMessageError::NotConnected)
            }
        } else if native_r == Some(SendMessageError::MessageTypeUnregistered) || naia_r == Some(
            SendMessageError::MessageTypeUnregistered,
        ) {
            Some(SendMessageError::MessageTypeUnregistered)
        } else if native_r == Some(SendMessageError::ChannelFull) || naia_r == Some(
            SendMessageError::ChannelFull,
        ) {
            Some(SendMessageError::ChannelFull)
        } else {
            None
        }
    }

    /// Sends one message to every connected peer of both adapters. On a
    /// client with zero connections this fails with `NotConnected`; on a
    /// server with zero connections it succeeds, delivering nothing. The
    /// broadcast is all-or-nothing: a refusal changes nothing, and success
    /// appends the message to every peer's lane for the channel.
    pub fn broadcast_message(&mut self, message: &Vec<u8>, channel: &MessageChannelID) -> (r:
        Result<(), SendMessageError>)
        requires
            old(self).wf(),
        ensures
            final(self).wf(),
            old(self).broadcast_refusal(channel.id) matches Some(e) ==> r == Err::<
                (),
                SendMessageError,
            >(e) && *final(self) == *old(self),
            old(self).broadcast_refusal(channel.id) is None ==> r == Ok::<(), SendMessageError>(())
                && final(self).server == old(self).server && final(self).setup_done == old(self).setup_done && (old(self).native matches Some(a) ==> final(self).native matches Some(na) && na.connections@.len() == a.connections@.len() && (forall|
                k: int,
            |
                0 <= k < a.connections@.len() ==> conn_enqueued(
                    a.connections@[k],
                    na.connections@[k],
                    channel.id,
                    message@,
                )) && na.registry == a.registry && na.builder_set == a.builder_set
                && na.pending_accepts == a.pending_accepts && na.connection_sequence
                == a.connection_sequence && na.endpoints == a.endpoints && na.active == a.active)
                && (old(self).native is None ==> final(self).native is None) && (old(self).naia matches Some(b) ==> final(self).naia matches Some(nb) && nb.connections@.len()
                == b.connections@.len() && (forall|k: int|
                0 <= k < b.connections@.len() ==> conn_enqueued(
                    b.connections@[k],
                    nb.connections@[k],
                    channel.id,
                    message@,
                )) && nb.registry == b.registry && nb.builder_set == b.builder_set
                && nb.pending_accepts == b.pending_accepts && nb.connection_sequence
                == b.connection_sequence && nb.endpoints == b.endpoints && nb.active == b.active)
                && (old(self).naia is None ==> final(self).naia is None),
    {
        let total: usize = {
            let native_count = match &self.native {
                Some(a) => a.connections.len(),
                None => 0,
            };
            let naia_count = match &self.naia {
                Some(b) => b.connections.len(),
                None => 0,
            };
            if native_count >= usize::MAX - naia_count {
                usize::MAX
            } else {
                native_count + naia_count
            }
        };
        if total == 0 {
            if !self.server {
                return Err(SendMessageError::NotConnected);
            }
            return Ok(());
        }
        let native_refusal = match &self.native {
            Some(a) => a.check_broadcast(channel),
            None => None,
        };
        let naia_refusal = match &self.naia {
            Some(b) => b.check_broadcast(channel),
            None => None,
        };
        let missing = matches!(native_refusal, Some(SendMessageError::MessageTypeUnregistered))
            || matches!(naia_refusal, Some(SendMessageError::MessageTypeUnregistered));
        let full = matches!(native_refusal, Some(SendMessageError::ChannelFull)) || matches!(
            naia_refusal,
            Some(SendMessageError::ChannelFull),
        );
        if missing {
            return Err(SendMessageError::MessageTypeUnregistered);
        }
        if full {
            return Err(SendMessageError::ChannelFull);
        }
        match &mut self.native {
            Some(a) => a.enqueue_all(message, channel),
            None => {},
        }
        match &mut self.naia {
            Some(b) => b.enqueue_all(message, channel),
            None => {},
        }
        Ok(())
    }

    /// Sends one message to the peer named `handle` over the adapter its
    /// tag selects. Fails with `NotConnected` when that adapter is absent
    /// or has no such peer, with `MessageTypeUnregistered` when the peer
    /// has no lane for the channel, and with `ChannelFull` when that lane
    /// is at capacity; a failure changes nothing.
    pub fn send_message(
        &mut self,
        message: &Vec<u8>,
        channel: &MessageChannelID,
        handle: &ConnectionHandle,
    ) -> (r: Result<(), SendMessageError>)
        requires
            old(self).wf(),
        ensures
            final(self).wf(),
            final(self).server == old(self).server && final(self).setup_done == old(self).setup_done,
            *handle is Native && old(self).native is None ==> r == Err::<(), SendMessageError>(
                SendMessageError::NotConnected,
            ) && *final(self) == *old(self),
            *handle is Naia && old(self).naia is None ==> r == Err::<(), SendMessageError>(
                SendMessageError::NotConnected,
            ) && *final(self) == *old(self),
            *handle is Native && old(self).native is Some ==> final(self).naia == old(self).naia && sent_via(old(self).native->Some_0, final(self).native, channel.id, *handle, message@, r),
            *handle is Naia && old(self).naia is Some ==> final(self).native == old(self).native && sent_via(old(self).naia->Some_0, final(self).naia, channel.id, *handle, message@, r),
    {
        if handle.is_native() {
            match &mut self.native {
                None => Err(SendMessageError::NotConnected),
                Some(a) => a.send_message(message, channel, handle),
            }
        } else {
            match &mut self.naia {
                None => Err(SendMessageError::NotConnected),
                Some(b) => b.send_message(message, channel, handle),
            }
        }
    }

    /// Drains every buffered inbound message of `channel` across both
    /// adapters into one sequence: native peers first, then remote peers,
    /// each in table order. Fails with `MessageTypeUnregistered`, changing
    /// nothing, when the native adapter never registered the channel or a
    /// remote peer has no lane for it.
    pub fn view_messages(&mut self, channel: &MessageChannelID) -> (r: Result<
        Vec<(ConnectionHandle, Vec<u8>)>,
        ChannelProcessingError,
    >)
        requires
            old(self).wf(),
        ensures
            final(self).wf(),
            final(self).server == old(self).server && final(self).setup_done == old(self).setup_done,
            (old(self).native matches Some(a) && !a.registry.contains_id(channel.id)) || (old(self).naia matches Some(b) && !all_have_channel(b.connections@, channel.id)) ==> r == Err::<
                Vec<(ConnectionHandle, Vec<u8>)>,
                ChannelProcessingError,
            >(ChannelProcessingError::MessageTypeUnregistered) && *final(self) == *old(self),
            (old(self).native matches Some(a) ==> a.registry.contains_id(channel.id)) && (old(self).naia matches Some(b) ==> all_have_channel(b.connections@, channel.id)) ==> (r
                matches Ok(msgs) && msgs@ == collected(adapter_conns(old(self).native), channel.id)
                + collected(adapter_conns(old(self).naia), channel.id)) && (old(self).native matches Some(a) ==> final(self).native matches Some(na)
                && na.connections@.len() == a.connections@.len() && (forall|k: int|
                0 <= k < a.connections@.len() ==> conn_drained(
                    a.connections@[k],
                    na.connections@[k],
                    channel.id,
                )) && na.registry == a.registry && na.builder_set == a.builder_set
                && na.pending_accepts == a.pending_accepts && na.connection_sequence
                == a.connection_sequence && na.endpoints == a.endpoints && na.active == a.active)
                && (old(self).native is None ==> final(self).native is None) && (old(self).naia matches Some(b) ==> final(self).naia matches Some(nb) && nb.connections@.len()
                == b.connections@.len() && (forall|k: int|
                0 <= k < b.connections@.len() ==> conn_drained(
                    b.connections@[k],
                    nb.connections@[k],
                    channel.id,
                )) && nb.registry == b.registry && nb.builder_set == b.builder_set
                && nb.pending_accepts == b.pending_accepts && nb.connection_sequence
                == b.connection_sequence && nb.endpoints == b.endpoints && nb.active == b.active)
                && (old(self).naia is None ==> final(self).naia is None),
    {
        let native_ok = match &self.native {
            Some(a) => a.registry.find(channel.id).is_some(),
            None => true,
        };
        if !native_ok {
            return Err(ChannelProcessingError::MessageTypeUnregistered);
        }
        let naia_ok = match &self.naia {
            Some(b) => b.check_all_have(channel),
            None => true,
        };
        if !naia_ok {
            return Err(ChannelProcessingError::MessageTypeUnregistered);
        }
        let mut messages: Vec<(ConnectionHandle, Vec<u8>)> = match &mut self.native {
            Some(a) => a.drain_channel(channel),
            None => Vec::new(),
        };
        let mut naia_messages: Vec<(ConnectionHandle, Vec<u8>)> = match &mut self.naia {
            Some(b) => b.drain_channel(channel),
            None => Vec::new(),
        };
        let ghost native_part = messages@;
        let ghost naia_part = naia_messages@;
        messages.append(&mut naia_messages);
        proof {
            assert(messages@ == native_part + naia_part);
            if old(self).native is None {
                assert(collected(adapter_conns(old(self).native), channel.id) =~= native_part);
            }
            if old(self).naia is None {
                assert(collected(adapter_conns(old(self).naia), channel.id) =~= naia_part);
            }
        }
        Ok(messages)
    }

    /// Disconnects the peer named `handle` from the adapter its tag
    /// selects: one client on a server, the server itself on a client.
    /// Fails with `NotConnected`, changing nothing, when that adapter is
    /// absent or has no such peer.
    pub fn disconnect_from(&mut self, handle: &ConnectionHandle) -> (r: Result<
        (),
        DisconnectError,
    >)
        requires
            old(self).wf(),
        ensures
            final(self).wf(),
            final(self).server == old(self).server && final(self).setup_done == old(self).setup_done,
            *handle is Native && old(self).native is None ==> r == Err::<(), DisconnectError>(
                DisconnectError::NotConnected,
            ) && *final(self) == *old(self),
            *handle is Naia && old(self).naia is None ==> r == Err::<(), DisconnectError>(
                DisconnectError::NotConnected,
            ) && *final(self) == *old(self),
            *handle is Native && old(self).native is Some ==> final(self).naia == old(self).naia && disconnected_via(old(self).native->Some_0, final(self).native, *handle, r),
            *handle is Naia && old(self).naia is Some ==> final(self).native == old(self).native && disconnected_via(old(self).naia->Some_0, final(self).naia, *handle, r),
    {
        if handle.is_native() {
            match &mut self.native {
                None => Err(DisconnectError::NotConnected),
                Some(a) => a.disconnect(handle),
            }
        } else {
            match &mut self.naia {
                None => Err(DisconnectError::NotConnected),
                Some(b) => b.disconnect(handle),
            }
        }
    }

    /// Disconnects every peer of both adapters, leaving both connection
    /// tables empty — after which `is_connected` reports false.
    pub fn disconnect_from_all(&mut self)
        requires
            old(self).wf(),
        ensures
            final(self).wf(),
            final(self).conn_count() == 0,
            final(self).server == old(self).server && final(self).setup_done == old(self).setup_done,
            old(self).native matches Some(a) ==> final(self).native matches Some(na)
                && na.connections@.len() == 0 && na.registry == a.registry && na.builder_set
                == a.builder_set && na.pending_accepts == a.pending_accepts
                && na.connection_sequence == a.connection_sequence && na.endpoints == a.endpoints
                && na.active == a.active,
            old(self).native is None ==> final(self).native is None,
            old(self).naia matches Some(b) ==> final(self).naia matches Some(nb)
                && nb.connections@.len() == 0 && nb.registry == b.registry && nb.builder_set
                == b.builder_set && nb.pending_accepts == b.pending_accepts
                && nb.connection_sequence == b.connection_sequence && nb.endpoints == b.endpoints
                && nb.active == b.active,
            old(self).naia is None ==> final(self).naia is None,
    {
        match &mut self.native {
            Some(a) => a.disconnect_all(),
            None => {},
        }
        match &mut self.naia {
            Some(b) => b.disconnect_all(),
            None => {},
        }
    }

    /// Stores the per-connection channel blueprint for the remote adapter:
    /// each connection accepted from now on gets one lane per blueprint
    /// entry. A build without the remote adapter ignores it.
    pub fn set_channels_builder(&mut self, builder: ChannelRegistry)
        requires
            old(self).wf(),
            builder.wf(),
        ensures
            final(self).wf(),
            old(self).naia is None ==> *final(self) == *old(self),
            old(self).naia matches Some(b) ==> final(self).naia matches Some(nb) && nb.registry
                == builder && nb.builder_set && nb.connections == b.connections
                && nb.pending_accepts == b.pending_accepts && nb.connection_sequence
                == b.connection_sequence && nb.endpoints == b.endpoints && nb.active == b.active
                && final(self).native == old(self).native && final(self).server == old(self).server
                && final(self).setup_done == old(self).setup_done,
    {
        match &mut self.naia {
            None => {},
            Some(b) => {
                b.registry = builder;
                b.builder_set = true;
            },
        }
    }

    /// The native backend reports a peer it accepted or connected to. The
    /// peer gets lanes from the native channel registry. Reports whether the
    /// record was admitted: a duplicate identity or an absent native adapter
    /// admits nothing and changes nothing.
    pub fn accept_native_connection(&mut self, conn: ConnID) -> (r: bool)
        requires
            old(self).wf(),
        ensures
            final(self).wf(),
            final(self).naia == old(self).naia && final(self).server == old(self).server && final(self).setup_done == old(self).setup_done,
            old(self).native is None ==> !r && *final(self) == *old(self),
            old(self).native matches Some(a) ==> {
                &&& a.contains_handle(ConnectionHandle::Native(conn)) ==> !r && *final(self)
                    == *old(self)
                &&& !a.contains_handle(ConnectionHandle::Native(conn)) ==> r && (final(self).native matches Some(na) && na.connections@.len() == a.connections@.len() + 1
                    && na.connections@.drop_last() == a.connections@ && na.connections@.last().handle
                    == ConnectionHandle::Native(conn) && na.connections@.last().live
                    && na.connections@.last().has_mux && na.connections@.last().buffers@.len()
                    == a.registry.entries@.len() && (forall|k: int|
                    0 <= k < a.registry.entries@.len() ==> (
                    #[trigger] na.connections@.last().buffers@[k]).id == a.registry.entries@[k].id
                        && na.connections@.last().buffers@[k].incoming@.len() == 0
                        && na.connections@.last().buffers@[k].outgoing@.len() == 0
                        && na.connections@.last().buffers@[k].capacity
                        == a.registry.entries@[k].capacity) && na.registry == a.registry
                    && na.builder_set == a.builder_set && na.pending_accepts == a.pending_accepts
                    && na.connection_sequence == a.connection_sequence && na.endpoints
                    == a.endpoints && na.active == a.active)
            },
    {
        match &mut self.native {
            None => false,
            Some(a) => {
                let admitted = a.accept(ConnectionHandle::Native(conn), true);
                proof {
                    if admitted {
                        let prev = old(self).native->Some_0.connections@;
                        assert forall|i: int|
                            0 <= i < a.connections@.len() implies (#[trigger] a.connections@[i]).handle is Native by {
                            if i < a.connections@.len() - 1 {
                                assert(a.connections@.drop_last()[i] == prev[i]);
                            }
                        }
                    }
                }
                admitted
            },
        }
    }

    /// The remote backend's acceptor reports one newly accepted connection;
    /// it waits in the pending queue until the next tick admits it. Reports
    /// whether a remote adapter was present to queue it.
    pub fn accept_remote_connection(&mut self) -> (r: bool)
        requires
            old(self).wf(),
            old(self).naia matches Some(b) ==> b.pending_accepts < usize::MAX,
        ensures
            final(self).wf(),
            final(self).native == old(self).native && final(self).server == old(self).server
                && final(self).setup_done == old(self).setup_done,
            old(self).naia is None ==> !r && *final(self) == *old(self),
            old(self).naia matches Some(b) ==> r && (final(self).naia matches Some(nb)
                && nb.pending_accepts == b.pending_accepts + 1 && nb.connections == b.connections
                && nb.registry == b.registry && nb.builder_set == b.builder_set
                && nb.connection_sequence == b.connection_sequence && nb.endpoints == b.endpoints
                && nb.active == b.active),
    {
        match &mut self.naia {
            None => false,
            Some(b) => {
                b.pending_accepts = b.pending_accepts + 1;
                true
            },
        }
    }

    /// The native backend hands one already-demultiplexed inbound message
    /// to a native peer's lane for `channel`. Reports whether the peer and
    /// lane exist; when they do not, nothing changes.
    pub fn deliver_native_message(
        &mut self,
        conn: &ConnID,
        channel: &MessageChannelID,
        bytes: Vec<u8>,
    ) -> (r: bool)
        requires
            old(self).wf(),
        ensures
            final(self).wf(),
            final(self).naia == old(self).naia && final(self).server == old(self).server && final(self).setup_done == old(self).setup_done,
            old(self).native is None ==> !r && *final(self) == *old(self),
            old(self).native matches Some(a) ==> {
                let h = ConnectionHandle::Native(*conn);
                &&& r == (a.contains_handle(h) && a.connections@[a.conn_index_of(h)].has_channel(
                    channel.id,
                ))
                &&& !r ==> *final(self) == *old(self)
                &&& r ==> (final(self).native matches Some(na) && na.connections@.len()
                    == a.connections@.len() && (forall|k: int|
                    0 <= k < a.connections@.len() && k != a.conn_index_of(h) ==> na.connections@[k]
                        == a.connections@[k]) && conn_received(
                    a.connections@[a.conn_index_of(h)],
                    na.connections@[a.conn_index_of(h)],
                    channel.id,
                    bytes,
                ) && na.registry == a.registry && na.builder_set == a.builder_set
                    && na.pending_accepts == a.pending_accepts && na.connection_sequence
                    == a.connection_sequence && na.endpoints == a.endpoints && na.active
                    == a.active)
            },
    {
        match &mut self.native {
            None => false,
            Some(a) => a.deliver_message(&ConnectionHandle::Native(*conn), channel, bytes),
        }
    }

    /// The remote backend hands one raw inbound item — a datagram or a
    /// receive-level failure — to the remote peer named `handle`, for the
    /// next tick to dispatch. Reports whether the peer exists; when it does
    /// not, nothing changes.
    pub fn deliver_remote_raw(&mut self, handle: u32, raw: RawInbound) -> (r: bool)
        requires
            old(self).wf(),
        ensures
            final(self).wf(),
            final(self).native == old(self).native && final(self).server == old(self).server
                && final(self).setup_done == old(self).setup_done,
            old(self).naia is None ==> !r && *final(self) == *old(self),
            old(self).naia matches Some(b) ==> {
                let h = ConnectionHandle::Naia(handle);
                &&& r == b.contains_handle(h)
                &&& !r ==> *final(self) == *old(self)
                &&& r ==> (final(self).naia matches Some(nb) && nb.connections@.len()
                    == b.connections@.len() && (forall|k: int|
                    0 <= k < b.connections@.len() && k != b.conn_index_of(h) ==> nb.connections@[k]
                        == b.connections@[k]) && nb.connections@[b.conn_index_of(h)].handle
                    == b.connections@[b.conn_index_of(h)].handle && nb.connections@[b.conn_index_of(h)].has_mux == b.connections@[b.conn_index_of(h)].has_mux && nb.connections@[b.conn_index_of(h)].buffers == b.connections@[b.conn_index_of(h)].buffers && nb.connections@[b.conn_index_of(h)].raw_inbound@ == b.connections@[b.conn_index_of(h)].raw_inbound@.push(raw)
                    && nb.registry == b.registry && nb.builder_set == b.builder_set
                    && nb.pending_accepts == b.pending_accepts && nb.connection_sequence
                    == b.connection_sequence && nb.endpoints == b.endpoints && nb.active
                    == b.active)
            },
    {
        match &mut self.naia {
            None => false,
            Some(b) => b.deliver_raw(&ConnectionHandle::Naia(handle), raw),
        }
    }

    /// The backend owning the peer named `handle` drains that peer's
    /// outbound queue for `channel`, to transmit its messages in order.
    /// Yields nothing, changing nothing, when the owning adapter is absent
    /// or the peer or lane does not exist.
    pub fn take_outgoing(&mut self, handle: &ConnectionHandle, channel: &MessageChannelID) -> (r:
        Option<Vec<Vec<u8>>>)
        requires
            old(self).wf(),
        ensures
            final(self).wf(),
            final(self).server == old(self).server && final(self).setup_done == old(self).setup_done,
            *handle is Native && old(self).native is None ==> r is None && *final(self) == *old(self),
            *handle is Naia && old(self).naia is None ==> r is None && *final(self) == *old(self),
            *handle is Native && old(self).native is Some ==> final(self).naia == old(self).naia
                && taken_via(old(self).native->Some_0, final(self).native, channel.id, *handle, r),
            *handle is Naia && old(self).naia is Some ==> final(self).native == old(self).native
                && taken_via(old(self).naia->Some_0, final(self).naia, channel.id, *handle, r),
    {
        if handle.is_native() {
            match &mut self.native {
                None => None,
                Some(a) => a.take_outgoing(handle, channel),
            }
        } else {
            match &mut self.naia {
                None => None,
                Some(b) => b.take_outgoing(handle, channel),
            }
        }
    }
}

/// How one adapter relates to its old self after draining the outbound
/// queue of channel `chan` for peer `h` with result `r`: an unknown peer or
/// lane yields nothing and changes nothing; otherwise the queue's messages
/// come out in order and the queue is left empty.
pub open spec fn taken_via(
    a: Adapter,
    new_opt: Option<Adapter>,
    chan: u8,
    h: ConnectionHandle,
    r: Option<Vec<Vec<u8>>>,
) -> bool {
    new_opt matches Some(na) && {
        if !(a.contains_handle(h) && a.connections@[a.conn_index_of(h)].has_channel(chan)) {
            r is None && na == a
        } else {
            let i = a.conn_index_of(h);
            let j = a.connections@[i].buffer_index_of(chan);
            &&& r matches Some(msgs) && msgs == a.connections@[i].buffers@[j].outgoing
            &&& na.connections@.len() == a.connections@.len()
            &&& (forall|k: int|
                0 <= k < a.connections@.len() && k != i ==> na.connections@[k]
                    == a.connections@[k])
            &&& na.connections@[i].handle == a.connections@[i].handle
            &&& na.connections@[i].has_mux == a.connections@[i].has_mux
            &&& na.connections@[i].raw_inbound == a.connections@[i].raw_inbound
            &&& na.connections@[i].buffers@.len() == a.connections@[i].buffers@.len()
            &&& (forall|l: int|
                0 <= l < a.connections@[i].buffers@.len() && l != j ==> na.connections@[i].buffers@[l]
                    == a.connections@[i].buffers@[l])
            &&& na.connections@[i].buffers@[j].id == a.connections@[i].buffers@[j].id
            &&& na.connections@[i].buffers@[j].capacity == a.connections@[i].buffers@[j].capacity
            &&& na.connections@[i].buffers@[j].incoming == a.connections@[i].buffers@[j].incoming
            &&& na.connections@[i].buffers@[j].outgoing@.len() == 0
            &&& na.registry == a.registry
            &&& na.builder_set == a.builder_set
            &&& na.pending_accepts == a.pending_accepts
            &&& na.connection_sequence == a.connection_sequence
            &&& na.endpoints == a.endpoints
            &&& na.active == a.active
        }
    }
}

} // verus!
