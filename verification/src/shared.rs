//! Connection identities, channel settings and the error taxonomy shared by
//! both transport backends.

use vstd::prelude::*;

verus! {

/// A single-byte identifier for one logical message lane. Uniqueness within
/// one network resource is the caller's responsibility; two identities with
/// equal byte value are interchangeable.
#[derive(Clone, Copy, Debug, PartialEq, Eq, Hash, Structural)]
pub struct MessageChannelID {
    pub id: u8,
}

impl MessageChannelID {
    pub fn new(id: u8) -> (r: Self)
        ensures
            r.id == id,
    {
        Self { id }
    }
}

/// Whether a native channel rides on the stream or the datagram socket.
#[derive(Clone, Copy, Debug, PartialEq, Eq, Hash, Structural)]
pub enum NativeConnectionType {
    Tcp,
    Udp,
}

/// A socket address held as plain values: the IP as its numeric parts and the
/// port. A v6 address keeps its sixteen bytes in two 64-bit halves, high half
/// first.
#[derive(Clone, Copy, Debug, PartialEq, Eq, Hash, Structural)]
pub enum SocketAddress {
    V4 { a: u8, b: u8, c: u8, d: u8, port: u16 },
    V6 { hi: u64, lo: u64, port: u16 },
}

/// Identity of one native-transport peer. Equality is over all three fields.
#[derive(Clone, Copy, Debug, PartialEq, Eq, Hash, Structural)]
pub struct ConnID {
    pub uuid: u32,
    pub addr: SocketAddress,
    pub mode: NativeConnectionType,
}

impl ConnID {
    pub fn new(uuid: u32, addr: SocketAddress, mode: NativeConnectionType) -> (r: Self)
        ensures
            r.uuid == uuid && r.addr == addr && r.mode == mode,
    {
        Self { uuid, addr, mode }
    }
}

/// Names one peer regardless of backend: a native socket peer or a remote
/// (browser/datagram) peer known by its sequentially assigned handle.
#[derive(Clone, Copy, Debug, PartialEq, Eq, Hash, Structural)]
pub enum ConnectionHandle {
    Native(ConnID),
    Naia(u32),
}

impl ConnectionHandle {
    pub fn new_native(conn_id: ConnID) -> (r: Self)
        ensures
            r == ConnectionHandle::Native(conn_id),
    {
        ConnectionHandle::Native(conn_id)
    }

    pub fn new_naia(handle: u32) -> (r: Self)
        ensures
            r == ConnectionHandle::Naia(handle),
    {
        ConnectionHandle::Naia(handle)
    }

    /// The native payload. Calling this on a remote identity is a programming
    /// error, so the precondition rules it out.
    pub fn native(&self) -> (r: &ConnID)
        requires
            self is Native,
        ensures
            *self == ConnectionHandle::Native(*r),
    {
        match self {
            ConnectionHandle::Native(id) => id,
            ConnectionHandle::Naia(_) => unreached(),
        }
    }

    /// The remote handle. Calling this on a native identity is a programming
    /// error, so the precondition rules it out.
    pub fn naia(&self) -> (r: &u32)
        requires
            self is Naia,
        ensures
            *self == ConnectionHandle::Naia(*r),
    {
        match self {
            ConnectionHandle::Naia(handle) => handle,
            ConnectionHandle::Native(_) => unreached(),
        }
    }

    pub fn is_native(&self) -> (r: bool)
        ensures
            r == (*self is Native),
    {
        matches!(self, ConnectionHandle::Native(_))
    }

    pub fn is_naia(&self) -> (r: bool)
        ensures
            r == (*self is Naia),
    {
        matches!(self, ConnectionHandle::Naia(_))
    }
}

/// Every well-formed connection identity is exactly one of native and remote:
/// the two tag tests are mutually exclusive and together exhaustive.
pub proof fn lemma_identity_tags_partition(handle: ConnectionHandle)
    ensures
        (handle is Native) <==> !(handle is Naia),
{
}

/// Finer reliability parameters consumed only by the native transport; the
/// composition layer passes them through untouched.
#[derive(Clone, Copy, Debug, PartialEq, Eq, Structural)]
pub struct ReliableChannelSettings {
    pub resend_interval_ms: u64,
    pub fragment_size: u16,
}

/// How messages on one channel are carried.
#[derive(Clone, Copy, Debug, PartialEq, Eq, Structural)]
pub enum MessageChannelMode {
    Unreliable,
    Reliable(ReliableChannelSettings),
    Compressed(ReliableChannelSettings),
}

/// Per-channel configuration. `message_buffer_size` bounds how many outbound
/// messages one connection may hold for the channel before a send reports
/// `ChannelFull`.
#[derive(Clone, Copy, Debug, PartialEq, Eq, Structural)]
pub struct MessageChannelSettings {
    pub channel_mode: MessageChannelMode,
    pub message_buffer_size: usize,
}

/// The two reliability classes the native transport distinguishes.
#[derive(Clone, Copy, Debug, PartialEq, Eq, Structural)]
pub enum ChannelType {
    Reliable,
    Unreliable,
}

/// A channel id was registered twice on one registry.
#[derive(Clone, Copy, Debug, PartialEq, Eq, Structural)]
pub struct ChannelAlreadyRegistered {
    pub channel: u8,
}

/// Why a send or broadcast failed.
#[derive(Clone, Copy, Debug, PartialEq, Eq, Structural)]
pub enum SendMessageError {
    /// Encoding the payload failed (raised by the typed layer around this
    /// core, which owns serialization).
    Encode,
    /// The backend's internal transfer queue is closed (raised by the
    /// backend glue around this core).
    QueueClosed,
    NotConnected,
    MessageTypeUnregistered,
    /// The destination's buffer for the channel is at capacity.
    ChannelFull,
}

/// Why draining a channel's inbound messages failed.
#[derive(Clone, Copy, Debug, PartialEq, Eq, Structural)]
pub enum ChannelProcessingError {
    /// Decoding a payload failed (raised by the typed layer around this core,
    /// which owns serialization).
    Decode,
    MessageTypeUnregistered,
}

/// Why a disconnect failed.
#[derive(Clone, Copy, Debug, PartialEq, Eq, Structural)]
pub enum DisconnectError {
    NotConnected,
}

/// Why listening or connecting was refused.
#[derive(Clone, Copy, Debug, PartialEq, Eq, Structural)]
pub enum SetupError {
    /// `listen` on a client, or `connect` on a server.
    WrongRole,
    /// The remote-capable side needs its listen address triple.
    MissingRemoteListenInfo,
    /// The native-capable side needs a datagram address to connect.
    MissingUdpAddress,
    /// The native-capable side needs a maximum packet size.
    MissingMaxPacketSize,
}

/// What went wrong on one connection, surfaced as an `Error` event.
#[derive(Clone, Copy, Debug, PartialEq, Eq, Structural)]
pub enum NetworkError {
    /// The backend reported a receive-level transport failure.
    Transport,
    /// An inbound frame named a channel the connection has no lane for.
    ChannelDispatch,
}

/// One inbound item handed to the pump by the remote backend: either a raw
/// datagram or a receive-level failure.
#[derive(Clone, Debug)]
pub enum RawInbound {
    Payload(Vec<u8>),
    TransportFailure,
}

/// One host-visible event produced by the per-tick pump, in arrival order
/// within a connection.
#[derive(Clone, Debug)]
pub enum NetworkEvent {
    Connected(ConnectionHandle),
    Packet(ConnectionHandle, Vec<u8>),
    Error(ConnectionHandle, NetworkError),
}

} // verus!
