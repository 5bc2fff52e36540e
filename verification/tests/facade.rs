use super_net::adapter::copy_bytes;
use super_net::channel::ChannelRegistry;
use super_net::frame::{decode_frame, encode_frame};
use super_net::resource::{Capability, NetworkResource};
use super_net::shared::{
    ChannelProcessingError, ChannelType, ConnID, ConnectionHandle, DisconnectError,
    MessageChannelID, MessageChannelMode, MessageChannelSettings, NativeConnectionType,
    NetworkError, NetworkEvent, RawInbound, ReliableChannelSettings, SendMessageError, SetupError,
    SocketAddress,
};

fn addr(last: u8, port: u16) -> SocketAddress {
    SocketAddress::V4 { a: 127, b: 0, c: 0, d: last, port }
}

fn reliable_settings(buffer: usize) -> MessageChannelSettings {
    MessageChannelSettings {
        channel_mode: MessageChannelMode::Reliable(ReliableChannelSettings {
            resend_interval_ms: 100,
            fragment_size: 1024,
        }),
        message_buffer_size: buffer,
    }
}

fn server_with_channel(id: u8, buffer: usize) -> NetworkResource {
    let mut server = NetworkResource::new_server();
    server
        .register_message_channel_native(reliable_settings(buffer), &MessageChannelID::new(id))
        .unwrap();
    server
}

#[test]
fn identity_tags_are_exclusive_and_exhaustive() {
    let native = ConnectionHandle::new_native(ConnID::new(7, addr(1, 4000), NativeConnectionType::Tcp));
    let remote = ConnectionHandle::new_naia(42);
    assert!(native.is_native() && !native.is_naia());
    assert!(remote.is_naia() && !remote.is_native());
    assert_eq!(*remote.naia(), 42);
    assert_eq!(native.native().uuid, 7);
}

#[test]
fn duplicate_channel_registration_fails() {
    let mut server = NetworkResource::new_server();
    let chan = MessageChannelID::new(9);
    assert!(server.register_message_channel_native(reliable_settings(4), &chan).is_ok());
    let second = server.register_message_channel_native(
        MessageChannelSettings {
            channel_mode: MessageChannelMode::Unreliable,
            message_buffer_size: 99,
        },
        &chan,
    );
    let err = second.unwrap_err();
    assert_eq!(err.channel, 9);
}

#[test]
fn duplicate_registration_on_builder_fails() {
    let mut builder = ChannelRegistry::new();
    assert!(builder.register(3, ChannelType::Reliable, 4).is_ok());
    let err = builder.register(3, ChannelType::Unreliable, 16).unwrap_err();
    assert_eq!(err.channel, 3);
}

#[test]
fn send_to_unknown_identity_is_not_connected() {
    let mut server = server_with_channel(1, 4);
    let unknown_native =
        ConnectionHandle::new_native(ConnID::new(5, addr(2, 5000), NativeConnectionType::Udp));
    let unknown_remote = ConnectionHandle::new_naia(17);
    let chan = MessageChannelID::new(1);
    let msg: Vec<u8> = vec![1, 2, 3];
    assert_eq!(
        server.send_message(&msg, &chan, &unknown_native),
        Err(SendMessageError::NotConnected)
    );
    assert_eq!(
        server.send_message(&msg, &chan, &unknown_remote),
        Err(SendMessageError::NotConnected)
    );
}

#[test]
fn send_to_remote_identity_on_native_client_is_not_connected() {
    let mut client = NetworkResource::new_client(Capability::Native);
    let chan = MessageChannelID::new(1);
    let msg: Vec<u8> = vec![9];
    assert_eq!(
        client.send_message(&msg, &chan, &ConnectionHandle::new_naia(0)),
        Err(SendMessageError::NotConnected)
    );
}

#[test]
fn broadcast_with_zero_connections_depends_on_role() {
    let chan = MessageChannelID::new(2);
    let msg: Vec<u8> = vec![4, 5];
    let mut client = NetworkResource::new_client(Capability::Native);
    assert_eq!(client.broadcast_message(&msg, &chan), Err(SendMessageError::NotConnected));
    let mut server = server_with_channel(2, 4);
    assert_eq!(server.broadcast_message(&msg, &chan), Ok(()));
}

#[test]
fn broadcast_reaches_every_native_peer() {
    let mut server = server_with_channel(2, 4);
    let first = ConnID::new(1, addr(3, 6000), NativeConnectionType::Tcp);
    let second = ConnID::new(2, addr(4, 6001), NativeConnectionType::Tcp);
    assert!(server.accept_native_connection(first));
    assert!(server.accept_native_connection(second));
    let chan = MessageChannelID::new(2);
    let msg: Vec<u8> = vec![7, 8, 9];
    assert_eq!(server.broadcast_message(&msg, &chan), Ok(()));
    let out_first = server.take_outgoing(&ConnectionHandle::new_native(first), &chan).unwrap();
    let out_second = server.take_outgoing(&ConnectionHandle::new_native(second), &chan).unwrap();
    assert_eq!(out_first, vec![vec![7, 8, 9]]);
    assert_eq!(out_second, vec![vec![7, 8, 9]]);
}

#[test]
fn send_on_unregistered_channel_fails() {
    let mut server = server_with_channel(2, 4);
    let peer = ConnID::new(1, addr(5, 6002), NativeConnectionType::Tcp);
    assert!(server.accept_native_connection(peer));
    let msg: Vec<u8> = vec![1];
    assert_eq!(
        server.send_message(&msg, &MessageChannelID::new(250), &ConnectionHandle::new_native(peer)),
        Err(SendMessageError::MessageTypeUnregistered)
    );
}

#[test]
fn full_lane_reports_channel_full() {
    let mut server = server_with_channel(6, 1);
    let peer = ConnID::new(1, addr(6, 6003), NativeConnectionType::Tcp);
    assert!(server.accept_native_connection(peer));
    let handle = ConnectionHandle::new_native(peer);
    let chan = MessageChannelID::new(6);
    let msg: Vec<u8> = vec![1];
    assert_eq!(server.send_message(&msg, &chan, &handle), Ok(()));
    assert_eq!(server.send_message(&msg, &chan, &handle), Err(SendMessageError::ChannelFull));
    assert_eq!(server.broadcast_message(&msg, &chan), Err(SendMessageError::ChannelFull));
}

#[test]
fn empty_inbound_packet_is_discarded() {
    let mut server = NetworkResource::new_server();
    let mut builder = ChannelRegistry::new();
    builder.register(5, ChannelType::Reliable, 8).unwrap();
    server.set_channels_builder(builder);
    assert!(server.accept_remote_connection());
    let events = server.tick();
    assert_eq!(events.len(), 1);
    assert!(matches!(events[0], NetworkEvent::Connected(ConnectionHandle::Naia(0))));
    assert!(server.deliver_remote_raw(0, RawInbound::Payload(Vec::new())));
    let events = server.tick();
    assert!(events.is_empty());
}

#[test]
fn sequential_remote_handles_in_one_tick() {
    let mut server = NetworkResource::new_server();
    for _ in 0..4 {
        assert!(server.accept_remote_connection());
    }
    let events = server.tick();
    assert_eq!(events.len(), 4);
    for (i, event) in events.iter().enumerate() {
        match event {
            NetworkEvent::Connected(ConnectionHandle::Naia(h)) => assert_eq!(*h as usize, i),
            other => panic!("expected a Connected event, got {:?}", other),
        }
    }
    assert!(server.accept_remote_connection());
    let events = server.tick();
    assert_eq!(events.len(), 1);
    assert!(matches!(events[0], NetworkEvent::Connected(ConnectionHandle::Naia(4))));
}

#[test]
fn transport_failure_surfaces_as_error_event() {
    let mut server = NetworkResource::new_server();
    assert!(server.accept_remote_connection());
    server.tick();
    assert!(server.deliver_remote_raw(0, RawInbound::TransportFailure));
    let events = server.tick();
    assert_eq!(events.len(), 1);
    assert!(matches!(
        events[0],
        NetworkEvent::Error(ConnectionHandle::Naia(0), NetworkError::Transport)
    ));
}

#[test]
fn unmuxed_datagram_surfaces_as_packet_event() {
    let mut server = NetworkResource::new_server();
    assert!(server.accept_remote_connection());
    server.tick();
    assert!(server.deliver_remote_raw(0, RawInbound::Payload(vec![1, 2, 3])));
    let events = server.tick();
    assert_eq!(events.len(), 1);
    match &events[0] {
        NetworkEvent::Packet(ConnectionHandle::Naia(0), bytes) => {
            assert_eq!(bytes, &vec![1, 2, 3]);
        }
        other => panic!("expected a Packet event, got {:?}", other),
    }
}

#[test]
fn unknown_lane_surfaces_as_dispatch_error() {
    let mut server = NetworkResource::new_server();
    let mut builder = ChannelRegistry::new();
    builder.register(7, ChannelType::Unreliable, 8).unwrap();
    server.set_channels_builder(builder);
    assert!(server.accept_remote_connection());
    server.tick();
    let frame = encode_frame(&MessageChannelID::new(9), &vec![1]);
    assert!(server.deliver_remote_raw(0, RawInbound::Payload(frame)));
    let events = server.tick();
    assert_eq!(events.len(), 1);
    assert!(matches!(
        events[0],
        NetworkEvent::Error(ConnectionHandle::Naia(0), NetworkError::ChannelDispatch)
    ));
}

#[test]
fn remote_round_trip_preserves_bytes() {
    let mut server = server_with_channel(5, 8);
    let mut builder = ChannelRegistry::new();
    builder.register(5, ChannelType::Reliable, 8).unwrap();
    server.set_channels_builder(builder);
    assert!(server.accept_remote_connection());
    server.tick();
    let chan = MessageChannelID::new(5);
    let handle = ConnectionHandle::new_naia(0);
    let msg: Vec<u8> = vec![10, 20, 30, 40];
    assert_eq!(server.send_message(&msg, &chan, &handle), Ok(()));
    // The backend transmits the lane's queue as frames; the peer echoes each
    // frame back on the same lane.
    let outgoing = server.take_outgoing(&handle, &chan).unwrap();
    assert_eq!(outgoing.len(), 1);
    for payload in outgoing {
        let frame = encode_frame(&chan, &payload);
        assert!(server.deliver_remote_raw(0, RawInbound::Payload(frame)));
    }
    let events = server.tick();
    assert!(events.is_empty());
    let received = server.view_messages(&chan).unwrap();
    assert_eq!(received.len(), 1);
    assert!(matches!(received[0].0, ConnectionHandle::Naia(0)));
    assert_eq!(received[0].1, msg);
}

#[test]
fn server_receives_client_message_on_reliable_channel() {
    let chan = MessageChannelID::new(3);
    let server_identity = ConnID::new(0, addr(1, 7000), NativeConnectionType::Tcp);
    let client_identity = ConnID::new(1, addr(2, 7001), NativeConnectionType::Tcp);

    let mut client = NetworkResource::new_client(Capability::Native);
    client.register_message_channel_native(reliable_settings(8), &chan).unwrap();
    assert!(client.accept_native_connection(server_identity));

    let mut server = server_with_channel(3, 8);
    assert!(server.accept_native_connection(client_identity));

    let msg: Vec<u8> = vec![0xDE, 0xAD, 0xBE, 0xEF];
    assert_eq!(
        client.send_message(&msg, &chan, &ConnectionHandle::new_native(server_identity)),
        Ok(())
    );
    let in_flight = client
        .take_outgoing(&ConnectionHandle::new_native(server_identity), &chan)
        .unwrap();
    for payload in in_flight {
        assert!(server.deliver_native_message(&client_identity, &chan, payload));
    }
    let received = server.view_messages(&chan).unwrap();
    assert_eq!(received.len(), 1);
    match &received[0].0 {
        ConnectionHandle::Native(id) => assert_eq!(*id, client_identity),
        other => panic!("expected a native identity, got {:?}", other),
    }
    assert_eq!(received[0].1, msg);
    // A second view drains nothing further.
    assert!(server.view_messages(&chan).unwrap().is_empty());
}

#[test]
fn view_messages_on_unregistered_channel_fails() {
    let mut server = server_with_channel(1, 4);
    assert_eq!(
        server.view_messages(&MessageChannelID::new(200)),
        Err(ChannelProcessingError::MessageTypeUnregistered)
    );
}

#[test]
fn disconnect_from_all_empties_both_tables() {
    let mut server = server_with_channel(1, 4);
    assert!(server.accept_native_connection(ConnID::new(1, addr(1, 8000), NativeConnectionType::Tcp)));
    assert!(server.accept_native_connection(ConnID::new(2, addr(2, 8001), NativeConnectionType::Udp)));
    for _ in 0..3 {
        assert!(server.accept_remote_connection());
    }
    server.tick();
    assert!(server.is_connected());
    server.disconnect_from_all();
    assert!(!server.is_connected());
    let unknown = ConnectionHandle::new_naia(0);
    assert_eq!(server.disconnect_from(&unknown), Err(DisconnectError::NotConnected));
}

#[test]
fn disconnect_removes_one_peer() {
    let mut server = server_with_channel(1, 4);
    let first = ConnID::new(1, addr(1, 8100), NativeConnectionType::Tcp);
    let second = ConnID::new(2, addr(2, 8101), NativeConnectionType::Tcp);
    assert!(server.accept_native_connection(first));
    assert!(server.accept_native_connection(second));
    assert_eq!(server.disconnect_from(&ConnectionHandle::new_native(first)), Ok(()));
    assert!(server.is_connected());
    assert_eq!(
        server.disconnect_from(&ConnectionHandle::new_native(first)),
        Err(DisconnectError::NotConnected)
    );
    assert_eq!(server.disconnect_from(&ConnectionHandle::new_native(second)), Ok(()));
    assert!(!server.is_connected());
}

#[test]
fn listen_is_server_only_and_connect_is_client_only() {
    let mut client = NetworkResource::new_client(Capability::Native);
    assert_eq!(
        client.listen(addr(1, 9000), addr(1, 9001), None, Some(1200)),
        Err(SetupError::WrongRole)
    );
    let mut server = NetworkResource::new_server();
    assert_eq!(
        server.connect(addr(1, 9000), Some(addr(1, 9001)), Some(1200)),
        Err(SetupError::WrongRole)
    );
    assert_eq!(
        server.listen(addr(1, 9000), addr(1, 9001), Some((addr(1, 9002), addr(1, 9003), addr(1, 9004))), None),
        Err(SetupError::MissingMaxPacketSize)
    );
    assert_eq!(
        server.listen(addr(1, 9000), addr(1, 9001), None, Some(1200)),
        Err(SetupError::MissingRemoteListenInfo)
    );
    assert!(!server.is_setup());
    assert_eq!(
        server.listen(
            addr(1, 9000),
            addr(1, 9001),
            Some((addr(1, 9002), addr(1, 9003), addr(1, 9004))),
            Some(1200)
        ),
        Ok(())
    );
    assert!(server.is_setup());
    assert_eq!(client.connect(addr(1, 9000), None, Some(1200)), Err(SetupError::MissingUdpAddress));
    assert_eq!(
        client.connect(addr(1, 9000), Some(addr(1, 9001)), None),
        Err(SetupError::MissingMaxPacketSize)
    );
    assert_eq!(client.connect(addr(1, 9000), Some(addr(1, 9001)), Some(1200)), Ok(()));
    assert!(client.is_setup());
    assert!(server.is_server() && !server.is_client());
    assert!(client.is_client() && !client.is_server());
}

#[test]
fn web_client_uses_remote_adapter_only() {
    let mut client = NetworkResource::new_client(Capability::Web);
    assert_eq!(client.connect(addr(1, 9100), None, None), Ok(()));
    // Registering a native channel on a web build accepts and ignores it.
    assert!(matches!(
        {
            let mut fresh = NetworkResource::new_client(Capability::Web);
            fresh.register_message_channel_native(reliable_settings(4), &MessageChannelID::new(1))
        },
        Ok(())
    ));
    assert!(!client.accept_native_connection(ConnID::new(
        1,
        addr(1, 9101),
        NativeConnectionType::Tcp
    )));
}

#[test]
fn frame_round_trip_is_identity() {
    let chan = MessageChannelID::new(77);
    let payload: Vec<u8> = vec![0, 255, 1, 254];
    let frame = encode_frame(&chan, &payload);
    assert_eq!(frame, vec![77, 0, 255, 1, 254]);
    let (id, decoded) = decode_frame(&frame).unwrap();
    assert_eq!(id, 77);
    assert_eq!(decoded, payload);
    assert!(decode_frame(&Vec::new()).is_none());
    assert_eq!(copy_bytes(&payload), payload);
}

#[test]
fn events_keep_arrival_order_within_a_connection() {
    let mut server = NetworkResource::new_server();
    assert!(server.accept_remote_connection());
    server.tick();
    assert!(server.deliver_remote_raw(0, RawInbound::Payload(vec![1])));
    assert!(server.deliver_remote_raw(0, RawInbound::Payload(Vec::new())));
    assert!(server.deliver_remote_raw(0, RawInbound::Payload(vec![2])));
    let events = server.tick();
    assert_eq!(events.len(), 2);
    match (&events[0], &events[1]) {
        (
            NetworkEvent::Packet(ConnectionHandle::Naia(0), first),
            NetworkEvent::Packet(ConnectionHandle::Naia(0), second),
        ) => {
            assert_eq!(first, &vec![1]);
            assert_eq!(second, &vec![2]);
        }
        other => panic!("expected two Packet events, got {:?}", other),
    }
}
