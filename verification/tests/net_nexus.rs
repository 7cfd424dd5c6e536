use aweos::netd::packet::{build_udp_ipv4, checksum16, EthernetFrame, Ipv4Header, PacketError, UdpHeader, ETH_HEADER, MAX_PACKET};
use aweos::netd::{FirewallAction, MacAddress, NetworkDaemon, SocketProtocol, MAX_PACKET_LEN};
use aweos::nexus::{NexusHeader, NexusMessage, NexusRouter, ServiceEndpoint, MessageRing, MAX_QUEUE_DEPTH};

#[test]
fn socket_firewall_and_packet_engine_work() {
    let mut netd = NetworkDaemon::new();
    netd.add_interface(MacAddress([0x02, 0, 0, 0, 0, 1])).unwrap();
    assert_eq!(netd.create_socket(SocketProtocol::Udp, 100).unwrap(), 1);
    netd.add_firewall_rule(Some(SocketProtocol::Udp), 2000, 2000, FirewallAction::Allow).unwrap();
    let mut frame = [0u8; MAX_PACKET_LEN];
    let n = build_udp_ipv4(&mut frame, [1; 6], [2; 6], [10, 0, 0, 1], [10, 0, 0, 2], 1000, 2000, b"hello").unwrap();
    let (_, udp) = netd.validate_ipv4_udp(&frame[..n], Some(2000)).unwrap();
    assert_eq!(udp.source_port, 1000);
    assert_eq!(udp.destination_port, 2000);
}

#[test]
fn invalid_port_range_is_rejected() {
    let mut netd = NetworkDaemon::new();
    assert!(netd.add_firewall_rule(None, 200, 100, FirewallAction::Allow).is_err());
}

#[test]
fn udp_ipv4_packet_build_and_parse() {
    let mut packet = [0u8; MAX_PACKET];
    let n = build_udp_ipv4(&mut packet, [1, 2, 3, 4, 5, 6], [6, 5, 4, 3, 2, 1], [10, 0, 0, 1], [10, 0, 0, 2], 1000, 2000, b"hello")
        .unwrap();
    assert_eq!(EthernetFrame::parse(&packet[..n]).unwrap().ethertype, 0x0800);
    let ip = Ipv4Header::parse(&packet[ETH_HEADER..n]).unwrap();
    assert_eq!(ip.protocol, 17);
    assert_eq!(ip.source, [10, 0, 0, 1]);
    let udp = UdpHeader::parse(&packet[ETH_HEADER + ip.header_len..n]).unwrap();
    assert_eq!(udp.destination_port, 2000);
    assert_eq!(udp.length, 13);
}

#[test]
fn rejects_bad_ipv4_checksum() {
    let mut packet = [0u8; MAX_PACKET];
    let n = build_udp_ipv4(&mut packet, [1; 6], [2; 6], [10, 0, 0, 1], [10, 0, 0, 2], 1, 2, b"x").unwrap();
    packet[ETH_HEADER + 8] ^= 1;
    assert_eq!(Ipv4Header::parse(&packet[ETH_HEADER..n]), Err(PacketError::InvalidChecksum));
}

#[test]
fn build_refuses_a_buffer_too_small() {
    let mut packet = [0u8; 20];
    assert!(build_udp_ipv4(&mut packet, [1; 6], [2; 6], [10, 0, 0, 1], [10, 0, 0, 2], 1, 2, b"x").is_err());
}

#[test]
fn checksum_of_header_with_its_checksum_is_zero() {
    let mut packet = [0u8; MAX_PACKET];
    build_udp_ipv4(&mut packet, [1; 6], [2; 6], [192, 168, 1, 1], [192, 168, 1, 2], 5, 6, b"abc").unwrap();
    assert_eq!(checksum16(&packet[ETH_HEADER..ETH_HEADER + 20]), 0);
}

#[test]
fn firewall_denies_by_default() {
    let mut netd = NetworkDaemon::new();
    assert_eq!(netd.evaluate_packet(SocketProtocol::Tcp, 80), FirewallAction::Deny);
    netd.add_firewall_rule(Some(SocketProtocol::Tcp), 80, 90, FirewallAction::Allow).unwrap();
    assert_eq!(netd.evaluate_packet(SocketProtocol::Tcp, 85), FirewallAction::Allow);
    assert_eq!(netd.evaluate_packet(SocketProtocol::Udp, 85), FirewallAction::Deny);
}

#[test]
fn test_nexus_service_registration_and_routing() {
    let mut router = NexusRouter::new();
    let s1 = ServiceEndpoint::new(1, 0b11);
    let s2 = ServiceEndpoint::new(2, 0b11);
    assert!(router.register_service(s1).is_ok());
    assert!(router.register_service(s2).is_ok());
    let header = NexusHeader { sender_id: 1, receiver_id: 2, opcode: 0x01, payload_len: 4, sequence_num: 1, required_capability: 0b01 };
    let msg = NexusMessage::new(header, &[10, 20, 30, 40]).unwrap();
    assert!(router.send_message(1, msg).is_ok());
    let recv = router.receive_message(2).expect("Should receive message");
    assert_eq!(recv.header.sender_id, 1);
    assert_eq!(&recv.payload[..4], &[10, 20, 30, 40]);
}

#[test]
fn test_nexus_capability_denial() {
    let mut router = NexusRouter::new();
    let s1 = ServiceEndpoint::new(1, 0b00);
    let s2 = ServiceEndpoint::new(2, 0b11);
    router.register_service(s1).unwrap();
    router.register_service(s2).unwrap();
    let header = NexusHeader { sender_id: 1, receiver_id: 2, opcode: 0x01, payload_len: 2, sequence_num: 1, required_capability: 0b10 };
    let msg = NexusMessage::new(header, &[1, 2]).unwrap();
    assert!(router.send_message(1, msg).is_err());
}

#[test]
fn message_ring_is_fifo_and_bounded() {
    let mut ring = MessageRing::new();
    for i in 0..MAX_QUEUE_DEPTH {
        let header = NexusHeader { sender_id: 1, receiver_id: 2, opcode: i as u16, payload_len: 1, sequence_num: i as u32, required_capability: 0 };
        ring.enqueue(NexusMessage::new(header, &[i as u8]).unwrap()).unwrap();
    }
    let header = NexusHeader { sender_id: 1, receiver_id: 2, opcode: 99, payload_len: 1, sequence_num: 99, required_capability: 0 };
    assert!(ring.enqueue(NexusMessage::new(header, &[0]).unwrap()).is_err());
    for i in 0..MAX_QUEUE_DEPTH {
        assert_eq!(ring.dequeue().unwrap().header.sequence_num, i as u32);
    }
    assert!(ring.dequeue().is_none());
}

#[test]
fn publish_reaches_subscribers() {
    let mut router = NexusRouter::new();
    router.register_service(ServiceEndpoint::new(1, 0b11)).unwrap();
    router.register_service(ServiceEndpoint::new(2, 0b11)).unwrap();
    router.create_topic(7, 0b01).unwrap();
    assert!(router.create_topic(7, 0b01).is_err());
    assert!(router.publish_event(1, 8, b"x").is_err());
}
