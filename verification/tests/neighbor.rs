use sparreal::neighbor::{
    ipv6_multicast_to_ethernet, ipv6_solicited_node, mac_from_bytes, ArpOperation, ArpPacket,
    EtherType, EthernetState, FlushStep, FrameAction, IpAddress, Ndisc, Neighbor, Resolve,
    BROADCAST_MAC, NEIGHBOR_TTL_MICROS,
};

const MAC: u64 = 0x5254_0012_3456;
const PEER_MAC: u64 = 0x0200_0000_0001;
const IP: u32 = 0x0a00_020f; // 10.0.2.15
const PEER: u32 = 0x0a00_0202; // 10.0.2.2
const IP6: u128 = 0xfec0_0000_0000_0000_0000_0000_0000_0015;
const PEER6: u128 = 0xfec0_0000_0000_0000_0000_0000_0000_0002;

fn state() -> EthernetState {
    EthernetState::new(MAC, IP, Some(IP6))
}

fn arp_request_from_peer() -> ArpPacket {
    ArpPacket {
        operation: ArpOperation::Request,
        source_hardware_addr: PEER_MAC,
        source_protocol_addr: PEER,
        target_hardware_addr: 0,
        target_protocol_addr: IP,
    }
}

#[test]
fn frames_are_filtered_by_destination() {
    let s = state();
    assert_eq!(s.handle_frame(MAC, EtherType::Ipv4), FrameAction::Deliver { ipv6: false });
    assert_eq!(s.handle_frame(BROADCAST_MAC, EtherType::Arp), FrameAction::Arp);
    assert_eq!(s.handle_frame(0x3333_0000_0001, EtherType::Ipv6), FrameAction::Deliver { ipv6: true });
    assert_eq!(s.handle_frame(0, EtherType::Ipv4), FrameAction::Deliver { ipv6: false });
    assert_eq!(s.handle_frame(PEER_MAC, EtherType::Ipv4), FrameAction::Drop);
    assert_eq!(s.handle_frame(MAC, EtherType::Unknown(0x88cc)), FrameAction::Drop);
}

#[test]
fn arp_request_is_learned_and_answered() {
    let mut s = state();
    let out = s.process_arp(arp_request_from_peer(), 1_000);
    assert_eq!(out.learned, Some(PEER));
    assert_eq!(
        out.reply,
        Some(ArpPacket {
            operation: ArpOperation::Reply,
            source_hardware_addr: MAC,
            source_protocol_addr: IP,
            target_hardware_addr: PEER_MAC,
            target_protocol_addr: PEER,
        })
    );
    assert_eq!(
        s.neighbor(IpAddress::Ipv4(PEER)),
        Some(Some(Neighbor { hardware_address: PEER_MAC, expires_at: 1_000 + NEIGHBOR_TTL_MICROS }))
    );
}

#[test]
fn arp_reply_is_learned_without_answer() {
    let mut s = state();
    let mut p = arp_request_from_peer();
    p.operation = ArpOperation::Reply;
    p.target_hardware_addr = MAC;
    let out = s.process_arp(p, 0);
    assert_eq!(out.reply, None);
    assert_eq!(out.learned, Some(PEER));
}

#[test]
fn arp_packets_not_for_us_are_ignored() {
    let mut s = state();
    let mut other_target = arp_request_from_peer();
    other_target.target_hardware_addr = 0x0200_0000_0099;
    let mut other_ip = arp_request_from_peer();
    other_ip.target_protocol_addr = IP + 1;
    let mut multicast_sender = arp_request_from_peer();
    multicast_sender.source_hardware_addr = 0x0100_5e00_0001;
    let mut unspecified_sender = arp_request_from_peer();
    unspecified_sender.source_protocol_addr = 0;
    let mut unknown = arp_request_from_peer();
    unknown.operation = ArpOperation::Unknown(9);
    for p in [other_target, other_ip, multicast_sender, unspecified_sender, unknown] {
        let out = s.process_arp(p, 0);
        assert_eq!(out.reply, None);
        assert_eq!(out.learned, None);
    }
    assert_eq!(s.neighbor(IpAddress::Ipv4(PEER)), None);
}

#[test]
fn unknown_next_hop_is_asked_for_once() {
    let mut s = state();
    let plan = s.send(IpAddress::Ipv4(PEER), 0, Some(0x0a00_02ff), false);
    assert_eq!(plan.transmit, None);
    assert!(plan.enqueue);
    assert_eq!(
        plan.resolve,
        Some(Resolve::Arp(ArpPacket {
            operation: ArpOperation::Request,
            source_hardware_addr: MAC,
            source_protocol_addr: IP,
            target_hardware_addr: BROADCAST_MAC,
            target_protocol_addr: PEER,
        }))
    );
    assert_eq!(s.neighbor(IpAddress::Ipv4(PEER)), Some(None));
    // The request is pending: the next packet waits without a new request.
    let plan = s.send(IpAddress::Ipv4(PEER), 10, Some(0x0a00_02ff), true);
    assert_eq!(plan.resolve, None);
    assert!(!plan.enqueue);
}

#[test]
fn learned_next_hop_is_used_until_it_expires() {
    let mut s = state();
    s.process_arp(arp_request_from_peer(), 0);
    let plan = s.send(IpAddress::Ipv4(PEER), NEIGHBOR_TTL_MICROS - 1, None, false);
    assert_eq!(plan.transmit, Some(PEER_MAC));
    assert!(!plan.enqueue);
    let plan = s.send(IpAddress::Ipv4(PEER), NEIGHBOR_TTL_MICROS, None, false);
    assert_eq!(plan.transmit, None);
    assert!(plan.resolve.is_some());
    assert!(plan.enqueue);
}

#[test]
fn broadcast_and_multicast_go_out_directly() {
    let mut s = state();
    let plan = s.send(IpAddress::Ipv4(0xffff_ffff), 0, None, true);
    assert_eq!(plan.transmit, Some(BROADCAST_MAC));
    let plan = s.send(IpAddress::Ipv4(0x0a00_02ff), 0, Some(0x0a00_02ff), true);
    assert_eq!(plan.transmit, Some(BROADCAST_MAC));
    let all_nodes: u128 = 0xff02_0000_0000_0000_0000_0000_0000_0001;
    let plan = s.send(IpAddress::Ipv6(all_nodes), 0, None, true);
    assert_eq!(plan.transmit, Some(0x3333_0000_0001));
    assert_eq!(s.neighbor(IpAddress::Ipv6(all_nodes)), None);
}

#[test]
fn solicited_node_addresses() {
    let t: u128 = 0xfe80_0000_0000_0000_0211_22ff_fe33_4455;
    assert_eq!(ipv6_solicited_node(t), 0xff02_0000_0000_0000_0000_0001_ff33_4455);
    assert_eq!(ipv6_multicast_to_ethernet(ipv6_solicited_node(t)), 0x3333_ff33_4455);
    assert_eq!(mac_from_bytes(&[0x52, 0x54, 0x00, 0x12, 0x34, 0x56]), MAC);
}

#[test]
fn ipv6_without_address_sends_no_solicitation() {
    let mut s = EthernetState::new(MAC, IP, None);
    let plan = s.send(IpAddress::Ipv6(PEER6), 0, None, false);
    assert_eq!(plan.resolve, None);
    assert!(plan.enqueue);
    assert_eq!(s.neighbor(IpAddress::Ipv6(PEER6)), None);
}

#[test]
fn solicitation_for_us_is_learned_and_answered() {
    let mut s = state();
    let ndp = Ndisc::NeighborSolicit {
        target_addr: IP6,
        lladdr: Some(vec![0x02, 0, 0, 0, 0, 0x01]),
    };
    let out = s.process_ndp(PEER6, &ndp, 5);
    let advert = out.advert.unwrap();
    assert_eq!(advert.dst_mac, PEER_MAC);
    assert_eq!(advert.dst_ip, PEER6);
    assert_eq!(advert.src_ip, IP6);
    assert_eq!(advert.target, IP6);
    assert_eq!(out.learned, None);
    assert_eq!(
        s.neighbor(IpAddress::Ipv6(PEER6)),
        Some(Some(Neighbor { hardware_address: PEER_MAC, expires_at: 5 + NEIGHBOR_TTL_MICROS }))
    );
}

#[test]
fn solicitation_for_another_address_is_only_learned() {
    let mut s = state();
    let ndp = Ndisc::NeighborSolicit {
        target_addr: IP6 + 1,
        lladdr: Some(vec![0x02, 0, 0, 0, 0, 0x01]),
    };
    let out = s.process_ndp(PEER6, &ndp, 0);
    assert!(out.advert.is_none());
    assert!(s.neighbor(IpAddress::Ipv6(PEER6)).is_some());
    let short = Ndisc::NeighborSolicit { target_addr: IP6, lladdr: Some(vec![1, 2, 3]) };
    let out = s.process_ndp(PEER6 + 1, &short, 0);
    assert!(out.advert.is_none());
    assert_eq!(s.neighbor(IpAddress::Ipv6(PEER6 + 1)), None);
}

#[test]
fn advertisement_teaches_the_target() {
    let mut s = state();
    let ndp = Ndisc::NeighborAdvert {
        target_addr: PEER6,
        lladdr: Some(vec![0x02, 0, 0, 0, 0, 0x01]),
    };
    let out = s.process_ndp(PEER6, &ndp, 0);
    assert_eq!(out.learned, Some(PEER6));
    assert_eq!(s.flush_step(IpAddress::Ipv6(PEER6), 1), FlushStep::Send(PEER_MAC));
    let none = Ndisc::NeighborAdvert { target_addr: PEER6 + 1, lladdr: None };
    assert_eq!(s.process_ndp(PEER6, &none, 0).learned, None);
    assert!(s.process_ndp(PEER6, &Ndisc::Other, 0).advert.is_none());
}

#[test]
fn flush_stops_at_unknown_and_asks_again_when_expired() {
    let mut s = state();
    assert_eq!(s.flush_step(IpAddress::Ipv4(PEER), 0), FlushStep::Stop);
    s.process_arp(arp_request_from_peer(), 0);
    assert_eq!(s.flush_step(IpAddress::Ipv4(PEER), 1), FlushStep::Send(PEER_MAC));
    match s.flush_step(IpAddress::Ipv4(PEER), NEIGHBOR_TTL_MICROS) {
        FlushStep::Expired(Some(Resolve::Arp(p))) => assert_eq!(p.target_protocol_addr, PEER),
        other => panic!("unexpected step {:?}", other),
    }
    assert_eq!(s.neighbor(IpAddress::Ipv4(PEER)), Some(None));
    assert_eq!(s.flush_step(IpAddress::Ipv4(PEER), NEIGHBOR_TTL_MICROS), FlushStep::Stop);
}
