//! The decisions of an Ethernet interface: which frames to take, how ARP
//! and IPv6 neighbor discovery fill the neighbor cache, and where an IP
//! packet goes.
//!
//! Addresses are integers read big-endian from their octets: a MAC address
//! in the low 48 bits of a `u64`, an IPv4 address in a `u32`, an IPv6
//! address in a `u128`. Times are microseconds.
use std::collections::HashMap;
use vstd::prelude::*;

verus! {

broadcast use vstd::std_specs::hash::group_hash_axioms;

/// How long a learned neighbor stays valid: 60 s.
pub const NEIGHBOR_TTL_MICROS: i64 = 60_000_000;

/// The broadcast MAC address `ff:ff:ff:ff:ff:ff`.
pub const BROADCAST_MAC: u64 = 0xffff_ffff_ffff;

/// The all-zero MAC address.
pub const EMPTY_MAC: u64 = 0;

/// Whether `mac` is the broadcast address.
pub open spec fn mac_is_broadcast(mac: u64) -> bool {
    mac == BROADCAST_MAC
}

/// Whether `mac` is a multicast address: the low bit of its first octet is set.
pub open spec fn mac_is_multicast(mac: u64) -> bool {
    (mac >> 40u64) & 1 == 1
}

/// Whether `mac` names a single interface.
pub open spec fn mac_is_unicast(mac: u64) -> bool {
    !mac_is_broadcast(mac) && !mac_is_multicast(mac)
}

/// Whether the IPv4 address `a` is the limited broadcast address.
pub open spec fn ipv4_is_broadcast(a: u32) -> bool {
    a == 0xffff_ffff
}

/// Whether the IPv4 address `a` is a multicast address (224.0.0.0/4).
pub open spec fn ipv4_is_multicast(a: u32) -> bool {
    a >> 28u32 == 0xe
}

/// Whether the IPv4 address `a` is 0.0.0.0.
pub open spec fn ipv4_is_unspecified(a: u32) -> bool {
    a == 0
}

/// Whether the IPv6 address `a` is a multicast address (ff00::/8).
pub open spec fn ipv6_is_multicast(a: u128) -> bool {
    a >> 120u128 == 0xff
}

/// The solicited-node multicast address of `target`: ff02::1:ff00:0 with the
/// low 24 bits of `target`.
pub open spec fn solicited_node_spec(target: u128) -> u128 {
    0xff02_0000_0000_0000_0000_0001_ff00_0000u128 | (target & 0xff_ffff)
}

/// The MAC address an IPv6 multicast address maps to: 33:33 and the low 32
/// bits of the address.
pub open spec fn multicast_mac_spec(dst: u128) -> u64 {
    0x3333_0000_0000u64 | ((dst & 0xffff_ffff) as u64)
}

/// The MAC address whose six octets are `b`.
pub open spec fn mac_from_octets(b: Seq<u8>) -> int {
    ((((b[0] * 256 + b[1]) * 256 + b[2]) * 256 + b[3]) * 256 + b[4]) * 256 + b[5]
}

/// Whether `mac` is a multicast MAC address.
pub fn is_multicast_mac(mac: u64) -> (b: bool)
    ensures
        b == mac_is_multicast(mac),
{
    (mac >> 40u64) & 1 == 1
}

/// Whether `mac` names a single interface.
pub fn is_unicast_mac(mac: u64) -> (b: bool)
    ensures
        b == mac_is_unicast(mac),
{
    mac != BROADCAST_MAC && !is_multicast_mac(mac)
}

/// The solicited-node multicast address of `target`.
pub fn ipv6_solicited_node(target: u128) -> (a: u128)
    ensures
        a == solicited_node_spec(target),
{
    0xff02_0000_0000_0000_0000_0001_ff00_0000u128 | (target & 0xff_ffff)
}

/// The MAC address the IPv6 multicast address `dst` is sent to.
pub fn ipv6_multicast_to_ethernet(dst: u128) -> (m: u64)
    ensures
        m == multicast_mac_spec(dst),
{
    0x3333_0000_0000u64 | ((dst & 0xffff_ffff) as u64)
}

/// The MAC address whose six octets are `b`.
pub fn mac_from_bytes(b: &[u8]) -> (m: u64)
    requires
        b@.len() == 6,
    ensures
        m == mac_from_octets(b@),
{
    let m0 = b[0] as u64;
    let m1 = m0 * 256 + b[1] as u64;
    let m2 = m1 * 256 + b[2] as u64;
    let m3 = m2 * 256 + b[3] as u64;
    let m4 = m3 * 256 + b[4] as u64;
    m4 * 256 + b[5] as u64
}

/// An IP address.
#[derive(Clone, Copy, Debug, PartialEq, Eq, Structural)]
pub enum IpAddress {
    Ipv4(u32),
    Ipv6(u128),
}

/// A learned neighbor: its MAC address and when the entry expires.
#[derive(Clone, Copy, Debug, PartialEq, Eq, Structural)]
pub struct Neighbor {
    pub hardware_address: u64,
    pub expires_at: i64,
}

/// The kind of payload an Ethernet frame carries.
#[derive(Clone, Copy, Debug, PartialEq, Eq, Structural)]
pub enum EtherType {
    Ipv4,
    Ipv6,
    Arp,
    Unknown(u16),
}

/// What to do with a received frame.
#[derive(Clone, Copy, Debug, PartialEq, Eq, Structural)]
pub enum FrameAction {
    /// Not for this interface, or of no kind it handles.
    Drop,
    /// An IP packet to hand up; for IPv6 the neighbor-discovery messages in
    /// it are processed too.
    Deliver { ipv6: bool },
    /// An ARP packet to process.
    Arp,
}

/// ARP operations.
#[derive(Clone, Copy, Debug, PartialEq, Eq, Structural)]
pub enum ArpOperation {
    Request,
    Reply,
    Unknown(u16),
}

/// An Ethernet/IPv4 ARP packet.
#[derive(Clone, Copy, Debug, PartialEq, Eq, Structural)]
pub struct ArpPacket {
    pub operation: ArpOperation,
    pub source_hardware_addr: u64,
    pub source_protocol_addr: u32,
    pub target_hardware_addr: u64,
    pub target_protocol_addr: u32,
}

/// A neighbor solicitation to send: from `src_ip` to the solicited-node
/// address `dst_ip` of `target`, in a frame to `dst_mac`.
#[derive(Clone, Copy, Debug, PartialEq, Eq, Structural)]
pub struct NdpSolicit {
    pub src_ip: u128,
    pub dst_ip: u128,
    pub dst_mac: u64,
    pub target: u128,
}

/// A solicited neighbor advertisement to send: from `src_ip` to `dst_ip`
/// for `target`, in a frame to `dst_mac`.
#[derive(Clone, Copy, Debug, PartialEq, Eq, Structural)]
pub struct NdpAdvert {
    pub src_ip: u128,
    pub dst_ip: u128,
    pub dst_mac: u64,
    pub target: u128,
}

/// A request for the MAC address of a next hop.
#[derive(Clone, Copy, Debug, PartialEq, Eq, Structural)]
pub enum Resolve {
    /// An ARP request, broadcast.
    Arp(ArpPacket),
    /// A neighbor solicitation.
    Ndp(NdpSolicit),
}

/// A neighbor discovery message, as far as the cache uses it.
#[derive(Debug)]
pub enum Ndisc {
    NeighborSolicit { target_addr: u128, lladdr: Option<Vec<u8>> },
    NeighborAdvert { target_addr: u128, lladdr: Option<Vec<u8>> },
    Other,
}

/// What an ARP packet caused: the reply to send, and the sender whose
/// address was learned (the packets waiting for it can now go).
#[derive(Clone, Copy, Debug, PartialEq, Eq, Structural)]
pub struct ArpOutcome {
    pub reply: Option<ArpPacket>,
    pub learned: Option<u32>,
}

/// What a neighbor discovery message caused: the advertisement to send,
/// and the target whose address was learned from an advertisement.
#[derive(Clone, Copy, Debug, PartialEq, Eq, Structural)]
pub struct NdpOutcome {
    pub advert: Option<NdpAdvert>,
    pub learned: Option<u128>,
}

/// One step of sending the packets that wait for a next hop.
#[derive(Clone, Copy, Debug, PartialEq, Eq, Structural)]
pub enum FlushStep {
    /// Send the first waiting packet to this MAC address and go on.
    Send(u64),
    /// The entry has expired: ask again (when there is a request to send)
    /// and stop.
    Expired(Option<Resolve>),
    /// The next hop is not known: stop.
    Stop,
}

/// Where an outgoing IP packet goes.
#[derive(Clone, Copy, Debug, PartialEq, Eq, Structural)]
pub struct SendPlan {
    /// Send it now to this MAC address.
    pub transmit: Option<u64>,
    /// Ask for the next hop's address.
    pub resolve: Option<Resolve>,
    /// Keep it until the next hop is known.
    pub enqueue: bool,
}

/// The state of an Ethernet interface: its addresses and its neighbor cache.
pub struct EthernetState {
    pub mac: u64,
    pub ip: u32,
    pub ip6: Option<u128>,
    /// The IPv4 part of the neighbor cache.
    pub neighbors4: HashMap<u32, Option<Neighbor>>,
    /// The IPv6 part of the neighbor cache.
    pub neighbors6: HashMap<u128, Option<Neighbor>>,
}

impl EthernetState {
    /// The cache entry of `ip`: `None` when there is none, `Some(None)` when
    /// it was asked for and no answer came yet, `Some(Some(n))` when learned.
    pub open spec fn lookup(&self, ip: IpAddress) -> Option<Option<Neighbor>> {
        match ip {
            IpAddress::Ipv4(a) => if self.neighbors4@.contains_key(a) {
                Some(self.neighbors4@[a])
            } else {
                None
            },
            IpAddress::Ipv6(a) => if self.neighbors6@.contains_key(a) {
                Some(self.neighbors6@[a])
            } else {
                None
            },
        }
    }

    /// Whether `next` is `old` with the entry of `ip` set to `v`.
    pub open spec fn updated(old: &Self, next: &Self, ip: IpAddress, v: Option<Neighbor>) -> bool {
        &&& next.mac == old.mac
        &&& next.ip == old.ip
        &&& next.ip6 == old.ip6
        &&& next.lookup(ip) == Some(v)
        &&& forall|k: IpAddress| k != ip ==> #[trigger] next.lookup(k) == old.lookup(k)
    }

    /// Whether `next` is `old` unchanged.
    pub open spec fn unchanged(old: &Self, next: &Self) -> bool {
        &&& next.mac == old.mac
        &&& next.ip == old.ip
        &&& next.ip6 == old.ip6
        &&& forall|k: IpAddress| #[trigger] next.lookup(k) == old.lookup(k)
    }

    /// An interface with these addresses and an empty cache.
    pub fn new(mac: u64, ip: u32, ip6: Option<u128>) -> (s: Self)
        ensures
            s.mac == mac,
            s.ip == ip,
            s.ip6 == ip6,
            forall|k: IpAddress| #[trigger] s.lookup(k) == None::<Option<Neighbor>>,
    {
        EthernetState { mac, ip, ip6, neighbors4: HashMap::new(), neighbors6: HashMap::new() }
    }

    /// The cache entry of `ip`.
    pub fn neighbor(&self, ip: IpAddress) -> (r: Option<Option<Neighbor>>)
        ensures
            r == self.lookup(ip),
    {
        match ip {
            IpAddress::Ipv4(a) => match self.neighbors4.get(&a) {
                Some(v) => Some(*v),
                None => None,
            },
            IpAddress::Ipv6(a) => match self.neighbors6.get(&a) {
                Some(v) => Some(*v),
                None => None,
            },
        }
    }

    /// Sets the cache entry of `ip` to `v`.
    pub fn set_neighbor(&mut self, ip: IpAddress, v: Option<Neighbor>)
        ensures
            Self::updated(old(self), final(self), ip, v),
    {
        match ip {
            IpAddress::Ipv4(a) => {
                self.neighbors4.insert(a, v);
            },
            IpAddress::Ipv6(a) => {
                self.neighbors6.insert(a, v);
            },
        }
        assert forall|k: IpAddress| k != ip implies #[trigger] self.lookup(k) == old(self).lookup(k) by {
            match k {
                IpAddress::Ipv4(b) => {},
                IpAddress::Ipv6(b) => {},
            }
        }
    }

    /// Whether a frame sent to `dst` is for this interface: broadcast,
    /// multicast, the all-zero address, or its own address.
    pub fn accepts_frame(&self, dst: u64) -> (b: bool)
        ensures
            b == (mac_is_broadcast(dst) || mac_is_multicast(dst) || dst == EMPTY_MAC || dst
                == self.mac),
    {
        dst == BROADCAST_MAC || is_multicast_mac(dst) || dst == EMPTY_MAC || dst == self.mac
    }

    /// What to do with a received frame sent to `dst` carrying `ethertype`.
    pub fn handle_frame(&self, dst: u64, ethertype: EtherType) -> (a: FrameAction)
        ensures
            !(mac_is_broadcast(dst) || mac_is_multicast(dst) || dst == EMPTY_MAC || dst == self.mac)
                ==> a == FrameAction::Drop,
            (mac_is_broadcast(dst) || mac_is_multicast(dst) || dst == EMPTY_MAC || dst == self.mac)
                ==> a == match ethertype {
                EtherType::Ipv4 => FrameAction::Deliver { ipv6: false },
                EtherType::Ipv6 => FrameAction::Deliver { ipv6: true },
                EtherType::Arp => FrameAction::Arp,
                EtherType::Unknown(_) => FrameAction::Drop,
            },
    {
        if !self.accepts_frame(dst) {
            return FrameAction::Drop;
        }
        match ethertype {
            EtherType::Ipv4 => FrameAction::Deliver { ipv6: false },
            EtherType::Ipv6 => FrameAction::Deliver { ipv6: true },
            EtherType::Arp => FrameAction::Arp,
            EtherType::Unknown(_) => FrameAction::Drop,
        }
    }

    /// Asks for the MAC address of `target` by a broadcast ARP request, and
    /// notes that the question is pending.
    pub fn request_arp(&mut self, target: u32) -> (r: ArpPacket)
        ensures
            Self::updated(old(self), final(self), IpAddress::Ipv4(target), None),
            r == (ArpPacket {
                operation: ArpOperation::Request,
                source_hardware_addr: old(self).mac,
                source_protocol_addr: old(self).ip,
                target_hardware_addr: BROADCAST_MAC,
                target_protocol_addr: target,
            }),
    {
        let r = ArpPacket {
            operation: ArpOperation::Request,
            source_hardware_addr: self.mac,
            source_protocol_addr: self.ip,
            target_hardware_addr: BROADCAST_MAC,
            target_protocol_addr: target,
        };
        self.set_neighbor(IpAddress::Ipv4(target), None);
        r
    }

    /// Asks for the MAC address of `target` by a neighbor solicitation and
    /// notes that the question is pending; nothing when the interface has no
    /// IPv6 address.
    pub fn request_ndp(&mut self, target: u128) -> (r: Option<NdpSolicit>)
        ensures
            old(self).ip6 is None ==> r is None && Self::unchanged(old(self), final(self)),
            old(self).ip6 matches Some(src) ==> Self::updated(
                old(self),
                final(self),
                IpAddress::Ipv6(target),
                None,
            ) && r == Some(
                NdpSolicit {
                    src_ip: src,
                    dst_ip: solicited_node_spec(target),
                    dst_mac: multicast_mac_spec(solicited_node_spec(target)),
                    target,
                },
            ),
    {
        match self.ip6 {
            None => None,
            Some(src) => {
                let dst_ip = ipv6_solicited_node(target);
                let dst_mac = ipv6_multicast_to_ethernet(dst_ip);
                self.set_neighbor(IpAddress::Ipv6(target), None);
                Some(NdpSolicit { src_ip: src, dst_ip, dst_mac, target })
            },
        }
    }

    /// The request that asks for the MAC address of `ip`: ARP for IPv4; a
    /// neighbor solicitation for IPv6 when the interface has an IPv6
    /// address, otherwise none.
    pub open spec fn resolve_request(&self, ip: IpAddress) -> Option<Resolve> {
        match ip {
            IpAddress::Ipv4(a) => Some(
                Resolve::Arp(
                    ArpPacket {
                        operation: ArpOperation::Request,
                        source_hardware_addr: self.mac,
                        source_protocol_addr: self.ip,
                        target_hardware_addr: BROADCAST_MAC,
                        target_protocol_addr: a,
                    },
                ),
            ),
            IpAddress::Ipv6(a) => match self.ip6 {
                None => None,
                Some(src) => Some(
                    Resolve::Ndp(
                        NdpSolicit {
                            src_ip: src,
                            dst_ip: solicited_node_spec(a),
                            dst_mac: multicast_mac_spec(solicited_node_spec(a)),
                            target: a,
                        },
                    ),
                ),
            },
        }
    }

    /// Whether `next` is `old` after asking for `ip`: the entry is marked
    /// pending when a request goes out, and nothing changes otherwise.
    pub open spec fn after_resolve(old: &Self, next: &Self, ip: IpAddress) -> bool {
        if old.resolve_request(ip) is Some {
            Self::updated(old, next, ip, None)
        } else {
            Self::unchanged(old, next)
        }
    }

    /// Asks for the MAC address of `ip` in the way its family uses.
    pub fn resolve(&mut self, ip: IpAddress) -> (r: Option<Resolve>)
        ensures
            r == old(self).resolve_request(ip),
            Self::after_resolve(old(self), final(self), ip),
    {
        match ip {
            IpAddress::Ipv4(a) => Some(Resolve::Arp(self.request_arp(a))),
            IpAddress::Ipv6(a) => match self.request_ndp(a) {
                Some(s) => Some(Resolve::Ndp(s)),
                None => None,
            },
        }
    }

    /// Whether an ARP packet is taken into the cache: it is not addressed to
    /// another interface, its operation is known, its sender is a unicast
    /// MAC address with an ordinary IPv4 address, and it asks about this
    /// interface's IPv4 address.
    pub open spec fn arp_accepted(&self, p: ArpPacket) -> bool {
        let unicast_target = p.target_hardware_addr != EMPTY_MAC && !mac_is_broadcast(
            p.target_hardware_addr,
        );
        &&& !(unicast_target && self.mac != p.target_hardware_addr)
        &&& !(p.operation is Unknown)
        &&& mac_is_unicast(p.source_hardware_addr)
        &&& !ipv4_is_broadcast(p.source_protocol_addr)
        &&& !ipv4_is_multicast(p.source_protocol_addr)
        &&& !ipv4_is_unspecified(p.source_protocol_addr)
        &&& self.ip == p.target_protocol_addr
    }

    /// Processes a received ARP packet at time `now`. An accepted packet
    /// teaches the sender's MAC address for `NEIGHBOR_TTL_MICROS`; a request
    /// is answered with a reply from this interface.
    pub fn process_arp(&mut self, p: ArpPacket, now: i64) -> (out: ArpOutcome)
        requires
            now + NEIGHBOR_TTL_MICROS <= i64::MAX,
        ensures
            !old(self).arp_accepted(p) ==> Self::unchanged(old(self), final(self)) && out == (
            ArpOutcome { reply: None, learned: None }),
            old(self).arp_accepted(p) ==> Self::updated(
                old(self),
                final(self),
                IpAddress::Ipv4(p.source_protocol_addr),
                Some(
                    Neighbor {
                        hardware_address: p.source_hardware_addr,
                        expires_at: (now + NEIGHBOR_TTL_MICROS) as i64,
                    },
                ),
            ) && out.learned == Some(p.source_protocol_addr) && out.reply == (if p.operation
                == ArpOperation::Request {
                Some(
                    ArpPacket {
                        operation: ArpOperation::Reply,
                        source_hardware_addr: old(self).mac,
                        source_protocol_addr: old(self).ip,
                        target_hardware_addr: p.source_hardware_addr,
                        target_protocol_addr: p.source_protocol_addr,
                    },
                )
            } else {
                None
            }),
    {
        let unicast_target = p.target_hardware_addr != EMPTY_MAC && p.target_hardware_addr
            != BROADCAST_MAC;
        if unicast_target && self.mac != p.target_hardware_addr {
            return ArpOutcome { reply: None, learned: None };
        }
        if let ArpOperation::Unknown(_) = p.operation {
            return ArpOutcome { reply: None, learned: None };
        }
        let src = p.source_protocol_addr;
        if !is_unicast_mac(p.source_hardware_addr) || src == 0xffff_ffff || src >> 28u32 == 0xe
            || src == 0 {
            return ArpOutcome { reply: None, learned: None };
        }
        if self.ip != p.target_protocol_addr {
            return ArpOutcome { reply: None, learned: None };
        }
        self.set_neighbor(
            IpAddress::Ipv4(src),
            Some(
                Neighbor {
                    hardware_address: p.source_hardware_addr,
                    expires_at: now + NEIGHBOR_TTL_MICROS,
                },
            ),
        );
        let reply = match p.operation {
            ArpOperation::Request => Some(
                ArpPacket {
                    operation: ArpOperation::Reply,
                    source_hardware_addr: self.mac,
                    source_protocol_addr: self.ip,
                    target_hardware_addr: p.source_hardware_addr,
                    target_protocol_addr: src,
                },
            ),
            _ => None,
        };
        ArpOutcome { reply, learned: Some(src) }
    }

    /// Processes a neighbor discovery message from `src` at time `now`.
    ///
    /// A solicitation carrying a six-octet link-layer address teaches the
    /// sender's address; when it asks for this interface's IPv6 address it
    /// is answered with an advertisement to that link-layer address. An
    /// advertisement carrying a six-octet link-layer address teaches the
    /// target's address. Anything else changes nothing.
    pub fn process_ndp(&mut self, src: u128, ndp: &Ndisc, now: i64) -> (out: NdpOutcome)
        requires
            now + NEIGHBOR_TTL_MICROS <= i64::MAX,
        ensures
            (match ndp {
                Ndisc::NeighborSolicit { target_addr, lladdr } => {
                    let known = lladdr matches Some(ll) && ll@.len() == 6;
                    &&& known ==> Self::updated(
                        old(self),
                        final(self),
                        IpAddress::Ipv6(src),
                        Some(
                            Neighbor {
                                hardware_address: mac_from_octets(lladdr->0@) as u64,
                                expires_at: (now + NEIGHBOR_TTL_MICROS) as i64,
                            },
                        ),
                    )
                    &&& !known ==> Self::unchanged(old(self), final(self))
                    &&& out.learned is None
                    &&& out.advert == (if known && old(self).ip6 == Some(*target_addr) {
                        Some(
                            NdpAdvert {
                                src_ip: *target_addr,
                                dst_ip: src,
                                dst_mac: mac_from_octets(lladdr->0@) as u64,
                                target: *target_addr,
                            },
                        )
                    } else {
                        None
                    })
                },
                Ndisc::NeighborAdvert { target_addr, lladdr } => {
                    let known = lladdr matches Some(ll) && ll@.len() == 6;
                    &&& known ==> Self::updated(
                        old(self),
                        final(self),
                        IpAddress::Ipv6(*target_addr),
                        Some(
                            Neighbor {
                                hardware_address: mac_from_octets(lladdr->0@) as u64,
                                expires_at: (now + NEIGHBOR_TTL_MICROS) as i64,
                            },
                        ),
                    ) && out.learned == Some(*target_addr)
                    &&& !known ==> Self::unchanged(old(self), final(self)) && out.learned is None
                    &&& out.advert is None
                },
                Ndisc::Other => Self::unchanged(old(self), final(self)) && out == (NdpOutcome {
                    advert: None,
                    learned: None,
                }),
            }),
    {
        match ndp {
            Ndisc::NeighborSolicit { target_addr, lladdr } => {
                let mut advert: Option<NdpAdvert> = None;
                if let Some(ll) = lladdr {
                    if ll.len() == 6 {
                        let mac = mac_from_bytes(ll.as_slice());
                        self.set_neighbor(
                            IpAddress::Ipv6(src),
                            Some(Neighbor { hardware_address: mac, expires_at: now + NEIGHBOR_TTL_MICROS }),
                        );
                        if self.ip6 == Some(*target_addr) {
                            advert = Some(
                                NdpAdvert { src_ip: *target_addr, dst_ip: src, dst_mac: mac, target: *target_addr },
                            );
                        }
                    }
                }
                NdpOutcome { advert, learned: None }
            },
            Ndisc::NeighborAdvert { target_addr, lladdr } => {
                if let Some(ll) = lladdr {
                    if ll.len() == 6 {
                        let mac = mac_from_bytes(ll.as_slice());
                        self.set_neighbor(
                            IpAddress::Ipv6(*target_addr),
                            Some(Neighbor { hardware_address: mac, expires_at: now + NEIGHBOR_TTL_MICROS }),
                        );
                        return NdpOutcome { advert: None, learned: Some(*target_addr) };
                    }
                }
                NdpOutcome { advert: None, learned: None }
            },
            Ndisc::Other => NdpOutcome { advert: None, learned: None },
        }
    }

    /// Whether the cache entry `e` holds an address still valid at `now`.
    pub open spec fn fresh(e: Option<Option<Neighbor>>, now: i64) -> bool {
        e matches Some(Some(n)) && n.expires_at > now
    }

    /// Whether the cache entry `e` calls for a new request at `now`: there
    /// is none, or it has expired (a pending request is not repeated).
    pub open spec fn needs_resolve(e: Option<Option<Neighbor>>, now: i64) -> bool {
        match e {
            None => true,
            Some(None) => false,
            Some(Some(n)) => n.expires_at <= now,
        }
    }

    /// One step of sending the packets waiting for next hop `head` at time
    /// `now`: the first goes to the learned address while it is valid; an
    /// expired entry is asked for again and the sending stops; an unknown or
    /// pending one stops it.
    pub fn flush_step(&mut self, head: IpAddress, now: i64) -> (step: FlushStep)
        ensures
            (match old(self).lookup(head) {
                Some(Some(n)) => if n.expires_at <= now {
                    step == FlushStep::Expired(old(self).resolve_request(head))
                        && Self::after_resolve(old(self), final(self), head)
                } else {
                    step == FlushStep::Send(n.hardware_address) && Self::unchanged(
                        old(self),
                        final(self),
                    )
                },
                _ => step == FlushStep::Stop && Self::unchanged(old(self), final(self)),
            }),
    {
        match self.neighbor(head) {
            Some(Some(n)) => {
                if n.expires_at <= now {
                    FlushStep::Expired(self.resolve(head))
                } else {
                    FlushStep::Send(n.hardware_address)
                }
            },
            _ => FlushStep::Stop,
        }
    }

    /// Whether a packet for `next_hop` goes straight out without a cache
    /// lookup, and to which MAC address: IPv6 multicast to its multicast
    /// MAC address, IPv4 broadcast (the limited broadcast address or the
    /// subnet's, `ip_broadcast`) to the broadcast MAC address.
    pub open spec fn direct_mac(next_hop: IpAddress, ip_broadcast: Option<u32>) -> Option<u64> {
        match next_hop {
            IpAddress::Ipv6(h) => if ipv6_is_multicast(h) {
                Some(multicast_mac_spec(h))
            } else {
                None
            },
            IpAddress::Ipv4(a) => if ipv4_is_broadcast(a) || ip_broadcast == Some(a) {
                Some(BROADCAST_MAC)
            } else {
                None
            },
        }
    }

    /// Where a packet for `next_hop` goes at time `now`: straight out when
    /// it is multicast or broadcast (see `direct_mac`); to the learned
    /// address while it is valid; otherwise it waits in the queue unless the
    /// queue is full (`queue_full`), and its next hop is asked for unless a
    /// request is already pending.
    pub fn send(&mut self, next_hop: IpAddress, now: i64, ip_broadcast: Option<u32>, queue_full: bool) -> (plan:
        SendPlan)
        ensures
            ({
                let e = old(self).lookup(next_hop);
                if Self::direct_mac(next_hop, ip_broadcast) is Some {
                    plan == (SendPlan {
                        transmit: Self::direct_mac(next_hop, ip_broadcast),
                        resolve: None,
                        enqueue: false,
                    }) && Self::unchanged(old(self), final(self))
                } else if Self::fresh(e, now) {
                    plan == (SendPlan {
                        transmit: Some(e->0->0.hardware_address),
                        resolve: None,
                        enqueue: false,
                    }) && Self::unchanged(old(self), final(self))
                } else if Self::needs_resolve(e, now) {
                    plan == (SendPlan {
                        transmit: None,
                        resolve: old(self).resolve_request(next_hop),
                        enqueue: !queue_full,
                    }) && Self::after_resolve(old(self), final(self), next_hop)
                } else {
                    plan == (SendPlan { transmit: None, resolve: None, enqueue: !queue_full })
                        && Self::unchanged(old(self), final(self))
                }
            }),
    {
        match next_hop {
            IpAddress::Ipv6(h) => {
                if h >> 120u128 == 0xff {
                    return SendPlan {
                        transmit: Some(ipv6_multicast_to_ethernet(h)),
                        resolve: None,
                        enqueue: false,
                    };
                }
            },
            IpAddress::Ipv4(a) => {
                if a == 0xffff_ffff || ip_broadcast == Some(a) {
                    return SendPlan { transmit: Some(BROADCAST_MAC), resolve: None, enqueue: false };
                }
            },
        }
        let need_request = match self.neighbor(next_hop) {
            Some(Some(n)) => {
                if n.expires_at > now {
                    return SendPlan {
                        transmit: Some(n.hardware_address),
                        resolve: None,
                        enqueue: false,
                    };
                }
                true
            },
            Some(None) => false,
            None => true,
        };
        let resolve = if need_request {
            self.resolve(next_hop)
        } else {
            None
        };
        SendPlan { transmit: None, resolve, enqueue: !queue_full }
    }
}

/// Once a request for a next hop has gone out, later packets for it wait
/// without another request until an answer arrives.
pub proof fn lemma_pending_request_not_repeated(
    before: &EthernetState,
    after: &EthernetState,
    ip: IpAddress,
    now: i64,
)
    requires
        EthernetState::after_resolve(before, after, ip),
        before.resolve_request(ip) is Some,
    ensures
        !EthernetState::needs_resolve(after.lookup(ip), now),
        !EthernetState::fresh(after.lookup(ip), now),
{
}

/// A neighbor learned at time `learned_at` is used for exactly the next
/// `NEIGHBOR_TTL_MICROS` microseconds: it is fresh before that and calls
/// for a new request from then on.
pub proof fn lemma_learned_neighbor_lifetime(
    before: &EthernetState,
    after: &EthernetState,
    ip: IpAddress,
    mac: u64,
    learned_at: i64,
    now: i64,
)
    requires
        learned_at + NEIGHBOR_TTL_MICROS <= i64::MAX,
        EthernetState::updated(
            before,
            after,
            ip,
            Some(Neighbor { hardware_address: mac, expires_at: (learned_at + NEIGHBOR_TTL_MICROS) as i64 }),
        ),
    ensures
        now < learned_at + NEIGHBOR_TTL_MICROS ==> EthernetState::fresh(after.lookup(ip), now)
            && after.lookup(ip)->0->0.hardware_address == mac,
        now >= learned_at + NEIGHBOR_TTL_MICROS ==> EthernetState::needs_resolve(after.lookup(ip), now),
{
}

/// Learning the address of one next hop leaves every other entry as it was.
pub proof fn lemma_update_is_local(
    before: &EthernetState,
    after: &EthernetState,
    ip: IpAddress,
    v: Option<Neighbor>,
    other: IpAddress,
)
    requires
        EthernetState::updated(before, after, ip, v),
        other != ip,
    ensures
        after.lookup(other) == before.lookup(other),
        after.lookup(ip) == Some(v),
{
}

} // verus!
