//! The TCP listen table: which ports have IPv4 and IPv6 listeners, and the
//! queue of half-open connections of each listener.
//!
//! An IPv6 listener without `v6only` is dual-stack and conflicts with any
//! listener on its port; a `v6only` IPv6 listener conflicts only with another
//! IPv6 listener; an IPv4 listener conflicts with an IPv4 listener and with a
//! dual-stack one.
use crate::neighbor::IpAddress;
use std::collections::VecDeque;
use vstd::prelude::*;

verus! {

/// Number of TCP ports.
pub const PORT_NUM: usize = 65536;

/// Most connections a listener keeps waiting to be accepted.
pub const LISTEN_QUEUE_SIZE: usize = 512;

/// Why a listen table operation failed.
#[derive(Debug, Clone, Copy, PartialEq, Eq, Structural)]
pub enum ListenError {
    /// Another listener holds the port.
    AddrInUse,
    /// No listener of that family on the port.
    InvalidInput,
    /// No connection is ready yet.
    WouldBlock,
    /// The connection was reset before it was accepted.
    ConnectionReset,
}

/// An address and port to listen on; without an address, every address of
/// the host.
#[derive(Clone, Copy, Debug, PartialEq, Eq, Structural)]
pub struct IpListenEndpoint {
    pub addr: Option<IpAddress>,
    pub port: u16,
}

/// An address and port.
#[derive(Clone, Copy, Debug, PartialEq, Eq, Structural)]
pub struct IpEndpoint {
    pub addr: IpAddress,
    pub port: u16,
}

/// Whether `a` is an IPv6 address.
pub open spec fn is_v6(a: IpAddress) -> bool {
    a is Ipv6
}

/// A listener, the endpoint it listens on, and the sockets of its not yet
/// accepted connections.
#[derive(Debug)]
pub struct ListenEntry {
    pub listen_endpoint: IpListenEndpoint,
    pub is_ipv6: bool,
    pub v6only: bool,
    pub syn_queue: VecDeque<u64>,
}

impl ListenEntry {
    /// A listener on `listen_endpoint` with an empty queue.
    pub fn new(listen_endpoint: IpListenEndpoint, is_ipv6: bool, v6only: bool) -> (e: Self)
        ensures
            e.listen_endpoint == listen_endpoint,
            e.is_ipv6 == is_ipv6,
            e.v6only == v6only,
            e.syn_queue@ == Seq::<u64>::empty(),
    {
        ListenEntry { listen_endpoint, is_ipv6, v6only, syn_queue: VecDeque::with_capacity(LISTEN_QUEUE_SIZE) }
    }
}

impl Clone for ListenEntry {
    fn clone(&self) -> (r: Self)
        ensures
            r.listen_endpoint == self.listen_endpoint,
            r.is_ipv6 == self.is_ipv6,
            r.v6only == self.v6only,
            r.syn_queue@ == self.syn_queue@,
    {
        let q = self.syn_queue.clone();
        assert(q@ =~= self.syn_queue@);
        ListenEntry { listen_endpoint: self.listen_endpoint, is_ipv6: self.is_ipv6, v6only: self.v6only, syn_queue: q }
    }
}

/// The listeners of one port.
#[derive(Debug)]
pub struct PortEntry {
    pub v4: Option<ListenEntry>,
    pub v6: Option<ListenEntry>,
}

/// A copy of a listener slot.
fn clone_slot(e: &Option<ListenEntry>) -> (r: Option<ListenEntry>)
    ensures
        entry_view(r) == entry_view(*e),
{
    match e {
        Some(l) => Some(l.clone()),
        None => None,
    }
}

impl Clone for PortEntry {
    fn clone(&self) -> (r: Self)
        ensures
            entry_view(r.v4) == entry_view(self.v4),
            entry_view(r.v6) == entry_view(self.v6),
    {
        PortEntry { v4: clone_slot(&self.v4), v6: clone_slot(&self.v6) }
    }
}

/// Abstract state of a port: which listeners it has and their flags and queues.
pub ghost struct PortView {
    pub v4: Option<(bool, bool, Seq<u64>, IpListenEndpoint)>,
    pub v6: Option<(bool, bool, Seq<u64>, IpListenEndpoint)>,
}

/// The abstract view of a listener.
pub open spec fn entry_view(e: Option<ListenEntry>) -> Option<(bool, bool, Seq<u64>, IpListenEndpoint)> {
    match e {
        Some(l) => Some((l.is_ipv6, l.v6only, l.syn_queue@, l.listen_endpoint)),
        None => None,
    }
}

/// The abstract state of a port entry.
pub open spec fn port_view(e: PortEntry) -> PortView {
    PortView { v4: entry_view(e.v4), v6: entry_view(e.v6) }
}

/// Which listens conflict: an IPv4 listener conflicts with an IPv4 listener
/// and with a dual-stack IPv6 one, never with an IPv6-only one; an IPv6-only
/// listener conflicts only with another IPv6 listener; a dual-stack one
/// with any listener of the port.
pub proof fn lemma_listen_conflicts(p: PortView, is_ipv6: bool, v6only: bool)
    ensures
        !is_ipv6 ==> (may_listen(p, is_ipv6, v6only) <==> (p.v4 is None && (p.v6 is None || p.v6.unwrap().1))),
        is_ipv6 && v6only ==> (may_listen(p, is_ipv6, v6only) <==> p.v6 is None),
        is_ipv6 && !v6only ==> (may_listen(p, is_ipv6, v6only) <==> (p.v4 is None && p.v6 is None)),
        (p.v4 is None && p.v6 is Some && p.v6.unwrap().1) ==> may_listen(p, false, false),
{
}

/// Replacing one port's entry by one whose queues are bounded keeps every
/// port's queues bounded.
proof fn lemma_bounded_after_set(before: Seq<PortEntry>, idx: int, e: PortEntry)
    requires
        0 <= idx < before.len(),
        before.len() == PORT_NUM,
        forall|p: u16| #[trigger] queues_bounded(port_view(before[p as int])),
        queues_bounded(port_view(e)),
    ensures
        forall|p: u16| #[trigger] queues_bounded(port_view(before.update(idx, e)[p as int])),
{
    assert forall|p: u16| #[trigger] queues_bounded(port_view(before.update(idx, e)[p as int])) by {
        if p as int != idx {
            assert(before.update(idx, e)[p as int] == before[p as int]);
            assert(queues_bounded(port_view(before[p as int])));
        }
    }
}

/// Whether no listener of a port queues more than `LISTEN_QUEUE_SIZE` sockets.
pub open spec fn queues_bounded(p: PortView) -> bool {
    &&& (p.v4 matches Some(e) ==> e.2.len() <= LISTEN_QUEUE_SIZE)
    &&& (p.v6 matches Some(e) ==> e.2.len() <= LISTEN_QUEUE_SIZE)
}

/// Whether a listener of the given family may be added to a port.
pub open spec fn may_listen(p: PortView, is_ipv6: bool, v6only: bool) -> bool {
    if is_ipv6 {
        if !v6only {
            p.v4 is None && p.v6 is None
        } else {
            p.v6 is None
        }
    } else {
        p.v4 is None && !(p.v6 matches Some(e) && !e.1)
    }
}

/// The TCP listen table.
pub struct ListenTable {
    tcp: Vec<PortEntry>,
}

impl ListenTable {
    /// The state of every port.
    pub closed spec fn port(&self, port: u16) -> PortView {
        port_view(self.tcp@[port as int])
    }

    /// Whether the table covers every port and no listener queues more than
    /// `LISTEN_QUEUE_SIZE` sockets.
    pub closed spec fn wf(&self) -> bool {
        &&& self.tcp@.len() == PORT_NUM
        &&& forall|p: u16| #[trigger] queues_bounded(port_view(self.tcp@[p as int]))
    }

    /// A well-formed table holds at most `LISTEN_QUEUE_SIZE` sockets in the
    /// queue of any listener; `new` makes one and every operation keeps it so.
    pub proof fn lemma_queue_bounded(&self, port: u16, is_ipv6: bool)
        requires
            self.wf(),
        ensures
            self.listener(port, is_ipv6) matches Some(l) ==> l.2.len() <= LISTEN_QUEUE_SIZE,
    {
        assert(queues_bounded(self.port(port)));
    }

    /// A table with no listener.
    pub fn new() -> (t: Self)
        ensures
            t.wf(),
            forall|p: u16| #[trigger] t.port(p).v4 is None && t.port(p).v6 is None,
    {
        let mut tcp: Vec<PortEntry> = Vec::new();
        let mut i: usize = 0;
        while i < PORT_NUM
            invariant
                i <= PORT_NUM,
                tcp@.len() == i,
                forall|j: int| 0 <= j < i ==> (#[trigger] tcp@[j]).v4 is None && tcp@[j].v6 is None,
            decreases PORT_NUM - i,
        {
            tcp.push(PortEntry { v4: None, v6: None });
            i = i + 1;
        }
        assert forall|p: u16| #[trigger] queues_bounded(port_view(tcp@[p as int])) by {
            assert(tcp@[p as int].v4 is None && tcp@[p as int].v6 is None);
        }
        ListenTable { tcp }
    }

    /// Whether the port has no listener at all.
    pub fn can_listen(&self, port: u16) -> (b: bool)
        requires
            self.wf(),
        ensures
            b == (self.port(port).v4 is None && self.port(port).v6 is None),
    {
        let entry = &self.tcp[port as usize];
        entry.v4.is_none() && entry.v6.is_none()
    }

    /// Adds a listener of the given family on `listen_endpoint`, unless
    /// another listener of its port conflicts with it.
    pub fn listen(&mut self, listen_endpoint: IpListenEndpoint, is_ipv6: bool, v6only: bool) -> (r: Result<
        (),
        ListenError,
    >)
        requires
            old(self).wf(),
            listen_endpoint.port != 0,
        ensures
            final(self).wf(),
            r is Ok <==> may_listen(old(self).port(listen_endpoint.port), is_ipv6, v6only),
            !is_ipv6 ==> (r is Ok <==> (old(self).port(listen_endpoint.port).v4 is None && (old(self).port(
                listen_endpoint.port,
            ).v6 is None || old(self).port(listen_endpoint.port).v6.unwrap().1))),
            is_ipv6 && v6only ==> (r is Ok <==> old(self).port(listen_endpoint.port).v6 is None),
            is_ipv6 && !v6only ==> (r is Ok <==> (old(self).port(listen_endpoint.port).v4 is None && old(
                self,
            ).port(listen_endpoint.port).v6 is None)),
            r is Err ==> r == Err::<(), ListenError>(ListenError::AddrInUse) && final(self).port(listen_endpoint.port)
                == old(self).port(listen_endpoint.port),
            r is Ok && is_ipv6 ==> final(self).port(listen_endpoint.port) == (PortView {
                v4: old(self).port(listen_endpoint.port).v4,
                v6: Some((true, v6only, Seq::empty(), listen_endpoint)),
            }),
            r is Ok && !is_ipv6 ==> final(self).port(listen_endpoint.port) == (PortView {
                v4: Some((false, false, Seq::empty(), listen_endpoint)),
                v6: old(self).port(listen_endpoint.port).v6,
            }),
            forall|q: u16| q != listen_endpoint.port ==> #[trigger] final(self).port(q) == old(self).port(q),
    {
        let port = listen_endpoint.port;
        let idx = port as usize;
        let entry = &self.tcp[idx];
        if is_ipv6 {
            if !v6only {
                if entry.v4.is_some() || entry.v6.is_some() {
                    return Err(ListenError::AddrInUse);
                }
            } else if entry.v6.is_some() {
                return Err(ListenError::AddrInUse);
            }
            let mut e = self.tcp[idx].clone();
            e.v6 = Some(ListenEntry::new(listen_endpoint, true, v6only));
            proof {
                assert(queues_bounded(port_view(self.tcp@[idx as int])));
                lemma_bounded_after_set(self.tcp@, idx as int, e);
            }
            self.tcp.set(idx, e);
            assert(self.port(port).v6 == Some((true, v6only, Seq::<u64>::empty(), listen_endpoint)));
            return Ok(());
        }
        let dual = match &entry.v6 {
            Some(it) => !it.v6only,
            None => false,
        };
        if entry.v4.is_some() || dual {
            return Err(ListenError::AddrInUse);
        }
        let mut e = self.tcp[idx].clone();
        e.v4 = Some(ListenEntry::new(listen_endpoint, false, false));
        proof {
            assert(queues_bounded(port_view(self.tcp@[idx as int])));
            lemma_bounded_after_set(self.tcp@, idx as int, e);
        }
        self.tcp.set(idx, e);
        Ok(())
    }

    /// Removes the listener of the given family on `port`, if any.
    pub fn unlisten(&mut self, port: u16, is_ipv6: bool)
        requires
            old(self).wf(),
        ensures
            final(self).wf(),
            is_ipv6 ==> final(self).port(port) == (PortView { v4: old(self).port(port).v4, v6: None }),
            !is_ipv6 ==> final(self).port(port) == (PortView { v4: None, v6: old(self).port(port).v6 }),
            forall|q: u16| q != port ==> #[trigger] final(self).port(q) == old(self).port(q),
    {
        let idx = port as usize;
        let mut e = self.tcp[idx].clone();
        if is_ipv6 {
            e.v6 = None;
        } else {
            e.v4 = None;
        }
        proof {
            assert(queues_bounded(port_view(self.tcp@[idx as int])));
            lemma_bounded_after_set(self.tcp@, idx as int, e);
        }
        self.tcp.set(idx, e);
    }

    /// The queued sockets of the listener of the given family on `port`;
    /// `InvalidInput` when there is none.
    pub fn syn_queue(&self, port: u16, is_ipv6: bool) -> (r: Result<&VecDeque<u64>, ListenError>)
        requires
            self.wf(),
        ensures
            is_ipv6 ==> match self.port(port).v6 {
                Some(e) => r matches Ok(q) && q@ == e.2,
                None => r == Err::<&VecDeque<u64>, ListenError>(ListenError::InvalidInput),
            },
            !is_ipv6 ==> match self.port(port).v4 {
                Some(e) => r matches Ok(q) && q@ == e.2,
                None => r == Err::<&VecDeque<u64>, ListenError>(ListenError::InvalidInput),
            },
    {
        let entry = &self.tcp[port as usize];
        let l = if is_ipv6 {
            &entry.v6
        } else {
            &entry.v4
        };
        match l {
            Some(e) => Ok(&e.syn_queue),
            None => Err(ListenError::InvalidInput),
        }
    }

    /// Whether the listener of the given family on `port` has a connection
    /// ready; `connected[i]` tells whether its `i`-th queued socket is
    /// connected. `InvalidInput` when there is no such listener.
    pub fn can_accept(&self, port: u16, is_ipv6: bool, connected: &[bool]) -> (r: Result<bool, ListenError>)
        requires
            self.wf(),
        ensures
            self.listener(port, is_ipv6) is None ==> r == Err::<bool, ListenError>(ListenError::InvalidInput),
            self.listener(port, is_ipv6) is Some ==> r == Ok::<bool, ListenError>(
                exists|i: int| 0 <= i < self.listener(port, is_ipv6).unwrap().2.len() && i < connected.len() && connected@[i],
            ),
    {
        let q = match self.syn_queue(port, is_ipv6) {
            Ok(q) => q,
            Err(e) => return Err(e),
        };
        match first_connected(q.len(), connected) {
            Some(_) => Ok(true),
            None => Ok(false),
        }
    }

    /// The listener of the given family on `port`.
    pub open spec fn listener(&self, port: u16, is_ipv6: bool) -> Option<(bool, bool, Seq<u64>, IpListenEndpoint)> {
        if is_ipv6 {
            self.port(port).v6
        } else {
            self.port(port).v4
        }
    }

    /// Takes the first ready connection of the listener of the given family
    /// on `port`: its socket and whether the listener is IPv6. The queue's
    /// first socket moves into the taken one's place. `connected[i]` and
    /// `closed[i]` describe the `i`-th queued socket; a taken socket that is
    /// closed gives `ConnectionReset`.
    pub fn accept(&mut self, port: u16, is_ipv6: bool, connected: &[bool], closed: &[bool]) -> (r:
        Result<(u64, bool), ListenError>)
        requires
            old(self).wf(),
        ensures
            final(self).wf(),
            forall|q: u16| q != port ==> #[trigger] final(self).port(q) == old(self).port(q),
            old(self).listener(port, is_ipv6) is None ==> r == Err::<(u64, bool), ListenError>(
                ListenError::InvalidInput,
            ) && final(self).port(port) == old(self).port(port),
            old(self).listener(port, is_ipv6) matches Some(l) ==> {
                let n = l.2.len();
                match first_connected_spec(n as int, connected@) {
                    None => r == Err::<(u64, bool), ListenError>(ListenError::WouldBlock)
                        && final(self).port(port) == old(self).port(port),
                    Some(i) => {
                        &&& final(self).listener(port, is_ipv6) == Some((l.0, l.1, swap_remove_front_spec(l.2, i), l.3))
                        &&& final(self).listener(port, !is_ipv6) == old(self).listener(port, !is_ipv6)
                        &&& (i < closed.len() && closed@[i]) ==> r == Err::<(u64, bool), ListenError>(
                            ListenError::ConnectionReset,
                        )
                        &&& !(i < closed.len() && closed@[i]) ==> r == Ok::<(u64, bool), ListenError>((l.2[i], l.0))
                    },
                }
            },
    {
        let idx = port as usize;
        let mut pe = self.tcp[idx].clone();
        let entry = if is_ipv6 {
            clone_slot(&pe.v6)
        } else {
            clone_slot(&pe.v4)
        };
        let mut e = match entry {
            Some(e) => e,
            None => return Err(ListenError::InvalidInput),
        };
        let i = match first_connected(e.syn_queue.len(), connected) {
            Some(i) => i,
            None => return Err(ListenError::WouldBlock),
        };
        let handle = match swap_remove_front(&mut e.syn_queue, i) {
            Some(h) => h,
            None => return Err(ListenError::WouldBlock),
        };
        let was_ipv6 = e.is_ipv6;
        if is_ipv6 {
            pe.v6 = Some(e);
        } else {
            pe.v4 = Some(e);
        }
        proof {
            assert(queues_bounded(port_view(self.tcp@[idx as int])));
            lemma_bounded_after_set(self.tcp@, idx as int, pe);
        }
        self.tcp.set(idx, pe);
        if i < closed.len() && closed[i] {
            Err(ListenError::ConnectionReset)
        } else {
            Ok((handle, was_ipv6))
        }
    }

    /// Which listener of `port` a connection request to an IPv4 (or, with
    /// `dst_is_ipv6`, IPv6) address goes to, if any: IPv6 requests go to the
    /// IPv6 listener; IPv4 requests to the IPv4 listener, or else to a
    /// dual-stack IPv6 listener.
    pub open spec fn target_listener(p: PortView, dst_is_ipv6: bool) -> Option<bool> {
        if dst_is_ipv6 {
            if p.v6 is Some { Some(true) } else { None }
        } else if p.v4 is Some {
            Some(false)
        } else if p.v6 matches Some(e) && !e.1 {
            Some(true)
        } else {
            None
        }
    }

    /// Whether a connection request to `port` at an IPv4 (or, with
    /// `dst_is_ipv6`, IPv6) address is taken: a listener takes it, is not
    /// IPv6-only when the request is IPv4, and has room in its queue.
    pub open spec fn takes(&self, port: u16, dst_is_ipv6: bool) -> bool {
        ListenTable::target_listener(self.port(port), dst_is_ipv6) matches Some(six)
            && !(self.listener(port, six).unwrap().1 && !dst_is_ipv6)
            && self.listener(port, six).unwrap().2.len() < LISTEN_QUEUE_SIZE
    }

    /// Which listener takes a connection request: an IPv6 request the IPv6
    /// listener, IPv6-only or not; an IPv4 request the IPv4 listener, or,
    /// when there is none, a dual-stack IPv6 listener, never an IPv6-only
    /// one; and only while that listener's queue holds fewer than
    /// `LISTEN_QUEUE_SIZE` sockets.
    pub proof fn lemma_takes(&self, port: u16)
        ensures
            self.takes(port, true) <==> (self.port(port).v6 is Some && self.port(port).v6.unwrap().2.len()
                < LISTEN_QUEUE_SIZE),
            self.takes(port, false) <==> ((self.port(port).v4 is Some && !self.port(port).v4.unwrap().1
                && self.port(port).v4.unwrap().2.len() < LISTEN_QUEUE_SIZE) || (self.port(port).v4 is None && self.port(port).v6 is Some
                && !self.port(port).v6.unwrap().1 && self.port(port).v6.unwrap().2.len() < LISTEN_QUEUE_SIZE)),
    {
    }

    /// The endpoint on which the socket for a connection request to `dst`
    /// must listen: the address the chosen listener listens on and the
    /// request's port; `None` when the request is not taken.
    pub fn listen_endpoint_for(&self, dst: IpEndpoint) -> (r: Option<IpListenEndpoint>)
        requires
            self.wf(),
        ensures
            !self.takes(dst.port, is_v6(dst.addr)) ==> r is None,
            self.takes(dst.port, is_v6(dst.addr)) ==> r == Some(
                IpListenEndpoint {
                    addr: self.listener(
                        dst.port,
                        ListenTable::target_listener(self.port(dst.port), is_v6(dst.addr)).unwrap(),
                    ).unwrap().3.addr,
                    port: dst.port,
                },
            ),
    {
        proof {
            self.lemma_queue_bounded(dst.port, true);
            self.lemma_queue_bounded(dst.port, false);
        }
        let dst_is_ipv6 = match dst.addr {
            IpAddress::Ipv6(_) => true,
            IpAddress::Ipv4(_) => false,
        };
        let entry = &self.tcp[dst.port as usize];
        let l = if dst_is_ipv6 {
            &entry.v6
        } else if entry.v4.is_some() {
            &entry.v4
        } else {
            match &entry.v6 {
                Some(e) => {
                    if !e.v6only {
                        &entry.v6
                    } else {
                        return None;
                    }
                },
                None => return None,
            }
        };
        match l {
            Some(e) => {
                if e.v6only && !dst_is_ipv6 {
                    return None;
                }
                if e.syn_queue.len() >= LISTEN_QUEUE_SIZE {
                    return None;
                }
                Some(IpListenEndpoint { addr: e.listen_endpoint.addr, port: dst.port })
            },
            None => None,
        }
    }

    /// Queues the socket `handle` made for a connection request to `dst`,
    /// unless no listener takes the request, the listener is IPv6-only and
    /// the request IPv4, or its queue already holds `LISTEN_QUEUE_SIZE`
    /// sockets. `true` when the socket was queued.
    pub fn incoming_tcp_packet(&mut self, dst: IpEndpoint, handle: u64) -> (queued: bool)
        requires
            old(self).wf(),
        ensures
            final(self).wf(),
            forall|q: u16| q != dst.port ==> #[trigger] final(self).port(q) == old(self).port(q),
            queued <==> old(self).takes(dst.port, is_v6(dst.addr)),
            !queued ==> final(self).port(dst.port) == old(self).port(dst.port),
            queued ==> (ListenTable::target_listener(old(self).port(dst.port), is_v6(dst.addr)) matches Some(six)
                && {
                let l = old(self).listener(dst.port, six).unwrap();
                &&& final(self).listener(dst.port, six) == Some((l.0, l.1, l.2.push(handle), l.3))
                &&& final(self).listener(dst.port, !six) == old(self).listener(dst.port, !six)
            }),
    {
        let dst_is_ipv6 = match dst.addr {
            IpAddress::Ipv6(_) => true,
            IpAddress::Ipv4(_) => false,
        };
        self.queue_syn(dst.port, dst_is_ipv6, handle)
    }

    /// Queues `handle` on the listener that takes a request to `port` at an
    /// IPv4 (or, with `dst_is_ipv6`, IPv6) address, when one takes it.
    fn queue_syn(&mut self, port: u16, dst_is_ipv6: bool, handle: u64) -> (queued: bool)
        requires
            old(self).wf(),
        ensures
            final(self).wf(),
            forall|q: u16| q != port ==> #[trigger] final(self).port(q) == old(self).port(q),
            queued <==> (ListenTable::target_listener(old(self).port(port), dst_is_ipv6) matches Some(six)
                && (!(old(self).listener(port, six).unwrap().1 && !dst_is_ipv6)
                && old(self).listener(port, six).unwrap().2.len() < LISTEN_QUEUE_SIZE)),
            !queued ==> final(self).port(port) == old(self).port(port),
            queued ==> (ListenTable::target_listener(old(self).port(port), dst_is_ipv6) matches Some(six) && {
                let l = old(self).listener(port, six).unwrap();
                &&& final(self).listener(port, six) == Some((l.0, l.1, l.2.push(handle), l.3))
                &&& final(self).listener(port, !six) == old(self).listener(port, !six)
            }),
    {
        let idx = port as usize;
        let mut pe = self.tcp[idx].clone();
        let six = if dst_is_ipv6 {
            if pe.v6.is_some() {
                true
            } else {
                return false;
            }
        } else if pe.v4.is_some() {
            false
        } else {
            match &pe.v6 {
                Some(e) => {
                    if !e.v6only {
                        true
                    } else {
                        return false;
                    }
                },
                None => return false,
            }
        };
        let slot = if six {
            clone_slot(&pe.v6)
        } else {
            clone_slot(&pe.v4)
        };
        let mut e = match slot {
            Some(e) => e,
            None => return false,
        };
        if e.v6only && !dst_is_ipv6 {
            return false;
        }
        if e.syn_queue.len() >= LISTEN_QUEUE_SIZE {
            return false;
        }
        e.syn_queue.push_back(handle);
        if six {
            pe.v6 = Some(e);
        } else {
            pe.v4 = Some(e);
        }
        proof {
            assert(queues_bounded(port_view(self.tcp@[idx as int])));
            lemma_bounded_after_set(self.tcp@, idx as int, pe);
        }
        self.tcp.set(idx, pe);
        true
    }
}

/// The first index below `n` that `connected` marks.
pub open spec fn first_connected_spec(n: int, connected: Seq<bool>) -> Option<int>
    decreases n,
{
    if n <= 0 {
        None
    } else {
        match first_connected_spec(n - 1, connected) {
            Some(i) => Some(i),
            None => if n - 1 < connected.len() && connected[n - 1] {
                Some(n - 1)
            } else {
                None
            },
        }
    }
}

proof fn lemma_first_connected_stable(k: int, m: int, connected: Seq<bool>)
    requires
        0 <= k <= m,
        first_connected_spec(k, connected) is Some,
    ensures
        first_connected_spec(m, connected) == first_connected_spec(k, connected),
    decreases m - k,
{
    if m > k {
        lemma_first_connected_stable(k, m - 1, connected);
    }
}

proof fn lemma_first_connected(n: int, connected: Seq<bool>)
    requires
        n >= 0,
    ensures
        first_connected_spec(n, connected) matches Some(i) ==> 0 <= i < n && i < connected.len()
            && connected[i] && forall|j: int| 0 <= j < i ==> !(j < connected.len() && connected[j]),
        first_connected_spec(n, connected) is None ==> forall|j: int|
            0 <= j < n ==> !(j < connected.len() && connected[j]),
    decreases n,
{
    if n > 0 {
        lemma_first_connected(n - 1, connected);
    }
}

/// The first of the first `n` sockets that `connected` marks as connected.
fn first_connected(n: usize, connected: &[bool]) -> (r: Option<usize>)
    ensures
        r matches Some(i) ==> first_connected_spec(n as int, connected@) == Some(i as int) && i < n,
        r is None ==> first_connected_spec(n as int, connected@) is None,
        first_connected_spec(n as int, connected@) is Some <==> exists|i: int|
            0 <= i < n && i < connected.len() && connected@[i],
{
    proof {
        lemma_first_connected(n as int, connected@);
    }
    let mut i: usize = 0;
    while i < n
        invariant
            0 <= i <= n,
            first_connected_spec(i as int, connected@) is None,
        decreases n - i,
    {
        if i < connected.len() && connected[i] {
            proof {
                lemma_first_connected_stable(i + 1, n as int, connected@);
            }
            return Some(i);
        }
        i = i + 1;
    }
    None
}

/// The queue after the `i`-th socket is taken and the first one moved into its place.
pub open spec fn swap_remove_front_spec(q: Seq<u64>, i: int) -> Seq<u64> {
    if i == 0 {
        q.subrange(1, q.len() as int)
    } else {
        q.update(i, q[0]).subrange(1, q.len() as int)
    }
}

/// Calls `VecDeque::swap_remove_front`: removes the `i`-th item and returns
/// it, the first item taking its place; `None`, with the queue unchanged,
/// when there is no `i`-th item.
#[verifier::external_body]
fn swap_remove_front(q: &mut VecDeque<u64>, i: usize) -> (x: Option<u64>)
    ensures
        i < old(q)@.len() ==> x == Some(old(q)@[i as int]) && final(q)@ == swap_remove_front_spec(
            old(q)@,
            i as int,
        ),
        i >= old(q)@.len() ==> x is None && final(q)@ == old(q)@,
{
    q.swap_remove_front(i)
}

} // verus!
