//! The packet decoder: Ethernet framing with chained VLAN tags, IPv4
//! and IPv6 headers, and the TCP/UDP/ICMP transports, all read from raw
//! bytes.

use vstd::prelude::*;
use crate::flow::{Ethernet, IpAddr, MacAddr, Window, SYN};
use crate::protocol::dns::be128;
use crate::wire::{be16, be32, read_be16, read_be32, sub_vec};

verus! {

/// A parsed IPv4 header and its clamped payload.
pub struct Ipv4Packet {
    pub src: u32,
    pub dst: u32,
    pub tos: u8,
    pub total_len: u16,
    pub header_len: u8,
    pub id: u16,
    pub more_frags: bool,
    pub frag_offset: u16,
    pub protocol: u8,
    pub buf_len: usize,
    pub payload: Vec<u8>,
}

/// The mathematical value of an `Ipv4Packet`.
pub struct Ipv4V {
    pub src: u32,
    pub dst: u32,
    pub tos: u8,
    pub total_len: u16,
    pub header_len: u8,
    pub id: u16,
    pub more_frags: bool,
    pub frag_offset: u16,
    pub protocol: u8,
    pub buf_len: int,
    pub payload: Seq<u8>,
}

impl View for Ipv4Packet {
    type V = Ipv4V;

    open spec fn view(&self) -> Ipv4V {
        Ipv4V {
            src: self.src,
            dst: self.dst,
            tos: self.tos,
            total_len: self.total_len,
            header_len: self.header_len,
            id: self.id,
            more_frags: self.more_frags,
            frag_offset: self.frag_offset,
            protocol: self.protocol,
            buf_len: self.buf_len as int,
            payload: self.payload@,
        }
    }
}

/// A parsed IPv6 header and its clamped payload.
pub struct Ipv6Packet {
    pub src: u128,
    pub dst: u128,
    pub traffic_class: u8,
    pub payload_len: u16,
    pub next_header: u8,
    pub buf_len: usize,
    pub payload: Vec<u8>,
}

/// The mathematical value of an `Ipv6Packet`.
pub struct Ipv6V {
    pub src: u128,
    pub dst: u128,
    pub traffic_class: u8,
    pub payload_len: u16,
    pub next_header: u8,
    pub buf_len: int,
    pub payload: Seq<u8>,
}

impl View for Ipv6Packet {
    type V = Ipv6V;

    open spec fn view(&self) -> Ipv6V {
        Ipv6V {
            src: self.src,
            dst: self.dst,
            traffic_class: self.traffic_class,
            payload_len: self.payload_len,
            next_header: self.next_header,
            buf_len: self.buf_len as int,
            payload: self.payload@,
        }
    }
}

/// An unrecognized protocol carried as raw bytes.
pub struct Opaque {
    pub protocol: u16,
    pub payload: Vec<u8>,
}

impl Opaque {
    /// Wrap raw bytes under a protocol number.
    pub fn new(protocol: u16, payload: Vec<u8>) -> (r: Opaque)
        ensures
            r.protocol == protocol,
            r.payload@ == payload@,
    {
        Opaque { protocol, payload }
    }
}

/// A decoded network-layer packet.
pub enum Packet {
    IPv4(Ipv4Packet),
    IPv6(Ipv6Packet),
    Other(Opaque),
}

/// The clamped length of an IPv4 payload: what the total-length field
/// announces beyond the header, limited to the bytes that are there.
pub open spec fn v4_payload_len(s: Seq<u8>) -> int {
    let ihl = (s[0] & 0xF) * 4;
    let announced: int = if be16(s, 2) >= ihl {
        be16(s, 2) - ihl
    } else {
        0
    };
    if s.len() - ihl <= announced {
        s.len() - ihl
    } else {
        announced
    }
}

/// Whether an L3 buffer carries a well-formed IPv4 header.
pub open spec fn ipv4_ok(s: Seq<u8>) -> bool {
    s.len() >= 20 && 20 <= (s[0] & 0xF) * 4 <= s.len()
}

/// The IPv4 packet an L3 buffer denotes.
pub open spec fn ipv4_spec(s: Seq<u8>) -> Ipv4V {
    let ihl = (s[0] & 0xF) * 4;
    Ipv4V {
        src: be32(s, 12),
        dst: be32(s, 16),
        tos: s[1],
        total_len: be16(s, 2),
        header_len: ihl as u8,
        id: be16(s, 4),
        more_frags: s[6] & 0x20 == 0x20,
        frag_offset: (be16(s, 6) & 0x1FFF) as u16,
        protocol: s[9],
        buf_len: s.len() as int,
        payload: s.subrange(ihl as int, ihl + v4_payload_len(s)),
    }
}

/// Parse an IPv4 packet from an L3 buffer.
pub fn parse_ipv4(b: &[u8]) -> (r: Option<Ipv4Packet>)
    ensures
        match r {
            Some(p) => ipv4_ok(b@) && p@ == ipv4_spec(b@),
            None => !ipv4_ok(b@),
        },
{
    if b.len() < 20 {
        return None;
    }
    let ihl = (b[0] & 0xF) as usize * 4;
    if ihl < 20 || ihl > b.len() {
        return None;
    }
    let total = read_be16(b, 2);
    let announced: usize = if total as usize >= ihl {
        total as usize - ihl
    } else {
        0
    };
    let avail = b.len() - ihl;
    let n = if avail <= announced {
        avail
    } else {
        announced
    };
    let fword = read_be16(b, 6);
    Some(Ipv4Packet {
        src: read_be32(b, 12),
        dst: read_be32(b, 16),
        tos: b[1],
        total_len: total,
        header_len: ihl as u8,
        id: read_be16(b, 4),
        more_frags: b[6] & 0x20 == 0x20,
        frag_offset: fword & 0x1FFF,
        protocol: b[9],
        buf_len: b.len(),
        payload: sub_vec(b, ihl, ihl + n),
    })
}

/// Whether an L3 buffer carries a full IPv6 header.
pub open spec fn ipv6_ok(s: Seq<u8>) -> bool {
    s.len() >= 40
}

/// The IPv6 packet an L3 buffer denotes.
pub open spec fn ipv6_spec(s: Seq<u8>) -> Ipv6V {
    let announced = be16(s, 4) as int;
    let avail = s.len() - 40;
    let n: int = if avail <= announced {
        avail
    } else {
        announced
    };
    Ipv6V {
        src: be128(s, 8),
        dst: be128(s, 24),
        traffic_class: ((be16(s, 0) >> 4) & 0xFF) as u8,
        payload_len: be16(s, 4),
        next_header: s[6],
        buf_len: s.len() as int,
        payload: s.subrange(40, 40 + n),
    }
}

/// Parse an IPv6 packet from an L3 buffer.
pub fn parse_ipv6(b: &[u8]) -> (r: Option<Ipv6Packet>)
    ensures
        match r {
            Some(p) => ipv6_ok(b@) && p@ == ipv6_spec(b@),
            None => !ipv6_ok(b@),
        },
{
    if b.len() < 40 {
        return None;
    }
    let announced = read_be16(b, 4) as usize;
    let avail = b.len() - 40;
    let n = if avail <= announced {
        avail
    } else {
        announced
    };
    let src: u128 = (read_be32(b, 8) as u128) * 0x1_0000_0000_0000_0000_0000_0000 + (read_be32(
        b,
        12,
    ) as u128) * 0x1_0000_0000_0000_0000 + (read_be32(b, 16) as u128) * 0x1_0000_0000 + (read_be32(
        b,
        20,
    ) as u128);
    let dst: u128 = (read_be32(b, 24) as u128) * 0x1_0000_0000_0000_0000_0000_0000 + (read_be32(
        b,
        28,
    ) as u128) * 0x1_0000_0000_0000_0000 + (read_be32(b, 32) as u128) * 0x1_0000_0000 + (read_be32(
        b,
        36,
    ) as u128);
    Some(Ipv6Packet {
        src,
        dst,
        traffic_class: ((read_be16(b, 0) >> 4) & 0xFF) as u8,
        payload_len: read_be16(b, 4),
        next_header: b[6],
        buf_len: b.len(),
        payload: sub_vec(b, 40, 40 + n),
    })
}

impl Packet {
    /// The source address.
    pub fn src(&self) -> (r: IpAddr)
        ensures
            r == match self {
                Packet::IPv4(p) => IpAddr::V4(p.src),
                Packet::IPv6(p) => IpAddr::V6(p.src),
                Packet::Other(_) => IpAddr::V4(0),
            },
    {
        match self {
            Packet::IPv4(p) => IpAddr::V4(p.src),
            Packet::IPv6(p) => IpAddr::V6(p.src),
            Packet::Other(_) => IpAddr::V4(0),
        }
    }

    /// The destination address.
    pub fn dst(&self) -> (r: IpAddr)
        ensures
            r == match self {
                Packet::IPv4(p) => IpAddr::V4(p.dst),
                Packet::IPv6(p) => IpAddr::V6(p.dst),
                Packet::Other(_) => IpAddr::V4(0),
            },
    {
        match self {
            Packet::IPv4(p) => IpAddr::V4(p.dst),
            Packet::IPv6(p) => IpAddr::V6(p.dst),
            Packet::Other(_) => IpAddr::V4(0),
        }
    }

    /// The type-of-service byte: DSCP and ECN for IPv4, the traffic
    /// class for IPv6.
    pub fn tos(&self) -> (r: u8)
        ensures
            r == match self {
                Packet::IPv4(p) => p.tos,
                Packet::IPv6(p) => p.traffic_class,
                Packet::Other(_) => 0u8,
            },
    {
        match self {
            Packet::IPv4(p) => p.tos,
            Packet::IPv6(p) => p.traffic_class,
            Packet::Other(_) => 0,
        }
    }

    /// The packet's own length on the wire at L3.
    pub fn len(&self) -> (r: usize)
        ensures
            r as int == match self {
                Packet::IPv4(p) => p@.buf_len,
                Packet::IPv6(p) => p@.buf_len,
                Packet::Other(o) => o.payload@.len() as int,
            },
    {
        match self {
            Packet::IPv4(p) => p.buf_len,
            Packet::IPv6(p) => p.buf_len,
            Packet::Other(o) => o.payload.len(),
        }
    }

    /// The upper-layer protocol number, where one applies.
    pub open spec fn next_protocol_spec(&self) -> u8 {
        match self {
            Packet::IPv4(p) => p.protocol,
            Packet::IPv6(p) => p.next_header,
            Packet::Other(_) => 0u8,
        }
    }

    /// The upper-layer protocol number, where one applies.
    pub fn next_protocol(&self) -> (r: u8)
        ensures
            r == self.next_protocol_spec(),
    {
        match self {
            Packet::IPv4(p) => p.protocol,
            Packet::IPv6(p) => p.next_header,
            Packet::Other(_) => 0,
        }
    }
}

/// A parsed TCP header and payload.
pub struct TcpPacket {
    pub src_port: u16,
    pub dst_port: u16,
    pub seq: u32,
    pub flags: u16,
    pub window_size: u16,
    pub wscale: u8,
    pub payload: Vec<u8>,
}

/// A parsed UDP header and payload.
pub struct UdpPacket {
    pub src_port: u16,
    pub dst_port: u16,
    pub payload: Vec<u8>,
}

/// A parsed ICMP header and payload.
pub struct IcmpPacket {
    pub icmp_type: u8,
    pub icmp_code: u8,
    pub payload: Vec<u8>,
}

/// A decoded transport.
pub enum Transport {
    ICMP(IcmpPacket),
    TCP(TcpPacket),
    UDP(UdpPacket),
    Other(Opaque),
}

/// The window scale announced in a SYN's options, default one: walk
/// the option bytes in `[pos, end)` for kind 3 with length 3.
pub open spec fn wscale_spec(s: Seq<u8>, pos: int, end: int, acc: u8) -> u8
    decreases end - pos,
{
    if pos < 0 || pos >= end || end > s.len() {
        acc
    } else if s[pos] == 0 {
        acc
    } else if s[pos] == 1 {
        wscale_spec(s, pos + 1, end, acc)
    } else if pos + 1 >= end {
        acc
    } else {
        let olen = s[pos + 1] as int;
        if olen < 2 || pos + olen > end {
            acc
        } else {
            let acc2 = if s[pos] == 3 && olen == 3 {
                s[pos + 2]
            } else {
                acc
            };
            wscale_spec(s, pos + olen, end, acc2)
        }
    }
}

fn wscale_exec(b: &[u8], pos: usize, end: usize, acc: u8) -> (r: u8)
    requires
        end <= b@.len(),
    ensures
        r == wscale_spec(b@, pos as int, end as int, acc),
    decreases end - pos,
{
    if pos >= end {
        acc
    } else if b[pos] == 0 {
        acc
    } else if b[pos] == 1 {
        wscale_exec(b, pos + 1, end, acc)
    } else if pos + 1 >= end {
        acc
    } else {
        let olen = b[pos + 1] as usize;
        if olen < 2 || olen > end || pos > end - olen {
            acc
        } else {
            let acc2 = if b[pos] == 3 && olen == 3 {
                b[pos + 2]
            } else {
                acc
            };
            wscale_exec(b, pos + olen, end, acc2)
        }
    }
}

/// Whether a buffer carries a full TCP header.
pub open spec fn tcp_ok(s: Seq<u8>) -> bool {
    s.len() >= 20 && 20 <= (s[12] >> 4) * 4 <= s.len()
}

/// The window scale a TCP header announces: read from the options only
/// on a SYN, defaulting to one.
pub open spec fn wscale_of(s: Seq<u8>) -> u8 {
    if (be16(s, 12) & 0x1FF) as u16 & SYN == SYN {
        wscale_spec(s, 20, (s[12] >> 4) * 4, 1)
    } else {
        1
    }
}

/// Parse a TCP segment; the returned packet's fields match the header
/// bytes and its payload the bytes past the data offset.
pub fn parse_tcp(b: &[u8]) -> (r: Option<TcpPacket>)
    ensures
        match r {
            Some(p) => {
                &&& tcp_ok(b@)
                &&& p.src_port == be16(b@, 0)
                &&& p.dst_port == be16(b@, 2)
                &&& p.seq == be32(b@, 4)
                &&& p.flags == (be16(b@, 12) & 0x1FF) as u16
                &&& p.window_size == be16(b@, 14)
                &&& p.wscale == wscale_of(b@)
                &&& p.payload@ == b@.subrange((b@[12] >> 4) * 4, b@.len() as int)
            },
            None => !tcp_ok(b@),
        },
{
    if b.len() < 20 {
        return None;
    }
    let off = (b[12] >> 4) as usize * 4;
    if off < 20 || off > b.len() {
        return None;
    }
    let flags = read_be16(b, 12) & 0x1FF;
    let wscale = if flags & SYN == SYN {
        wscale_exec(b, 20, off, 1)
    } else {
        1
    };
    Some(TcpPacket {
        src_port: read_be16(b, 0),
        dst_port: read_be16(b, 2),
        seq: read_be32(b, 4),
        flags,
        window_size: read_be16(b, 14),
        wscale,
        payload: sub_vec(b, off, b.len()),
    })
}

/// Parse a UDP datagram.
pub fn parse_udp(b: &[u8]) -> (r: Option<UdpPacket>)
    ensures
        match r {
            Some(p) => {
                &&& b@.len() >= 8
                &&& p.src_port == be16(b@, 0)
                &&& p.dst_port == be16(b@, 2)
                &&& p.payload@ == b@.subrange(8, b@.len() as int)
            },
            None => b@.len() < 8,
        },
{
    if b.len() < 8 {
        return None;
    }
    Some(UdpPacket {
        src_port: read_be16(b, 0),
        dst_port: read_be16(b, 2),
        payload: sub_vec(b, 8, b.len()),
    })
}

/// Parse an ICMP message.
pub fn parse_icmp(b: &[u8]) -> (r: Option<IcmpPacket>)
    ensures
        match r {
            Some(p) => {
                &&& b@.len() >= 8
                &&& p.icmp_type == b@[0]
                &&& p.icmp_code == b@[1]
                &&& p.payload@ == b@.subrange(8, b@.len() as int)
            },
            None => b@.len() < 8,
        },
{
    if b.len() < 8 {
        return None;
    }
    Some(IcmpPacket { icmp_type: b[0], icmp_code: b[1], payload: sub_vec(b, 8, b.len()) })
}

/// The clamped upper-layer slice a packet admits of a datagram's
/// bytes: limited by the length the network header announces.
pub open spec fn clamp_spec(p: Packet, data: Seq<u8>) -> Seq<u8> {
    match p {
        Packet::IPv4(p) => {
            let m: int = if p@.total_len >= p@.header_len {
                p@.total_len - p@.header_len
            } else {
                0
            };
            data.take(if data.len() <= m {
                data.len() as int
            } else {
                m
            })
        },
        Packet::IPv6(p) => data.take(
            if data.len() <= p@.payload_len {
                data.len() as int
            } else {
                p@.payload_len as int
            },
        ),
        Packet::Other(_) => data,
    }
}

impl Packet {
    /// The clamped upper-layer slice of a datagram's bytes: limited by
    /// the length the network header announces.
    pub fn payload_slice(&self, data: &[u8]) -> (r: Vec<u8>)
        ensures
            r@ == clamp_spec(*self, data@),
    {
        match self {
            Packet::IPv4(p) => {
                let m: usize = if p.total_len >= p.header_len as u16 {
                    (p.total_len - p.header_len as u16) as usize
                } else {
                    0
                };
                let n = if data.len() <= m {
                    data.len()
                } else {
                    m
                };
                let r = sub_vec(data, 0, n);
                proof {
                    assert(r@ =~= data@.take(n as int));
                }
                r
            },
            Packet::IPv6(p) => {
                let m = p.payload_len as usize;
                let n = if data.len() <= m {
                    data.len()
                } else {
                    m
                };
                let r = sub_vec(data, 0, n);
                proof {
                    assert(r@ =~= data@.take(n as int));
                }
                r
            },
            Packet::Other(_) => {
                let r = sub_vec(data, 0, data.len());
                proof {
                    assert(r@ =~= data@);
                }
                r
            },
        }
    }

    /// The transport of a datagram's bytes, by the network header's
    /// protocol number: ICMP, TCP, UDP, or opaque.
    pub fn transport(&self, data: &[u8]) -> (r: Option<Transport>)
        ensures
            ({
                let c = clamp_spec(*self, data@);
                match r {
                    Some(t) => {
                        &&& (t matches Transport::ICMP(p) ==> self.next_protocol_spec() == 1
                            && c.len() >= 8 && p.icmp_type == c[0] && p.icmp_code == c[1])
                        &&& (t matches Transport::TCP(p) ==> self.next_protocol_spec() == 6
                            && tcp_ok(c) && p.src_port == be16(c, 0) && p.dst_port == be16(c, 2)
                            && p.seq == be32(c, 4) && p.flags == (be16(c, 12) & 0x1FF) as u16
                            && p.window_size == be16(c, 14) && p.wscale == wscale_of(c)
                            && p.payload@ == c.subrange((c[12] >> 4) * 4, c.len() as int))
                        &&& (t matches Transport::UDP(p) ==> self.next_protocol_spec() == 17
                            && c.len() >= 8 && p.src_port == be16(c, 0) && p.dst_port == be16(c, 2)
                            && p.payload@ == c.subrange(8, c.len() as int))
                        &&& (t matches Transport::Other(o) ==> o.protocol
                            == self.next_protocol_spec() && o.payload@ == c)
                    },
                    None => true,
                }
            }),
    {
        let clamped = self.payload_slice(data);
        let proto: u8 = self.next_protocol();
        let is_other = match self {
            Packet::Other(_) => true,
            _ => false,
        };
        if is_other {
            return None;
        }
        let b = clamped.as_slice();
        if proto == 1 {
            match parse_icmp(b) {
                Some(p) => Some(Transport::ICMP(p)),
                None => None,
            }
        } else if proto == 6 {
            match parse_tcp(b) {
                Some(p) => Some(Transport::TCP(p)),
                None => None,
            }
        } else if proto == 17 {
            match parse_udp(b) {
                Some(p) => Some(Transport::UDP(p)),
                None => None,
            }
        } else {
            Some(Transport::Other(Opaque { protocol: proto as u16, payload: clamped }))
        }
    }
}

/// The effective TCP receive window of a parsed segment.
pub fn tcp_window(p: &TcpPacket) -> (r: Window)
    ensures
        r.size == p.window_size,
        r.scale == p.wscale,
{
    Window { size: p.window_size as u32, scale: p.wscale }
}

/// A parsed Ethernet frame: addresses, the innermost VLAN id of any
/// chained 802.1Q tags, the final ethertype, and the L3 bytes.
pub struct Frame {
    pub ethernet: Ethernet,
    pub ethertype: u16,
    pub l3: Vec<u8>,
}

/// Strip chained VLAN tags: the innermost VLAN id, the final ethertype
/// and the payload position, from `pos` with the current ethertype.
pub open spec fn strip_vlan(s: Seq<u8>, pos: int, ethertype: u16, vlan: Option<u16>) -> Option<
    (Option<u16>, u16, int),
>
    decreases s.len() - pos,
{
    if ethertype != 0x8100 {
        Some((vlan, ethertype, pos))
    } else if pos < 0 || pos + 4 > s.len() {
        None
    } else {
        strip_vlan(
            s,
            pos + 4,
            be16(s, pos + 2),
            Some((be16(s, pos) & 0xFFF) as u16),
        )
    }
}

/// Decode an Ethernet frame: the MAC addresses, the innermost VLAN id,
/// and the L3 packet by ethertype. `None` when the framing is short.
pub fn decode(frame: &[u8]) -> (r: Option<(Ethernet, Packet)>)
    ensures
        frame@.len() < 14 ==> r is None,
        r is None ==> frame@.len() < 14 || strip_vlan(frame@, 14, be16(frame@, 12), None) is None
            || (strip_vlan(frame@, 14, be16(frame@, 12), None) matches Some(sv) && ((sv.1 == 0x0800
            && !ipv4_ok(frame@.subrange(sv.2, frame@.len() as int))) || (sv.1 == 0x86DD
            && !ipv6_ok(frame@.subrange(sv.2, frame@.len() as int))))),
        r matches Some(pair) ==> {
            &&& frame@.len() >= 14
            &&& pair.0.dst.0 == be32(frame@, 0) * 0x1_0000 + be16(frame@, 4)
            &&& pair.0.src.0 == be32(frame@, 6) * 0x1_0000 + be16(frame@, 10)
            &&& strip_vlan(frame@, 14, be16(frame@, 12), None) matches Some(sv) ==> {
                let l3 = frame@.subrange(sv.2, frame@.len() as int);
                &&& pair.0.vlan == sv.0
                &&& (sv.1 == 0x0800 ==> (pair.1 matches Packet::IPv4(p) && p@ == ipv4_spec(l3)))
                &&& (sv.1 == 0x86DD ==> (pair.1 matches Packet::IPv6(p) && p@ == ipv6_spec(l3)))
                &&& (sv.1 != 0x0800 && sv.1 != 0x86DD ==> (pair.1 matches Packet::Other(o)
                    && o.protocol == sv.1 && o.payload@ == l3))
            }
        },
{
    if frame.len() < 14 {
        return None;
    }
    let dst_hi = read_be32(frame, 0);
    let dst_lo = read_be16(frame, 4);
    let src_hi = read_be32(frame, 6);
    let src_lo = read_be16(frame, 10);
    let dst = MacAddr((dst_hi as u64) * 0x1_0000 + dst_lo as u64);
    let src = MacAddr((src_hi as u64) * 0x1_0000 + src_lo as u64);

    let mut ethertype = read_be16(frame, 12);
    let mut pos: usize = 14;
    let mut vlan: Option<u16> = None;
    while ethertype == 0x8100
        invariant
            14 <= pos <= frame@.len(),
            strip_vlan(frame@, 14, be16(frame@, 12), None) == strip_vlan(
                frame@,
                pos as int,
                ethertype,
                vlan,
            ),
        decreases frame@.len() - pos,
    {
        if frame.len() - pos < 4 {
            return None;
        }
        vlan = Some(read_be16(frame, pos) & 0xFFF);
        ethertype = read_be16(frame, pos + 2);
        pos = pos + 4;
    }

    let l3 = sub_vec(frame, pos, frame.len());
    let ethernet = Ethernet { src, dst, vlan };
    if ethertype == 0x0800 {
        match parse_ipv4(l3.as_slice()) {
            Some(p) => Some((ethernet, Packet::IPv4(p))),
            None => None,
        }
    } else if ethertype == 0x86DD {
        match parse_ipv6(l3.as_slice()) {
            Some(p) => Some((ethernet, Packet::IPv6(p))),
            None => None,
        }
    } else {
        Some((ethernet, Packet::Other(Opaque { protocol: ethertype, payload: l3 })))
    }
}

/// Decode a raw L3 buffer by its version nibble, as the mirror side
/// mode hands them over (it strips an eight-byte mirror header first).
pub fn decode_from_l3(buf: &[u8]) -> (r: Option<Packet>)
    ensures
        buf@.len() == 0 ==> r is None,
{
    if buf.len() < 1 {
        return None;
    }
    let ver = buf[0] >> 4;
    if ver == 4 {
        match parse_ipv4(buf) {
            Some(p) => Some(Packet::IPv4(p)),
            None => None,
        }
    } else if ver == 6 {
        match parse_ipv6(buf) {
            Some(p) => Some(Packet::IPv6(p)),
            None => None,
        }
    } else {
        None
    }
}

} // verus!
