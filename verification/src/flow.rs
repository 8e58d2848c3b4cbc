//! The per-packet flow model: addresses, keys, transports and flags.

use vstd::prelude::*;
use crate::table::KeyT;
use crate::time::Timestamp;

verus! {

/// TCP FIN flag bit.
pub const FIN: u16 = 0b00001;
/// TCP SYN flag bit.
pub const SYN: u16 = 0b00010;
/// TCP RST flag bit.
pub const RST: u16 = 0b00100;
/// TCP ACK flag bit.
pub const ACK: u16 = 0b10000;

/// An IP address: a 32-bit IPv4 value or a 128-bit IPv6 value.
#[derive(Clone, Copy, Debug, PartialEq, Eq, Structural, Hash)]
pub enum IpAddr {
    V4(u32),
    V6(u128),
}

impl IpAddr {
    /// The unspecified IPv4 address.
    pub fn unspecified() -> (r: IpAddr)
        ensures
            r == IpAddr::V4(0),
    {
        IpAddr::V4(0)
    }
}

/// A link-layer address, held in the low 48 bits.
#[derive(Clone, Copy, Debug, PartialEq, Eq, Structural, Hash)]
pub struct MacAddr(pub u64);

/// An endpoint: IP address and L4 port.
#[derive(Clone, Copy, Debug, PartialEq, Eq, Structural, Hash)]
pub struct Addr {
    pub addr: IpAddr,
    pub port: u16,
}

/// The link-layer framing of a packet.
#[derive(Clone, Copy, Debug)]
pub struct Ethernet {
    pub src: MacAddr,
    pub dst: MacAddr,
    pub vlan: Option<u16>,
}

/// The L4 protocol of a flow.
#[derive(Clone, Copy, Debug, PartialEq, Eq, Structural, Hash)]
pub enum Protocol {
    ICMP,
    TCP,
    UDP,
    Other(u16),
}

/// A TCP receive window: the raw size and the shift captured at SYN.
#[derive(Clone, Copy, Debug)]
pub struct Window {
    pub size: u32,
    pub scale: u8,
}

impl Default for Window {
    /// A zero window with no scaling.
    fn default() -> (r: Window)
        ensures
            r.size == 0 && r.scale == 0,
    {
        Window { size: 0, scale: 0 }
    }
}

/// The transport header summary of a packet.
#[derive(Clone, Copy, Debug)]
pub enum Transport {
    ICMP,
    TCP { seq: u32, flags: u16, window: Window },
    UDP,
    Other,
}

/// The direction of a packet relative to the capture interface.
#[derive(Clone, Copy, Debug, PartialEq, Eq, Structural)]
pub enum Direction {
    In,
    Out,
    Unknown,
}

/// The directional identity of a flow: protocol, source, destination.
#[derive(Clone, Copy, Debug, PartialEq, Eq, Structural, Hash)]
pub struct Key(pub Protocol, pub Addr, pub Addr);

impl KeyT for Key {
    fn key_eq(&self, other: &Self) -> (r: bool)
        ensures
            r == (self == other),
    {
        self == other
    }
}

impl KeyT for Addr {
    fn key_eq(&self, other: &Self) -> (r: bool)
        ensures
            r == (self == other),
    {
        self == other
    }
}

/// An unordered address pair, as decoder connections are keyed.
#[derive(Clone, Copy, Debug, PartialEq, Eq, Structural, Hash)]
pub struct AddrPair {
    pub a: Addr,
    pub b: Addr,
}

impl AddrPair {
    /// The pair with the lower port first, so both directions share a key.
    pub fn ordered(x: Addr, y: Addr) -> (r: AddrPair)
        ensures
            x.port < y.port ==> r == (AddrPair { a: x, b: y }),
            x.port >= y.port ==> r == (AddrPair { a: y, b: x }),
    {
        if x.port < y.port {
            AddrPair { a: x, b: y }
        } else {
            AddrPair { a: y, b: x }
        }
    }
}

impl KeyT for AddrPair {
    fn key_eq(&self, other: &Self) -> (r: bool)
        ensures
            r == (self == other),
    {
        self == other
    }
}

impl KeyT for u16 {
    fn key_eq(&self, other: &Self) -> (r: bool)
        ensures
            r == (self == other),
    {
        self == other
    }
}

/// One decoded packet (or reassembled datagram) on its way into the
/// flow table.
#[derive(Clone, Debug)]
pub struct Flow {
    pub timestamp: Timestamp,
    pub ethernet: Ethernet,
    pub protocol: Protocol,
    pub src: Addr,
    pub dst: Addr,
    pub tos: u8,
    pub transport: Transport,
    pub packets: u16,
    pub fragments: u16,
    pub bytes: usize,
    pub direction: Direction,
    pub export: bool,
    pub payload: Vec<u8>,
}

impl Flow {
    /// Well-formed: the capture timestamp is in range.
    pub open spec fn wf(&self) -> bool {
        self.timestamp.wf()
    }

    /// The flow's directional key.
    pub fn key(&self) -> (r: Key)
        ensures
            r == Key(self.protocol, self.src, self.dst),
    {
        Key(self.protocol, self.src, self.dst)
    }

    /// The TCP flags, or zero for any other transport.
    pub fn tcp_flags(&self) -> (r: u16)
        ensures
            r == self.spec_tcp_flags(),
    {
        match self.transport {
            Transport::TCP { flags, .. } => flags,
            _ => 0,
        }
    }

    /// The TCP flags, or zero for any other transport.
    pub open spec fn spec_tcp_flags(&self) -> u16 {
        match self.transport {
            Transport::TCP { flags, .. } => flags,
            _ => 0,
        }
    }
}

/// The pieces of a flow the counter bookkeeping reads.
pub struct FlowStats {
    pub key: Key,
    pub export: bool,
    pub tos: u8,
    pub tcp_flags: u16,
    pub packets: u16,
    pub fragments: u16,
    pub bytes: usize,
    pub ethernet: Ethernet,
    pub direction: Direction,
    pub timestamp: Timestamp,
}

impl Flow {
    /// The counter-relevant pieces of this flow.
    pub open spec fn stats(self) -> FlowStats {
        FlowStats {
            key: Key(self.protocol, self.src, self.dst),
            export: self.export,
            tos: self.tos,
            tcp_flags: self.spec_tcp_flags(),
            packets: self.packets,
            fragments: self.fragments,
            bytes: self.bytes,
            ethernet: self.ethernet,
            direction: self.direction,
            timestamp: self.timestamp,
        }
    }
}

impl Default for Flow {
    /// An empty flow at the epoch.
    fn default() -> (r: Flow)
        ensures
            r.wf(),
            r.payload@.len() == 0,
            r.export == false,
            r.packets == 0 && r.fragments == 0 && r.bytes == 0,
    {
        Flow {
            timestamp: Timestamp { sec: 0, nsec: 0 },
            ethernet: Ethernet { src: MacAddr(0), dst: MacAddr(0), vlan: None },
            protocol: Protocol::Other(0),
            src: Addr { addr: IpAddr::V4(0), port: 0 },
            dst: Addr { addr: IpAddr::V4(0), port: 0 },
            tos: 0,
            transport: Transport::Other,
            packets: 0,
            fragments: 0,
            bytes: 0,
            direction: Direction::Unknown,
            export: false,
            payload: Vec::new(),
        }
    }
}

} // verus!
