//! The port classifier: two dense port-indexed tables, one for TCP and
//! one for UDP, mapping a flow's ports to an application decoder tag.

use vstd::prelude::*;
use crate::flow::{Flow, Key, Protocol};
use crate::protocol::decode::Decoder;

verus! {

/// The decoder tag registered for each TCP and UDP port.
pub struct Classify {
    pub tcp: Vec<Decoder>,
    pub udp: Vec<Decoder>,
}

impl Classify {
    /// The tag at `port`, with unregistered and out-of-range ports `None`.
    pub open spec fn tag_at(v: Seq<Decoder>, port: u16) -> Decoder {
        if port < v.len() {
            v[port as int]
        } else {
            Decoder::NoDecoder
        }
    }

    /// The tag a pair of ports classifies to: the smaller port is tried
    /// first, and the other is the fallback.
    pub open spec fn search_spec(v: Seq<Decoder>, src: u16, dst: u16) -> Decoder {
        let x = if src <= dst { src } else { dst };
        let y = if src <= dst { dst } else { src };
        if Self::tag_at(v, x) != Decoder::NoDecoder {
            Self::tag_at(v, x)
        } else {
            Self::tag_at(v, y)
        }
    }

    /// The tag a directional key classifies to: by ports for TCP and
    /// UDP, nothing for every other protocol.
    pub open spec fn find_key_spec(&self, key: Key) -> Decoder {
        match key.0 {
            Protocol::TCP => Self::search_spec(self.tcp@, key.1.port, key.2.port),
            Protocol::UDP => Self::search_spec(self.udp@, key.1.port, key.2.port),
            _ => Decoder::NoDecoder,
        }
    }

    /// The tag a whole flow classifies to.
    pub open spec fn find_spec(&self, flow: Flow) -> Decoder {
        self.find_key_spec(Key(flow.protocol, flow.src, flow.dst))
    }

    /// A classifier with no ports registered.
    pub fn new() -> (r: Classify)
        ensures
            r.tcp@.len() == 512,
            r.udp@.len() == 512,
            forall|p: u16| Self::tag_at(r.tcp@, p) == Decoder::NoDecoder,
            forall|p: u16| Self::tag_at(r.udp@, p) == Decoder::NoDecoder,
    {
        let mut tcp: Vec<Decoder> = Vec::new();
        let mut udp: Vec<Decoder> = Vec::new();
        tcp.resize(512, Decoder::NoDecoder);
        udp.resize(512, Decoder::NoDecoder);
        Classify { tcp, udp }
    }

    fn insert(vec: &mut Vec<Decoder>, port: u16, d: Decoder)
        ensures
            Self::tag_at(final(vec)@, port) == d,
            forall|p: u16| p != port ==> Self::tag_at(final(vec)@, p) == Self::tag_at(old(vec)@, p),
            final(vec)@.len() >= old(vec)@.len(),
    {
        let port = port as usize;
        if port >= vec.len() {
            vec.resize(port + 1, Decoder::NoDecoder);
        }
        let _old = vec.remove(port);
        vec.insert(port, d);
        proof {
            assert(forall|p: u16| p != port ==> Self::tag_at(vec@, p) == Self::tag_at(
                old(vec)@,
                p,
            ));
        }
    }

    /// Register `d` for `port` under the given protocol, which must be
    /// TCP or UDP.
    pub fn add(&mut self, p: Protocol, port: u16, d: Decoder)
        requires
            p == Protocol::TCP || p == Protocol::UDP,
        ensures
            p == Protocol::TCP ==> {
                &&& Self::tag_at(final(self).tcp@, port) == d
                &&& forall|q: u16| q != port ==> Self::tag_at(final(self).tcp@, q) == Self::tag_at(
                    old(self).tcp@,
                    q,
                )
                &&& final(self).udp == old(self).udp
            },
            p == Protocol::UDP ==> {
                &&& Self::tag_at(final(self).udp@, port) == d
                &&& forall|q: u16| q != port ==> Self::tag_at(final(self).udp@, q) == Self::tag_at(
                    old(self).udp@,
                    q,
                )
                &&& final(self).tcp == old(self).tcp
            },
    {
        match p {
            Protocol::TCP => Self::insert(&mut self.tcp, port, d),
            Protocol::UDP => Self::insert(&mut self.udp, port, d),
            _ => {},
        }
    }

    /// The decoder tag for a flow: the smaller port wins, the other is
    /// the fallback, and non-TCP/UDP flows classify to `None`.
    pub fn find(&self, flow: &Flow) -> (r: Decoder)
        ensures
            r == self.find_spec(*flow),
    {
        match flow.protocol {
            Protocol::TCP => Self::search(&self.tcp, flow.src.port, flow.dst.port),
            Protocol::UDP => Self::search(&self.udp, flow.src.port, flow.dst.port),
            _ => Decoder::NoDecoder,
        }
    }

    fn search(vec: &Vec<Decoder>, src: u16, dst: u16) -> (r: Decoder)
        ensures
            r == Self::search_spec(vec@, src, dst),
    {
        let (x, y) = if src <= dst {
            (src as usize, dst as usize)
        } else {
            (dst as usize, src as usize)
        };
        let first = if x < vec.len() {
            vec[x]
        } else {
            Decoder::NoDecoder
        };
        if first != Decoder::NoDecoder {
            first
        } else if y < vec.len() {
            vec[y]
        } else {
            Decoder::NoDecoder
        }
    }
}

} // verus!
