//! The application decoder tags and the composite that owns one decoder
//! per protocol and dispatches by tag.

use vstd::prelude::*;
use crate::custom::Customs;
use crate::flow::{Flow, Key, Protocol, FIN, SYN};
use crate::protocol::classify::Classify;
use crate::protocol::{dhcp, dns, http, radius, tls};
use crate::time::{Duration, Timestamp};

verus! {

/// Which application decoder a flow is handled by.
#[derive(Clone, Copy, Debug, PartialEq, Eq, Structural)]
pub enum Decoder {
    DNS,
    HTTP,
    Postgres,
    TLS,
    DHCP,
    Radius,
    NoDecoder,
}

/// One optional decoder per protocol: a decoder whose required columns
/// the sink does not know stays off.
pub struct Decoders {
    dns: Option<dns::Decoder>,
    http: Option<http::Decoder>,
    tls: Option<tls::Decoder>,
    dhcp: Option<dhcp::Decoder>,
    radius: Option<radius::Decoder>,
}

impl Decoders {
    /// Whether no decoder is active: a queue built this way never sends
    /// from the decode path.
    pub closed spec fn is_inactive(&self) -> bool {
        &&& self.dns is None
        &&& self.http is None
        &&& self.tls is None
        &&& self.dhcp is None
        &&& self.radius is None
    }

    /// The DNS decoder, when active.
    pub closed spec fn dns_dec(&self) -> Option<dns::Decoder> {
        self.dns
    }

    /// The HTTP decoder, when active.
    pub closed spec fn http_dec(&self) -> Option<http::Decoder> {
        self.http
    }

    /// The TLS decoder, when active.
    pub closed spec fn tls_dec(&self) -> Option<tls::Decoder> {
        self.tls
    }

    /// The DHCP decoder, when active.
    pub closed spec fn dhcp_dec(&self) -> Option<dhcp::Decoder> {
        self.dhcp
    }

    /// The RADIUS decoder, when active.
    pub closed spec fn radius_dec(&self) -> Option<radius::Decoder> {
        self.radius
    }

    /// Well-formed: every active decoder is.
    pub closed spec fn wf(&self) -> bool {
        &&& match self.dns {
            Some(d) => d.wf(),
            None => true,
        }
        &&& match self.http {
            Some(d) => d.wf(),
            None => true,
        }
        &&& match self.tls {
            Some(d) => d.wf(),
            None => true,
        }
        &&& match self.dhcp {
            Some(d) => d.wf(),
            None => true,
        }
        &&& match self.radius {
            Some(d) => d.wf(),
            None => true,
        }
    }

    /// Build the active decoders and register their canonical ports:
    /// DNS on UDP 53, HTTP on TCP 80, TLS on TCP 443, DHCP on UDP 67
    /// and 68, RADIUS on UDP 1812 and 1813. With decoding off, none is
    /// built.
    pub fn new(cs: &Customs, classify: &mut Classify, decode: bool) -> (r: Decoders)
        ensures
            r.wf(),
            !decode ==> r.is_inactive() && *final(classify) == *old(classify),
            r.dns_dec() is Some <==> decode && dns::Decoder::enabled(*cs),
            r.http_dec() is Some <==> decode && http::Decoder::enabled(*cs),
            r.tls_dec() is Some <==> decode && tls::Decoder::enabled(*cs),
            r.dhcp_dec() is Some <==> decode && dhcp::Decoder::enabled(*cs),
            r.radius_dec() is Some <==> decode && radius::Decoder::enabled(*cs),
            r.dns_dec() is Some ==> Classify::tag_at(final(classify).udp@, 53) == Decoder::DNS,
            r.http_dec() is Some ==> Classify::tag_at(final(classify).tcp@, 80) == Decoder::HTTP,
            r.tls_dec() is Some ==> Classify::tag_at(final(classify).tcp@, 443) == Decoder::TLS,
            r.dhcp_dec() is Some ==> Classify::tag_at(final(classify).udp@, 67) == Decoder::DHCP
                && Classify::tag_at(final(classify).udp@, 68) == Decoder::DHCP,
            r.radius_dec() is Some ==> Classify::tag_at(final(classify).udp@, 1812)
                == Decoder::Radius && Classify::tag_at(final(classify).udp@, 1813)
                == Decoder::Radius,
            r.dns_dec() is None ==> Classify::tag_at(final(classify).udp@, 53) == Classify::tag_at(
                old(classify).udp@,
                53,
            ),
            r.http_dec() is None ==> Classify::tag_at(final(classify).tcp@, 80) == Classify::tag_at(
                old(classify).tcp@,
                80,
            ),
            r.tls_dec() is None ==> Classify::tag_at(final(classify).tcp@, 443) == Classify::tag_at(
                old(classify).tcp@,
                443,
            ),
            r.dhcp_dec() is None ==> Classify::tag_at(final(classify).udp@, 67) == Classify::tag_at(
                old(classify).udp@,
                67,
            ) && Classify::tag_at(final(classify).udp@, 68) == Classify::tag_at(
                old(classify).udp@,
                68,
            ),
            r.radius_dec() is None ==> Classify::tag_at(final(classify).udp@, 1812)
                == Classify::tag_at(old(classify).udp@, 1812) && Classify::tag_at(
                final(classify).udp@,
                1813,
            ) == Classify::tag_at(old(classify).udp@, 1813),
            forall|p: u16| p != 80 && p != 443 ==> Classify::tag_at(final(classify).tcp@, p)
                == Classify::tag_at(old(classify).tcp@, p),
            forall|p: u16| p != 53 && p != 67 && p != 68 && p != 1812 && p != 1813
                ==> Classify::tag_at(final(classify).udp@, p) == Classify::tag_at(
                old(classify).udp@,
                p,
            ),
    {
        let mut r = Decoders { dns: None, http: None, tls: None, dhcp: None, radius: None };
        if decode {
            if let Ok(d) = dns::Decoder::new(cs) {
                classify.add(Protocol::UDP, 53, Decoder::DNS);
                r.dns = Some(d);
            }
            if let Ok(d) = http::Decoder::new(cs) {
                classify.add(Protocol::TCP, 80, Decoder::HTTP);
                r.http = Some(d);
            }
            if let Ok(d) = tls::Decoder::new(cs) {
                classify.add(Protocol::TCP, 443, Decoder::TLS);
                r.tls = Some(d);
            }
            if let Ok(d) = dhcp::Decoder::new(cs) {
                classify.add(Protocol::UDP, 67, Decoder::DHCP);
                classify.add(Protocol::UDP, 68, Decoder::DHCP);
                r.dhcp = Some(d);
            }
            if let Ok(d) = radius::Decoder::new(cs) {
                classify.add(Protocol::UDP, 1812, Decoder::Radius);
                classify.add(Protocol::UDP, 1813, Decoder::Radius);
                r.radius = Some(d);
            }
        }
        r
    }

    /// Run the tagged decoder on one flow; an empty segment without SYN
    /// or FIN is skipped. True means a completed application message was
    /// recognized and the flow's counter should be exported now.
    pub fn decode(&mut self, d: Decoder, flow: &Flow, cs: &mut Customs) -> (r: bool)
        requires
            old(self).wf(),
            flow.wf(),
        ensures
            final(self).wf(),
            final(cs).get_spec_unchanged(*old(cs)),
            final(cs)@.len() >= old(cs)@.len() && final(cs)@.subrange(
                0,
                old(cs)@.len() as int,
            ) == old(cs)@,
            flow.payload@.len() == 0 && flow.spec_tcp_flags() & (SYN | FIN) == 0 ==> !r
                && *final(self) == *old(self) && final(cs)@ == old(cs)@,
            final(self).is_inactive() == old(self).is_inactive(),
            old(self).is_inactive() ==> !r && *final(self) == *old(self) && final(cs)@ == old(
                cs,
            )@,
    {
        if flow.payload.len() == 0 && flow.tcp_flags() & (SYN | FIN) == 0 {
            proof {
                assert(cs@.subrange(0, old(cs)@.len() as int) =~= old(cs)@);
            }
            return false;
        }
        let r = match d {
            Decoder::DNS => match &mut self.dns {
                Some(dec) => dec.decode(flow, cs),
                None => false,
            },
            Decoder::HTTP => match &mut self.http {
                Some(dec) => dec.decode(flow, cs),
                None => false,
            },
            Decoder::TLS => match &mut self.tls {
                Some(dec) => dec.decode(flow, cs),
                None => false,
            },
            Decoder::DHCP => match &mut self.dhcp {
                Some(dec) => dec.decode(flow, cs),
                None => false,
            },
            Decoder::Radius => match &mut self.radius {
                Some(dec) => dec.decode(flow, cs),
                None => false,
            },
            _ => false,
        };
        proof {
            assert(cs@.subrange(0, old(cs)@.len() as int) =~= old(cs)@);
        }
        r
    }

    /// Append steady-state fields at export time: only the TLS decoder
    /// carries them.
    pub fn append(&mut self, d: Decoder, key: &Key, cs: &mut Customs)
        requires
            old(self).wf(),
        ensures
            final(self).wf(),
            final(cs).get_spec_unchanged(*old(cs)),
            final(cs)@.len() >= old(cs)@.len() && final(cs)@.subrange(
                0,
                old(cs)@.len() as int,
            ) == old(cs)@,
    {
        match d {
            Decoder::TLS => match &mut self.tls {
                Some(dec) => {
                    dec.append(key, cs);
                    proof {
                        assert(cs@.subrange(0, old(cs)@.len() as int) =~= old(cs)@);
                    }
                },
                None => {
                    proof {
                        assert(cs@.subrange(0, old(cs)@.len() as int) =~= old(cs)@);
                    }
                },
            },
            _ => {
                proof {
                    assert(cs@.subrange(0, old(cs)@.len() as int) =~= old(cs)@);
                }
            },
        }
    }

    /// Evict per-connection state idle for a minute: in every active
    /// decoder an entry survives exactly when it is not idle at `ts`.
    pub fn clear(&mut self, ts: Timestamp)
        requires
            old(self).wf(),
            ts.wf(),
        ensures
            final(self).wf(),
            final(self).dns_dec() is Some == old(self).dns_dec() is Some,
            final(self).http_dec() is Some == old(self).http_dec() is Some,
            final(self).tls_dec() is Some == old(self).tls_dec() is Some,
            final(self).dhcp_dec() == old(self).dhcp_dec(),
            final(self).radius_dec() == old(self).radius_dec(),
            old(self).dns_dec() is Some ==> {
                let d0 = old(self).dns_dec()->0;
                let d1 = final(self).dns_dec()->0;
                &&& d1.ids() == d0.ids()
                &&& forall|k: crate::flow::AddrPair|
                    d1@.contains_key(k) <==> (#[trigger] d0@.contains_key(k) && dns::survives(
                        d0@[k],
                        ts,
                        Duration { ns: (60 * 1_000_000_000) as i64 },
                    ))
                &&& forall|k: crate::flow::AddrPair| #[trigger]
                    d1@.contains_key(k) ==> d1@[k] == d0@[k]
            },
            old(self).http_dec() is Some ==> {
                let d0 = old(self).http_dec()->0;
                let d1 = final(self).http_dec()->0;
                &&& d1.ids() == d0.ids()
                &&& forall|k: crate::flow::AddrPair|
                    d1@.contains_key(k) <==> (#[trigger] d0@.contains_key(k) && http::survives(
                        d0@[k],
                        ts,
                        Duration { ns: (60 * 1_000_000_000) as i64 },
                    ))
                &&& forall|k: crate::flow::AddrPair| #[trigger]
                    d1@.contains_key(k) ==> d1@[k] == d0@[k]
            },
            old(self).tls_dec() is Some ==> {
                let d0 = old(self).tls_dec()->0;
                let d1 = final(self).tls_dec()->0;
                &&& d1.ids() == d0.ids()
                &&& forall|k: crate::flow::AddrPair|
                    d1@.contains_key(k) <==> (#[trigger] d0@.contains_key(k) && tls::survives(
                        d0@[k],
                        ts,
                        Duration { ns: (60 * 1_000_000_000) as i64 },
                    ))
                &&& forall|k: crate::flow::AddrPair| #[trigger]
                    d1@.contains_key(k) ==> d1@[k] == d0@[k]
            },
    {
        let timeout = Duration::seconds(60);
        match &mut self.dns {
            Some(dec) => dec.clear(ts, timeout),
            None => {},
        }
        match &mut self.http {
            Some(dec) => dec.clear(ts, timeout),
            None => {},
        }
        match &mut self.tls {
            Some(dec) => dec.clear(ts, timeout),
            None => {},
        }
        match &mut self.dhcp {
            Some(dec) => dec.clear(ts),
            None => {},
        }
        match &mut self.radius {
            Some(dec) => dec.clear(ts),
            None => {},
        }
    }
}

} // verus!
