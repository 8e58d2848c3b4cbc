//! The pipeline driver: one captured frame in, decode, reassemble,
//! synthesize a flow, translate and sample it, and hand it to the flow
//! queue; then the periodic export and flush.

use vstd::prelude::*;
use crate::flow::{
    Addr, Direction, Ethernet, Flow, FlowStats, IpAddr, Key, MacAddr, Protocol, Transport,
};
use crate::packet::{self, ipv4_ok, ipv4_spec, strip_vlan, tcp_ok, wscale_of, Transport as Wire};
use crate::protocol::classify::Classify;
use crate::queue::{add_effect, export_effect, Counter, FlowQueue, Record, RecordV};
use crate::reasm::Reassembler;
use crate::sample::{accept_spec, Accept, Sampler};
use crate::time::{Timestamp, NANOS_PER_SEC};
use crate::translate::Translate;
use crate::wire::{be16, be32};

verus! {

/// The key a datagram's transport gives the synthesized flow: TCP and
/// UDP carry their ports, ICMP packs type and code into the destination
/// port, other protocols carry none; `None` when the transport header
/// is short.
pub open spec fn synth_key(src: IpAddr, dst: IpAddr, proto: u8, data: Seq<u8>) -> Option<Key> {
    if proto == 6 {
        if tcp_ok(data) {
            Some(
                Key(
                    Protocol::TCP,
                    Addr { addr: src, port: be16(data, 0) },
                    Addr { addr: dst, port: be16(data, 2) },
                ),
            )
        } else {
            None
        }
    } else if proto == 17 {
        if data.len() >= 8 {
            Some(
                Key(
                    Protocol::UDP,
                    Addr { addr: src, port: be16(data, 0) },
                    Addr { addr: dst, port: be16(data, 2) },
                ),
            )
        } else {
            None
        }
    } else if proto == 1 {
        if data.len() >= 8 {
            Some(
                Key(
                    Protocol::ICMP,
                    Addr { addr: src, port: 0 },
                    Addr { addr: dst, port: (data[0] * 256 + data[1]) as u16 },
                ),
            )
        } else {
            None
        }
    } else {
        Some(
            Key(
                Protocol::Other(proto as u16),
                Addr { addr: src, port: 0 },
                Addr { addr: dst, port: 0 },
            ),
        )
    }
}

/// The TCP flags the synthesized flow carries; zero for every other
/// transport.
pub open spec fn synth_flags(proto: u8, data: Seq<u8>) -> u16 {
    if proto == 6 {
        (be16(data, 12) & 0x1FF) as u16
    } else {
        0u16
    }
}

/// The direction of a frame against the capture interface's MAC.
pub open spec fn dir_of(mac: Option<MacAddr>, eth: Ethernet) -> Direction {
    match mac {
        Some(m) => if m == eth.dst {
            Direction::In
        } else if m == eth.src {
            Direction::Out
        } else {
            Direction::Unknown
        },
        None => Direction::Unknown,
    }
}

/// The probe: the interface's MAC for direction inference, the optional
/// sampler and translator, the reassembler, and the flow queue.
pub struct Kprobe {
    interface_mac: Option<MacAddr>,
    sampler: Option<Sampler>,
    translate: Option<Translate>,
    reasm: Reassembler,
    queue: FlowQueue,
}

impl Kprobe {
    /// Well-formed.
    pub closed spec fn wf(&self) -> bool {
        &&& self.reasm.wf()
        &&& self.queue.wf()
        &&& self.queue.scratch_len() == 0
        &&& match self.translate {
            Some(t) => t.wf(),
            None => true,
        }
    }

    /// The flow table.
    pub closed spec fn flows(&self) -> Map<Key, Counter> {
        self.queue.flows()
    }

    /// The records assembled and not yet drained.
    pub closed spec fn sent(&self) -> Seq<RecordV> {
        self.queue.sent()
    }

    /// The configured interface MAC.
    pub closed spec fn mac_spec(&self) -> Option<MacAddr> {
        self.interface_mac
    }

    /// Whether a sampler is configured.
    pub closed spec fn has_sampler(&self) -> bool {
        self.sampler is Some
    }

    /// Whether a translator is configured.
    pub closed spec fn has_translate(&self) -> bool {
        self.translate is Some
    }

    /// The queue's classifier.
    pub closed spec fn classifier(&self) -> Classify {
        self.queue.classify_spec()
    }

    /// The queue's sample rate.
    pub closed spec fn sample_spec(&self) -> u32 {
        self.queue.sample_spec()
    }

    /// Whether the queue's export clock is due at `ts`.
    pub closed spec fn export_due(&self, ts: Timestamp) -> bool {
        self.queue.export_due(ts)
    }

    /// Whether the queue's compaction clock is due at `ts`.
    pub closed spec fn compact_due(&self, ts: Timestamp) -> bool {
        self.queue.compact_due(ts)
    }

    /// A probe over its parts.
    pub fn new(
        interface_mac: Option<MacAddr>,
        sampler: Option<Sampler>,
        translate: Option<Translate>,
        queue: FlowQueue,
    ) -> (r: Kprobe)
        requires
            queue.wf(),
            queue.scratch_len() == 0,
            match translate {
                Some(t) => t.wf(),
                None => true,
            },
        ensures
            r.wf(),
            r.flows() == queue.flows(),
            r.sent() == queue.sent(),
            r.has_sampler() == (sampler is Some),
            r.has_translate() == (translate is Some),
            r.mac_spec() == interface_mac,
    {
        Kprobe { interface_mac, sampler, translate, reasm: Reassembler::new(), queue }
    }

    /// Record one captured frame: decode it, derive the direction from
    /// the interface MAC, reassemble, synthesize the flow, apply the
    /// sampler and translator, and enqueue; then run the periodic
    /// export and flush at the capture timestamp. On an unfragmented
    /// IPv4 datagram with a readable transport — and neither sampler
    /// nor translator configured — the synthesized flow's counter
    /// bookkeeping and the export pass are exactly the queue's `add`
    /// and `export` effects.
    pub fn record(&mut self, ts: Timestamp, data: &[u8])
        requires
            old(self).wf(),
            ts.wf(),
        ensures
            final(self).wf(),
            final(self).sent().len() >= old(self).sent().len(),
            final(self).sent().subrange(0, old(self).sent().len() as int) == old(self).sent(),
            ({
                &&& data@.len() >= 14
                &&& strip_vlan(data@, 14, be16(data@, 12), None) matches Some(sv)
                &&& sv.1 == 0x0800
                &&& ipv4_ok(data@.subrange(sv.2, data@.len() as int))
                &&& !ipv4_spec(data@.subrange(sv.2, data@.len() as int)).more_frags
                &&& ipv4_spec(data@.subrange(sv.2, data@.len() as int)).frag_offset == 0
                &&& synth_key(
                    IpAddr::V4(ipv4_spec(data@.subrange(sv.2, data@.len() as int)).src),
                    IpAddr::V4(ipv4_spec(data@.subrange(sv.2, data@.len() as int)).dst),
                    ipv4_spec(data@.subrange(sv.2, data@.len() as int)).protocol,
                    ipv4_spec(data@.subrange(sv.2, data@.len() as int)).payload,
                ) is Some
                &&& !old(self).has_sampler()
                &&& !old(self).has_translate()
            }) ==> ({
                let sv = strip_vlan(data@, 14, be16(data@, 12), None)->0;
                let l3 = data@.subrange(sv.2, data@.len() as int);
                let v4 = ipv4_spec(l3);
                let eth = Ethernet {
                    src: MacAddr((be32(data@, 6) * 0x1_0000 + be16(data@, 10)) as u64),
                    dst: MacAddr((be32(data@, 0) * 0x1_0000 + be16(data@, 4)) as u64),
                    vlan: sv.0,
                };
                let st = FlowStats {
                    key: synth_key(
                        IpAddr::V4(v4.src),
                        IpAddr::V4(v4.dst),
                        v4.protocol,
                        v4.payload,
                    )->0,
                    export: true,
                    tos: v4.tos,
                    tcp_flags: synth_flags(v4.protocol, v4.payload),
                    packets: 1,
                    fragments: 0,
                    bytes: crate::reasm::add_usize(v4.header_len as usize, v4.payload.len() as int),
                    ethernet: eth,
                    direction: dir_of(old(self).mac_spec(), eth),
                    timestamp: ts,
                };
                exists|fm: Map<Key, Counter>, sm: Seq<RecordV>|
                    {
                        &&& #[trigger] add_effect(
                            old(self).flows(),
                            old(self).sent(),
                            fm,
                            sm,
                            old(self).classifier().find_key_spec(st.key),
                            st,
                            old(self).sample_spec(),
                        )
                        &&& (old(self).export_due(ts) ==> export_effect(
                            fm,
                            sm,
                            final(self).flows(),
                            final(self).sent(),
                            ts,
                            old(self).compact_due(ts),
                            old(self).sample_spec(),
                        ))
                        &&& (!old(self).export_due(ts) ==> final(self).flows() == fm && final(self).sent() == sm)
                    }
            }),
    {
        let decoded = packet::decode(data);
        let (eth, pkt) = match decoded {
            Some(pair) => pair,
            None => {
                self.queue.export(ts);
                self.reasm.flush(ts);
                proof {
                    assert(self.sent().subrange(0, old(self).sent().len() as int) =~= old(self).sent());
                }
                return;
            },
        };

        let dir = match self.interface_mac {
            Some(mac) => {
                if mac == eth.dst {
                    Direction::In
                } else if mac == eth.src {
                    Direction::Out
                } else {
                    Direction::Unknown
                }
            },
            None => Direction::Unknown,
        };

        let src = pkt.src();
        let dst = pkt.dst();
        let tos = pkt.tos();
        let proto = pkt.next_protocol();
        let out = match self.reasm.reassemble(ts, pkt) {
            Some(out) => out,
            None => {
                self.queue.export(ts);
                self.reasm.flush(ts);
                proof {
                    assert(self.sent().subrange(0, old(self).sent().len() as int) =~= old(self).sent());
                }
                return;
            },
        };

        let mut flow = match Self::synthesize(eth, src, dst, tos, proto, out.data) {
            Some(f) => f,
            None => {
                self.queue.export(ts);
                self.reasm.flush(ts);
                proof {
                    assert(self.sent().subrange(0, old(self).sent().len() as int) =~= old(self).sent());
                }
                return;
            },
        };

        flow.timestamp = ts;
        flow.packets = out.packets;
        flow.fragments = out.frags;
        flow.bytes = out.bytes;
        flow.direction = dir;
        flow.export = true;

        if let Some(s) = &self.sampler {
            match s.accept(&flow) {
                Accept::Export => {
                    flow.export = true;
                },
                Accept::Decode => {
                    flow.export = false;
                },
                Accept::Ignore => {
                    self.queue.export(ts);
                    self.reasm.flush(ts);
                    proof {
                        assert(self.sent().subrange(0, old(self).sent().len() as int) =~= old(self).sent());
                    }
                    return;
                },
            }
        }

        if let Some(t) = &self.translate {
            t.translate(&mut flow);
        }

        let ghost st0 = flow.stats();
        let ghost pre_add = *self;
        self.queue.add(flow);
        let ghost fm = self.queue.flows();
        let ghost sm = self.queue.sent();
        self.queue.export(ts);
        self.reasm.flush(ts);
        proof {
            assert(self.sent().subrange(0, old(self).sent().len() as int) =~= old(self).sent());
            let svo = strip_vlan(data@, 14, be16(data@, 12), None);
            if data@.len() >= 14 && svo is Some && (svo->0).1 == 0x0800 && ipv4_ok(
                data@.subrange((svo->0).2, data@.len() as int),
            ) && !ipv4_spec(data@.subrange((svo->0).2, data@.len() as int)).more_frags && ipv4_spec(
                data@.subrange((svo->0).2, data@.len() as int),
            ).frag_offset == 0 && !old(self).has_sampler() && !old(self).has_translate() {
                let sv = svo->0;
                let l3 = data@.subrange(sv.2, data@.len() as int);
                let v4 = ipv4_spec(l3);
                let eth_s = Ethernet {
                    src: MacAddr((be32(data@, 6) * 0x1_0000 + be16(data@, 10)) as u64),
                    dst: MacAddr((be32(data@, 0) * 0x1_0000 + be16(data@, 4)) as u64),
                    vlan: sv.0,
                };
                let st = FlowStats {
                    key: synth_key(
                        IpAddr::V4(v4.src),
                        IpAddr::V4(v4.dst),
                        v4.protocol,
                        v4.payload,
                    )->0,
                    export: true,
                    tos: v4.tos,
                    tcp_flags: synth_flags(v4.protocol, v4.payload),
                    packets: 1,
                    fragments: 0,
                    bytes: crate::reasm::add_usize(v4.header_len as usize, v4.payload.len() as int),
                    ethernet: eth_s,
                    direction: dir_of(old(self).mac_spec(), eth_s),
                    timestamp: ts,
                };
                assert(eth == eth_s);
                assert(st0 == st);
                assert(add_effect(
                    old(self).flows(),
                    old(self).sent(),
                    fm,
                    sm,
                    old(self).classifier().find_key_spec(st.key),
                    st,
                    old(self).sample_spec(),
                ));
            }
        }
    }

    /// Build the flow of one reassembled datagram: the 5-tuple and
    /// transport summary by protocol, ICMP type and code packed into
    /// the destination port. `None` when the transport header is short.
    fn synthesize(
        eth: Ethernet,
        src: IpAddr,
        dst: IpAddr,
        tos: u8,
        proto: u8,
        data: Vec<u8>,
    ) -> (r: Option<Flow>)
        ensures
            r is Some <==> synth_key(src, dst, proto, data@) is Some,
            r matches Some(f) ==> {
                &&& f.wf()
                &&& Key(f.protocol, f.src, f.dst) == synth_key(src, dst, proto, data@)->0
                &&& f.ethernet == eth
                &&& f.tos == tos
                &&& f.spec_tcp_flags() == synth_flags(proto, data@)
                &&& f.export == false
                &&& f.packets == 0 && f.fragments == 0 && f.bytes == 0
                &&& f.direction == Direction::Unknown
            },
    {
        let transport = if proto == 1 {
            match crate::packet::parse_icmp(data.as_slice()) {
                Some(p) => Some(Wire::ICMP(p)),
                None => None,
            }
        } else if proto == 6 {
            match crate::packet::parse_tcp(data.as_slice()) {
                Some(p) => Some(Wire::TCP(p)),
                None => None,
            }
        } else if proto == 17 {
            match crate::packet::parse_udp(data.as_slice()) {
                Some(p) => Some(Wire::UDP(p)),
                None => None,
            }
        } else {
            Some(Wire::Other(crate::packet::Opaque { protocol: proto as u16, payload: data }))
        };
        match transport {
            Some(Wire::TCP(tcp)) => {
                let window = crate::packet::tcp_window(&tcp);
                Some(Flow {
                    timestamp: Timestamp { sec: 0, nsec: 0 },
                    ethernet: eth,
                    protocol: Protocol::TCP,
                    src: Addr { addr: src, port: tcp.src_port },
                    dst: Addr { addr: dst, port: tcp.dst_port },
                    tos,
                    transport: Transport::TCP { seq: tcp.seq, flags: tcp.flags, window },
                    packets: 0,
                    fragments: 0,
                    bytes: 0,
                    direction: Direction::Unknown,
                    export: false,
                    payload: tcp.payload,
                })
            },
            Some(Wire::UDP(udp)) => Some(Flow {
                timestamp: Timestamp { sec: 0, nsec: 0 },
                ethernet: eth,
                protocol: Protocol::UDP,
                src: Addr { addr: src, port: udp.src_port },
                dst: Addr { addr: dst, port: udp.dst_port },
                tos,
                transport: Transport::UDP,
                packets: 0,
                fragments: 0,
                bytes: 0,
                direction: Direction::Unknown,
                export: false,
                payload: udp.payload,
            }),
            Some(Wire::ICMP(icmp)) => {
                let pack: u16 = (icmp.icmp_type as u16) * 256 + icmp.icmp_code as u16;
                Some(Flow {
                    timestamp: Timestamp { sec: 0, nsec: 0 },
                    ethernet: eth,
                    protocol: Protocol::ICMP,
                    src: Addr { addr: src, port: 0 },
                    dst: Addr { addr: dst, port: pack },
                    tos,
                    transport: Transport::ICMP,
                    packets: 0,
                    fragments: 0,
                    bytes: 0,
                    direction: Direction::Unknown,
                    export: false,
                    payload: icmp.payload,
                })
            },
            Some(Wire::Other(o)) => Some(Flow {
                timestamp: Timestamp { sec: 0, nsec: 0 },
                ethernet: eth,
                protocol: Protocol::Other(o.protocol),
                src: Addr { addr: src, port: 0 },
                dst: Addr { addr: dst, port: 0 },
                tos,
                transport: Transport::Other,
                packets: 0,
                fragments: 0,
                bytes: 0,
                direction: Direction::Unknown,
                export: false,
                payload: o.payload,
            }),
            None => None,
        }
    }

    /// A capture pause: run the periodic export at the given time, with
    /// the queue's exact export effect.
    pub fn tick(&mut self, ts: Timestamp)
        requires
            old(self).wf(),
            ts.wf(),
        ensures
            final(self).wf(),
            !old(self).export_due(ts) ==> final(self).flows() == old(self).flows() && final(self).sent() == old(self).sent(),
            old(self).export_due(ts) ==> export_effect(
                old(self).flows(),
                old(self).sent(),
                final(self).flows(),
                final(self).sent(),
                ts,
                old(self).compact_due(ts),
                old(self).sample_spec(),
            ),
    {
        self.queue.export(ts);
    }

    /// Drain the records the queue has assembled: the returned records
    /// are exactly the buffered ones, which are gone afterwards.
    pub fn take_records(&mut self) -> (r: Vec<Record>)
        requires
            old(self).wf(),
        ensures
            final(self).wf(),
            final(self).sent().len() == 0,
            final(self).flows() == old(self).flows(),
            r@.map_values(|q: Record| q@) == old(self).sent(),
    {
        self.queue.take_records()
    }
}

} // verus!
