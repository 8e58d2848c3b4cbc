//! Timers, timestamps, identifiers, sampling, classification, the
//! customs dictionary, and the flow queue's bookkeeping.

use kprobe::custom::{
    Custom, Customs, Value, APP_LATENCY, APP_PROTOCOL, CONNECTION_ID, FPX_LATENCY, FRAGMENTS,
};
use kprobe::flow::{
    Addr, Direction, Ethernet, Flow, IpAddr, Key, MacAddr, Protocol, Transport, Window, ACK, SYN,
};
use kprobe::protocol::classify::Classify;
use kprobe::protocol::decode::Decoder;
use kprobe::queue::FlowQueue;
use kprobe::sample::{Accept, Sampler};
use kprobe::time::{Duration, Timestamp};
use kprobe::timer::{Timeout, Timer};
use kprobe::track::id::Generator;
use kprobe::track::Tracker;

fn dict() -> Vec<(String, u64)> {
    let names = [
        "FRAGMENTS",
        "APPL_LATENCY_MS",
        "FPEX_LATENCY_MS",
        "CLIENT_NW_LATENCY_MS",
        "SERVER_NW_LATENCY_MS",
        "RETRANSMITTED_OUT_PKTS",
        "REPEATED_RETRANSMITS",
        "OOORDER_IN_PKTS",
        "RECEIVE_WINDOW",
        "ZERO_WINDOWS",
        "CONNECTION_ID",
        "KFLOW_DNS_QUERY",
        "KFLOW_DNS_QUERY_TYPE",
        "KFLOW_DNS_RET_CODE",
        "KFLOW_DNS_RESPONSE",
        "KFLOW_HTTP_URL",
        "KFLOW_HTTP_HOST",
        "KFLOW_HTTP_REFERER",
        "KFLOW_HTTP_UA",
        "KFLOW_HTTP_STATUS",
        "TLS_SERVER_NAME",
        "TLS_SERVER_VERSION",
        "TLS_CIPHER_SUITE",
        "DHCP_OP",
        "DHCP_MSG_TYPE",
        "DHCP_CI_ADDR",
        "DHCP_YI_ADDR",
        "DHCP_SI_ADDR",
        "DHCP_LEASE",
        "DHCP_CH_ADDR",
        "DHCP_HOSTNAME",
        "DHCP_DOMAIN",
        "RADIUS_CODE",
        "RADIUS_USER_NAME",
        "RADIUS_SERVICE_TYPE",
        "RADIUS_FRAMED_IP_ADDR",
        "RADIUS_FRAMED_IP_MASK",
        "RADIUS_FRAMED_PROTO",
        "RADIUS_ACCT_SESSION_ID",
        "RADIUS_ACCT_STATUS",
    ];
    names
        .iter()
        .enumerate()
        .map(|(i, n)| (n.to_string(), (i + 1) as u64))
        .collect()
}

pub fn customs() -> Customs {
    Customs::new(&dict())
}

pub fn value_of(cs: &Customs, name: &str) -> Option<Value> {
    let id = cs.get(name).ok()?;
    cs.entries()
        .iter()
        .find(|c| c.id == id)
        .map(|c: &Custom| c.value.clone())
}

fn ts(sec: u64, nsec: u64) -> Timestamp {
    Timestamp { sec, nsec }
}

fn flow(src: u32, dst: u32, export: bool) -> Flow {
    Flow {
        timestamp: Timestamp { sec: 0, nsec: 0 },
        ethernet: Ethernet {
            src: MacAddr(0x000102030405),
            dst: MacAddr(0x000a0b0c0d0e),
            vlan: None,
        },
        protocol: Protocol::TCP,
        src: Addr {
            addr: IpAddr::V4(src),
            port: src as u16,
        },
        dst: Addr {
            addr: IpAddr::V4(dst),
            port: dst as u16,
        },
        tos: 7,
        transport: Transport::TCP {
            seq: 11,
            flags: SYN,
            window: Window { size: 0, scale: 0 },
        },
        packets: 13,
        fragments: 17,
        bytes: 19,
        direction: Direction::Out,
        export,
        payload: Vec::new(),
    }
}

#[test]
fn timer_ready() {
    let mut timer = Timer::new(Duration::seconds(2));
    let t0 = Timestamp { sec: 0, nsec: 0 };

    assert_eq!(true, timer.ready(t0)); // timer starts ready
    assert_eq!(false, timer.ready(t0.plus(Duration::seconds(1))));
    assert_eq!(true, timer.ready(t0.plus(Duration::seconds(2))));
    assert_eq!(false, timer.ready(t0.plus(Duration::seconds(3))));
    assert_eq!(true, timer.ready(t0.plus(Duration::seconds(4))));
}

#[test]
fn timeout_range() {
    let max = Duration::seconds(2);
    let mut timeout = Timeout::new(max);
    let zero = Timestamp { sec: 0, nsec: 0 };

    for i in 0..10 {
        let start = zero.plus(Duration::seconds(i));
        let first = timeout.first(start);
        assert!(!first.lt(start) && !start.plus(max).lt(first));
    }
}

#[test]
fn time_sanity_checks() {
    let system = std::time::SystemTime::now()
        .duration_since(std::time::UNIX_EPOCH)
        .unwrap()
        .as_secs();
    let timestamp = Timestamp::now().sec;
    assert!(timestamp >= system);
    assert!(timestamp - system < 2);

    let timestamp = Timestamp::zero().plus(Duration::seconds(2));
    assert_eq!(2, timestamp.sec);

    let t0 = Timestamp::zero().plus(Duration::seconds(2));
    let t1 = Timestamp::zero().plus(Duration::seconds(4));
    assert_eq!(Duration::seconds(2), t1.minus(t0));
}

#[test]
fn test_id_generator() {
    let g = Generator::new();
    let mut a = flow(23, 31, false);
    let mut b = flow(31, 23, false);

    a.ethernet.vlan = Some(41);
    b.ethernet.vlan = Some(41);
    std::mem::swap(&mut b.ethernet.src, &mut b.ethernet.dst);
    a.direction = Direction::Out;
    b.direction = Direction::In;

    let a = g.id(&a);
    let b = g.id(&b);
    assert_eq!(a, b);
}

#[test]
fn test_connection_id() {
    let mut trk = Tracker::new(&customs());

    let mut a = flow(23, 31, false);
    let mut b = flow(31, 23, false);

    std::mem::swap(&mut b.ethernet.src, &mut b.ethernet.dst);
    a.direction = Direction::Out;
    b.direction = Direction::In;

    trk.add(&a);
    trk.add(&b);

    let mut cs = customs();

    trk.append(&a.key(), &mut cs);
    let ida = value_of(&cs, CONNECTION_ID);
    assert!(ida.is_some());

    let mut cs2 = customs();
    trk.append(&b.key(), &mut cs2);
    let idb = value_of(&cs2, CONNECTION_ID);
    assert!(idb.is_some());

    match (ida, idb) {
        (Some(Value::U32(x)), Some(Value::U32(y))) => assert_eq!(x, y),
        other => panic!("unexpected values {:?}", other),
    }
}

#[test]
fn test_min_max_latency() {
    let mut cs = customs();

    cs.add_latency(0, Duration::seconds(1));
    cs.add_latency(0, Duration::seconds(60));
    cs.add_latency(0, Duration::seconds(0));

    let vals: Vec<u32> = cs
        .entries()
        .iter()
        .map(|c| match c.value {
            Value::U32(n) => n,
            _ => panic!("expected integer values"),
        })
        .collect();
    assert_eq!(vals, vec![1000, 20000, 1]);
}

#[test]
fn classify_ok() {
    let mut classify = Classify::new();
    classify.add(Protocol::UDP, 53, Decoder::DNS);
    classify.add(Protocol::TCP, 80, Decoder::HTTP);
    classify.add(Protocol::TCP, 22, Decoder::TLS);

    let mut dns_flow = flow(0, 53, false);
    dns_flow.protocol = Protocol::UDP;

    let http_flow = flow(0, 80, false);
    let tls_flow = flow(0, 22, false);
    let none_flow = flow(0, 33, false);

    assert_eq!(Decoder::DNS, classify.find(&dns_flow));
    assert_eq!(Decoder::HTTP, classify.find(&http_flow));
    assert_eq!(Decoder::TLS, classify.find(&tls_flow));
    assert_eq!(Decoder::NoDecoder, classify.find(&none_flow));
}

#[test]
fn classifier_prefers_smaller_port() {
    let mut classify = Classify::new();
    classify.add(Protocol::TCP, 80, Decoder::HTTP);
    classify.add(Protocol::TCP, 443, Decoder::TLS);

    let mut high = flow(0, 0, false);
    high.src.port = 12345;
    high.dst.port = 80;
    assert_eq!(Decoder::HTTP, classify.find(&high));

    let mut both = flow(0, 0, false);
    both.src.port = 80;
    both.dst.port = 443;
    assert_eq!(Decoder::HTTP, classify.find(&both));
}

#[test]
fn app_protocol_ok() {
    let mut names = dict();
    let base = names.len() as u64;
    for (i, extra) in [
        "APP_PROTOCOL",
        "STR00",
        "STR01",
        "STR02",
        "STR03",
        "INT00",
        "INT01",
        "INT02",
        "INET_00",
        "INET_01",
        "INET_02",
    ]
    .iter()
    .enumerate()
    {
        names.push((extra.to_string(), base + 1 + i as u64));
    }
    let mut cs = Customs::new(&names);
    let ap = cs.get(APP_PROTOCOL).unwrap();

    let specs = [
        (Decoder::DNS, 1u32),
        (Decoder::HTTP, 2),
        (Decoder::TLS, 3),
        (Decoder::DHCP, 4),
        (Decoder::Radius, 9),
    ];
    for (d, tag) in specs.iter() {
        cs.append(0, *d);
        let got = cs
            .entries()
            .iter()
            .find(|c| c.id == ap)
            .map(|c| c.value.clone());
        assert_eq!(Some(Value::U32(*tag)), got);
        cs.clear();
    }
}

#[test]
fn new_flow_export_timeout_correct() {
    let cs = Customs::new(&Vec::new());
    let mut queue = FlowQueue::new(None, cs, Classify::new(), true);

    let flow = flow(23, 31, true);
    let key = flow.key();
    let start = flow.timestamp;

    queue.add(flow);

    let next = queue.counter(&key).unwrap().export;
    let max = start.plus(Duration::seconds(15));
    assert!(!next.lt(start) && !max.lt(next));
}

#[test]
fn exported_counter_updated_on_add() {
    let cs = Customs::new(&Vec::new());
    let mut queue = FlowQueue::new(None, cs, Classify::new(), true);

    let mut flow_a = flow(23, 31, true);
    let mut flow_b = flow_a.clone();
    let win = Window { size: 0, scale: 0 };

    flow_a.tos = 1;
    flow_b.tos = 2;
    flow_a.transport = Transport::TCP {
        seq: 61,
        flags: SYN,
        window: win,
    };
    flow_b.transport = Transport::TCP {
        seq: 62,
        flags: ACK,
        window: win,
    };

    queue.add(flow_a.clone());
    queue.add(flow_b.clone());

    let key = flow_a.key();
    let ctr = queue.counter(&key).unwrap();

    assert_eq!(ctr.tos, flow_a.tos | flow_b.tos);
    assert_eq!(ctr.tcp_flags, SYN | ACK);
    assert_eq!(ctr.packets, (flow_a.packets + flow_b.packets) as u64);
    assert_eq!(ctr.fragments, (flow_a.fragments + flow_b.fragments) as u64);
    assert_eq!(ctr.bytes, (flow_a.bytes + flow_b.bytes) as u64);
}

#[test]
fn unexported_counter_not_updated_on_add() {
    let cs = Customs::new(&Vec::new());
    let mut queue = FlowQueue::new(None, cs, Classify::new(), true);

    let flow = flow(23, 31, false);
    let key = flow.key();

    queue.add(flow);

    let ctr = queue.counter(&key).unwrap();
    assert_eq!(ctr.tos, 0);
    assert_eq!(ctr.tcp_flags, 0);
    assert_eq!(ctr.packets, 0);
    assert_eq!(ctr.fragments, 0);
    assert_eq!(ctr.bytes, 0);
}

#[test]
fn active_flows_retained_on_compact() {
    let cs = customs();
    let mut queue = FlowQueue::new(None, cs, Classify::new(), true);

    let export = Timestamp { sec: 30, nsec: 0 };

    for (src, dst) in [(23u32, 31u32), (47, 53)] {
        let mut f = flow(src, dst, false);
        f.timestamp = export.plus(Duration::seconds(1));
        f.direction = Direction::In;
        queue.add(f);
    }

    assert_eq!(2, queue.len());
    queue.export(export);
    assert_eq!(2, queue.len());
}

#[test]
fn expired_flows_removed_on_compact() {
    let cs = customs();
    let mut queue = FlowQueue::new(None, cs, Classify::new(), true);

    let export = Timestamp { sec: 30, nsec: 0 };

    for (src, dst) in [(23u32, 31u32), (47, 53)] {
        let mut f = flow(src, dst, false);
        f.direction = Direction::In;
        queue.add(f);
    }

    assert_eq!(2, queue.len());
    queue.export(export);
    assert_eq!(0, queue.len());
}

#[test]
fn empty_counter_sends_nothing_on_export() {
    let cs = customs();
    let mut queue = FlowQueue::new(None, cs, Classify::new(), true);

    let f = flow(23, 31, false);
    queue.add(f);

    queue.export(Timestamp { sec: 120, nsec: 0 });
    let records = queue.take_records();
    assert!(records.is_empty());
}

#[test]
fn sample_tcp() {
    let s = Sampler::new(2);

    for n in 1..100u32 {
        let (this, peer) = flows(Protocol::TCP, n);
        match (s.accept(&this), s.accept(&peer)) {
            (Accept::Export, Accept::Export) => (),
            (Accept::Export, Accept::Decode) => (),
            (Accept::Decode, Accept::Export) => (),
            (Accept::Ignore, Accept::Ignore) => (),
            o => panic!("invalid decision {:?}", o),
        }
    }
}

#[test]
fn sample_icmp() {
    let s = Sampler::new(2);

    for n in 1..100u32 {
        let (this, peer) = flows(Protocol::ICMP, n);
        match (s.accept(&this), s.accept(&peer)) {
            (Accept::Export, Accept::Export) => (),
            (Accept::Export, Accept::Ignore) => (),
            (Accept::Ignore, Accept::Export) => (),
            (Accept::Ignore, Accept::Ignore) => (),
            o => panic!("invalid decision {:?}", o),
        }
    }
}

fn flows(p: Protocol, n: u32) -> (Flow, Flow) {
    let src = n;
    let dst = 3 * n;

    let mut this = flow(src, dst, false);
    this.protocol = p;
    let mut peer = flow(dst, src, false);
    peer.protocol = p;

    (this, peer)
}

#[test]
fn zero_window_stream_counts() {
    let cs = customs();
    let mut trk = Tracker::new(&cs);

    let server = 2222u32;
    let client = 58377u32;

    let mut syn = flow(server, client, true);
    syn.transport = Transport::TCP {
        seq: 1,
        flags: SYN,
        window: Window { size: 100, scale: 0 },
    };
    trk.add(&syn);

    for i in 0..10u64 {
        let mut seg = flow(server, client, true);
        seg.timestamp = ts(1 + i, 0);
        seg.transport = Transport::TCP {
            seq: 2,
            flags: ACK,
            window: Window { size: 0, scale: 0 },
        };
        trk.add(&seg);
    }

    let key = Key(
        Protocol::TCP,
        Addr {
            addr: IpAddr::V4(server),
            port: server as u16,
        },
        Addr {
            addr: IpAddr::V4(client),
            port: client as u16,
        },
    );
    assert_eq!(Some(10), trk.zwindows(&key));

    let mut out = customs();
    trk.append(&key, &mut out);
    assert_eq!(Some(Value::U32(10)), value_of(&out, "ZERO_WINDOWS"));
}

#[test]
fn three_retransmits_count_one_repeat() {
    let cs = customs();
    let mut trk = Tracker::new(&cs);

    let a = 1000u32;
    let b = 2000u32;

    let mut first = flow(a, b, true);
    first.timestamp = ts(1, 0);
    first.transport = Transport::TCP {
        seq: 100,
        flags: ACK,
        window: Window { size: 10, scale: 0 },
    };
    first.payload = vec![0u8; 10];
    trk.add(&first);

    // three retransmits of the same old segment, spaced a second apart
    for i in 0..3u64 {
        let mut seg = flow(a, b, true);
        seg.timestamp = ts(3 + i, 0);
        seg.transport = Transport::TCP {
            seq: 100,
            flags: ACK,
            window: Window { size: 10, scale: 0 },
        };
        seg.payload = vec![0u8; 10];
        trk.add(&seg);
    }

    let key = first.key();
    assert_eq!(Some((3, 1)), trk.retransmits(&key));
}

#[test]
fn fpx_latency_measures_first_exchange() {
    let cs = customs();
    let mut trk = Tracker::new(&cs);

    let a = 5000u32;
    let b = 53u32;

    let mut query = flow(a, b, true);
    query.protocol = Protocol::UDP;
    query.transport = Transport::UDP;
    query.timestamp = ts(10, 0);
    query.payload = vec![1, 2, 3];
    trk.add(&query);

    let mut reply = flow(b, a, true);
    reply.protocol = Protocol::UDP;
    reply.transport = Transport::UDP;
    reply.timestamp = ts(10, 44_000_000);
    reply.payload = vec![4, 5, 6];
    trk.add(&reply);

    let key = reply.key();
    assert_eq!(
        Some(44),
        trk.latency(&key).map(|d| d.whole_milliseconds())
    );

    let mut out = customs();
    trk.append(&key, &mut out);
    assert_eq!(Some(Value::U32(44)), value_of(&out, FPX_LATENCY));
}

#[test]
fn handshake_latency_reported_for_server() {
    let cs = customs();
    let mut trk = Tracker::new(&cs);

    let client = 40000u32;
    let server = 80u32;

    let mut syn = flow(client, server, true);
    syn.timestamp = ts(1, 0);
    syn.transport = Transport::TCP {
        seq: 1,
        flags: SYN,
        window: Window { size: 100, scale: 1 },
    };
    trk.add(&syn);

    let mut synack = flow(server, client, true);
    synack.timestamp = ts(1, 10_000_000);
    synack.transport = Transport::TCP {
        seq: 500,
        flags: SYN | ACK,
        window: Window { size: 100, scale: 1 },
    };
    trk.add(&synack);

    let mut out = customs();
    trk.append(&synack.key(), &mut out);
    // half the 10 ms round-trip
    assert_eq!(Some(Value::U32(5)), value_of(&out, "SERVER_NW_LATENCY_MS"));
}

#[test]
fn fragments_counted_in_customs() {
    let mut cs = customs();
    cs.append(2, Decoder::DNS);
    assert_eq!(Some(Value::U32(2)), value_of(&cs, FRAGMENTS));
    assert_eq!(None, value_of(&cs, APP_LATENCY));
}
