//! The application decoders, end to end over crafted packets: HTTP,
//! DNS, TLS, DHCP and RADIUS, and IPv4 fragment reassembly.

use kprobe::custom::{Custom, Customs, Value, APP_LATENCY};
use kprobe::flow::{
    Addr, Direction, Ethernet, Flow, IpAddr, MacAddr, Protocol, Transport, Window, ACK, SYN,
};
use kprobe::packet::{parse_ipv4, Packet};
use kprobe::protocol::classify::Classify;
use kprobe::protocol::decode::Decoders;
use kprobe::protocol::http::Connection;
use kprobe::reasm::Reassembler;
use kprobe::time::{Duration, Timestamp};

fn dict() -> Vec<(String, u64)> {
    let names = [
        "FRAGMENTS",
        "APPL_LATENCY_MS",
        "FPEX_LATENCY_MS",
        "CLIENT_NW_LATENCY_MS",
        "SERVER_NW_LATENCY_MS",
        "RETRANSMITTED_OUT_PKTS",
        "REPEATED_RETRANSMITS",
        "OOORDER_IN_PKTS",
        "RECEIVE_WINDOW",
        "ZERO_WINDOWS",
        "CONNECTION_ID",
        "KFLOW_DNS_QUERY",
        "KFLOW_DNS_QUERY_TYPE",
        "KFLOW_DNS_RET_CODE",
        "KFLOW_DNS_RESPONSE",
        "KFLOW_HTTP_URL",
        "KFLOW_HTTP_HOST",
        "KFLOW_HTTP_REFERER",
        "KFLOW_HTTP_UA",
        "KFLOW_HTTP_STATUS",
        "TLS_SERVER_NAME",
        "TLS_SERVER_VERSION",
        "TLS_CIPHER_SUITE",
        "DHCP_OP",
        "DHCP_MSG_TYPE",
        "DHCP_CI_ADDR",
        "DHCP_YI_ADDR",
        "DHCP_SI_ADDR",
        "DHCP_LEASE",
        "DHCP_CH_ADDR",
        "DHCP_HOSTNAME",
        "DHCP_DOMAIN",
        "RADIUS_CODE",
        "RADIUS_USER_NAME",
        "RADIUS_SERVICE_TYPE",
        "RADIUS_FRAMED_IP_ADDR",
        "RADIUS_FRAMED_IP_MASK",
        "RADIUS_FRAMED_PROTO",
        "RADIUS_ACCT_SESSION_ID",
        "RADIUS_ACCT_STATUS",
    ];
    names
        .iter()
        .enumerate()
        .map(|(i, n)| (n.to_string(), (i + 1) as u64))
        .collect()
}

fn customs() -> Customs {
    Customs::new(&dict())
}

fn value_of(cs: &Customs, name: &str) -> Option<Value> {
    let id = cs.get(name).ok()?;
    cs.entries()
        .iter()
        .find(|c| c.id == id)
        .map(|c: &Custom| c.value.clone())
}

fn ts_ms(ms: u64) -> Timestamp {
    Timestamp {
        sec: ms / 1000,
        nsec: (ms % 1000) * 1_000_000,
    }
}

fn udp_flow(src: u32, sport: u16, dst: u32, dport: u16, ms: u64, payload: Vec<u8>) -> Flow {
    Flow {
        timestamp: ts_ms(ms),
        ethernet: Ethernet {
            src: MacAddr(1),
            dst: MacAddr(2),
            vlan: None,
        },
        protocol: Protocol::UDP,
        src: Addr {
            addr: IpAddr::V4(src),
            port: sport,
        },
        dst: Addr {
            addr: IpAddr::V4(dst),
            port: dport,
        },
        tos: 0,
        transport: Transport::UDP,
        packets: 1,
        fragments: 0,
        bytes: 0,
        direction: Direction::Out,
        export: true,
        payload,
    }
}

fn tcp_flow(src: u32, sport: u16, dst: u32, dport: u16, ms: u64, flags: u16, payload: Vec<u8>) -> Flow {
    Flow {
        timestamp: ts_ms(ms),
        ethernet: Ethernet {
            src: MacAddr(1),
            dst: MacAddr(2),
            vlan: None,
        },
        protocol: Protocol::TCP,
        src: Addr {
            addr: IpAddr::V4(src),
            port: sport,
        },
        dst: Addr {
            addr: IpAddr::V4(dst),
            port: dport,
        },
        tos: 0,
        transport: Transport::TCP {
            seq: 1,
            flags,
            window: Window { size: 100, scale: 1 },
        },
        packets: 1,
        fragments: 0,
        bytes: 0,
        direction: Direction::Out,
        export: true,
        payload,
    }
}

#[test]
fn test_decode() {
    let mut c = Connection::new(80);
    let t = Timestamp { sec: 0, nsec: 0 };

    {
        let b = b"GET / HTTP/1.1\r\n\r\n";
        let r = c.parse_req(t, b).unwrap();
        assert_eq!(b"/".to_vec(), r.url);
    }

    {
        let b = b"HTTP/1.1 200 OK\r\nContent-Length: 0\r\n\r\n".to_vec();
        let r = c.parse_res(t, &b, false).unwrap();
        assert_eq!(200, r.status);
        assert_eq!(b"/".to_vec(), r.url);
    }
}

#[test]
fn test_decode_invalid_req() {
    let mut c = Connection::new(80);
    let t = Timestamp { sec: 0, nsec: 0 };

    let b = b"FOO\r\n\r\n";
    let r = c.parse_req(t, b);
    assert!(r.is_none());
}

#[test]
fn test_decode_invalid_res() {
    let mut c = Connection::new(80);
    let t = Timestamp { sec: 0, nsec: 0 };

    {
        let b = b"GET / HTTP/1.1\r\n\r\n";
        let r = c.parse_req(t, b);
        assert!(r.is_some());
    }

    {
        let b = b"FOO\r\n\r\n";
        let r = c.parse_res(t, b, false);
        assert!(r.is_none());
    }
}

#[test]
fn test_header_case_insensitive() {
    for h in ["User-Agent", "USER-AGENT", "user-agent"] {
        let mut c = Connection::new(80);
        let t = Timestamp { sec: 0, nsec: 0 };
        let b = format!("GET / HTTP/1.1\r\n{}: foo\r\n\r\n", h);
        let r = c.parse_req(t, b.as_bytes()).unwrap();
        assert_eq!(Some(b"foo".to_vec()), r.ua);
    }
}

#[test]
fn test_is_idle() {
    let timeout = Duration::seconds(15);
    let now = Timestamp { sec: 100, nsec: 0 };

    let mut c = Connection::new(80);
    let b = b"GET / HTTP/1.1\r\n\r\n";
    c.parse_req(now, b);

    assert_eq!(false, c.is_idle(now.plus(Duration::seconds(10)), timeout));
    assert_eq!(true, c.is_idle(now.plus(Duration::seconds(16)), timeout));
}

#[test]
fn decode_http() {
    let mut cs = customs();
    let mut classify = Classify::new();
    let mut decoders = Decoders::new(&cs, &mut classify, true);

    let client = 0x0a000001u32;
    let server = 0x0a000002u32;

    let mut req_url: Option<Value> = None;
    let mut req_host: Option<Value> = None;
    let mut req_ua: Option<Value> = None;
    let mut res_status: Option<Value> = None;
    let mut latency: Option<Value> = None;

    let request =
        b"GET / HTTP/1.1\r\nHost: google.com\r\nUser-Agent: curl/7.38.0\r\n\r\n".to_vec();
    let response = b"HTTP/1.1 302 Found\r\nContent-Length: 0\r\n\r\n".to_vec();

    let packets = [
        tcp_flow(client, 42370, server, 80, 0, SYN, Vec::new()),
        tcp_flow(server, 80, client, 42370, 1, SYN | ACK, Vec::new()),
        tcp_flow(client, 42370, server, 80, 2, ACK, Vec::new()),
        tcp_flow(client, 42370, server, 80, 3, ACK, request),
        tcp_flow(server, 80, client, 42370, 10, ACK, response),
    ];

    for flow in packets {
        let d = classify.find(&flow);
        decoders.decode(d, &flow, &mut cs);

        req_url = value_of(&cs, "KFLOW_HTTP_URL").or(req_url);
        req_host = value_of(&cs, "KFLOW_HTTP_HOST").or(req_host);
        req_ua = value_of(&cs, "KFLOW_HTTP_UA").or(req_ua);
        res_status = value_of(&cs, "KFLOW_HTTP_STATUS").or(res_status);
        latency = value_of(&cs, APP_LATENCY).or(latency);

        cs.clear();
    }

    assert_eq!(Some(Value::Str(b"/".to_vec())), req_url);
    assert_eq!(Some(Value::Str(b"google.com".to_vec())), req_host);
    assert_eq!(Some(Value::Str(b"curl/7.38.0".to_vec())), req_ua);
    assert_eq!(Some(Value::U32(302)), res_status);
    assert_eq!(Some(Value::U32(7)), latency);
}

fn dns_name(parts: &[&str]) -> Vec<u8> {
    let mut out = Vec::new();
    for p in parts {
        out.push(p.len() as u8);
        out.extend_from_slice(p.as_bytes());
    }
    out.push(0);
    out
}

#[test]
fn decode_dns() {
    let mut cs = customs();
    let mut classify = Classify::new();
    let mut decoders = Decoders::new(&cs, &mut classify, true);

    let client = 0x0a000034u32;
    let server = 0x08080404u32;

    // query: id 0x1234, ANY for google.com
    let mut query = vec![0x12, 0x34, 0x01, 0x00, 0x00, 0x01, 0x00, 0x00, 0x00, 0x00, 0x00, 0x00];
    query.extend_from_slice(&dns_name(&["google", "com"]));
    query.extend_from_slice(&[0x00, 0xFF, 0x00, 0x01]);

    // reply: same id, two answers: an A and an AAAA record
    let mut reply = vec![0x12, 0x34, 0x81, 0x80, 0x00, 0x01, 0x00, 0x02, 0x00, 0x00, 0x00, 0x00];
    reply.extend_from_slice(&dns_name(&["google", "com"]));
    reply.extend_from_slice(&[0x00, 0xFF, 0x00, 0x01]);
    reply.extend_from_slice(&[0xC0, 0x0C, 0x00, 0x01, 0x00, 0x01, 0x00, 0x00, 0x01, 0x2B, 0x00, 0x04]);
    reply.extend_from_slice(&[172, 217, 26, 14]);
    reply.extend_from_slice(&[0xC0, 0x0C, 0x00, 0x1C, 0x00, 0x01, 0x00, 0x00, 0x01, 0x2B, 0x00, 0x10]);
    reply.extend_from_slice(&[
        0x24, 0x04, 0x68, 0x00, 0x40, 0x04, 0x08, 0x09, 0x00, 0x00, 0x00, 0x00, 0x00, 0x00, 0x20,
        0x0e,
    ]);

    let q = udp_flow(client, 52407, server, 53, 0, query);
    let r = udp_flow(server, 53, client, 52407, 44, reply);

    let d = classify.find(&q);
    decoders.decode(d, &q, &mut cs);
    assert_eq!(
        Some(Value::Str(b"google.com".to_vec())),
        value_of(&cs, "KFLOW_DNS_QUERY")
    );
    assert_eq!(Some(Value::U32(255)), value_of(&cs, "KFLOW_DNS_QUERY_TYPE"));
    cs.clear();

    let d = classify.find(&r);
    decoders.decode(d, &r, &mut cs);
    assert_eq!(
        Some(Value::Str(b"google.com".to_vec())),
        value_of(&cs, "KFLOW_DNS_QUERY")
    );
    assert_eq!(Some(Value::U32(0)), value_of(&cs, "KFLOW_DNS_RET_CODE"));
    assert_eq!(
        Some(Value::Str(
            b"172.217.26.14/A;2404:6800:4004:809::200e/AAAA".to_vec()
        )),
        value_of(&cs, "KFLOW_DNS_RESPONSE")
    );
    assert_eq!(Some(Value::U32(44)), value_of(&cs, APP_LATENCY));
}

fn tls_client_hello(host: &str) -> Vec<u8> {
    let mut body = vec![0x03, 0x03];
    body.extend_from_slice(&[0u8; 32]); // time + random
    body.push(0); // session id
    body.extend_from_slice(&[0x00, 0x02, 0x00, 0x2b]); // cipher suites
    body.extend_from_slice(&[0x01, 0x00]); // compression
    let name = host.as_bytes();
    let entry_len = 3 + name.len() as u16;
    let ext_len = 2 + entry_len;
    body.extend_from_slice(&(ext_len as u16 + 4).to_be_bytes()); // extensions length
    body.extend_from_slice(&[0x00, 0x00]); // server name extension
    body.extend_from_slice(&ext_len.to_be_bytes());
    body.extend_from_slice(&entry_len.to_be_bytes());
    body.push(0);
    body.extend_from_slice(&(name.len() as u16).to_be_bytes());
    body.extend_from_slice(name);
    wrap_handshake(0x01, &body)
}

fn tls_server_hello(cipher: u16) -> Vec<u8> {
    let mut body = vec![0x03, 0x03];
    body.extend_from_slice(&[0u8; 32]);
    body.push(0);
    body.extend_from_slice(&cipher.to_be_bytes());
    body.push(0);
    body.extend_from_slice(&[0x00, 0x00]);
    wrap_handshake(0x02, &body)
}

fn tls_done() -> Vec<u8> {
    wrap_handshake(0x0e, &[])
}

fn wrap_handshake(htype: u8, body: &[u8]) -> Vec<u8> {
    let hlen = body.len() as u32;
    let mut hs = vec![htype, (hlen >> 16) as u8, (hlen >> 8) as u8, hlen as u8];
    hs.extend_from_slice(body);
    let mut rec = vec![0x16, 0x03, 0x01];
    rec.extend_from_slice(&(hs.len() as u16).to_be_bytes());
    rec.extend_from_slice(&hs);
    rec
}

#[test]
fn decode_tls_handshake() {
    let mut cs = customs();
    let mut classify = Classify::new();
    let mut decoders = Decoders::new(&cs, &mut classify, true);

    let client = 0x0a000001u32;
    let server = 0x0a000002u32;

    let packets = [
        tcp_flow(client, 50000, server, 443, 0, SYN, Vec::new()),
        tcp_flow(server, 443, client, 50000, 1, SYN | ACK, Vec::new()),
        tcp_flow(client, 50000, server, 443, 2, ACK, tls_client_hello("google.com")),
        tcp_flow(server, 443, client, 50000, 3, ACK, tls_server_hello(0xc02b)),
        tcp_flow(server, 443, client, 50000, 4, ACK, tls_done()),
    ];

    let mut server_name: Option<Value> = None;
    let mut server_ver: Option<Value> = None;
    let mut cipher_suite: Option<Value> = None;

    for flow in packets {
        let key = flow.key();
        let d = classify.find(&flow);
        decoders.decode(d, &flow, &mut cs);
        decoders.append(d, &key, &mut cs);

        server_name = value_of(&cs, "TLS_SERVER_NAME").or(server_name);
        server_ver = value_of(&cs, "TLS_SERVER_VERSION").or(server_ver);
        cipher_suite = value_of(&cs, "TLS_CIPHER_SUITE").or(cipher_suite);

        cs.clear();
    }

    assert_eq!(Some(Value::Str(b"google.com".to_vec())), server_name);
    assert_eq!(Some(Value::U32(0x0303)), server_ver);
    assert_eq!(Some(Value::U32(0xc02b)), cipher_suite);

    // after the ServerHelloDone, further traffic adds no new customs
    let more = tcp_flow(client, 50000, server, 443, 5, ACK, vec![0x17, 0x03, 0x03, 0x00, 0x01, 0xAB]);
    let key = more.key();
    let d = classify.find(&more);
    decoders.decode(d, &more, &mut cs);
    let before = cs.entries().len();
    decoders.append(d, &key, &mut cs);
    // append still reports the same three known values, nothing else new
    assert_eq!(before + 3, cs.entries().len());
}

fn dhcp_message(op: u8, msg: u8, xid: u32, yiaddr: u32, siaddr: u32, opts: &[u8]) -> Vec<u8> {
    let mut b = vec![op, 1, 6, 0];
    b.extend_from_slice(&xid.to_be_bytes());
    b.extend_from_slice(&[0u8; 8]); // secs, flags, ciaddr
    b.extend_from_slice(&yiaddr.to_be_bytes());
    b.extend_from_slice(&siaddr.to_be_bytes());
    b.extend_from_slice(&[0u8; 4]); // giaddr
    b.extend_from_slice(&[0x00, 0x1c, 0x42, 0x60, 0xbb, 0x37]);
    b.extend_from_slice(&[0u8; 10]); // chaddr padding
    b.extend_from_slice(&[0u8; 192]); // sname + file
    b.extend_from_slice(&[0x63, 0x82, 0x53, 0x63]);
    b.extend_from_slice(opts);
    b.push(0xFF);
    b
}

#[test]
fn decode_dhcp() {
    let mut cs = customs();
    let mut classify = Classify::new();
    let mut decoders = Decoders::new(&cs, &mut classify, true);

    let client = 0u32;
    let server = 0x0ad33701u32;

    let mut req_opts = vec![0x35, 0x01, 0x03];
    req_opts.extend_from_slice(&[0x0C, 5]);
    req_opts.extend_from_slice(b"chdev");
    let request = dhcp_message(1, 3, 0xDEADBEEF, 0, 0, &req_opts);

    let mut ack_opts = vec![0x35, 0x01, 0x05];
    ack_opts.extend_from_slice(&[0x0C, 5]);
    ack_opts.extend_from_slice(b"chdev");
    ack_opts.extend_from_slice(&[0x0F, 11]);
    ack_opts.extend_from_slice(b"localdomain");
    ack_opts.extend_from_slice(&[0x33, 0x04, 0x00, 0x00, 0x07, 0x08]);
    let yiaddr = u32::from_be_bytes([10, 211, 55, 16]);
    let siaddr = u32::from_be_bytes([10, 211, 55, 1]);
    let ack = dhcp_message(2, 5, 0xDEADBEEF, yiaddr, siaddr, &ack_opts);

    let q = udp_flow(client, 68, server, 67, 0, request);
    let d = classify.find(&q);
    decoders.decode(d, &q, &mut cs);

    assert_eq!(Some(Value::U32(1)), value_of(&cs, "DHCP_OP"));
    assert_eq!(Some(Value::U32(3)), value_of(&cs, "DHCP_MSG_TYPE"));
    assert_eq!(Some(Value::U32(0)), value_of(&cs, "DHCP_CI_ADDR"));
    assert_eq!(Some(Value::U32(0)), value_of(&cs, "DHCP_YI_ADDR"));
    assert_eq!(Some(Value::U32(0)), value_of(&cs, "DHCP_SI_ADDR"));
    assert_eq!(
        Some(Value::Str(b"00:1c:42:60:bb:37".to_vec())),
        value_of(&cs, "DHCP_CH_ADDR")
    );
    assert_eq!(
        Some(Value::Str(b"chdev".to_vec())),
        value_of(&cs, "DHCP_HOSTNAME")
    );
    assert_eq!(None, value_of(&cs, "DHCP_DOMAIN"));
    assert_eq!(None, value_of(&cs, "DHCP_LEASE"));
    assert_eq!(None, value_of(&cs, APP_LATENCY));
    cs.clear();

    let r = udp_flow(server, 67, client, 68, 1, ack);
    let d = classify.find(&r);
    decoders.decode(d, &r, &mut cs);

    assert_eq!(Some(Value::U32(2)), value_of(&cs, "DHCP_OP"));
    assert_eq!(Some(Value::U32(5)), value_of(&cs, "DHCP_MSG_TYPE"));
    assert_eq!(Some(Value::U32(yiaddr)), value_of(&cs, "DHCP_YI_ADDR"));
    assert_eq!(Some(Value::U32(siaddr)), value_of(&cs, "DHCP_SI_ADDR"));
    assert_eq!(
        Some(Value::Str(b"localdomain".to_vec())),
        value_of(&cs, "DHCP_DOMAIN")
    );
    assert_eq!(Some(Value::U32(1800)), value_of(&cs, "DHCP_LEASE"));
    assert_eq!(Some(Value::U32(1)), value_of(&cs, APP_LATENCY));
}

fn radius_message(code: u8, id: u8, attrs: &[u8]) -> Vec<u8> {
    let mut b = vec![code, id];
    let len = (20 + attrs.len()) as u16;
    b.extend_from_slice(&len.to_be_bytes());
    b.extend_from_slice(&[0u8; 16]);
    b.extend_from_slice(attrs);
    b
}

#[test]
fn decode_radius() {
    let mut cs = customs();
    let mut classify = Classify::new();
    let mut decoders = Decoders::new(&cs, &mut classify, true);

    let nas = 0x0a010101u32;
    let server = 0x0a010102u32;

    // Accounting-Start for "bob" with a framed address
    let mut attrs = vec![1, 5];
    attrs.extend_from_slice(b"bob");
    attrs.extend_from_slice(&[8, 6, 10, 1, 2, 3]);
    attrs.extend_from_slice(&[40, 6, 0, 0, 0, 1]);
    let start = radius_message(4, 7, &attrs);

    let q = udp_flow(nas, 50000, server, 1813, 0, start);
    let d = classify.find(&q);
    decoders.decode(d, &q, &mut cs);

    assert_eq!(Some(Value::U32(4)), value_of(&cs, "RADIUS_CODE"));
    assert_eq!(
        Some(Value::Str(b"bob".to_vec())),
        value_of(&cs, "RADIUS_USER_NAME")
    );
    assert_eq!(
        Some(Value::Addr(IpAddr::V4(u32::from_be_bytes([10, 1, 2, 3])))),
        value_of(&cs, "RADIUS_FRAMED_IP_ADDR")
    );
    assert_eq!(Some(Value::U32(1)), value_of(&cs, "RADIUS_ACCT_STATUS"));
    cs.clear();

    // the response pairs with the request for latency
    let resp = radius_message(5, 7, &[]);
    let r = udp_flow(server, 1813, nas, 50000, 5, resp);
    let d = classify.find(&r);
    decoders.decode(d, &r, &mut cs);
    assert_eq!(Some(Value::U32(5)), value_of(&cs, "RADIUS_CODE"));
    assert_eq!(Some(Value::U32(5)), value_of(&cs, APP_LATENCY));
    cs.clear();

    // the paired Stop
    let mut stop_attrs = vec![1, 5];
    stop_attrs.extend_from_slice(b"bob");
    stop_attrs.extend_from_slice(&[40, 6, 0, 0, 0, 2]);
    let stop = radius_message(4, 8, &stop_attrs);
    let s = udp_flow(nas, 50000, server, 1813, 10, stop);
    let d = classify.find(&s);
    decoders.decode(d, &s, &mut cs);
    assert_eq!(Some(Value::U32(2)), value_of(&cs, "RADIUS_ACCT_STATUS"));
}

fn ipv4_fragment(id: u16, offset_units: u16, more: bool, payload: &[u8]) -> Vec<u8> {
    let total = (20 + payload.len()) as u16;
    let mut b = vec![0x45, 0x00];
    b.extend_from_slice(&total.to_be_bytes());
    b.extend_from_slice(&id.to_be_bytes());
    let fword = offset_units | if more { 0x2000 } else { 0 };
    b.extend_from_slice(&fword.to_be_bytes());
    b.extend_from_slice(&[64, 17]); // ttl, udp
    b.extend_from_slice(&[0, 0]); // checksum
    b.extend_from_slice(&[10, 0, 0, 1]);
    b.extend_from_slice(&[10, 0, 0, 2]);
    b.extend_from_slice(payload);
    b
}

#[test]
fn reassembly_round_trip_any_order() {
    let payload: Vec<u8> = (0u8..48).collect();
    let f0 = ipv4_fragment(9, 0, true, &payload[0..16]);
    let f1 = ipv4_fragment(9, 2, true, &payload[16..32]);
    let f2 = ipv4_fragment(9, 4, false, &payload[32..48]);

    let orders: [[usize; 3]; 4] = [[0, 1, 2], [2, 1, 0], [1, 2, 0], [2, 0, 1]];
    for order in orders {
        let mut assembler = Reassembler::new();
        let frags = [f0.clone(), f1.clone(), f2.clone()];
        let mut done = None;
        for (n, idx) in order.iter().enumerate() {
            let pkt = parse_ipv4(&frags[*idx]).unwrap();
            let out = assembler.reassemble(
                Timestamp {
                    sec: n as u64,
                    nsec: 0,
                },
                Packet::IPv4(pkt),
            );
            if n + 1 < order.len() {
                assert!(out.is_none());
            } else {
                done = out;
            }
        }
        let out = done.expect("datagram must complete with its last fragment");
        assert_eq!(3, out.packets);
        assert_eq!(3, out.frags);
        assert_eq!(3 * 20 + 48, out.bytes);
        assert_eq!(payload, out.data);
    }
}

#[test]
fn reassembly_passes_whole_datagrams_through() {
    let mut assembler = Reassembler::new();
    let single = ipv4_fragment(11, 0, false, &[1, 2, 3, 4]);
    let pkt = parse_ipv4(&single).unwrap();
    let out = assembler
        .reassemble(Timestamp { sec: 0, nsec: 0 }, Packet::IPv4(pkt))
        .unwrap();
    assert_eq!(1, out.packets);
    assert_eq!(0, out.frags);
    assert_eq!(24, out.bytes);
    assert_eq!(vec![1, 2, 3, 4], out.data);
}

fn pg_frame(tag: u8, body: &[u8]) -> Vec<u8> {
    let mut b = vec![tag];
    b.extend_from_slice(&((body.len() + 4) as u32).to_be_bytes());
    b.extend_from_slice(body);
    b
}

#[test]
fn postgres_simple_query_completes() {
    let mut conn = kprobe::protocol::postgres::Connection::new();
    let t0 = Timestamp { sec: 5, nsec: 0 };
    let t1 = Timestamp { sec: 5, nsec: 250_000_000 };

    let mut q = b"select 1".to_vec();
    q.push(0);
    conn.frontend_msg(t0, &pg_frame(81, &q));

    let done = conn.backend_msg(t1, &pg_frame(90, &[73]));
    assert_eq!(1, done.len());
    assert_eq!(b"select 1".to_vec(), done[0].query);
    assert_eq!(250, done[0].duration.whole_milliseconds());
}

#[test]
fn postgres_extended_protocol_correlates() {
    let mut conn = kprobe::protocol::postgres::Connection::new();
    let t0 = Timestamp { sec: 7, nsec: 0 };
    let t1 = Timestamp { sec: 8, nsec: 0 };

    let mut parse = b"stmt".to_vec();
    parse.push(0);
    parse.extend_from_slice(b"select 2");
    parse.push(0);
    conn.frontend_msg(t0, &pg_frame(80, &parse));
    conn.backend_msg(t0, &pg_frame(49, &[]));

    let mut bind = b"portal".to_vec();
    bind.push(0);
    bind.extend_from_slice(b"stmt");
    bind.push(0);
    conn.frontend_msg(t0, &pg_frame(66, &bind));
    conn.backend_msg(t0, &pg_frame(50, &[]));

    let mut exec = b"portal".to_vec();
    exec.push(0);
    conn.frontend_msg(t0, &pg_frame(69, &exec));
    let done = conn.backend_msg(t1, &pg_frame(67, b"SELECT 1\0"));

    assert_eq!(1, done.len());
    assert_eq!(b"select 2".to_vec(), done[0].query);
    assert_eq!(1000, done[0].duration.whole_milliseconds());
}
