//! The DHCPv4 decoder: parses BOOTP messages with the option fields the
//! probe reports, and pairs requests with server responses by hardware
//! address and transaction id to measure latency.

use vstd::prelude::*;
use crate::custom::{
    Customs, CustomV, ValueV, latency_ms, APP_LATENCY, DHCP_CH_ADDR, DHCP_CI_ADDR, DHCP_DOMAIN,
    DHCP_HOSTNAME, DHCP_LEASE, DHCP_MSG_TYPE, DHCP_OP, DHCP_SI_ADDR, DHCP_YI_ADDR,
};
use crate::flow::Flow;
use crate::table::{KeyT, Table};
use crate::time::{Duration, Timestamp};
use crate::wire::{be32, mac_text, read_be32, sub_vec};

verus! {

/// A parsed DHCP message: the fixed BOOTP header fields the probe
/// reports, and the recognized options.
#[derive(Clone, Debug)]
pub struct Message {
    pub op: u8,
    pub htype: u8,
    pub xid: u32,
    pub ciaddr: u32,
    pub yiaddr: u32,
    pub siaddr: u32,
    pub chaddr: Vec<u8>,
    pub msg: u8,
    pub host: Option<Vec<u8>>,
    pub domain: Option<Vec<u8>>,
    pub lease: Option<u32>,
}

/// The mathematical value of a `Message`.
pub struct MessageV {
    pub op: u8,
    pub htype: u8,
    pub xid: u32,
    pub ciaddr: u32,
    pub yiaddr: u32,
    pub siaddr: u32,
    pub chaddr: Seq<u8>,
    pub msg: u8,
    pub host: Option<Seq<u8>>,
    pub domain: Option<Seq<u8>>,
    pub lease: Option<u32>,
}

impl View for Message {
    type V = MessageV;

    open spec fn view(&self) -> MessageV {
        MessageV {
            op: self.op,
            htype: self.htype,
            xid: self.xid,
            ciaddr: self.ciaddr,
            yiaddr: self.yiaddr,
            siaddr: self.siaddr,
            chaddr: self.chaddr@,
            msg: self.msg,
            host: match &self.host {
                Some(h) => Some(h@),
                None => None,
            },
            domain: match &self.domain {
                Some(d) => Some(d@),
                None => None,
            },
            lease: self.lease,
        }
    }
}

/// The recognized options folded into `acc`, walking the option bytes
/// from `pos`: pad is skipped, end stops, and message-type, host name,
/// domain name and lease time are recorded; an overrun stops the walk.
pub open spec fn opts_spec(s: Seq<u8>, pos: int, acc: MessageV) -> MessageV
    decreases s.len() - pos,
{
    if pos < 0 || pos >= s.len() {
        acc
    } else if s[pos] == 0 {
        opts_spec(s, pos + 1, acc)
    } else if s[pos] == 255 {
        acc
    } else if pos + 1 >= s.len() {
        acc
    } else {
        let len = s[pos + 1] as int;
        if pos + 2 + len > s.len() {
            acc
        } else {
            let acc2 = if s[pos] == 53 && len == 1 {
                MessageV { msg: s[pos + 2], ..acc }
            } else if s[pos] == 12 {
                MessageV { host: Some(s.subrange(pos + 2, pos + 2 + len)), ..acc }
            } else if s[pos] == 15 {
                MessageV { domain: Some(s.subrange(pos + 2, pos + 2 + len)), ..acc }
            } else if s[pos] == 51 && len == 4 {
                MessageV { lease: Some(be32(s, pos + 2)), ..acc }
            } else {
                acc
            };
            opts_spec(s, pos + 2 + len, acc2)
        }
    }
}

/// The BOOTP magic cookie.
pub open spec fn has_magic(s: Seq<u8>) -> bool {
    s[236] == 0x63 && s[237] == 0x82 && s[238] == 0x53 && s[239] == 0x63
}

/// A DHCP datagram parsed whole: `None` unless the fixed header, a
/// hardware length of at most sixteen, and the magic cookie are there.
pub open spec fn parse_spec(s: Seq<u8>) -> Option<MessageV> {
    if s.len() < 240 || !has_magic(s) || s[2] > 16 {
        None
    } else {
        let base = MessageV {
            op: s[0],
            htype: s[1],
            xid: be32(s, 4),
            ciaddr: be32(s, 12),
            yiaddr: be32(s, 16),
            siaddr: be32(s, 20),
            chaddr: s.subrange(28, 28 + s[2] as int),
            msg: 0,
            host: None,
            domain: None,
            lease: None,
        };
        Some(opts_spec(s, 240, base))
    }
}

fn parse_opts(b: &[u8], pos: usize, acc: Message) -> (r: Message)
    requires
        pos <= b@.len(),
    ensures
        r@ == opts_spec(b@, pos as int, acc@),
    decreases b@.len() - pos,
{
    if pos >= b.len() {
        acc
    } else if b[pos] == 0 {
        parse_opts(b, pos + 1, acc)
    } else if b[pos] == 255 {
        acc
    } else if pos + 1 >= b.len() {
        acc
    } else {
        let len = b[pos + 1] as usize;
        if len > b.len() || pos + 2 > b.len() - len {
            acc
        } else {
            let code = b[pos];
            let acc2 = if code == 53 && len == 1 {
                Message { msg: b[pos + 2], ..acc }
            } else if code == 12 {
                Message { host: Some(sub_vec(b, pos + 2, pos + 2 + len)), ..acc }
            } else if code == 15 {
                Message { domain: Some(sub_vec(b, pos + 2, pos + 2 + len)), ..acc }
            } else if code == 51 && len == 4 {
                Message { lease: Some(read_be32(b, pos + 2)), ..acc }
            } else {
                acc
            };
            parse_opts(b, pos + 2 + len, acc2)
        }
    }
}

/// Parse a DHCP datagram.
pub fn parse(b: &[u8]) -> (r: Option<Message>)
    ensures
        match r {
            Some(m) => parse_spec(b@) == Some(m@),
            None => parse_spec(b@) is None,
        },
{
    if b.len() < 240 {
        return None;
    }
    if !(b[236] == 0x63 && b[237] == 0x82 && b[238] == 0x53 && b[239] == 0x63) {
        return None;
    }
    let hlen = b[2];
    if hlen > 16 {
        return None;
    }
    let base = Message {
        op: b[0],
        htype: b[1],
        xid: read_be32(b, 4),
        ciaddr: read_be32(b, 12),
        yiaddr: read_be32(b, 16),
        siaddr: read_be32(b, 20),
        chaddr: sub_vec(b, 28, 28 + hlen as usize),
        msg: 0,
        host: None,
        domain: None,
        lease: None,
    };
    Some(parse_opts(b, 240, base))
}

/// The text the probe reports for a hardware address: MAC notation for
/// six bytes, empty otherwise.
pub open spec fn chaddr_text(c: Seq<u8>) -> Seq<u8> {
    if c.len() == 6 {
        mac_text(c)
    } else {
        Seq::empty()
    }
}

/// The pairing key of a DHCP exchange: the transaction id and the raw
/// hardware address bytes.
#[derive(Clone, Copy, Debug, PartialEq, Eq, Structural, Hash)]
pub struct PendKey {
    pub xid: u32,
    pub hw_hi: u64,
    pub hw_lo: u64,
}

impl KeyT for PendKey {
    fn key_eq(&self, other: &Self) -> (r: bool)
        ensures
            r == (self == other),
    {
        self == other
    }
}

/// The pairing key a datagram's raw bytes give: the sixteen hardware
/// bytes packed into two words, and the transaction id.
pub open spec fn pend_key_spec(s: Seq<u8>) -> PendKey {
    PendKey {
        xid: be32(s, 4),
        hw_hi: (be32(s, 28) * 0x1_0000_0000 + be32(s, 32)) as u64,
        hw_lo: (be32(s, 36) * 0x1_0000_0000 + be32(s, 40)) as u64,
    }
}

fn pend_key(b: &[u8]) -> (r: PendKey)
    requires
        b@.len() >= 240,
    ensures
        r == pend_key_spec(b@),
{
    PendKey {
        xid: read_be32(b, 4),
        hw_hi: (read_be32(b, 28) as u64) * 0x1_0000_0000 + (read_be32(b, 32) as u64),
        hw_lo: (read_be32(b, 36) as u64) * 0x1_0000_0000 + (read_be32(b, 40) as u64),
    }
}

/// The pending-request table: request timestamps by pairing key.
pub struct Connection {
    pending: Table<PendKey, Timestamp>,
}

impl Connection {
    /// The pending requests.
    pub closed spec fn view(&self) -> Map<PendKey, Timestamp> {
        self.pending@
    }

    /// Well-formed: table sound, timestamps in range.
    pub closed spec fn wf(&self) -> bool {
        &&& self.pending.wf()
        &&& forall|k: PendKey| #[trigger] self.pending@.contains_key(k) ==> self.pending@[k].wf()
    }

    /// An empty pairing table.
    pub fn new() -> (r: Connection)
        ensures
            r@ == Map::<PendKey, Timestamp>::empty(),
            r.wf(),
    {
        Connection { pending: Table::new() }
    }

    /// Observe one message: a request (op 1) records its timestamp, any
    /// other op pairs with the recorded request to yield the latency.
    pub fn observe(&mut self, op: u8, key: PendKey, ts: Timestamp) -> (r: Option<Duration>)
        requires
            old(self).wf(),
            ts.wf(),
        ensures
            final(self).wf(),
            op == 1 ==> final(self)@ == old(self)@.insert(key, ts) && r is None,
            op != 1 && old(self)@.contains_key(key) ==> final(self)@ == old(self)@.remove(key)
                && r == Some(Duration { ns: (ts.nanos() - old(self)@[key].nanos()) as i64 }),
            op != 1 && !old(self)@.contains_key(key) ==> final(self)@ == old(self)@ && r is None,
    {
        if op == 1 {
            self.pending.insert(key, ts);
            None
        } else {
            match self.pending.remove(&key) {
                Some(ts0) => Some(ts.minus(ts0)),
                None => None,
            }
        }
    }
}

/// The values one parsed message appends, in order: op, message type,
/// the three addresses, the hardware address text, then host name,
/// domain name, lease seconds and latency when present.
pub open spec fn customs_spec(
    ids: DecoderIds,
    m: MessageV,
    lat: Option<Duration>,
) -> Seq<CustomV> {
    let r = seq![
        CustomV { id: ids.op, value: ValueV::U32(m.op as u32) },
        CustomV { id: ids.msg, value: ValueV::U32(m.msg as u32) },
        CustomV { id: ids.ciaddr, value: ValueV::U32(m.ciaddr) },
        CustomV { id: ids.yiaddr, value: ValueV::U32(m.yiaddr) },
        CustomV { id: ids.siaddr, value: ValueV::U32(m.siaddr) },
        CustomV { id: ids.chaddr, value: ValueV::Str(chaddr_text(m.chaddr)) },
    ];
    let r = match m.host {
        Some(h) => r.push(CustomV { id: ids.host, value: ValueV::Str(h) }),
        None => r,
    };
    let r = match m.domain {
        Some(d) => r.push(CustomV { id: ids.domain, value: ValueV::Str(d) }),
        None => r,
    };
    let r = match m.lease {
        Some(secs) => r.push(CustomV { id: ids.lease, value: ValueV::U32(secs) }),
        None => r,
    };
    match lat {
        Some(d) => r.push(CustomV { id: ids.latency, value: ValueV::U32(latency_ms(d)) }),
        None => r,
    }
}

/// The column ids the DHCP decoder appends under.
pub struct DecoderIds {
    pub op: u64,
    pub msg: u64,
    pub ciaddr: u64,
    pub yiaddr: u64,
    pub siaddr: u64,
    pub chaddr: u64,
    pub host: u64,
    pub domain: u64,
    pub lease: u64,
    pub latency: u64,
}

/// The DHCP decoder: column ids and the pairing table.
pub struct Decoder {
    op: u64,
    msg: u64,
    ciaddr: u64,
    yiaddr: u64,
    siaddr: u64,
    chaddr: u64,
    host: u64,
    domain: u64,
    lease: u64,
    latency: u64,
    conn: Connection,
}

impl Decoder {
    /// The column ids.
    pub closed spec fn ids(&self) -> DecoderIds {
        DecoderIds {
            op: self.op,
            msg: self.msg,
            ciaddr: self.ciaddr,
            yiaddr: self.yiaddr,
            siaddr: self.siaddr,
            chaddr: self.chaddr,
            host: self.host,
            domain: self.domain,
            lease: self.lease,
            latency: self.latency,
        }
    }

    /// The pairing table.
    pub closed spec fn view(&self) -> Map<PendKey, Timestamp> {
        self.conn@
    }

    /// Well-formed.
    pub closed spec fn wf(&self) -> bool {
        self.conn.wf()
    }

    /// A decoder bound to the dictionary; `Err` when any column the
    /// decoder needs is missing, which disables it.
    /// Whether the dictionary carries every column this decoder needs.
    pub open spec fn enabled(cs: Customs) -> bool {
        &&& cs.get_spec(DHCP_OP@) is Some
        &&& cs.get_spec(DHCP_MSG_TYPE@) is Some
        &&& cs.get_spec(DHCP_CI_ADDR@) is Some
        &&& cs.get_spec(DHCP_YI_ADDR@) is Some
        &&& cs.get_spec(DHCP_SI_ADDR@) is Some
        &&& cs.get_spec(DHCP_CH_ADDR@) is Some
        &&& cs.get_spec(DHCP_HOSTNAME@) is Some
        &&& cs.get_spec(DHCP_DOMAIN@) is Some
        &&& cs.get_spec(DHCP_LEASE@) is Some
        &&& cs.get_spec(APP_LATENCY@) is Some
    }

    pub fn new(cs: &Customs) -> (r: Result<Decoder, ()>)
        ensures
            r is Ok <==> Self::enabled(*cs),
            r is Ok <==> {
                &&& cs.get_spec(DHCP_OP@) is Some
                &&& cs.get_spec(DHCP_MSG_TYPE@) is Some
                &&& cs.get_spec(DHCP_CI_ADDR@) is Some
                &&& cs.get_spec(DHCP_YI_ADDR@) is Some
                &&& cs.get_spec(DHCP_SI_ADDR@) is Some
                &&& cs.get_spec(DHCP_CH_ADDR@) is Some
                &&& cs.get_spec(DHCP_HOSTNAME@) is Some
                &&& cs.get_spec(DHCP_DOMAIN@) is Some
                &&& cs.get_spec(DHCP_LEASE@) is Some
                &&& cs.get_spec(APP_LATENCY@) is Some
            },
            match r {
                Ok(d) => {
                    &&& d.wf()
                    &&& d@ == Map::<PendKey, Timestamp>::empty()
                    &&& Some(d.ids().op) == cs.get_spec(DHCP_OP@)
                    &&& Some(d.ids().msg) == cs.get_spec(DHCP_MSG_TYPE@)
                    &&& Some(d.ids().ciaddr) == cs.get_spec(DHCP_CI_ADDR@)
                    &&& Some(d.ids().yiaddr) == cs.get_spec(DHCP_YI_ADDR@)
                    &&& Some(d.ids().siaddr) == cs.get_spec(DHCP_SI_ADDR@)
                    &&& Some(d.ids().chaddr) == cs.get_spec(DHCP_CH_ADDR@)
                    &&& Some(d.ids().host) == cs.get_spec(DHCP_HOSTNAME@)
                    &&& Some(d.ids().domain) == cs.get_spec(DHCP_DOMAIN@)
                    &&& Some(d.ids().lease) == cs.get_spec(DHCP_LEASE@)
                    &&& Some(d.ids().latency) == cs.get_spec(APP_LATENCY@)
                },
                Err(()) => true,
            },
    {
        let op = match cs.get(DHCP_OP) {
            Ok(id) => id,
            Err(()) => {
                return Err(());
            },
        };
        let msg = match cs.get(DHCP_MSG_TYPE) {
            Ok(id) => id,
            Err(()) => {
                return Err(());
            },
        };
        let ciaddr = match cs.get(DHCP_CI_ADDR) {
            Ok(id) => id,
            Err(()) => {
                return Err(());
            },
        };
        let yiaddr = match cs.get(DHCP_YI_ADDR) {
            Ok(id) => id,
            Err(()) => {
                return Err(());
            },
        };
        let siaddr = match cs.get(DHCP_SI_ADDR) {
            Ok(id) => id,
            Err(()) => {
                return Err(());
            },
        };
        let chaddr = match cs.get(DHCP_CH_ADDR) {
            Ok(id) => id,
            Err(()) => {
                return Err(());
            },
        };
        let host = match cs.get(DHCP_HOSTNAME) {
            Ok(id) => id,
            Err(()) => {
                return Err(());
            },
        };
        let domain = match cs.get(DHCP_DOMAIN) {
            Ok(id) => id,
            Err(()) => {
                return Err(());
            },
        };
        let lease = match cs.get(DHCP_LEASE) {
            Ok(id) => id,
            Err(()) => {
                return Err(());
            },
        };
        let latency = match cs.get(APP_LATENCY) {
            Ok(id) => id,
            Err(()) => {
                return Err(());
            },
        };
        Ok(Decoder {
            op,
            msg,
            ciaddr,
            yiaddr,
            siaddr,
            chaddr,
            host,
            domain,
            lease,
            latency,
            conn: Connection::new(),
        })
    }

    /// Decode one datagram: a parsed message appends its fields and is
    /// paired for latency; anything else appends nothing. Returns
    /// whether a completed message was recognized.
    pub fn decode(&mut self, flow: &Flow, cs: &mut Customs) -> (r: bool)
        requires
            old(self).wf(),
            flow.wf(),
        ensures
            final(self).wf(),
            final(self).ids() == old(self).ids(),
            final(cs).get_spec_unchanged(*old(cs)),
            final(cs)@.len() >= old(cs)@.len() && final(cs)@.subrange(
                0,
                old(cs)@.len() as int,
            ) == old(cs)@,
            parse_spec(flow.payload@) is None ==> !r && final(cs)@ == old(cs)@ && final(self)@
                == old(self)@,
            parse_spec(flow.payload@) matches Some(m) ==> {
                let key = pend_key_spec(flow.payload@);
                &&& r
                &&& (m.op == 1 ==> final(self)@ == old(self)@.insert(key, flow.timestamp)
                    && final(cs)@ == old(cs)@ + customs_spec(old(self).ids(), m, None))
                &&& (m.op != 1 && old(self)@.contains_key(key) ==> final(self)@ == old(
                    self,
                )@.remove(key) && final(cs)@ == old(cs)@ + customs_spec(
                    old(self).ids(),
                    m,
                    Some(Duration { ns: (flow.timestamp.nanos() - old(self)@[key].nanos()) as i64 }),
                ))
                &&& (m.op != 1 && !old(self)@.contains_key(key) ==> final(self)@ == old(self)@
                    && final(cs)@ == old(cs)@ + customs_spec(old(self).ids(), m, None))
            },
    {
        let m = match parse(flow.payload.as_slice()) {
            Some(m) => m,
            None => {
                proof {
                    assert(cs@.subrange(0, old(cs)@.len() as int) =~= old(cs)@);
                }
                return false;
            },
        };
        let key = pend_key(flow.payload.as_slice());
        let lat = self.conn.observe(m.op, key, flow.timestamp);

        cs.add_u32(self.op, m.op as u32);
        cs.add_u32(self.msg, m.msg as u32);
        cs.add_u32(self.ciaddr, m.ciaddr);
        cs.add_u32(self.yiaddr, m.yiaddr);
        cs.add_u32(self.siaddr, m.siaddr);
        let mut text: Vec<u8> = Vec::new();
        if m.chaddr.len() == 6 {
            crate::wire::push_mac(&mut text, m.chaddr.as_slice());
        }
        cs.add_str(self.chaddr, text);
        if let Some(h) = m.host {
            cs.add_str(self.host, h);
        }
        if let Some(d) = m.domain {
            cs.add_str(self.domain, d);
        }
        if let Some(secs) = m.lease {
            cs.add_u32(self.lease, secs);
        }
        if let Some(d) = lat {
            cs.add_latency(self.latency, d);
        }
        proof {
            assert(cs@ =~= old(cs)@ + customs_spec(old(self).ids(), m@, lat));
            assert(cs@.subrange(0, old(cs)@.len() as int) =~= old(cs)@);
        }
        true
    }

    /// Forget nothing on the idle sweep: pairing entries are removed as
    /// they pair.
    pub fn clear(&mut self, _ts: Timestamp)
        ensures
            *final(self) == *old(self),
    {
    }
}

} // verus!
