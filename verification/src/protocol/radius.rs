//! The RADIUS decoder: parses attribute TLVs and pairs requests with
//! responses by endpoints and packet id to measure latency.

use vstd::prelude::*;
use crate::custom::{
    Customs, CustomV, ValueV, latency_ms, APP_LATENCY, RADIUS_ACCT_SESSION_ID, RADIUS_ACCT_STATUS,
    RADIUS_CODE, RADIUS_FRAMED_IP_ADDR, RADIUS_FRAMED_IP_MASK, RADIUS_FRAMED_PROTO,
    RADIUS_SERVICE_TYPE, RADIUS_USER_NAME,
};
use crate::flow::{Addr, Flow, IpAddr};
use crate::table::{KeyT, Table};
use crate::time::{Duration, Timestamp};
use crate::wire::{be16, be32, read_be16, read_be32, sub_vec};

verus! {

/// A parsed RADIUS message: the recognized code and the attributes the
/// probe reports.
#[derive(Clone, Debug)]
pub struct Message {
    pub code: u8,
    pub id: u8,
    pub length: u16,
    pub user: Option<Vec<u8>>,
    pub service_type: Option<u8>,
    pub framed_ip: Option<u32>,
    pub framed_mask: Option<u32>,
    pub framed_proto: Option<u32>,
    pub acct_session_id: Option<Vec<u8>>,
    pub acct_status: Option<u32>,
}

/// The mathematical value of a `Message`.
pub struct MessageV {
    pub code: u8,
    pub id: u8,
    pub length: u16,
    pub user: Option<Seq<u8>>,
    pub service_type: Option<u8>,
    pub framed_ip: Option<u32>,
    pub framed_mask: Option<u32>,
    pub framed_proto: Option<u32>,
    pub acct_session_id: Option<Seq<u8>>,
    pub acct_status: Option<u32>,
}

impl View for Message {
    type V = MessageV;

    open spec fn view(&self) -> MessageV {
        MessageV {
            code: self.code,
            id: self.id,
            length: self.length,
            user: match &self.user {
                Some(u) => Some(u@),
                None => None,
            },
            service_type: self.service_type,
            framed_ip: self.framed_ip,
            framed_mask: self.framed_mask,
            framed_proto: self.framed_proto,
            acct_session_id: match &self.acct_session_id {
                Some(u) => Some(u@),
                None => None,
            },
            acct_status: self.acct_status,
        }
    }
}

/// The recognized packet codes, with every other code reported as zero.
pub open spec fn code_of(raw: u8) -> u8 {
    if raw == 1 || raw == 2 || raw == 3 || raw == 4 || raw == 5 || raw == 11 {
        raw
    } else {
        0
    }
}

/// The recognized service types, with every other value reported as
/// zero.
pub open spec fn service_of(v: u32) -> u8 {
    if 1 <= v <= 11 {
        v as u8
    } else {
        0
    }
}

/// The recognized attributes folded into `acc`, walking the TLVs from
/// `pos`; a length under two or an overrun stops the walk.
pub open spec fn attrs_spec(s: Seq<u8>, pos: int, acc: MessageV) -> MessageV
    decreases s.len() - pos,
{
    if pos < 0 || pos + 2 > s.len() {
        acc
    } else {
        let alen = s[pos + 1] as int;
        if alen < 2 || pos + alen > s.len() {
            acc
        } else {
            let t = s[pos];
            let acc2 = if t == 1 {
                MessageV { user: Some(s.subrange(pos + 2, pos + alen)), ..acc }
            } else if t == 6 && alen == 6 {
                MessageV { service_type: Some(service_of(be32(s, pos + 2))), ..acc }
            } else if t == 8 && alen == 6 {
                MessageV { framed_ip: Some(be32(s, pos + 2)), ..acc }
            } else if t == 9 && alen == 6 {
                MessageV { framed_mask: Some(be32(s, pos + 2)), ..acc }
            } else if t == 10 && alen == 6 {
                MessageV { framed_proto: Some(be32(s, pos + 2)), ..acc }
            } else if t == 40 && alen == 6 {
                MessageV { acct_status: Some(be32(s, pos + 2)), ..acc }
            } else if t == 44 {
                MessageV { acct_session_id: Some(s.subrange(pos + 2, pos + alen)), ..acc }
            } else {
                acc
            };
            attrs_spec(s, pos + alen, acc2)
        }
    }
}

/// A RADIUS packet parsed whole: `None` without the twenty-byte header.
pub open spec fn parse_spec(s: Seq<u8>) -> Option<MessageV> {
    if s.len() < 20 {
        None
    } else {
        let base = MessageV {
            code: code_of(s[0]),
            id: s[1],
            length: be16(s, 2),
            user: None,
            service_type: None,
            framed_ip: None,
            framed_mask: None,
            framed_proto: None,
            acct_session_id: None,
            acct_status: None,
        };
        Some(attrs_spec(s, 20, base))
    }
}

fn parse_attrs(b: &[u8], pos: usize, acc: Message) -> (r: Message)
    requires
        pos <= b@.len(),
    ensures
        r@ == attrs_spec(b@, pos as int, acc@),
    decreases b@.len() - pos,
{
    if pos >= b.len() || b.len() - pos < 2 {
        acc
    } else {
        let alen = b[pos + 1] as usize;
        if alen < 2 || alen > b.len() || pos > b.len() - alen {
            acc
        } else {
            let t = b[pos];
            let acc2 = if t == 1 {
                Message { user: Some(sub_vec(b, pos + 2, pos + alen)), ..acc }
            } else if t == 6 && alen == 6 {
                let v = read_be32(b, pos + 2);
                Message {
                    service_type: Some(if 1 <= v && v <= 11 {
                        v as u8
                    } else {
                        0
                    }),
                    ..acc
                }
            } else if t == 8 && alen == 6 {
                Message { framed_ip: Some(read_be32(b, pos + 2)), ..acc }
            } else if t == 9 && alen == 6 {
                Message { framed_mask: Some(read_be32(b, pos + 2)), ..acc }
            } else if t == 10 && alen == 6 {
                Message { framed_proto: Some(read_be32(b, pos + 2)), ..acc }
            } else if t == 40 && alen == 6 {
                Message { acct_status: Some(read_be32(b, pos + 2)), ..acc }
            } else if t == 44 {
                Message { acct_session_id: Some(sub_vec(b, pos + 2, pos + alen)), ..acc }
            } else {
                acc
            };
            parse_attrs(b, pos + alen, acc2)
        }
    }
}

/// Parse a RADIUS packet.
pub fn parse(b: &[u8]) -> (r: Option<Message>)
    ensures
        match r {
            Some(m) => parse_spec(b@) == Some(m@),
            None => parse_spec(b@) is None,
        },
{
    if b.len() < 20 {
        return None;
    }
    let raw = b[0];
    let code = if raw == 1 || raw == 2 || raw == 3 || raw == 4 || raw == 5 || raw == 11 {
        raw
    } else {
        0
    };
    let base = Message {
        code,
        id: b[1],
        length: read_be16(b, 2),
        user: None,
        service_type: None,
        framed_ip: None,
        framed_mask: None,
        framed_proto: None,
        acct_session_id: None,
        acct_status: None,
    };
    Some(parse_attrs(b, 20, base))
}

/// The pairing key of a request/response exchange: the requesting
/// endpoints and the packet id.
#[derive(Clone, Copy, Debug, PartialEq, Eq, Structural, Hash)]
pub struct ExchangeKey {
    pub src: Addr,
    pub dst: Addr,
    pub id: u8,
}

impl KeyT for ExchangeKey {
    fn key_eq(&self, other: &Self) -> (r: bool)
        ensures
            r == (self == other),
    {
        self == other
    }
}

/// The pending-request table of the RADIUS decoder.
pub struct Tracker {
    pending: Table<ExchangeKey, Timestamp>,
}

impl Tracker {
    /// The pending requests.
    pub closed spec fn view(&self) -> Map<ExchangeKey, Timestamp> {
        self.pending@
    }

    /// Well-formed: table sound, timestamps in range.
    pub closed spec fn wf(&self) -> bool {
        &&& self.pending.wf()
        &&& forall|k: ExchangeKey| #[trigger] self.pending@.contains_key(k)
            ==> self.pending@[k].wf()
    }

    /// An empty pairing table.
    pub fn new() -> (r: Tracker)
        ensures
            r@ == Map::<ExchangeKey, Timestamp>::empty(),
            r.wf(),
    {
        Tracker { pending: Table::new() }
    }

    /// Observe one message: an Access- or Accounting-Request records its
    /// timestamp under the forward key; any other code pairs with the
    /// request recorded under the reversed key.
    pub fn observe(&mut self, code: u8, src: Addr, dst: Addr, id: u8, ts: Timestamp) -> (r: Option<
        Duration,
    >)
        requires
            old(self).wf(),
            ts.wf(),
        ensures
            final(self).wf(),
            (code == 1 || code == 4) ==> final(self)@ == old(self)@.insert(
                ExchangeKey { src, dst, id },
                ts,
            ) && r is None,
            !(code == 1 || code == 4) ==> {
                let k = ExchangeKey { src: dst, dst: src, id };
                &&& (old(self)@.contains_key(k) ==> final(self)@ == old(self)@.remove(k) && r
                    == Some(Duration { ns: (ts.nanos() - old(self)@[k].nanos()) as i64 }))
                &&& (!old(self)@.contains_key(k) ==> final(self)@ == old(self)@ && r is None)
            },
    {
        if code == 1 || code == 4 {
            self.pending.insert(ExchangeKey { src, dst, id }, ts);
            None
        } else {
            match self.pending.remove(&ExchangeKey { src: dst, dst: src, id }) {
                Some(ts0) => Some(ts.minus(ts0)),
                None => None,
            }
        }
    }
}

/// The column ids the RADIUS decoder appends under.
pub struct DecoderIds {
    pub code: u64,
    pub latency: u64,
    pub user: u64,
    pub service_type: u64,
    pub framed_ip: u64,
    pub framed_mask: u64,
    pub framed_proto: u64,
    pub acct_session_id: u64,
    pub acct_status: u64,
}

/// The values one parsed message appends, in order: the code, the
/// latency when the message answers a request, then each present
/// attribute.
pub open spec fn customs_spec(ids: DecoderIds, m: MessageV, lat: Option<Duration>) -> Seq<CustomV> {
    let r = seq![CustomV { id: ids.code, value: ValueV::U32(m.code as u32) }];
    let r = match lat {
        Some(d) => r.push(CustomV { id: ids.latency, value: ValueV::U32(latency_ms(d)) }),
        None => r,
    };
    let r = match m.user {
        Some(u) => r.push(CustomV { id: ids.user, value: ValueV::Str(u) }),
        None => r,
    };
    let r = match m.acct_status {
        Some(v) => r.push(CustomV { id: ids.acct_status, value: ValueV::U32(v) }),
        None => r,
    };
    let r = match m.service_type {
        Some(v) => r.push(CustomV { id: ids.service_type, value: ValueV::U32(v as u32) }),
        None => r,
    };
    let r = match m.framed_ip {
        Some(ip) => r.push(CustomV { id: ids.framed_ip, value: ValueV::Addr(IpAddr::V4(ip)) }),
        None => r,
    };
    let r = match m.framed_mask {
        Some(v) => r.push(CustomV { id: ids.framed_mask, value: ValueV::U32(v) }),
        None => r,
    };
    let r = match m.framed_proto {
        Some(v) => r.push(CustomV { id: ids.framed_proto, value: ValueV::U32(v) }),
        None => r,
    };
    match m.acct_session_id {
        Some(u) => r.push(CustomV { id: ids.acct_session_id, value: ValueV::Str(u) }),
        None => r,
    }
}

/// The RADIUS decoder: column ids and the pairing table.
pub struct Decoder {
    code: u64,
    latency: u64,
    user: u64,
    service_type: u64,
    framed_ip: u64,
    framed_mask: u64,
    framed_proto: u64,
    acct_session_id: u64,
    acct_status: u64,
    tracker: Tracker,
}

impl Decoder {
    /// The column ids.
    pub closed spec fn ids(&self) -> DecoderIds {
        DecoderIds {
            code: self.code,
            latency: self.latency,
            user: self.user,
            service_type: self.service_type,
            framed_ip: self.framed_ip,
            framed_mask: self.framed_mask,
            framed_proto: self.framed_proto,
            acct_session_id: self.acct_session_id,
            acct_status: self.acct_status,
        }
    }

    /// The pairing table.
    pub closed spec fn view(&self) -> Map<ExchangeKey, Timestamp> {
        self.tracker@
    }

    /// Well-formed.
    pub closed spec fn wf(&self) -> bool {
        self.tracker.wf()
    }

    /// A decoder bound to the dictionary; `Err` when any column the
    /// decoder needs is missing, which disables it.
    /// Whether the dictionary carries every column this decoder needs.
    pub open spec fn enabled(cs: Customs) -> bool {
        &&& cs.get_spec(RADIUS_CODE@) is Some
        &&& cs.get_spec(APP_LATENCY@) is Some
        &&& cs.get_spec(RADIUS_USER_NAME@) is Some
        &&& cs.get_spec(RADIUS_ACCT_STATUS@) is Some
        &&& cs.get_spec(RADIUS_SERVICE_TYPE@) is Some
        &&& cs.get_spec(RADIUS_FRAMED_IP_ADDR@) is Some
        &&& cs.get_spec(RADIUS_FRAMED_IP_MASK@) is Some
        &&& cs.get_spec(RADIUS_FRAMED_PROTO@) is Some
        &&& cs.get_spec(RADIUS_ACCT_SESSION_ID@) is Some
    }

    pub fn new(cs: &Customs) -> (r: Result<Decoder, ()>)
        ensures
            r is Ok <==> Self::enabled(*cs),
            r is Ok <==> {
                &&& cs.get_spec(RADIUS_CODE@) is Some
                &&& cs.get_spec(APP_LATENCY@) is Some
                &&& cs.get_spec(RADIUS_USER_NAME@) is Some
                &&& cs.get_spec(RADIUS_ACCT_STATUS@) is Some
                &&& cs.get_spec(RADIUS_SERVICE_TYPE@) is Some
                &&& cs.get_spec(RADIUS_FRAMED_IP_ADDR@) is Some
                &&& cs.get_spec(RADIUS_FRAMED_IP_MASK@) is Some
                &&& cs.get_spec(RADIUS_FRAMED_PROTO@) is Some
                &&& cs.get_spec(RADIUS_ACCT_SESSION_ID@) is Some
            },
            match r {
                Ok(d) => {
                    &&& d.wf()
                    &&& d@ == Map::<ExchangeKey, Timestamp>::empty()
                    &&& Some(d.ids().code) == cs.get_spec(RADIUS_CODE@)
                    &&& Some(d.ids().latency) == cs.get_spec(APP_LATENCY@)
                    &&& Some(d.ids().user) == cs.get_spec(RADIUS_USER_NAME@)
                    &&& Some(d.ids().acct_status) == cs.get_spec(RADIUS_ACCT_STATUS@)
                    &&& Some(d.ids().service_type) == cs.get_spec(RADIUS_SERVICE_TYPE@)
                    &&& Some(d.ids().framed_ip) == cs.get_spec(RADIUS_FRAMED_IP_ADDR@)
                    &&& Some(d.ids().framed_mask) == cs.get_spec(RADIUS_FRAMED_IP_MASK@)
                    &&& Some(d.ids().framed_proto) == cs.get_spec(RADIUS_FRAMED_PROTO@)
                    &&& Some(d.ids().acct_session_id) == cs.get_spec(RADIUS_ACCT_SESSION_ID@)
                },
                Err(()) => true,
            },
    {
        let code = match cs.get(RADIUS_CODE) {
            Ok(id) => id,
            Err(()) => {
                return Err(());
            },
        };
        let latency = match cs.get(APP_LATENCY) {
            Ok(id) => id,
            Err(()) => {
                return Err(());
            },
        };
        let user = match cs.get(RADIUS_USER_NAME) {
            Ok(id) => id,
            Err(()) => {
                return Err(());
            },
        };
        let acct_status = match cs.get(RADIUS_ACCT_STATUS) {
            Ok(id) => id,
            Err(()) => {
                return Err(());
            },
        };
        let service_type = match cs.get(RADIUS_SERVICE_TYPE) {
            Ok(id) => id,
            Err(()) => {
                return Err(());
            },
        };
        let framed_ip = match cs.get(RADIUS_FRAMED_IP_ADDR) {
            Ok(id) => id,
            Err(()) => {
                return Err(());
            },
        };
        let framed_mask = match cs.get(RADIUS_FRAMED_IP_MASK) {
            Ok(id) => id,
            Err(()) => {
                return Err(());
            },
        };
        let framed_proto = match cs.get(RADIUS_FRAMED_PROTO) {
            Ok(id) => id,
            Err(()) => {
                return Err(());
            },
        };
        let acct_session_id = match cs.get(RADIUS_ACCT_SESSION_ID) {
            Ok(id) => id,
            Err(()) => {
                return Err(());
            },
        };
        Ok(Decoder {
            code,
            latency,
            user,
            service_type,
            framed_ip,
            framed_mask,
            framed_proto,
            acct_session_id,
            acct_status,
            tracker: Tracker::new(),
        })
    }

    /// Decode one datagram: a parsed message appends its code and
    /// attributes and pairs for latency; anything else appends nothing.
    #[verifier::rlimit(100)]
    #[verifier::spinoff_prover]
    pub fn decode(&mut self, flow: &Flow, cs: &mut Customs) -> (r: bool)
        requires
            old(self).wf(),
            flow.wf(),
        ensures
            final(self).wf(),
            final(self).ids() == old(self).ids(),
            final(cs).get_spec_unchanged(*old(cs)),
            final(cs)@.len() >= old(cs)@.len() && final(cs)@.subrange(
                0,
                old(cs)@.len() as int,
            ) == old(cs)@,
            parse_spec(flow.payload@) is None ==> !r && final(cs)@ == old(cs)@ && final(self)@
                == old(self)@,
            parse_spec(flow.payload@) matches Some(m) ==> {
                &&& r
                &&& ((m.code == 1 || m.code == 4) ==> final(self)@ == old(self)@.insert(
                    ExchangeKey { src: flow.src, dst: flow.dst, id: m.id },
                    flow.timestamp,
                ) && final(cs)@ == old(cs)@ + customs_spec(old(self).ids(), m, None))
                &&& (!(m.code == 1 || m.code == 4) ==> {
                    let k = ExchangeKey { src: flow.dst, dst: flow.src, id: m.id };
                    &&& (old(self)@.contains_key(k) ==> final(self)@ == old(self)@.remove(k)
                        && final(cs)@ == old(cs)@ + customs_spec(
                        old(self).ids(),
                        m,
                        Some(
                            Duration {
                                ns: (flow.timestamp.nanos() - old(self)@[k].nanos()) as i64,
                            },
                        ),
                    ))
                    &&& (!old(self)@.contains_key(k) ==> final(self)@ == old(self)@ && final(cs)@
                        == old(cs)@ + customs_spec(old(self).ids(), m, None))
                })
            },
    {
        let m = match parse(flow.payload.as_slice()) {
            Some(m) => m,
            None => {
                proof {
                    assert(cs@.subrange(0, old(cs)@.len() as int) =~= old(cs)@);
                }
                return false;
            },
        };
        let lat = self.tracker.observe(m.code, flow.src, flow.dst, m.id, flow.timestamp);

        cs.add_u32(self.code, m.code as u32);
        if let Some(d) = lat {
            cs.add_latency(self.latency, d);
        }
        if let Some(u) = m.user {
            cs.add_str(self.user, u);
        }
        if let Some(v) = m.acct_status {
            cs.add_u32(self.acct_status, v);
        }
        if let Some(v) = m.service_type {
            cs.add_u32(self.service_type, v as u32);
        }
        if let Some(ip) = m.framed_ip {
            cs.add_addr(self.framed_ip, IpAddr::V4(ip));
        }
        if let Some(v) = m.framed_mask {
            cs.add_u32(self.framed_mask, v);
        }
        if let Some(v) = m.framed_proto {
            cs.add_u32(self.framed_proto, v);
        }
        if let Some(u) = m.acct_session_id {
            cs.add_str(self.acct_session_id, u);
        }
        proof {
            assert(cs@ =~= old(cs)@ + customs_spec(old(self).ids(), m@, lat));
            assert(cs@.subrange(0, old(cs)@.len() as int) =~= old(cs)@);
        }
        true
    }

    /// Forget nothing on the idle sweep: pairing entries are removed as
    /// they pair.
    pub fn clear(&mut self, _ts: Timestamp)
        ensures
            *final(self) == *old(self),
    {
    }
}

} // verus!
