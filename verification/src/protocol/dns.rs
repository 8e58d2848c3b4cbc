//! The DNS decoder: parses messages with label-compression pointer
//! resolution, renders answer records as `<value>/<type>` texts, and
//! pairs queries with replies by id to measure latency.

use vstd::prelude::*;
use crate::custom::{
    Customs, CustomV, ValueV, latency_ms, APP_LATENCY, DNS_QUERY_NAME, DNS_QUERY_TYPE,
    DNS_REPLY_CODE, DNS_REPLY_DATA,
};
use crate::flow::{Addr, AddrPair, Flow};
use crate::table::Table;
use crate::time::{Duration, Timestamp};
use crate::wire::{be16, be32, ipv4_text, ipv6_text, read_be16, read_be32, sub_vec};

verus! {

/// The hop budget for compression pointers: a resolution that chains
/// more pointers than this is treated as malformed.
pub const NAME_FUEL: u32 = 128;

/// The position just after a name's in-place bytes: labels walked to
/// the zero terminator or to a two-byte pointer.
pub open spec fn skip_name(s: Seq<u8>, pos: int) -> Option<int>
    decreases s.len() - pos,
{
    if pos < 0 || pos >= s.len() {
        None
    } else if s[pos] == 0 {
        Some(pos + 1)
    } else if s[pos] & 0xC0 == 0xC0 {
        if pos + 2 <= s.len() {
            Some(pos + 2)
        } else {
            None
        }
    } else if s[pos] & 0xC0 != 0 {
        None
    } else if pos + 1 + s[pos] > s.len() {
        None
    } else {
        skip_name(s, pos + 1 + s[pos])
    }
}

/// The dotted text of the name at `pos`, following compression
/// pointers while fuel lasts.
pub open spec fn name_text(s: Seq<u8>, pos: int, fuel: nat) -> Option<Seq<u8>>
    decreases fuel, s.len() - pos,
{
    if pos < 0 || pos >= s.len() {
        None
    } else if s[pos] == 0 {
        Some(Seq::empty())
    } else if s[pos] & 0xC0 == 0xC0 {
        if pos + 2 > s.len() || fuel == 0 {
            None
        } else {
            name_text(s, (s[pos] & 0x3F) * 256 + s[pos + 1], (fuel - 1) as nat)
        }
    } else if s[pos] & 0xC0 != 0 {
        None
    } else {
        let len = s[pos] as int;
        if pos + 1 + len > s.len() {
            None
        } else {
            let label = s.subrange(pos + 1, pos + 1 + len);
            match name_text(s, pos + 1 + len, fuel) {
                Some(rest) => Some(
                    if rest.len() == 0 {
                        label
                    } else {
                        label + seq![46u8] + rest
                    },
                ),
                None => None,
            }
        }
    }
}

/// The concatenated text segments of a TXT record's data.
pub open spec fn txt_text(s: Seq<u8>, pos: int, end: int) -> Option<Seq<u8>>
    decreases end - pos,
{
    if pos < 0 || pos >= end || end > s.len() {
        Some(Seq::empty())
    } else {
        let len = s[pos] as int;
        if pos + 1 + len > end {
            Some(Seq::empty())
        } else {
            match txt_text(s, pos + 1 + len, end) {
                Some(rest) => Some(s.subrange(pos + 1, pos + 1 + len) + rest),
                None => None,
            }
        }
    }
}

/// The 128-bit value of sixteen big-endian bytes at `i`.
pub open spec fn be128(s: Seq<u8>, i: int) -> u128 {
    (be32(s, i) * 0x1_0000_0000_0000_0000_0000_0000 + be32(s, i + 4) * 0x1_0000_0000_0000_0000
        + be32(s, i + 8) * 0x1_0000_0000 + be32(s, i + 12)) as u128
}

/// The rendered `<value>/<type>` text of the answer record at `pos`,
/// and the position after it: addresses for A and AAAA, names for
/// CNAME, PTR, MX and NS, joined segments for TXT, and empty for every
/// other type.
pub open spec fn rr_text(s: Seq<u8>, pos: int) -> Option<(Seq<u8>, int)> {
    match skip_name(s, pos) {
        Some(p) => {
            if p + 10 > s.len() {
                None
            } else {
                let rtype = be16(s, p);
                let rdlen = be16(s, p + 8) as int;
                let rd = p + 10;
                let next = rd + rdlen;
                if next > s.len() {
                    None
                } else if rtype == 1 && rdlen == 4 {
                    Some((ipv4_text(be32(s, rd)) + seq![47u8, 65u8], next))
                } else if rtype == 28 && rdlen == 16 {
                    Some((ipv6_text(be128(s, rd)) + seq![47u8, 65u8, 65u8, 65u8, 65u8], next))
                } else if rtype == 5 {
                    match name_text(s, rd, NAME_FUEL as nat) {
                        Some(n) => Some((n + seq![47u8, 67u8, 78u8, 65u8, 77u8, 69u8], next)),
                        None => None,
                    }
                } else if rtype == 12 {
                    match name_text(s, rd, NAME_FUEL as nat) {
                        Some(n) => Some((n + seq![47u8, 80u8, 84u8, 82u8], next)),
                        None => None,
                    }
                } else if rtype == 15 && rdlen >= 2 {
                    match name_text(s, rd + 2, NAME_FUEL as nat) {
                        Some(n) => Some((n + seq![47u8, 77u8, 88u8], next)),
                        None => None,
                    }
                } else if rtype == 2 {
                    match name_text(s, rd, NAME_FUEL as nat) {
                        Some(n) => Some((n + seq![47u8, 78u8, 83u8], next)),
                        None => None,
                    }
                } else if rtype == 16 {
                    match txt_text(s, rd, next) {
                        Some(t) => Some((t + seq![47u8, 84u8, 88u8, 84u8], next)),
                        None => None,
                    }
                } else {
                    Some((Seq::empty(), next))
                }
            }
        },
        None => None,
    }
}

/// The semicolon-joined renderings of `n` answer records from `pos`,
/// and the position after them.
pub open spec fn answers_text(s: Seq<u8>, pos: int, n: nat) -> Option<(Seq<u8>, int)>
    decreases n,
{
    if n == 0 {
        Some((Seq::empty(), pos))
    } else {
        match rr_text(s, pos) {
            Some((t, next)) => {
                if n == 1 {
                    Some((t, next))
                } else {
                    match answers_text(s, next, (n - 1) as nat) {
                        Some((rest, fin)) => Some((t + seq![59u8] + rest, fin)),
                        None => None,
                    }
                }
            },
            None => None,
        }
    }
}

/// The position after `n` question entries from `pos`.
pub open spec fn skip_queries(s: Seq<u8>, pos: int, n: nat) -> Option<int>
    decreases n,
{
    if n == 0 {
        Some(pos)
    } else {
        match skip_name(s, pos) {
            Some(p) => {
                if p + 4 > s.len() {
                    None
                } else {
                    skip_queries(s, p + 4, (n - 1) as nat)
                }
            },
            None => None,
        }
    }
}

/// A parsed DNS message: the header fields the probe reads, the first
/// question, and the rendered answers.
pub struct MsgV {
    pub id: u16,
    pub qr: bool,
    pub opcode: u8,
    pub rcode: u8,
    pub ancount: u16,
    pub q: Option<(Seq<u8>, u16)>,
    pub answers: Seq<u8>,
}

/// A DNS message parsed whole: the header, the first question when one
/// is present, and the rendered answer records.
pub open spec fn parse_spec(s: Seq<u8>) -> Option<MsgV> {
    if s.len() < 12 {
        None
    } else {
        let id = be16(s, 0);
        let flags = be16(s, 2);
        let qr = flags >> 15 == 1;
        let opcode = ((flags >> 11) & 0xF) as u8;
        let rcode = (flags & 0xF) as u8;
        let qd = be16(s, 4);
        let an = be16(s, 6);
        let q = if qd == 0 {
            Some(Option::<(Seq<u8>, u16)>::None)
        } else {
            match (name_text(s, 12, NAME_FUEL as nat), skip_name(s, 12)) {
                (Some(n), Some(p)) => {
                    if p + 4 > s.len() {
                        None
                    } else {
                        Some(Some((n, be16(s, p))))
                    }
                },
                _ => None,
            }
        };
        match q {
            Some(qq) => {
                let apos = match qq {
                    Some(_pair) => match skip_name(s, 12) {
                        Some(p) => skip_queries(s, p + 4, (qd - 1) as nat),
                        None => None,
                    },
                    None => Some(12),
                };
                match apos {
                    Some(ap) => match answers_text(s, ap, an as nat) {
                        Some((text, _fin)) => Some(
                            MsgV { id, qr, opcode, rcode, ancount: an, q: qq, answers: text },
                        ),
                        None => None,
                    },
                    None => None,
                }
            },
            None => None,
        }
    }
}

fn skip_name_exec(b: &[u8], pos: usize) -> (r: Option<usize>)
    ensures
        match r {
            Some(p) => skip_name(b@, pos as int) == Some(p as int) && p <= b@.len(),
            None => skip_name(b@, pos as int) is None,
        },
    decreases b@.len() - pos,
{
    if pos >= b.len() {
        None
    } else if b[pos] == 0 {
        Some(pos + 1)
    } else if b[pos] & 0xC0 == 0xC0 {
        if b.len() - pos >= 2 {
            Some(pos + 2)
        } else {
            None
        }
    } else if b[pos] & 0xC0 != 0 {
        None
    } else if b.len() - (pos + 1) < b[pos] as usize {
        None
    } else {
        skip_name_exec(b, pos + 1 + b[pos] as usize)
    }
}

fn name_text_exec(b: &[u8], pos: usize, fuel: u32) -> (r: Option<Vec<u8>>)
    ensures
        match r {
            Some(n) => name_text(b@, pos as int, fuel as nat) == Some(n@),
            None => name_text(b@, pos as int, fuel as nat) is None,
        },
    decreases fuel, b@.len() - pos,
{
    if pos >= b.len() {
        None
    } else if b[pos] == 0 {
        Some(Vec::new())
    } else if b[pos] & 0xC0 == 0xC0 {
        if b.len() - pos < 2 || fuel == 0 {
            None
        } else {
            let off = (b[pos] & 0x3F) as usize * 256 + b[pos + 1] as usize;
            name_text_exec(b, off, fuel - 1)
        }
    } else if b[pos] & 0xC0 != 0 {
        None
    } else {
        let len = b[pos] as usize;
        if len > b.len() || pos + 1 > b.len() - len {
            None
        } else {
            let mut label = sub_vec(b, pos + 1, pos + 1 + len);
            match name_text_exec(b, pos + 1 + len, fuel) {
                Some(rest) => {
                    if rest.len() == 0 {
                        proof {
                            assert(label@ =~= label@ + rest@);
                        }
                        Some(label)
                    } else {
                        let ghost l0 = label@;
                        label.push(46u8);
                        let mut i: usize = 0;
                        while i < rest.len()
                            invariant
                                i <= rest@.len(),
                                label@ == l0 + seq![46u8] + rest@.take(i as int),
                            decreases rest@.len() - i,
                        {
                            label.push(rest[i]);
                            proof {
                                assert(label@ =~= l0 + seq![46u8] + rest@.take(i + 1));
                            }
                            i = i + 1;
                        }
                        proof {
                            assert(label@ =~= l0 + seq![46u8] + rest@);
                        }
                        Some(label)
                    }
                },
                None => None,
            }
        }
    }
}

fn txt_text_exec(b: &[u8], pos: usize, end: usize) -> (r: Option<Vec<u8>>)
    requires
        end <= b@.len(),
    ensures
        match r {
            Some(t) => txt_text(b@, pos as int, end as int) == Some(t@),
            None => txt_text(b@, pos as int, end as int) is None,
        },
    decreases end - pos,
{
    if pos >= end {
        Some(Vec::new())
    } else {
        let len = b[pos] as usize;
        if len > end || pos + 1 > end - len {
            Some(Vec::new())
        } else {
            match txt_text_exec(b, pos + 1 + len, end) {
                Some(rest) => {
                    let mut seg = sub_vec(b, pos + 1, pos + 1 + len);
                    let ghost s0 = seg@;
                    let mut i: usize = 0;
                    while i < rest.len()
                        invariant
                            i <= rest@.len(),
                            seg@ == s0 + rest@.take(i as int),
                        decreases rest@.len() - i,
                    {
                        seg.push(rest[i]);
                        proof {
                            assert(seg@ =~= s0 + rest@.take(i + 1));
                        }
                        i = i + 1;
                    }
                    proof {
                        assert(seg@ =~= s0 + rest@);
                    }
                    Some(seg)
                },
                None => None,
            }
        }
    }
}

/// Append `tail` to `out`.
fn push_all(out: &mut Vec<u8>, tail: &[u8])
    ensures
        final(out)@ == old(out)@ + tail@,
{
    let mut i: usize = 0;
    while i < tail.len()
        invariant
            i <= tail@.len(),
            out@ == old(out)@ + tail@.take(i as int),
        decreases tail@.len() - i,
    {
        out.push(tail[i]);
        proof {
            assert(out@ =~= old(out)@ + tail@.take(i + 1));
        }
        i = i + 1;
    }
    proof {
        assert(out@ =~= old(out)@ + tail@);
    }
}

fn rr_text_exec(b: &[u8], pos: usize) -> (r: Option<(Vec<u8>, usize)>)
    ensures
        match r {
            Some((t, next)) => rr_text(b@, pos as int) == Some((t@, next as int)) && next
                <= b@.len(),
            None => rr_text(b@, pos as int) is None,
        },
{
    let p = match skip_name_exec(b, pos) {
        Some(p) => p,
        None => {
            return None;
        },
    };
    if b.len() - p < 10 {
        return None;
    }
    let rtype = read_be16(b, p);
    let rdlen = read_be16(b, p + 8) as usize;
    let rd = p + 10;
    if rdlen > b.len() || rd > b.len() - rdlen {
        return None;
    }
    let next = rd + rdlen;
    let mut out: Vec<u8> = Vec::new();
    if rtype == 1 && rdlen == 4 {
        crate::wire::push_ipv4(&mut out, read_be32(b, rd));
        out.push(47u8);
        out.push(65u8);
        proof {
            assert(out@ =~= ipv4_text(be32(b@, rd as int)) + seq![47u8, 65u8]);
        }
        Some((out, next))
    } else if rtype == 28 && rdlen == 16 {
        let hi: u128 = (read_be32(b, rd) as u128) * 0x1_0000_0000_0000_0000_0000_0000 + (read_be32(
            b,
            rd + 4,
        ) as u128) * 0x1_0000_0000_0000_0000;
        let lo: u128 = (read_be32(b, rd + 8) as u128) * 0x1_0000_0000 + (read_be32(
            b,
            rd + 12,
        ) as u128);
        crate::wire::push_ipv6(&mut out, hi + lo);
        out.push(47u8);
        out.push(65u8);
        out.push(65u8);
        out.push(65u8);
        out.push(65u8);
        proof {
            assert(out@ =~= ipv6_text(be128(b@, rd as int)) + seq![47u8, 65u8, 65u8, 65u8, 65u8]);
        }
        Some((out, next))
    } else if rtype == 5 {
        match name_text_exec(b, rd, NAME_FUEL) {
            Some(n) => {
                push_all(&mut out, n.as_slice());
                out.push(47u8);
                out.push(67u8);
                out.push(78u8);
                out.push(65u8);
                out.push(77u8);
                out.push(69u8);
                proof {
                    assert(out@ =~= n@ + seq![47u8, 67u8, 78u8, 65u8, 77u8, 69u8]);
                }
                Some((out, next))
            },
            None => None,
        }
    } else if rtype == 12 {
        match name_text_exec(b, rd, NAME_FUEL) {
            Some(n) => {
                push_all(&mut out, n.as_slice());
                out.push(47u8);
                out.push(80u8);
                out.push(84u8);
                out.push(82u8);
                proof {
                    assert(out@ =~= n@ + seq![47u8, 80u8, 84u8, 82u8]);
                }
                Some((out, next))
            },
            None => None,
        }
    } else if rtype == 15 && rdlen >= 2 {
        match name_text_exec(b, rd + 2, NAME_FUEL) {
            Some(n) => {
                push_all(&mut out, n.as_slice());
                out.push(47u8);
                out.push(77u8);
                out.push(88u8);
                proof {
                    assert(out@ =~= n@ + seq![47u8, 77u8, 88u8]);
                }
                Some((out, next))
            },
            None => None,
        }
    } else if rtype == 2 {
        match name_text_exec(b, rd, NAME_FUEL) {
            Some(n) => {
                push_all(&mut out, n.as_slice());
                out.push(47u8);
                out.push(78u8);
                out.push(83u8);
                proof {
                    assert(out@ =~= n@ + seq![47u8, 78u8, 83u8]);
                }
                Some((out, next))
            },
            None => None,
        }
    } else if rtype == 16 {
        match txt_text_exec(b, rd, next) {
            Some(t) => {
                push_all(&mut out, t.as_slice());
                out.push(47u8);
                out.push(84u8);
                out.push(88u8);
                out.push(84u8);
                proof {
                    assert(out@ =~= t@ + seq![47u8, 84u8, 88u8, 84u8]);
                }
                Some((out, next))
            },
            None => None,
        }
    } else {
        proof {
            assert(out@ =~= Seq::<u8>::empty());
        }
        Some((out, next))
    }
}

fn answers_text_exec(b: &[u8], pos: usize, n: u16) -> (r: Option<(Vec<u8>, usize)>)
    requires
        pos <= b@.len(),
    ensures
        match r {
            Some((t, next)) => answers_text(b@, pos as int, n as nat) == Some((t@, next as int))
                && next <= b@.len(),
            None => answers_text(b@, pos as int, n as nat) is None,
        },
    decreases n,
{
    if n == 0 {
        let empty: Vec<u8> = Vec::new();
        Some((empty, pos))
    } else {
        match rr_text_exec(b, pos) {
            Some((t, next)) => {
                if n == 1 {
                    Some((t, next))
                } else {
                    match answers_text_exec(b, next, n - 1) {
                        Some((rest, fin)) => {
                            let ghost tv = t@;
                            let mut out = t;
                            out.push(59u8);
                            push_all(&mut out, rest.as_slice());
                            proof {
                                assert(out@ =~= tv + seq![59u8] + rest@);
                            }
                            Some((out, fin))
                        },
                        None => None,
                    }
                }
            },
            None => None,
        }
    }
}

fn skip_queries_exec(b: &[u8], pos: usize, n: u16) -> (r: Option<usize>)
    requires
        pos <= b@.len(),
    ensures
        match r {
            Some(p) => skip_queries(b@, pos as int, n as nat) == Some(p as int) && p <= b@.len(),
            None => skip_queries(b@, pos as int, n as nat) is None,
        },
    decreases n,
{
    if n == 0 {
        Some(pos)
    } else {
        match skip_name_exec(b, pos) {
            Some(p) => {
                if b.len() - p < 4 {
                    None
                } else {
                    skip_queries_exec(b, p + 4, n - 1)
                }
            },
            None => None,
        }
    }
}

/// A parsed DNS message as the decoder holds it.
pub struct Msg {
    pub id: u16,
    pub qr: bool,
    pub opcode: u8,
    pub rcode: u8,
    pub ancount: u16,
    pub q: Option<(Vec<u8>, u16)>,
    pub answers: Vec<u8>,
}

impl View for Msg {
    type V = MsgV;

    open spec fn view(&self) -> MsgV {
        MsgV {
            id: self.id,
            qr: self.qr,
            opcode: self.opcode,
            rcode: self.rcode,
            ancount: self.ancount,
            q: match &self.q {
                Some((n, t)) => Some((n@, *t)),
                None => None,
            },
            answers: self.answers@,
        }
    }
}

/// Parse a DNS message.
pub fn parse(b: &[u8]) -> (r: Option<Msg>)
    ensures
        match r {
            Some(m) => parse_spec(b@) == Some(m@),
            None => parse_spec(b@) is None,
        },
{
    if b.len() < 12 {
        return None;
    }
    let id = read_be16(b, 0);
    let flags = read_be16(b, 2);
    let qr = flags >> 15 == 1;
    let opcode = ((flags >> 11) & 0xF) as u8;
    let rcode = (flags & 0xF) as u8;
    let qd = read_be16(b, 4);
    let an = read_be16(b, 6);

    let (q, apos) = if qd == 0 {
        (None, 12)
    } else {
        let n = match name_text_exec(b, 12, NAME_FUEL) {
            Some(n) => n,
            None => {
                return None;
            },
        };
        let p = match skip_name_exec(b, 12) {
            Some(p) => p,
            None => {
                return None;
            },
        };
        if b.len() - p < 4 {
            return None;
        }
        let qtype = read_be16(b, p);
        let ap = match skip_queries_exec(b, p + 4, qd - 1) {
            Some(ap) => ap,
            None => {
                return None;
            },
        };
        (Some((n, qtype)), ap)
    };
    let (answers, _fin) = match answers_text_exec(b, apos, an) {
        Some(pair) => pair,
        None => {
            return None;
        },
    };
    Some(Msg { id, qr, opcode, rcode, ancount: an, q, answers })
}

/// The (client, server) pair of a DNS flow: the side with port 53 is
/// the server; `None` when neither side uses it.
pub open spec fn dns_pair(src: Addr, dst: Addr) -> Option<AddrPair> {
    if dst.port == 53 {
        Some(AddrPair { a: src, b: dst })
    } else if src.port == 53 {
        Some(AddrPair { a: dst, b: src })
    } else {
        None
    }
}

/// One (client, server) conversation: pending query timestamps by id,
/// and the last activity.
pub struct Connection {
    pending: Table<u16, Timestamp>,
    last: Timestamp,
}

impl Connection {
    /// The pending queries.
    pub closed spec fn view(&self) -> Map<u16, Timestamp> {
        self.pending@
    }

    /// The last activity.
    pub closed spec fn last_spec(&self) -> Timestamp {
        self.last
    }

    /// Well-formed: table sound, timestamps in range.
    pub closed spec fn wf(&self) -> bool {
        &&& self.pending.wf()
        &&& self.last.wf()
        &&& forall|k: u16| #[trigger] self.pending@.contains_key(k) ==> self.pending@[k].wf()
    }

    /// A fresh conversation.
    pub fn new() -> (r: Connection)
        ensures
            r@ == Map::<u16, Timestamp>::empty(),
            r.last_spec().nanos() == 0,
            r.wf(),
    {
        Connection { pending: Table::new(), last: Timestamp { sec: 0, nsec: 0 } }
    }

    /// Idle when no query is pending or nothing has arrived within the
    /// timeout.
    pub fn is_idle(&self, ts: Timestamp, timeout: Duration) -> (r: bool)
        requires
            self.wf(),
            ts.wf(),
        ensures
            r == (self@.len() == 0 || ts.nanos() - self.last_spec().nanos() > timeout.ns),
    {
        self.pending.len() == 0 || timeout.lt(ts.minus(self.last))
    }
}

/// Whether a conversation survives an idle sweep at `ts`: a query is
/// still pending and it is not yet idle for longer than the timeout.
pub open spec fn survives(c: Connection, ts: Timestamp, timeout: Duration) -> bool {
    c.view().len() > 0 && ts.nanos() - c.last_spec().nanos() <= timeout.ns
}

/// The column ids the DNS decoder appends under.
pub struct DecoderIds {
    pub query_name: u64,
    pub query_type: u64,
    pub reply_code: u64,
    pub reply_data: u64,
    pub latency: u64,
}

/// The values a query appends: the question name and type.
pub open spec fn query_customs(ids: DecoderIds, name: Seq<u8>, qtype: u16) -> Seq<CustomV> {
    seq![
        CustomV { id: ids.query_name, value: ValueV::Str(name) },
        CustomV { id: ids.query_type, value: ValueV::U32(qtype as u32) },
    ]
}

/// The values an eligible reply appends: the question name and type,
/// the reply code, the rendered answers, and the query latency.
pub open spec fn reply_customs(
    ids: DecoderIds,
    name: Seq<u8>,
    qtype: u16,
    rcode: u8,
    data: Seq<u8>,
    lat: Duration,
) -> Seq<CustomV> {
    seq![
        CustomV { id: ids.query_name, value: ValueV::Str(name) },
        CustomV { id: ids.query_type, value: ValueV::U32(qtype as u32) },
        CustomV { id: ids.reply_code, value: ValueV::U32(rcode as u32) },
        CustomV { id: ids.reply_data, value: ValueV::Str(data) },
        CustomV { id: ids.latency, value: ValueV::U32(latency_ms(lat)) },
    ]
}

/// The DNS decoder: column ids and per-conversation state.
pub struct Decoder {
    query_name: u64,
    query_type: u64,
    reply_code: u64,
    reply_data: u64,
    latency: u64,
    conns: Table<AddrPair, Connection>,
}

impl Decoder {
    /// The column ids.
    pub closed spec fn ids(&self) -> DecoderIds {
        DecoderIds {
            query_name: self.query_name,
            query_type: self.query_type,
            reply_code: self.reply_code,
            reply_data: self.reply_data,
            latency: self.latency,
        }
    }

    /// The tracked conversations.
    pub closed spec fn view(&self) -> Map<AddrPair, Connection> {
        self.conns@
    }

    /// Well-formed.
    pub closed spec fn wf(&self) -> bool {
        &&& self.conns.wf()
        &&& forall|k: AddrPair| #[trigger] self.conns@.contains_key(k) ==> self.conns@[k].wf()
    }

    /// A decoder bound to the dictionary; `Err` when any column the
    /// decoder needs is missing, which disables it.
    /// Whether the dictionary carries every column this decoder needs.
    pub open spec fn enabled(cs: Customs) -> bool {
        &&& cs.get_spec(DNS_QUERY_NAME@) is Some
        &&& cs.get_spec(DNS_QUERY_TYPE@) is Some
        &&& cs.get_spec(DNS_REPLY_CODE@) is Some
        &&& cs.get_spec(DNS_REPLY_DATA@) is Some
        &&& cs.get_spec(APP_LATENCY@) is Some
    }

    pub fn new(cs: &Customs) -> (r: Result<Decoder, ()>)
        ensures
            r is Ok <==> Self::enabled(*cs),
            r is Ok <==> {
                &&& cs.get_spec(DNS_QUERY_NAME@) is Some
                &&& cs.get_spec(DNS_QUERY_TYPE@) is Some
                &&& cs.get_spec(DNS_REPLY_CODE@) is Some
                &&& cs.get_spec(DNS_REPLY_DATA@) is Some
                &&& cs.get_spec(APP_LATENCY@) is Some
            },
            match r {
                Ok(d) => {
                    &&& d.wf()
                    &&& d@ == Map::<AddrPair, Connection>::empty()
                    &&& Some(d.ids().query_name) == cs.get_spec(DNS_QUERY_NAME@)
                    &&& Some(d.ids().query_type) == cs.get_spec(DNS_QUERY_TYPE@)
                    &&& Some(d.ids().reply_code) == cs.get_spec(DNS_REPLY_CODE@)
                    &&& Some(d.ids().reply_data) == cs.get_spec(DNS_REPLY_DATA@)
                    &&& Some(d.ids().latency) == cs.get_spec(APP_LATENCY@)
                },
                Err(()) => true,
            },
    {
        let query_name = match cs.get(DNS_QUERY_NAME) {
            Ok(id) => id,
            Err(()) => {
                return Err(());
            },
        };
        let query_type = match cs.get(DNS_QUERY_TYPE) {
            Ok(id) => id,
            Err(()) => {
                return Err(());
            },
        };
        let reply_code = match cs.get(DNS_REPLY_CODE) {
            Ok(id) => id,
            Err(()) => {
                return Err(());
            },
        };
        let reply_data = match cs.get(DNS_REPLY_DATA) {
            Ok(id) => id,
            Err(()) => {
                return Err(());
            },
        };
        let latency = match cs.get(APP_LATENCY) {
            Ok(id) => id,
            Err(()) => {
                return Err(());
            },
        };
        Ok(Decoder { query_name, query_type, reply_code, reply_data, latency, conns: Table::new() })
    }

    /// Decode one datagram: a query (QR 0, opcode 0) records its
    /// timestamp by id and appends the question; a reply with opcode 0,
    /// a question and at least one answer pairs with the recorded query
    /// and appends the question, code, rendered answers and latency.
    /// Returns whether a completed message was recognized.
    #[verifier::rlimit(100)]
    #[verifier::spinoff_prover]
    pub fn decode(&mut self, flow: &Flow, cs: &mut Customs) -> (r: bool)
        requires
            old(self).wf(),
            flow.wf(),
        ensures
            final(self).wf(),
            final(self).ids() == old(self).ids(),
            final(cs).get_spec_unchanged(*old(cs)),
            final(cs)@.len() >= old(cs)@.len() && final(cs)@.subrange(
                0,
                old(cs)@.len() as int,
            ) == old(cs)@,
            dns_pair(flow.src, flow.dst) is None ==> !r && final(cs)@ == old(cs)@ && final(self)@
                == old(self)@,
            parse_spec(flow.payload@) is None ==> !r && final(cs)@ == old(cs)@,
            parse_spec(flow.payload@) matches Some(m) ==> dns_pair(flow.src, flow.dst) is Some
                ==> {
                let pair = dns_pair(flow.src, flow.dst)->0;
                let pend0 = if old(self)@.contains_key(pair) {
                    old(self)@[pair].view()
                } else {
                    Map::<u16, Timestamp>::empty()
                };
                let ts0 = if pend0.contains_key(m.id) {
                    pend0[m.id]
                } else {
                    flow.timestamp
                };
                &&& final(self)@.contains_key(pair)
                &&& final(self)@[pair].last_spec() == flow.timestamp
                &&& (forall|k2: AddrPair| k2 != pair ==> #[trigger] final(self)@.contains_key(k2)
                    == old(self)@.contains_key(k2) && (old(self)@.contains_key(k2) ==> final(self)@[k2] == old(self)@[k2]))
                &&& (!m.qr && m.opcode == 0 && m.q is Some ==> r && final(cs)@ == old(cs)@
                    + query_customs(old(self).ids(), (m.q->0).0, (m.q->0).1) && final(self)@[pair].view() == pend0.insert(m.id, flow.timestamp))
                &&& (!m.qr && !(m.opcode == 0 && m.q is Some) ==> !r && final(cs)@ == old(cs)@
                    && final(self)@[pair].view() == pend0)
                &&& (m.qr ==> final(self)@[pair].view() == pend0.remove(m.id))
                &&& (m.qr && m.opcode == 0 && m.ancount >= 1 && m.q is Some ==> r && final(cs)@
                    == old(cs)@ + reply_customs(
                    old(self).ids(),
                    (m.q->0).0,
                    (m.q->0).1,
                    m.rcode,
                    m.answers,
                    Duration { ns: (flow.timestamp.nanos() - ts0.nanos()) as i64 },
                ))
                &&& (m.qr && !(m.opcode == 0 && m.ancount >= 1 && m.q is Some) ==> !r
                    && final(cs)@ == old(cs)@)
            },
    {
        let pair = if flow.dst.port == 53 {
            AddrPair { a: flow.src, b: flow.dst }
        } else if flow.src.port == 53 {
            AddrPair { a: flow.dst, b: flow.src }
        } else {
            proof {
                assert(cs@.subrange(0, old(cs)@.len() as int) =~= old(cs)@);
            }
            return false;
        };

        let ghost pend0 = if old(self)@.contains_key(pair) {
            old(self)@[pair].view()
        } else {
            Map::<u16, Timestamp>::empty()
        };
        let mut conn = match self.conns.remove(&pair) {
            Some(c) => c,
            None => Connection::new(),
        };
        conn.last = flow.timestamp;
        proof {
            assert(conn.pending@ == pend0);
        }

        let m = match parse(flow.payload.as_slice()) {
            Some(m) => m,
            None => {
                self.conns.insert(pair, conn);
                proof {
                    assert(cs@.subrange(0, old(cs)@.len() as int) =~= old(cs)@);
                }
                return false;
            },
        };

        let mut emitted = false;
        if !m.qr {
            if m.opcode == 0 {
                if let Some((name, qtype)) = m.q {
                    conn.pending.insert(m.id, flow.timestamp);
                    cs.add_str(self.query_name, name);
                    cs.add_u32(self.query_type, qtype as u32);
                    emitted = true;
                }
            }
        } else {
            let ts0 = match conn.pending.remove(&m.id) {
                Some(t) => t,
                None => flow.timestamp,
            };
            if m.opcode == 0 && m.ancount >= 1 {
                if let Some((name, qtype)) = m.q {
                    let lat = flow.timestamp.minus(ts0);
                    cs.add_str(self.query_name, name);
                    cs.add_u32(self.query_type, qtype as u32);
                    cs.add_u32(self.reply_code, m.rcode as u32);
                    cs.add_str(self.reply_data, m.answers);
                    cs.add_latency(self.latency, lat);
                    emitted = true;
                }
            }
        }
        self.conns.insert(pair, conn);
        proof {
            assert(cs@.subrange(0, old(cs)@.len() as int) =~= old(cs)@);
            assert(self@.contains_key(pair));
            assert(self@[pair] == conn);
        }
        emitted
    }

    /// Drop conversations that are idle or quiet past the timeout.
    pub fn clear(&mut self, ts: Timestamp, timeout: Duration)
        requires
            old(self).wf(),
            ts.wf(),
        ensures
            final(self).wf(),
            final(self).ids() == old(self).ids(),
            forall|k: AddrPair| final(self)@.contains_key(k) <==> (#[trigger] old(
                self,
            )@.contains_key(k) && survives(old(self)@[k], ts, timeout)),
            forall|k: AddrPair| #[trigger] final(self)@.contains_key(k) ==> final(self)@[k] == old(
                self,
            )@[k],
    {
        let keys = self.conns.keys();
        let ghost m0 = self@;
        let mut i: usize = 0;
        #[verifier::loop_isolation(false)]
        while i < keys.len()
            invariant
                self.wf(),
                i <= keys@.len(),
                self.ids() == old(self).ids(),
                forall|j: int, l: int| 0 <= j < l < keys@.len() ==> keys@[j] != keys@[l],
                forall|j: int| 0 <= j < keys@.len() ==> m0.contains_key(#[trigger] keys@[j]),
                forall|k: AddrPair| m0.contains_key(k) ==> keys@.contains(k),
                forall|k: AddrPair| #[trigger] self@.contains_key(k) ==> m0.contains_key(k)
                    && self@[k] == m0[k],
                forall|k: AddrPair| m0.contains_key(k) && !keys@.take(i as int).contains(k)
                    ==> #[trigger] self@.contains_key(k),
                forall|j: int| 0 <= j < i ==> (#[trigger] self@.contains_key(keys@[j]) <==> survives(
                    m0[keys@[j]],
                    ts,
                    timeout,
                )),
            decreases keys@.len() - i,
        {
            let k = keys[i];
            let ghost m_in = self@;
            proof {
                assert(!keys@.take(i as int).contains(k)) by {
                    if keys@.take(i as int).contains(k) {
                        let j = choose|j: int|
                            0 <= j < i && (#[trigger] keys@.take(i as int)[j]) == k;
                        assert(keys@[j] == k);
                    }
                }
            }
            let idle = match self.conns.get(&k) {
                Some(c) => c.is_idle(ts, timeout),
                None => false,
            };
            if idle {
                let _gone = self.conns.remove(&k);
            }
            proof {
                assert forall|k2: AddrPair| #[trigger] keys@.take(i + 1).contains(k2)
                    implies keys@.take(i as int).contains(k2) || k2 == keys@[i as int] by {
                    let j = choose|j: int| 0 <= j < i + 1 && (#[trigger] keys@.take(i + 1)[j]) == k2;
                    if j < i {
                        assert(keys@.take(i as int)[j] == k2);
                    }
                }
                assert forall|k2: AddrPair| keys@.take(i as int).contains(k2)
                    implies #[trigger] keys@.take(i + 1).contains(k2) by {
                    let j = choose|j: int| 0 <= j < i && (#[trigger] keys@.take(i as int)[j]) == k2;
                    assert(keys@.take(i + 1)[j] == k2);
                }
                assert(keys@.take(i + 1)[i as int] == keys@[i as int]);
                assert forall|k2: AddrPair| m0.contains_key(k2) && !keys@.take(i + 1).contains(k2)
                    implies #[trigger] self@.contains_key(k2) by {
                    if k2 == keys@[i as int] {
                        assert(keys@.take(i + 1)[i as int] == k2);
                        assert(keys@.take(i + 1).contains(k2));
                    }
                    assert(!keys@.take(i as int).contains(k2));
                    assert(k2 != keys@[i as int]);
                    assert(m_in.contains_key(k2));
                }
                assert forall|k2: AddrPair| #[trigger] self@.contains_key(k2)
                    implies m0.contains_key(k2) && self@[k2] == m0[k2] by {
                    assert(m_in.contains_key(k2));
                }
            }
            i = i + 1;
        }
        proof {
            assert(keys@.take(keys@.len() as int) =~= keys@);
            assert forall|k: AddrPair| self@.contains_key(k) <==> (#[trigger] m0.contains_key(k)
                && survives(m0[k], ts, timeout)) by {
                if m0.contains_key(k) {
                    let j = choose|j: int| 0 <= j < keys@.len() && (#[trigger] keys@[j]) == k;
                    assert(self@.contains_key(keys@[j]) <==> survives(m0[keys@[j]], ts, timeout));
                }
            }
        }
    }
}

} // verus!
