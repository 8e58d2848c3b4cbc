//! The TLS decoder: walks plaintext records until the ServerHelloDone
//! or an unsupported version, extracting the client and server hello
//! versions, the server cipher suite, and the SNI host name.

use vstd::prelude::*;
use crate::custom::{Customs, CustomV, ValueV, TLS_CIPHER_SUITE, TLS_SERVER_NAME, TLS_SERVER_VERSION};
use crate::flow::{Addr, AddrPair, Flow, Key, FIN, SYN};
use crate::protocol::buf::Buffer;
use crate::table::Table;
use crate::time::{Duration, Timestamp};
use crate::wire::{be16, read_be16, sub_vec};

verus! {

/// What the handshake has shown so far for one connection.
#[derive(Clone, Debug)]
pub struct State {
    pub client_ver: Option<u16>,
    pub server_ver: Option<u16>,
    pub host_name: Option<Vec<u8>>,
    pub cipher_suite: Option<u16>,
    pub parsing: bool,
}

/// The mathematical value of a `State`.
pub struct StateV {
    pub client_ver: Option<u16>,
    pub server_ver: Option<u16>,
    pub host_name: Option<Seq<u8>>,
    pub cipher_suite: Option<u16>,
    pub parsing: bool,
}

impl View for State {
    type V = StateV;

    open spec fn view(&self) -> StateV {
        StateV {
            client_ver: self.client_ver,
            server_ver: self.server_ver,
            host_name: match &self.host_name {
                Some(h) => Some(h@),
                None => None,
            },
            cipher_suite: self.cipher_suite,
            parsing: self.parsing,
        }
    }
}

/// The SNI host name inside a ClientHello server-name list: the first
/// entry of type zero.
pub open spec fn find_host_spec(s: Seq<u8>, q: int, qend: int) -> Option<Seq<u8>>
    decreases qend - q,
{
    if q < 0 || q + 3 > qend || qend > s.len() {
        None
    } else {
        let nlen = be16(s, q + 1) as int;
        if q + 3 + nlen > qend {
            None
        } else if s[q] == 0 {
            Some(s.subrange(q + 3, q + 3 + nlen))
        } else {
            find_host_spec(s, q + 3 + nlen, qend)
        }
    }
}

/// The SNI host name among a ClientHello's extensions: the first host
/// name carried by a server-name extension.
pub open spec fn find_sni_spec(s: Seq<u8>, p: int, end: int) -> Option<Seq<u8>>
    decreases end - p,
{
    if p < 0 || p + 4 > end || end > s.len() {
        None
    } else {
        let etype = be16(s, p);
        let elen = be16(s, p + 2) as int;
        if p + 4 + elen > end {
            None
        } else if etype == 0 && elen >= 2 {
            let llen = be16(s, p + 4) as int;
            let qend = if p + 6 + llen <= p + 4 + elen {
                p + 6 + llen
            } else {
                p + 4 + elen
            };
            match find_host_spec(s, p + 6, qend) {
                Some(h) => Some(h),
                None => find_sni_spec(s, p + 4 + elen, end),
            }
        } else {
            find_sni_spec(s, p + 4 + elen, end)
        }
    }
}

/// A parsed ClientHello body at `[b, b+blen)`: the client version and
/// the SNI host name, or `None` when the body is malformed.
pub open spec fn client_hello_spec(s: Seq<u8>, b: int, blen: int) -> Option<(u16, Option<Seq<u8>>)> {
    let end = b + blen;
    if b < 0 || blen < 35 || end > s.len() {
        None
    } else {
        let ver = be16(s, b);
        let p1 = b + 34;
        let p2 = p1 + 1 + s[p1];
        if p2 + 2 > end {
            None
        } else {
            let p3 = p2 + 2 + be16(s, p2);
            if p3 + 1 > end {
                None
            } else {
                let p4 = p3 + 1 + s[p3];
                if p4 + 2 > end {
                    None
                } else {
                    let extlen = be16(s, p4) as int;
                    let p5 = p4 + 2;
                    if p5 + extlen > end {
                        None
                    } else {
                        Some((ver, find_sni_spec(s, p5, p5 + extlen)))
                    }
                }
            }
        }
    }
}

/// A parsed ServerHello body at `[b, b+blen)`: the server version and
/// the chosen cipher suite, or `None` when the body is malformed.
pub open spec fn server_hello_spec(s: Seq<u8>, b: int, blen: int) -> Option<(u16, u16)> {
    let end = b + blen;
    if b < 0 || blen < 35 || end > s.len() {
        None
    } else {
        let ver = be16(s, b);
        let p1 = b + 34;
        let p2 = p1 + 1 + s[p1];
        if p2 + 2 > end {
            None
        } else {
            Some((ver, be16(s, p2)))
        }
    }
}

/// One step of the record walk.
pub enum Step {
    /// More bytes are needed before this record can be read.
    Short,
    /// The record is malformed; parsing aborts here.
    Bad,
    /// The record was read: the state after it and the next position.
    Next(StateV, int),
}

/// Read the handshake message at `hpos` and fold it into `st`.
pub open spec fn handshake_spec(s: Seq<u8>, hpos: int, st: StateV) -> Step {
    if hpos + 4 > s.len() {
        Step::Short
    } else {
        let htype = s[hpos];
        let hlen = s[hpos + 1] * 0x1_0000 + s[hpos + 2] * 0x100 + s[hpos + 3];
        if s.len() - (hpos + 4) < hlen {
            Step::Short
        } else {
            let next = hpos + 4 + hlen;
            if htype == 1 {
                match client_hello_spec(s, hpos + 4, hlen as int) {
                    Some((ver, sni)) => Step::Next(
                        StateV { client_ver: Some(ver), host_name: sni, ..st },
                        next,
                    ),
                    None => Step::Bad,
                }
            } else if htype == 2 {
                match server_hello_spec(s, hpos + 4, hlen as int) {
                    Some((ver, cipher)) => Step::Next(
                        StateV { server_ver: Some(ver), cipher_suite: Some(cipher), ..st },
                        next,
                    ),
                    None => Step::Bad,
                }
            } else if htype == 0x0e {
                Step::Next(StateV { parsing: false, ..st }, next)
            } else {
                Step::Next(st, next)
            }
        }
    }
}

/// Read the record at `pos` and fold it into `st`: a pre-TLS version
/// stops parsing, a non-handshake record is skipped, and a handshake
/// record is read message by message.
pub open spec fn record_spec(s: Seq<u8>, pos: int, st: StateV) -> Step {
    if pos < 0 || pos + 5 > s.len() {
        Step::Short
    } else {
        let ver = be16(s, pos + 1);
        let rlen = be16(s, pos + 3) as int;
        if s.len() - (pos + 5) < rlen {
            Step::Short
        } else if ver < 0x0301 {
            Step::Next(
                StateV {
                    client_ver: Some(ver),
                    server_ver: Some(ver),
                    parsing: false,
                    ..st
                },
                pos + 5 + rlen,
            )
        } else if s[pos] != 0x16 {
            Step::Next(st, pos + 5 + rlen)
        } else {
            handshake_spec(s, pos + 5, st)
        }
    }
}

/// How a whole walk over buffered bytes ended.
pub enum RunKind {
    /// Every byte was consumed.
    Ran,
    /// A malformed record stopped the walk at the held position.
    Stopped,
    /// The walk needs more bytes than the buffer holds.
    Short,
}

/// The result of a walk: the folded state, the stopping position, and
/// how the walk ended.
pub struct RunRes {
    pub st: StateV,
    pub pos: int,
    pub kind: RunKind,
}

/// Walk records from `pos` to the end of the buffered bytes.
pub open spec fn run_spec(s: Seq<u8>, pos: int, st: StateV) -> RunRes
    decreases s.len() - pos,
{
    if pos < 0 || pos >= s.len() {
        RunRes { st, pos, kind: RunKind::Ran }
    } else {
        match record_spec(s, pos, st) {
            Step::Short => RunRes { st, pos, kind: RunKind::Short },
            Step::Bad => RunRes { st, pos, kind: RunKind::Stopped },
            Step::Next(st2, pos2) => {
                if pos2 <= pos {
                    RunRes { st: st2, pos: pos2, kind: RunKind::Stopped }
                } else {
                    run_spec(s, pos2, st2)
                }
            },
        }
    }
}

fn find_host(b: &[u8], q: usize, qend: usize) -> (r: Option<Vec<u8>>)
    requires
        qend <= b@.len(),
    ensures
        match r {
            Some(h) => find_host_spec(b@, q as int, qend as int) == Some(h@),
            None => find_host_spec(b@, q as int, qend as int) is None,
        },
    decreases qend - q,
{
    if q >= qend || qend - q < 3 {
        None
    } else {
        let nlen = read_be16(b, q + 1) as usize;
        if qend - (q + 3) < nlen {
            None
        } else if b[q] == 0 {
            Some(sub_vec(b, q + 3, q + 3 + nlen))
        } else {
            find_host(b, q + 3 + nlen, qend)
        }
    }
}

fn find_sni(b: &[u8], p: usize, end: usize) -> (r: Option<Vec<u8>>)
    requires
        end <= b@.len(),
    ensures
        match r {
            Some(h) => find_sni_spec(b@, p as int, end as int) == Some(h@),
            None => find_sni_spec(b@, p as int, end as int) is None,
        },
    decreases end - p,
{
    if p >= end || end - p < 4 {
        None
    } else {
        let etype = read_be16(b, p);
        let elen = read_be16(b, p + 2) as usize;
        if end - (p + 4) < elen {
            None
        } else if etype == 0 && elen >= 2 {
            let llen = read_be16(b, p + 4) as usize;
            let qend = if llen <= elen - 2 {
                p + 6 + llen
            } else {
                p + 4 + elen
            };
            proof {
                assert(qend == (if p + 6 + be16(b@, p + 4) <= p + 4 + be16(b@, p + 2) {
                    p + 6 + be16(b@, p + 4)
                } else {
                    p + 4 + be16(b@, p + 2)
                }));
            }
            match find_host(b, p + 6, qend) {
                Some(h) => Some(h),
                None => find_sni(b, p + 4 + elen, end),
            }
        } else {
            find_sni(b, p + 4 + elen, end)
        }
    }
}

fn client_hello(b: &[u8], bpos: usize, blen: usize) -> (r: Option<(u16, Option<Vec<u8>>)>)
    requires
        bpos + blen <= b@.len(),
    ensures
        match r {
            Some((ver, Some(h))) => client_hello_spec(b@, bpos as int, blen as int) == Some(
                (ver, Some(h@)),
            ),
            Some((ver, None)) => client_hello_spec(b@, bpos as int, blen as int) == Some(
                (ver, Option::<Seq<u8>>::None),
            ),
            None => client_hello_spec(b@, bpos as int, blen as int) is None,
        },
{
    let n = b.len();
    if blen < 35 {
        return None;
    }
    let end = bpos + blen;
    let ver = read_be16(b, bpos);
    let p1 = bpos + 34;
    let sid = b[p1] as usize;
    if end - (p1 + 1) < 2 || end - (p1 + 1) - 2 < sid {
        return None;
    }
    let p2 = p1 + 1 + sid;
    let cslen = read_be16(b, p2) as usize;
    if end - (p2 + 2) < cslen {
        return None;
    }
    let p3 = p2 + 2 + cslen;
    if p3 >= end {
        return None;
    }
    let comp = b[p3] as usize;
    if end - (p3 + 1) < 2 || end - (p3 + 1) - 2 < comp {
        return None;
    }
    let p4 = p3 + 1 + comp;
    let extlen = read_be16(b, p4) as usize;
    let p5 = p4 + 2;
    if end - p5 < extlen {
        return None;
    }
    Some((ver, find_sni(b, p5, p5 + extlen)))
}

fn server_hello(b: &[u8], bpos: usize, blen: usize) -> (r: Option<(u16, u16)>)
    requires
        bpos + blen <= b@.len(),
    ensures
        match r {
            Some(pair) => server_hello_spec(b@, bpos as int, blen as int) == Some(pair),
            None => server_hello_spec(b@, bpos as int, blen as int) is None,
        },
{
    let n = b.len();
    if blen < 35 {
        return None;
    }
    let end = bpos + blen;
    let ver = read_be16(b, bpos);
    let p1 = bpos + 34;
    let sid = b[p1] as usize;
    if end - (p1 + 1) < 2 || end - (p1 + 1) - 2 < sid {
        return None;
    }
    let p2 = p1 + 1 + sid;
    Some((ver, read_be16(b, p2)))
}

/// The result of an executable walk.
enum RunOut {
    Ran(State),
    Stopped(State, usize),
    Short,
}

fn run(b: &[u8], pos: usize, st: State) -> (r: RunOut)
    requires
        pos <= b@.len(),
    ensures
        ({
            let res = run_spec(b@, pos as int, st@);
            match r {
                RunOut::Ran(s2) => res.kind is Ran && res.st == s2@,
                RunOut::Stopped(s2, p2) => p2 <= b@.len() && res.kind is Stopped && res.st == s2@
                    && res.pos == p2,
                RunOut::Short => res.kind is Short,
            }
        }),
    decreases b@.len() - pos,
{
    if pos >= b.len() {
        return RunOut::Ran(st);
    }
    // record header
    if b.len() - pos < 5 {
        return RunOut::Short;
    }
    let ver = read_be16(b, pos + 1);
    let rlen = read_be16(b, pos + 3) as usize;
    if b.len() - (pos + 5) < rlen {
        return RunOut::Short;
    }
    if ver < 0x0301 {
        let st2 = State {
            client_ver: Some(ver),
            server_ver: Some(ver),
            parsing: false,
            ..st
        };
        return run(b, pos + 5 + rlen, st2);
    }
    if b[pos] != 0x16 {
        return run(b, pos + 5 + rlen, st);
    }
    // handshake message
    let hpos = pos + 5;
    if b.len() - hpos < 4 {
        return RunOut::Short;
    }
    let hlen = (b[hpos + 1] as usize) * 0x1_0000 + (b[hpos + 2] as usize) * 0x100 + (b[hpos
        + 3] as usize);
    if b.len() - (hpos + 4) < hlen {
        return RunOut::Short;
    }
    let htype = b[hpos];
    let next = hpos + 4 + hlen;
    let st2 = if htype == 1 {
        match client_hello(b, hpos + 4, hlen) {
            Some((cv, sni)) => State { client_ver: Some(cv), host_name: sni, ..st },
            None => {
                return RunOut::Stopped(st, pos);
            },
        }
    } else if htype == 2 {
        match server_hello(b, hpos + 4, hlen) {
            Some((sv, cipher)) => State {
                server_ver: Some(sv),
                cipher_suite: Some(cipher),
                ..st
            },
            None => {
                return RunOut::Stopped(st, pos);
            },
        }
    } else if htype == 0x0e {
        State { parsing: false, ..st }
    } else {
        st
    };
    run(b, next, st2)
}

/// One tracked connection: the rolling buffer and the handshake state.
pub struct Connection {
    buffer: Buffer,
    last: Timestamp,
    state: State,
}

/// A connection no longer parsing is untouched but for its activity
/// time.
pub open spec fn parse_kept(pre: Connection, post: Connection) -> bool {
    &&& post.state_spec() == pre.state_spec()
    &&& post.buffered() == pre.buffered()
}

/// The state of a connection first seen: nothing known, still parsing.
pub open spec fn fresh_state() -> StateV {
    StateV { client_ver: None, server_ver: None, host_name: None, cipher_suite: None, parsing: true }
}

/// The walk over the buffered bytes joined with the segment decides
/// what a parsing connection holds afterwards: a complete walk consumes
/// them, a malformed record keeps the unread tail, and a short walk
/// keeps everything until it grows past 4 KiB.
pub open spec fn parse_step(st0: StateV, buf0: Seq<u8>, post: Connection, payload: Seq<u8>) -> bool {
    let joined = buf0 + payload;
    let res = run_spec(joined, 0, st0);
    &&& (res.kind is Ran ==> post.state_spec() == res.st && post.buffered().len() == 0)
    &&& (res.kind is Stopped ==> post.state_spec() == res.st && post.buffered()
        == joined.subrange(res.pos, joined.len() as int))
    &&& (res.kind is Short && joined.len() > 4096 ==> post.state_spec() == (StateV {
        parsing: false,
        ..st0
    }) && post.buffered().len() == 0)
    &&& (res.kind is Short && joined.len() <= 4096 ==> post.state_spec() == st0 && post.buffered()
        == joined)
}

/// The walk applied to a connection's own state and buffer.
pub open spec fn parse_ran(pre: Connection, post: Connection, payload: Seq<u8>) -> bool {
    parse_step(pre.state_spec(), pre.buffered(), post, payload)
}

impl Connection {
    /// The handshake state.
    pub closed spec fn state_spec(&self) -> StateV {
        self.state@
    }

    /// The buffered bytes.
    pub closed spec fn buffered(&self) -> Seq<u8> {
        self.buffer@
    }

    /// The last activity.
    pub closed spec fn last_spec(&self) -> Timestamp {
        self.last
    }

    /// A fresh connection, still parsing.
    pub fn new() -> (r: Connection)
        ensures
            r.buffered().len() == 0,
            r.state_spec() == (StateV {
                client_ver: None,
                server_ver: None,
                host_name: None,
                cipher_suite: None,
                parsing: true,
            }),
            r.last_spec().nanos() == 0,
    {
        Connection {
            buffer: Buffer::new(),
            last: Timestamp::zero(),
            state: State {
                client_ver: None,
                server_ver: None,
                host_name: None,
                cipher_suite: None,
                parsing: true,
            },
        }
    }

    /// Feed one segment: while the connection is still parsing, walk the
    /// buffered bytes joined with the segment; a complete walk consumes
    /// them, a malformed record keeps the unread tail, and a short walk
    /// keeps everything until it grows past 4 KiB.
    pub fn parse(&mut self, ts: Timestamp, payload: &[u8])
        ensures
            final(self).last_spec() == ts,
            !old(self).state_spec().parsing ==> parse_kept(*old(self), *final(self)),
            old(self).state_spec().parsing ==> parse_ran(*old(self), *final(self), payload@),
    {
        self.last = ts;
        if !self.state.parsing {
            return;
        }
        let mut buf = self.buffer.buf(payload);
        let mut st = State {
            client_ver: None,
            server_ver: None,
            host_name: None,
            cipher_suite: None,
            parsing: true,
        };
        core::mem::swap(&mut st, &mut self.state);
        let st_run = State {
            client_ver: st.client_ver,
            server_ver: st.server_ver,
            host_name: match &st.host_name {
                Some(h) => Some(sub_vec(h.as_slice(), 0, h.len())),
                None => None,
            },
            cipher_suite: st.cipher_suite,
            parsing: st.parsing,
        };
        proof {
            assert(match st.host_name {
                Some(h) => h@.subrange(0, h@.len() as int) =~= h@,
                None => true,
            });
            assert(st_run@ == st@);
        }
        let ghost joined = old(self).buffered() + payload@;
        let ghost res = run_spec(joined, 0, old(self).state_spec());
        proof {
            assert(buf@ == joined);
        }
        match run(buf.bytes().as_slice(), 0, st_run) {
            RunOut::Ran(s2) => {
                self.state = s2;
                buf.keep(0);
                self.buffer.put_back(buf);
                proof {
                    assert(res.kind is Ran);
                    assert(self.state@ == res.st);
                    assert(self.buffer@.len() == 0);
                    assert(self.last == ts);
                }
            },
            RunOut::Stopped(s2, p2) => {
                self.state = s2;
                let n = buf.bytes().len() - p2;
                buf.keep(n);
                self.buffer.put_back(buf);
                proof {
                    assert(res.kind is Stopped);
                    assert(self.state@ == res.st);
                    assert(self.buffer@ == joined.subrange(res.pos, joined.len() as int));
                }
            },
            RunOut::Short => {
                if buf.bytes().len() > 4096 {
                    let ghost old_st = old(self).state_spec();
                    let st2 = State { parsing: false, ..st };
                    proof {
                        assert(st2@ == (StateV { parsing: false, ..old_st }));
                    }
                    self.state = st2;
                    buf.keep(0);
                    self.buffer.put_back(buf);
                } else {
                    self.state = st;
                    let n = buf.bytes().len();
                    buf.keep(n);
                    self.buffer.put_back(buf);
                    proof {
                        assert(res.kind is Short);
                        assert(joined.len() <= 4096);
                        assert(self.state@ == old(self).state_spec());
                        assert(self.buffer@ =~= joined);
                    }
                }
            },
        }
        proof {
            assert(parse_ran(*old(self), *self, payload@));
        }
    }

    /// The handshake state, read at export time.
    pub fn state(&self) -> (r: &State)
        ensures
            r@ == self.state_spec(),
    {
        &self.state
    }

    /// Idle when nothing is buffered or nothing has arrived within the
    /// timeout.
    pub fn is_idle(&self, ts: Timestamp, timeout: Duration) -> (r: bool)
        requires
            ts.wf(),
            self.last_spec().wf(),
        ensures
            r == (self.buffered().len() == 0 || ts.nanos() - self.last_spec().nanos()
                > timeout.ns),
    {
        self.buffer.is_empty() || timeout.lt(ts.minus(self.last))
    }
}

/// Whether a connection survives an idle sweep at `ts`: it still
/// buffers bytes and is not yet idle for longer than the timeout.
pub open spec fn survives(c: Connection, ts: Timestamp, timeout: Duration) -> bool {
    c.buffered().len() > 0 && ts.nanos() - c.last_spec().nanos() <= timeout.ns
}

/// The column ids the TLS decoder appends under; the name column is
/// required, the version and cipher columns optional.
pub struct DecoderIds {
    pub server_name: u64,
    pub server_ver: Option<u64>,
    pub cipher_suite: Option<u64>,
}

/// The values one connection appends at export: the SNI host name, the
/// server version, and the cipher suite, each when known and when the
/// sink has the column.
pub open spec fn append_spec(ids: DecoderIds, st: StateV) -> Seq<CustomV> {
    let r = Seq::<CustomV>::empty();
    let r = match st.host_name {
        Some(h) => r.push(CustomV { id: ids.server_name, value: ValueV::Str(h) }),
        None => r,
    };
    let r = match (st.server_ver, ids.server_ver) {
        (Some(v), Some(id)) => r.push(CustomV { id, value: ValueV::U32(v as u32) }),
        _ => r,
    };
    match (st.cipher_suite, ids.cipher_suite) {
        (Some(c), Some(id)) => r.push(CustomV { id, value: ValueV::U32(c as u32) }),
        _ => r,
    }
}

/// The TLS decoder: per-connection handshake states keyed by unordered
/// address pair.
pub struct Decoder {
    server_name: u64,
    server_ver: Option<u64>,
    cipher_suite: Option<u64>,
    conns: Table<AddrPair, Connection>,
}

impl Decoder {
    /// The column ids.
    pub closed spec fn ids(&self) -> DecoderIds {
        DecoderIds {
            server_name: self.server_name,
            server_ver: self.server_ver,
            cipher_suite: self.cipher_suite,
        }
    }

    /// The tracked connections.
    pub closed spec fn view(&self) -> Map<AddrPair, Connection> {
        self.conns@
    }

    /// Well-formed.
    pub closed spec fn wf(&self) -> bool {
        &&& self.conns.wf()
        &&& forall|k: AddrPair| #[trigger] self.conns@.contains_key(k)
            ==> self.conns@[k].last_spec().wf()
    }

    /// A decoder bound to the dictionary; only the name column is
    /// required.
    /// Whether the dictionary carries the one column this decoder needs.
    pub open spec fn enabled(cs: Customs) -> bool {
        cs.get_spec(TLS_SERVER_NAME@) is Some
    }

    pub fn new(cs: &Customs) -> (r: Result<Decoder, ()>)
        ensures
            r is Ok <==> Self::enabled(*cs),
            r is Ok <==> cs.get_spec(TLS_SERVER_NAME@) is Some,
            match r {
                Ok(d) => {
                    &&& d.wf()
                    &&& d@ == Map::<AddrPair, Connection>::empty()
                    &&& Some(d.ids().server_name) == cs.get_spec(TLS_SERVER_NAME@)
                    &&& d.ids().server_ver == cs.get_spec(TLS_SERVER_VERSION@)
                    &&& d.ids().cipher_suite == cs.get_spec(TLS_CIPHER_SUITE@)
                },
                Err(()) => true,
            },
    {
        let server_name = match cs.get(TLS_SERVER_NAME) {
            Ok(id) => id,
            Err(()) => {
                return Err(());
            },
        };
        let server_ver = match cs.get(TLS_SERVER_VERSION) {
            Ok(id) => Some(id),
            Err(()) => None,
        };
        let cipher_suite = match cs.get(TLS_CIPHER_SUITE) {
            Ok(id) => Some(id),
            Err(()) => None,
        };
        Ok(Decoder { server_name, server_ver, cipher_suite, conns: Table::new() })
    }

    /// Feed one segment to the connection of the flow's unordered pair:
    /// a SYN opens tracking, bytes are parsed while the handshake is
    /// open, and a FIN evicts the connection. Nothing is appended at
    /// decode time, so the result is always false.
    pub fn decode(&mut self, flow: &Flow, _cs: &mut Customs) -> (r: bool)
        requires
            old(self).wf(),
            flow.wf(),
        ensures
            final(self).wf(),
            final(self).ids() == old(self).ids(),
            final(_cs)@ == old(_cs)@,
            final(_cs).get_spec_unchanged(*old(_cs)),
            !r,
            ({
                let key = pair_of(flow.src, flow.dst);
                let known = old(self)@.contains_key(key);
                let created = !known && flow.spec_tcp_flags() & SYN == SYN;
                let fin = flow.spec_tcp_flags() & FIN == FIN;
                &&& (forall|k2: AddrPair|
                    k2 != key ==> #[trigger] final(self)@.contains_key(k2) == old(
                        self,
                    )@.contains_key(k2) && (old(self)@.contains_key(k2) ==> final(self)@[k2] == old(
                        self,
                    )@[k2]))
                &&& (fin ==> !final(self)@.contains_key(key))
                &&& (!known && !created ==> final(self)@ == old(self)@)
                &&& (!fin && known ==> {
                    let pre = old(self)@[key];
                    &&& final(self)@.contains_key(key)
                    &&& final(self)@[key].last_spec() == flow.timestamp
                    &&& (pre.state_spec().parsing ==> parse_ran(
                        pre,
                        final(self)@[key],
                        flow.payload@,
                    ))
                    &&& (!pre.state_spec().parsing ==> parse_kept(pre, final(self)@[key]))
                })
                &&& (!fin && created ==> {
                    &&& final(self)@.contains_key(key)
                    &&& final(self)@[key].last_spec() == flow.timestamp
                    &&& parse_step(
                        fresh_state(),
                        Seq::<u8>::empty(),
                        final(self)@[key],
                        flow.payload@,
                    )
                })
            }),
    {
        let key = AddrPair::ordered(flow.src, flow.dst);
        proof {
            assert(key == pair_of(flow.src, flow.dst));
        }
        let flags = flow.tcp_flags();

        let found = self.conns.remove(&key);
        let conn = match found {
            Some(mut c) => {
                let ghost c0 = c;
                c.parse(flow.timestamp, flow.payload.as_slice());
                Some(c)
            },
            None => {
                if flags & SYN == SYN {
                    let mut c = Connection::new();
                    let ghost c0 = c;
                    proof {
                        assert(c0.buffered() =~= Seq::<u8>::empty());
                        assert(c0.state_spec() == fresh_state());
                    }
                    c.parse(flow.timestamp, flow.payload.as_slice());
                    proof {
                        assert(parse_step(fresh_state(), Seq::<u8>::empty(), c, flow.payload@));
                    }
                    Some(c)
                } else {
                    None
                }
            },
        };
        if flags & FIN == FIN {
            // both directions share the ordered key; drop the connection
            proof {
                assert(self@ =~= old(self)@.remove(key));
            }
        } else if let Some(c) = conn {
            self.conns.insert(key, c);
            proof {
                assert(self@ =~= old(self)@.insert(key, c));
            }
        } else {
            proof {
                assert(self@ =~= old(self)@);
            }
        }
        false
    }

    /// Append what the handshake showed for the key's connection: the
    /// host name, server version and cipher suite, as known.
    pub fn append(&mut self, key: &Key, cs: &mut Customs)
        requires
            old(self).wf(),
        ensures
            final(self).wf(),
            final(self).ids() == old(self).ids(),
            final(self)@ == old(self)@,
            final(cs).get_spec_unchanged(*old(cs)),
            old(self)@.contains_key(pair_of(key.1, key.2)) ==> final(cs)@ == old(cs)@
                + append_spec(old(self).ids(), old(self)@[pair_of(key.1, key.2)].state_spec()),
            !old(self)@.contains_key(pair_of(key.1, key.2)) ==> final(cs)@ == old(cs)@,
    {
        let k = AddrPair::ordered(key.1, key.2);
        let found = self.conns.get(&k);
        match found {
            Some(c) => {
                let st = c.state();
                if let Some(h) = &st.host_name {
                    let name = sub_vec(h.as_slice(), 0, h.len());
                    proof {
                        assert(name@ =~= h@);
                    }
                    cs.add_str(self.server_name, name);
                }
                match (st.server_ver, self.server_ver) {
                    (Some(v), Some(id)) => cs.add_u32(id, v as u32),
                    _ => {},
                }
                match (st.cipher_suite, self.cipher_suite) {
                    (Some(csuite), Some(id)) => cs.add_u32(id, csuite as u32),
                    _ => {},
                }
                proof {
                    assert(cs@ =~= old(cs)@ + append_spec(
                        old(self).ids(),
                        old(self)@[pair_of(key.1, key.2)].state_spec(),
                    ));
                }
            },
            None => {},
        }
    }

    /// Drop connections idle past the timeout.
    pub fn clear(&mut self, ts: Timestamp, timeout: Duration)
        requires
            old(self).wf(),
            ts.wf(),
        ensures
            final(self).wf(),
            final(self).ids() == old(self).ids(),
            forall|k: AddrPair| final(self)@.contains_key(k) <==> (#[trigger] old(
                self,
            )@.contains_key(k) && survives(old(self)@[k], ts, timeout)),
            forall|k: AddrPair| #[trigger] final(self)@.contains_key(k) ==> final(self)@[k] == old(
                self,
            )@[k],
    {
        let keys = self.conns.keys();
        let ghost m0 = self@;
        let mut i: usize = 0;
        #[verifier::loop_isolation(false)]
        while i < keys.len()
            invariant
                self.wf(),
                i <= keys@.len(),
                self.ids() == old(self).ids(),
                forall|j: int, l: int| 0 <= j < l < keys@.len() ==> keys@[j] != keys@[l],
                forall|j: int| 0 <= j < keys@.len() ==> m0.contains_key(#[trigger] keys@[j]),
                forall|k: AddrPair| m0.contains_key(k) ==> keys@.contains(k),
                forall|k: AddrPair| #[trigger] self@.contains_key(k) ==> m0.contains_key(k)
                    && self@[k] == m0[k],
                forall|k: AddrPair| m0.contains_key(k) && !keys@.take(i as int).contains(k)
                    ==> #[trigger] self@.contains_key(k),
                forall|j: int| 0 <= j < i ==> (#[trigger] self@.contains_key(keys@[j]) <==> survives(
                    m0[keys@[j]],
                    ts,
                    timeout,
                )),
            decreases keys@.len() - i,
        {
            let k = keys[i];
            let ghost m_in = self@;
            proof {
                assert(!keys@.take(i as int).contains(k)) by {
                    if keys@.take(i as int).contains(k) {
                        let j = choose|j: int|
                            0 <= j < i && (#[trigger] keys@.take(i as int)[j]) == k;
                        assert(keys@[j] == k);
                    }
                }
            }
            let idle = match self.conns.get(&k) {
                Some(c) => c.is_idle(ts, timeout),
                None => false,
            };
            if idle {
                let _gone = self.conns.remove(&k);
            }
            proof {
                assert forall|k2: AddrPair| #[trigger] keys@.take(i + 1).contains(k2)
                    implies keys@.take(i as int).contains(k2) || k2 == keys@[i as int] by {
                    let j = choose|j: int| 0 <= j < i + 1 && (#[trigger] keys@.take(i + 1)[j]) == k2;
                    if j < i {
                        assert(keys@.take(i as int)[j] == k2);
                    }
                }
                assert forall|k2: AddrPair| keys@.take(i as int).contains(k2)
                    implies #[trigger] keys@.take(i + 1).contains(k2) by {
                    let j = choose|j: int| 0 <= j < i && (#[trigger] keys@.take(i as int)[j]) == k2;
                    assert(keys@.take(i + 1)[j] == k2);
                }
                assert(keys@.take(i + 1)[i as int] == keys@[i as int]);
                assert forall|k2: AddrPair| m0.contains_key(k2) && !keys@.take(i + 1).contains(k2)
                    implies #[trigger] self@.contains_key(k2) by {
                    if k2 == keys@[i as int] {
                        assert(keys@.take(i + 1)[i as int] == k2);
                        assert(keys@.take(i + 1).contains(k2));
                    }
                    assert(!keys@.take(i as int).contains(k2));
                    assert(k2 != keys@[i as int]);
                    assert(m_in.contains_key(k2));
                }
                assert forall|k2: AddrPair| #[trigger] self@.contains_key(k2)
                    implies m0.contains_key(k2) && self@[k2] == m0[k2] by {
                    assert(m_in.contains_key(k2));
                }
            }
            i = i + 1;
        }
        proof {
            assert(keys@.take(keys@.len() as int) =~= keys@);
            assert forall|k: AddrPair| self@.contains_key(k) <==> (#[trigger] m0.contains_key(k)
                && survives(m0[k], ts, timeout)) by {
                if m0.contains_key(k) {
                    let j = choose|j: int| 0 <= j < keys@.len() && (#[trigger] keys@[j]) == k;
                    assert(self@.contains_key(keys@[j]) <==> survives(m0[keys@[j]], ts, timeout));
                }
            }
        }
    }
}

/// The unordered pair of two endpoints, smaller port first.
pub open spec fn pair_of(x: Addr, y: Addr) -> AddrPair {
    if x.port < y.port {
        AddrPair { a: x, b: y }
    } else {
        AddrPair { a: y, b: x }
    }
}

} // verus!
