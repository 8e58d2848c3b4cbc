//! The HTTP decoder: an incremental HTTP/1 message parser per direction,
//! a FIFO of pending requests, and request/response latency pairing.
//!
//! Message bodies are skipped by their `Content-Length`; chunked
//! transfer framing is not followed. A chunked request grows the buffer
//! until it is abandoned at [`MAX_BUFFER`], and a chunked or unbounded
//! response completes only when its connection closes, through the FIN
//! retry with the stream's end marked.

use vstd::prelude::*;
use crate::custom::{
    Customs, CustomV, ValueV, latency_ms, APP_LATENCY, HTTP_HOST, HTTP_REFERER, HTTP_STATUS,
    HTTP_UA, HTTP_URL,
};
use crate::flow::{Addr, AddrPair, Flow, ACK, FIN, SYN};
use crate::protocol::buf::Buffer;
use crate::table::Table;
use crate::time::{Duration, Timestamp};
use crate::wire::sub_vec;

verus! {

/// A parser buffer larger than this aborts: the stream is not HTTP the
/// probe can follow.
pub const MAX_BUFFER: usize = 8192;

/// ASCII lowercase folding of one byte.
pub open spec fn lower(c: u8) -> u8 {
    if 65 <= c <= 90 {
        (c + 32) as u8
    } else {
        c
    }
}

/// Whether the four bytes at `pos` are CRLFCRLF.
pub open spec fn at_hdr_end(s: Seq<u8>, pos: int) -> bool {
    s[pos] == 13 && s[pos + 1] == 10 && s[pos + 2] == 13 && s[pos + 3] == 10
}

/// The position just after the header block's CRLFCRLF, if present.
pub open spec fn hdr_end(s: Seq<u8>, pos: int) -> Option<int>
    decreases s.len() - pos,
{
    if pos < 0 || pos + 4 > s.len() {
        None
    } else if at_hdr_end(s, pos) {
        Some(pos + 4)
    } else {
        hdr_end(s, pos + 1)
    }
}

/// The position of the next CR in `[pos, end)`.
pub open spec fn find_cr(s: Seq<u8>, pos: int, end: int) -> Option<int>
    decreases end - pos,
{
    if pos < 0 || pos >= end || end > s.len() {
        None
    } else if s[pos] == 13 {
        Some(pos)
    } else {
        find_cr(s, pos + 1, end)
    }
}

/// The position of the next space in `[pos, end)`.
pub open spec fn find_sp(s: Seq<u8>, pos: int, end: int) -> Option<int>
    decreases end - pos,
{
    if pos < 0 || pos >= end || end > s.len() {
        None
    } else if s[pos] == 32 {
        Some(pos)
    } else {
        find_sp(s, pos + 1, end)
    }
}

/// Whether the bytes at `pos` case-fold to `name` followed by a colon.
pub open spec fn name_matches(s: Seq<u8>, pos: int, end: int, name: Seq<u8>) -> bool {
    &&& pos + name.len() + 1 <= end
    &&& (forall|i: int| 0 <= i < name.len() ==> lower(s[pos + i]) == name[i])
    &&& s[pos + name.len()] == 58
}

/// The value of a header line: the bytes after the colon with leading
/// spaces dropped, up to the line's CR.
pub open spec fn skip_sp(s: Seq<u8>, pos: int, end: int) -> int
    decreases end - pos,
{
    if pos < 0 || pos >= end || end > s.len() {
        pos
    } else if s[pos] == 32 {
        skip_sp(s, pos + 1, end)
    } else {
        pos
    }
}

/// The recognized headers of a block: `host`, `referer`, `user-agent`
/// (case-insensitive) and the content length, scanned line by line in
/// `[pos, hend)`.
pub struct HeadersV {
    pub host: Option<Seq<u8>>,
    pub referer: Option<Seq<u8>>,
    pub ua: Option<Seq<u8>>,
    pub content_length: Option<nat>,
}

/// The decimal value of the digits in `[pos, end)`; `None` when empty
/// or not all digits, capped at eight digits.
pub open spec fn dec_value(s: Seq<u8>, pos: int, end: int) -> Option<nat>
    decreases end - pos,
{
    if pos < 0 || pos >= end || end > s.len() || end - pos > 8 {
        None
    } else if !(48 <= s[pos] <= 57) {
        None
    } else if pos + 1 == end {
        Some((s[pos] - 48) as nat)
    } else {
        match dec_value(s, pos, end - 1) {
            Some(hi) => {
                if 48 <= s[end - 1] <= 57 {
                    Some(hi * 10 + (s[end - 1] - 48) as nat)
                } else {
                    None
                }
            },
            None => None,
        }
    }
}

/// The headers folded from the lines in `[pos, hend)`.
pub open spec fn headers_spec(s: Seq<u8>, pos: int, hend: int, acc: HeadersV) -> HeadersV
    decreases hend - pos,
{
    if pos < 0 || pos >= hend || hend > s.len() {
        acc
    } else {
        match find_cr(s, pos, hend) {
            Some(cr) => {
                let acc2 = if name_matches(s, pos, cr, seq![104u8, 111u8, 115u8, 116u8]) {
                    HeadersV { host: Some(s.subrange(skip_sp(s, pos + 5, cr), cr)), ..acc }
                } else if name_matches(
                    s,
                    pos,
                    cr,
                    seq![114u8, 101u8, 102u8, 101u8, 114u8, 101u8, 114u8],
                ) {
                    HeadersV { referer: Some(s.subrange(skip_sp(s, pos + 8, cr), cr)), ..acc }
                } else if name_matches(
                    s,
                    pos,
                    cr,
                    seq![117u8, 115u8, 101u8, 114u8, 45u8, 97u8, 103u8, 101u8, 110u8, 116u8],
                ) {
                    HeadersV { ua: Some(s.subrange(skip_sp(s, pos + 11, cr), cr)), ..acc }
                } else if name_matches(
                    s,
                    pos,
                    cr,
                    seq![
                        99u8, 111u8, 110u8, 116u8, 101u8, 110u8, 116u8, 45u8, 108u8, 101u8, 110u8,
                        103u8, 116u8, 104u8,
                    ],
                ) {
                    match dec_value(s, skip_sp(s, pos + 15, cr), cr) {
                        Some(n) => HeadersV { content_length: Some(n), ..acc },
                        None => acc,
                    }
                } else {
                    acc
                };
                if cr < pos || cr + 2 > hend {
                    acc2
                } else {
                    headers_spec(s, cr + 2, hend, acc2)
                }
            },
            None => acc,
        }
    }
}

/// A parsed request head: the URL and the recognized headers.
pub struct ReqHeadV {
    pub url: Seq<u8>,
    pub hdrs: HeadersV,
    pub hend: int,
}

/// The request head of a buffer: `None` when the header block is not
/// complete yet; `Some(None)` when the request line is malformed.
pub open spec fn req_head(s: Seq<u8>) -> Option<Option<ReqHeadV>> {
    match hdr_end(s, 0) {
        Some(hend) => {
            let line_end = match find_cr(s, 0, hend) {
                Some(cr) => cr,
                None => 0,
            };
            match find_sp(s, 0, line_end) {
                Some(sp1) => {
                    if sp1 == 0 {
                        Some(None)
                    } else {
                        match find_sp(s, sp1 + 1, line_end) {
                            Some(sp2) => Some(
                                Some(
                                    ReqHeadV {
                                        url: s.subrange(sp1 + 1, sp2),
                                        hdrs: headers_spec(
                                            s,
                                            line_end + 2,
                                            hend,
                                            HeadersV {
                                                host: None,
                                                referer: None,
                                                ua: None,
                                                content_length: None,
                                            },
                                        ),
                                        hend,
                                    },
                                ),
                            ),
                            None => Some(None),
                        }
                    }
                },
                None => Some(None),
            }
        },
        None => None,
    }
}

/// A parsed response head: the status code and the recognized headers.
pub struct ResHeadV {
    pub status: u16,
    pub hdrs: HeadersV,
    pub hend: int,
}

/// The response head of a buffer: `None` when the header block is not
/// complete yet; `Some(None)` when the status line is malformed. The
/// status line must open with `HTTP` and carry a decimal code after the
/// first space.
pub open spec fn res_head(s: Seq<u8>) -> Option<Option<ResHeadV>> {
    match hdr_end(s, 0) {
        Some(hend) => {
            let line_end = match find_cr(s, 0, hend) {
                Some(cr) => cr,
                None => 0,
            };
            if !(s.len() >= 4 && s[0] == 72 && s[1] == 84 && s[2] == 84 && s[3] == 80) {
                Some(None)
            } else {
                match find_sp(s, 0, line_end) {
                    Some(sp1) => {
                        let cend = match find_sp(s, sp1 + 1, line_end) {
                            Some(sp2) => sp2,
                            None => line_end,
                        };
                        match dec_value(s, sp1 + 1, cend) {
                            Some(code) => {
                                if code < 1000 {
                                    Some(
                                        Some(
                                            ResHeadV {
                                                status: code as u16,
                                                hdrs: headers_spec(
                                                    s,
                                                    line_end + 2,
                                                    hend,
                                                    HeadersV {
                                                        host: None,
                                                        referer: None,
                                                        ua: None,
                                                        content_length: None,
                                                    },
                                                ),
                                                hend,
                                            },
                                        ),
                                    )
                                } else {
                                    Some(None)
                                }
                            },
                            None => Some(None),
                        }
                    },
                    None => Some(None),
                }
            }
        },
        None => None,
    }
}

fn hdr_end_exec(b: &[u8], pos: usize) -> (r: Option<usize>)
    ensures
        match r {
            Some(p) => hdr_end(b@, pos as int) == Some(p as int) && p <= b@.len(),
            None => hdr_end(b@, pos as int) is None,
        },
    decreases b@.len() - pos,
{
    if pos >= b.len() || b.len() - pos < 4 {
        None
    } else if b[pos] == 13 && b[pos + 1] == 10 && b[pos + 2] == 13 && b[pos + 3] == 10 {
        Some(pos + 4)
    } else {
        hdr_end_exec(b, pos + 1)
    }
}

fn find_cr_exec(b: &[u8], pos: usize, end: usize) -> (r: Option<usize>)
    requires
        end <= b@.len(),
    ensures
        match r {
            Some(p) => find_cr(b@, pos as int, end as int) == Some(p as int) && pos <= p < end,
            None => find_cr(b@, pos as int, end as int) is None,
        },
    decreases end - pos,
{
    if pos >= end {
        None
    } else if b[pos] == 13 {
        Some(pos)
    } else {
        find_cr_exec(b, pos + 1, end)
    }
}

fn find_sp_exec(b: &[u8], pos: usize, end: usize) -> (r: Option<usize>)
    requires
        end <= b@.len(),
    ensures
        match r {
            Some(p) => find_sp(b@, pos as int, end as int) == Some(p as int) && pos <= p < end,
            None => find_sp(b@, pos as int, end as int) is None,
        },
    decreases end - pos,
{
    if pos >= end {
        None
    } else if b[pos] == 32 {
        Some(pos)
    } else {
        find_sp_exec(b, pos + 1, end)
    }
}

fn skip_sp_exec(b: &[u8], pos: usize, end: usize) -> (r: usize)
    requires
        end <= b@.len(),
    ensures
        r == skip_sp(b@, pos as int, end as int),
        pos <= r <= end || r == pos,
    decreases end - pos,
{
    if pos >= end {
        pos
    } else if b[pos] == 32 {
        skip_sp_exec(b, pos + 1, end)
    } else {
        pos
    }
}

fn name_matches_exec(b: &[u8], pos: usize, end: usize, name: &[u8]) -> (r: bool)
    requires
        end <= b@.len(),
    ensures
        r == name_matches(b@, pos as int, end as int, name@),
{
    if pos >= end || end - pos - 1 < name.len() {
        proof {
            assert(!name_matches(b@, pos as int, end as int, name@));
        }
        return false;
    }
    let mut i: usize = 0;
    while i < name.len()
        invariant
            pos + name@.len() + 1 <= end <= b@.len(),
            i <= name@.len(),
            forall|j: int| 0 <= j < i ==> lower(b@[pos + j]) == name@[j],
        decreases name@.len() - i,
    {
        let c = b[pos + i];
        let folded = if 65 <= c && c <= 90 {
            c + 32
        } else {
            c
        };
        if folded != name[i] {
            return false;
        }
        i = i + 1;
    }
    b[pos + name.len()] == 58
}

fn dec_value_exec(b: &[u8], pos: usize, end: usize) -> (r: Option<u32>)
    requires
        end <= b@.len(),
    ensures
        match r {
            Some(n) => dec_value(b@, pos as int, end as int) == Some(n as nat),
            None => dec_value(b@, pos as int, end as int) is None,
        },
    decreases end - pos,
{
    if pos >= end || end - pos > 8 {
        None
    } else if !(48 <= b[pos] && b[pos] <= 57) {
        None
    } else if pos + 1 == end {
        Some((b[pos] - 48) as u32)
    } else {
        match dec_value_exec(b, pos, end - 1) {
            Some(hi) => {
                let c = b[end - 1];
                if 48 <= c && c <= 57 {
                    proof {
                        assert(dec_value(b@, pos as int, end as int - 1) == Some(hi as nat));
                        lemma_dec_value_bound(b@, pos as int, end as int - 1);
                        reveal_with_fuel(pow10, 9);
                        assert(hi < 100_000_000);
                    }
                    Some(hi * 10 + (c - 48) as u32)
                } else {
                    None
                }
            },
            None => None,
        }
    }
}

/// Ten to the `k`.
pub open spec fn pow10(k: nat) -> nat
    decreases k,
{
    if k == 0 {
        1nat
    } else {
        10 * pow10((k - 1) as nat)
    }
}

proof fn lemma_dec_value_bound(s: Seq<u8>, pos: int, end: int)
    ensures
        match dec_value(s, pos, end) {
            Some(n) => n < pow10((end - pos) as nat),
            None => true,
        },
    decreases end - pos,
{
    if pos < 0 || pos >= end || end > s.len() || end - pos > 8 {
    } else if pos + 1 == end {
        reveal_with_fuel(pow10, 2);
    } else {
        lemma_dec_value_bound(s, pos, end - 1);
    }
}

/// The recognized headers, as the parser holds them.
pub struct Headers {
    pub host: Option<Vec<u8>>,
    pub referer: Option<Vec<u8>>,
    pub ua: Option<Vec<u8>>,
    pub content_length: Option<u32>,
}

impl View for Headers {
    type V = HeadersV;

    open spec fn view(&self) -> HeadersV {
        HeadersV {
            host: match &self.host {
                Some(h) => Some(h@),
                None => None,
            },
            referer: match &self.referer {
                Some(h) => Some(h@),
                None => None,
            },
            ua: match &self.ua {
                Some(h) => Some(h@),
                None => None,
            },
            content_length: match self.content_length {
                Some(n) => Some(n as nat),
                None => None,
            },
        }
    }
}

fn headers_exec(b: &[u8], pos: usize, hend: usize, acc: Headers) -> (r: Headers)
    requires
        hend <= b@.len(),
    ensures
        r@ == headers_spec(b@, pos as int, hend as int, acc@),
    decreases hend - pos,
{
    if pos >= hend {
        acc
    } else {
        match find_cr_exec(b, pos, hend) {
            Some(cr) => {
                let acc2 = if name_matches_exec(b, pos, cr, &[104u8, 111u8, 115u8, 116u8]) {
                    Headers { host: Some(sub_vec(b, skip_sp_exec(b, pos + 5, cr), cr)), ..acc }
                } else if name_matches_exec(
                    b,
                    pos,
                    cr,
                    &[114u8, 101u8, 102u8, 101u8, 114u8, 101u8, 114u8],
                ) {
                    Headers { referer: Some(sub_vec(b, skip_sp_exec(b, pos + 8, cr), cr)), ..acc }
                } else if name_matches_exec(
                    b,
                    pos,
                    cr,
                    &[117u8, 115u8, 101u8, 114u8, 45u8, 97u8, 103u8, 101u8, 110u8, 116u8],
                ) {
                    Headers { ua: Some(sub_vec(b, skip_sp_exec(b, pos + 11, cr), cr)), ..acc }
                } else if name_matches_exec(
                    b,
                    pos,
                    cr,
                    &[
                        99u8, 111u8, 110u8, 116u8, 101u8, 110u8, 116u8, 45u8, 108u8, 101u8, 110u8,
                        103u8, 116u8, 104u8,
                    ],
                ) {
                    match dec_value_exec(b, skip_sp_exec(b, pos + 15, cr), cr) {
                        Some(n) => Headers { content_length: Some(n), ..acc },
                        None => acc,
                    }
                } else {
                    acc
                };
                if hend - cr < 2 {
                    acc2
                } else {
                    headers_exec(b, cr + 2, hend, acc2)
                }
            },
            None => acc,
        }
    }
}

/// How one parse attempt over the joined direction bytes ends.
pub enum StepV {
    /// The message is not complete yet; everything is kept.
    Incomplete,
    /// The buffer outgrew the cap; parsing aborts.
    TooBig,
    /// The start line is malformed; parsing aborts.
    BadHead,
    /// A message completed, consuming the held count of bytes.
    Complete(int),
}

/// One request-direction parse attempt: complete when the header block
/// and the announced body are present.
pub open spec fn req_step(s: Seq<u8>) -> StepV {
    match req_head(s) {
        Some(h_opt) => match h_opt {
            Some(h) => {
                let cl = match h.hdrs.content_length {
                    Some(n) => n as int,
                    None => 0,
                };
                if s.len() >= h.hend + cl {
                    StepV::Complete(h.hend + cl)
                } else if s.len() > MAX_BUFFER {
                    StepV::TooBig
                } else {
                    StepV::Incomplete
                }
            },
            None => StepV::BadHead,
        },
        None => {
            if s.len() > MAX_BUFFER {
                StepV::TooBig
            } else {
                StepV::Incomplete
            }
        },
    }
}

/// One response-direction parse attempt: complete when the header block
/// and the announced body are present, or — without a content length —
/// when the stream ends (an empty final feed).
pub open spec fn res_step(s: Seq<u8>, eof: bool) -> StepV {
    match res_head(s) {
        Some(h_opt) => match h_opt {
            Some(h) => match h.hdrs.content_length {
                Some(n) => {
                    if s.len() >= h.hend + n {
                        StepV::Complete(h.hend + n)
                    } else if s.len() > MAX_BUFFER {
                        StepV::TooBig
                    } else {
                        StepV::Incomplete
                    }
                },
                None => {
                    if eof {
                        StepV::Complete(s.len() as int)
                    } else if s.len() > MAX_BUFFER {
                        StepV::TooBig
                    } else {
                        StepV::Incomplete
                    }
                },
            },
            None => StepV::BadHead,
        },
        None => {
            if s.len() > MAX_BUFFER {
                StepV::TooBig
            } else {
                StepV::Incomplete
            }
        },
    }
}

/// The request a completed head denotes, stamped with the arrival time
/// of its first bytes.
pub open spec fn req_of(h: ReqHeadV, rts: Timestamp) -> ReqV {
    ReqV { url: h.url, host: h.hdrs.host, referer: h.hdrs.referer, ua: h.hdrs.ua, ts: rts }
}

/// A completed request held for latency pairing.
#[derive(Clone, Debug)]
pub struct Req {
    pub url: Vec<u8>,
    pub host: Option<Vec<u8>>,
    pub referer: Option<Vec<u8>>,
    pub ua: Option<Vec<u8>>,
    pub ts: Timestamp,
}

/// The mathematical value of a pending request.
pub struct ReqV {
    pub url: Seq<u8>,
    pub host: Option<Seq<u8>>,
    pub referer: Option<Seq<u8>>,
    pub ua: Option<Seq<u8>>,
    pub ts: Timestamp,
}

impl View for Req {
    type V = ReqV;

    open spec fn view(&self) -> ReqV {
        ReqV {
            url: self.url@,
            host: match &self.host {
                Some(h) => Some(h@),
                None => None,
            },
            referer: match &self.referer {
                Some(h) => Some(h@),
                None => None,
            },
            ua: match &self.ua {
                Some(h) => Some(h@),
                None => None,
            },
            ts: self.ts,
        }
    }
}

/// A completed response joined with its request.
#[derive(Clone, Debug)]
pub struct Res {
    pub status: u16,
    pub url: Vec<u8>,
    pub host: Option<Vec<u8>>,
    pub referer: Option<Vec<u8>>,
    pub ua: Option<Vec<u8>>,
    pub latency: Duration,
}

/// One tracked connection: the inferred server port, the two direction
/// buffers, the request-arrival timestamp, and the FIFO of pending
/// requests.
pub struct Connection {
    server: u16,
    req_buf: Buffer,
    req_ts: Option<Timestamp>,
    res_buf: Buffer,
    last: Timestamp,
    pending: Vec<Req>,
}

impl Connection {
    /// The pending requests, oldest first.
    pub closed spec fn pending_spec(&self) -> Seq<ReqV> {
        self.pending@.map_values(|r: Req| r@)
    }

    /// The buffered request-direction bytes.
    pub closed spec fn req_buffered(&self) -> Seq<u8> {
        self.req_buf@
    }

    /// The buffered response-direction bytes.
    pub closed spec fn res_buffered(&self) -> Seq<u8> {
        self.res_buf@
    }

    /// The last activity.
    pub closed spec fn last_spec(&self) -> Timestamp {
        self.last
    }

    /// The inferred server port.
    pub closed spec fn server_spec(&self) -> u16 {
        self.server
    }

    /// The arrival time of the in-progress request's first bytes.
    pub closed spec fn req_ts_spec(&self) -> Option<Timestamp> {
        self.req_ts
    }

    /// Well-formed: every held timestamp is in range.
    pub closed spec fn wf(&self) -> bool {
        &&& self.last.wf()
        &&& match self.req_ts {
            Some(t) => t.wf(),
            None => true,
        }
        &&& forall|i: int| 0 <= i < self.pending@.len() ==> (#[trigger] self.pending@[i]).ts.wf()
    }

    /// A fresh connection whose server side is `server`.
    pub fn new(server: u16) -> (r: Connection)
        ensures
            r.server_spec() == server,
            r.wf(),
            r.pending_spec().len() == 0,
            r.req_buffered().len() == 0,
            r.res_buffered().len() == 0,
            r.req_ts_spec() is None,
            r.last_spec().nanos() == 0,
    {
        let r = Connection {
            server,
            req_buf: Buffer::new(),
            req_ts: None,
            res_buf: Buffer::new(),
            last: Timestamp::zero(),
            pending: Vec::new(),
        };
        proof {
            assert(r.pending@.map_values(|q: Req| q@) =~= Seq::<ReqV>::empty());
        }
        r
    }

    /// Whether the flow runs toward the server: its packets are
    /// requests.
    pub fn is_client(&self, flow: &Flow) -> (r: bool)
        ensures
            r == (flow.dst.port == self.server_spec()),
    {
        flow.dst.port == self.server
    }

    /// Feed request-direction bytes: a completed request joins the FIFO
    /// and is returned; a malformed or oversized one clears the buffer
    /// and drops every pending request.
    pub fn parse_req(&mut self, ts: Timestamp, payload: &[u8]) -> (r: Option<Req>)
        requires
            old(self).wf(),
            ts.wf(),
        ensures
            final(self).wf(),
            final(self).last_spec() == ts,
            final(self).server_spec() == old(self).server_spec(),
            final(self).res_buffered() == old(self).res_buffered(),
            ({
                let joined = old(self).req_buffered() + payload@;
                let rts = match old(self).req_ts_spec() {
                    Some(t) => t,
                    None => ts,
                };
                match req_step(joined) {
                    StepV::Complete(consumed) => {
                        &&& r is Some
                        &&& r->0@ == req_of(req_head(joined)->0->0, rts)
                        &&& final(self).req_buffered() == joined.subrange(
                            consumed,
                            joined.len() as int,
                        )
                        &&& final(self).pending_spec() == old(self).pending_spec().push(
                            r->0@,
                        )
                        &&& final(self).req_ts_spec() is None
                    },
                    StepV::Incomplete => r is None && final(self).req_buffered() == joined
                        && final(self).pending_spec() == old(self).pending_spec(),
                    _ => r is None && final(self).req_buffered().len() == 0 && final(self).pending_spec().len() == 0,
                }
            }),
    {
        self.last = ts;
        let mut buf = self.req_buf.buf(payload);
        if self.req_ts.is_none() && buf.bytes().len() > 0 {
            self.req_ts = Some(ts);
        }
        let b = buf.bytes().as_slice();
        let head = match hdr_end_exec(b, 0) {
            Some(hend) => {
                let line_end = match find_cr_exec(b, 0, hend) {
                    Some(cr) => cr,
                    None => 0,
                };
                match find_sp_exec(b, 0, line_end) {
                    Some(sp1) => {
                        if sp1 == 0 {
                            None
                        } else {
                            match find_sp_exec(b, sp1 + 1, line_end) {
                                Some(sp2) => {
                                    let url = sub_vec(b, sp1 + 1, sp2);
                                    let hstart = if hend - line_end >= 2 {
                                        line_end + 2
                                    } else {
                                        hend
                                    };
                                    let hdrs = headers_exec(
                                        b,
                                        hstart,
                                        hend,
                                        Headers {
                                            host: None,
                                            referer: None,
                                            ua: None,
                                            content_length: None,
                                        },
                                    );
                                    Some((url, hdrs, hend))
                                },
                                None => None,
                            }
                        }
                    },
                    None => None,
                }
            },
            None => {
                // header block not complete yet
                if buf.bytes().len() > MAX_BUFFER {
                    self.req_ts = None;
                    buf.keep(0);
                    self.req_buf.put_back(buf);
                    self.pending.clear();
                    proof {
                        assert(self.pending@.map_values(|q: Req| q@) =~= Seq::<ReqV>::empty());
                    }
                } else {
                    let n = buf.bytes().len();
                    buf.keep(n);
                    self.req_buf.put_back(buf);
                }
                return None;
            },
        };
        match head {
            Some((url, hdrs, hend)) => {
                let cl = match hdrs.content_length {
                    Some(n) => n as usize,
                    None => 0,
                };
                if cl <= buf.bytes().len() && hend <= buf.bytes().len() - cl {
                    // complete: consume the head and body
                    let consumed = hend + cl;
                    let kept = buf.bytes().len() - consumed;
                    let rts = match self.req_ts {
                        Some(t) => t,
                        None => ts,
                    };
                    self.req_ts = None;
                    buf.keep(kept);
                    self.req_buf.put_back(buf);
                    let req = Req { url, host: hdrs.host, referer: hdrs.referer, ua: hdrs.ua, ts: rts };
                    let copy = Req {
                        url: sub_vec(req.url.as_slice(), 0, req.url.len()),
                        host: match &req.host {
                            Some(h) => Some(sub_vec(h.as_slice(), 0, h.len())),
                            None => None,
                        },
                        referer: match &req.referer {
                            Some(h) => Some(sub_vec(h.as_slice(), 0, h.len())),
                            None => None,
                        },
                        ua: match &req.ua {
                            Some(h) => Some(sub_vec(h.as_slice(), 0, h.len())),
                            None => None,
                        },
                        ts: req.ts,
                    };
                    proof {
                        assert(copy@.url =~= req@.url);
                        assert(match req.host {
                            Some(h) => h@.subrange(0, h@.len() as int) =~= h@,
                            None => true,
                        });
                        assert(match req.referer {
                            Some(h) => h@.subrange(0, h@.len() as int) =~= h@,
                            None => true,
                        });
                        assert(match req.ua {
                            Some(h) => h@.subrange(0, h@.len() as int) =~= h@,
                            None => true,
                        });
                        assert(copy@ == req@);
                    }
                    self.pending.push(copy);
                    proof {
                        assert(self.pending@.map_values(|q: Req| q@) =~= old(self).pending_spec().push(req@));
                    }
                    Some(req)
                } else if buf.bytes().len() > MAX_BUFFER {
                    self.req_ts = None;
                    buf.keep(0);
                    self.req_buf.put_back(buf);
                    self.pending.clear();
                    proof {
                        assert(self.pending@.map_values(|q: Req| q@) =~= Seq::<ReqV>::empty());
                    }
                    None
                } else {
                    let n = buf.bytes().len();
                    buf.keep(n);
                    self.req_buf.put_back(buf);
                    None
                }
            },
            None => {
                // malformed start line
                self.req_ts = None;
                buf.keep(0);
                self.req_buf.put_back(buf);
                self.pending.clear();
                proof {
                    assert(self.pending@.map_values(|q: Req| q@) =~= Seq::<ReqV>::empty());
                }
                None
            },
        }
    }

    /// Feed response-direction bytes (`eof` marks the final, empty feed
    /// after a FIN): a completed response pairs with the oldest pending
    /// request; a malformed or oversized one clears both buffers and
    /// drops every pending request.
    pub fn parse_res(&mut self, ts: Timestamp, payload: &[u8], eof: bool) -> (r: Option<Res>)
        requires
            old(self).wf(),
            ts.wf(),
        ensures
            final(self).wf(),
            final(self).last_spec() == ts,
            final(self).server_spec() == old(self).server_spec(),
            ({
                let joined = old(self).res_buffered() + payload@;
                match res_step(joined, eof) {
                    StepV::Complete(consumed) => {
                        &&& final(self).req_buffered() == old(self).req_buffered()
                        &&& final(self).res_buffered() == joined.subrange(
                            consumed,
                            joined.len() as int,
                        )
                        &&& (old(self).pending_spec().len() > 0 ==> {
                            let q = old(self).pending_spec()[0];
                            &&& r is Some
                            &&& (r->0).status == res_head(joined)->0->0.status
                            &&& (r->0).url@ == q.url
                            &&& (match (r->0).host {
                                Some(h) => q.host is Some && h@ == q.host->0,
                                None => q.host is None,
                            })
                            &&& (match (r->0).referer {
                                Some(h) => q.referer is Some && h@ == q.referer->0,
                                None => q.referer is None,
                            })
                            &&& (match (r->0).ua {
                                Some(h) => q.ua is Some && h@ == q.ua->0,
                                None => q.ua is None,
                            })
                            &&& (r->0).latency == Duration {
                                ns: (ts.nanos() - q.ts.nanos()) as i64,
                            }
                            &&& final(self).pending_spec() == old(self).pending_spec().drop_first()
                        })
                        &&& (old(self).pending_spec().len() == 0 ==> r is None && final(self).pending_spec() == old(self).pending_spec())
                    },
                    StepV::Incomplete => r is None && final(self).res_buffered() == joined
                        && final(self).pending_spec() == old(self).pending_spec() && final(self).req_buffered() == old(self).req_buffered(),
                    _ => r is None && final(self).res_buffered().len() == 0 && final(self).req_buffered().len() == 0 && final(self).pending_spec().len() == 0,
                }
            }),
    {
        self.last = ts;
        let mut buf = self.res_buf.buf(payload);
        let b = buf.bytes().as_slice();
        let head = match hdr_end_exec(b, 0) {
            Some(hend) => {
                let line_end = match find_cr_exec(b, 0, hend) {
                    Some(cr) => cr,
                    None => 0,
                };
                if !(b.len() >= 4 && b[0] == 72 && b[1] == 84 && b[2] == 84 && b[3] == 80) {
                    None
                } else {
                    match find_sp_exec(b, 0, line_end) {
                        Some(sp1) => {
                            let cend = match find_sp_exec(b, sp1 + 1, line_end) {
                                Some(sp2) => sp2,
                                None => line_end,
                            };
                            match dec_value_exec(b, sp1 + 1, cend) {
                                Some(code) => {
                                    if code < 1000 {
                                        let hstart = if hend - line_end >= 2 {
                                            line_end + 2
                                        } else {
                                            hend
                                        };
                                        let hdrs = headers_exec(
                                            b,
                                            hstart,
                                            hend,
                                            Headers {
                                                host: None,
                                                referer: None,
                                                ua: None,
                                                content_length: None,
                                            },
                                        );
                                        Some((code as u16, hdrs, hend))
                                    } else {
                                        None
                                    }
                                },
                                None => None,
                            }
                        },
                        None => None,
                    }
                }
            },
            None => {
                if buf.bytes().len() > MAX_BUFFER {
                    buf.keep(0);
                    self.res_buf.put_back(buf);
                    self.req_buf.clear();
                    self.pending.clear();
                    proof {
                        assert(self.pending@.map_values(|q: Req| q@) =~= Seq::<ReqV>::empty());
                    }
                } else {
                    let n = buf.bytes().len();
                    buf.keep(n);
                    self.res_buf.put_back(buf);
                }
                return None;
            },
        };
        match head {
            Some((status, hdrs, hend)) => {
                let total = buf.bytes().len();
                let consumed: Option<usize> = match hdrs.content_length {
                    Some(n) => {
                        if (n as usize) <= total && hend <= total - (n as usize) {
                            Some(hend + n as usize)
                        } else {
                            None
                        }
                    },
                    None => {
                        if eof {
                            Some(total)
                        } else {
                            None
                        }
                    },
                };
                match consumed {
                    Some(consumed) => {
                        let kept = total - consumed;
                        buf.keep(kept);
                        self.res_buf.put_back(buf);
                        if self.pending.len() > 0 {
                            proof {
                                assert((#[trigger] old(self).pending@[0]).ts.wf());
                            }
                            let req = self.pending.remove(0);
                            proof {
                                assert(self.pending@.map_values(|q: Req| q@) =~= old(self).pending_spec().drop_first());
                            }
                            let latency = ts.minus(req.ts);
                            Some(Res {
                                status,
                                url: req.url,
                                host: req.host,
                                referer: req.referer,
                                ua: req.ua,
                                latency,
                            })
                        } else {
                            None
                        }
                    },
                    None => {
                        if total > MAX_BUFFER {
                            buf.keep(0);
                            self.res_buf.put_back(buf);
                            self.req_buf.clear();
                            self.pending.clear();
                            proof {
                                assert(self.pending@.map_values(|q: Req| q@) =~= Seq::<
                                    ReqV,
                                >::empty());
                            }
                            None
                        } else {
                            let n = buf.bytes().len();
                            buf.keep(n);
                            self.res_buf.put_back(buf);
                            None
                        }
                    },
                }
            },
            None => {
                buf.keep(0);
                self.res_buf.put_back(buf);
                self.req_buf.clear();
                self.pending.clear();
                proof {
                    assert(self.pending@.map_values(|q: Req| q@) =~= Seq::<ReqV>::empty());
                }
                None
            },
        }
    }

    /// Idle when nothing has arrived within the timeout.
    pub fn is_idle(&self, ts: Timestamp, timeout: Duration) -> (r: bool)
        requires
            ts.wf(),
            self.last_spec().wf(),
        ensures
            r == (ts.nanos() - self.last_spec().nanos() > timeout.ns),
    {
        timeout.lt(ts.minus(self.last))
    }
}

/// A text value, empty when absent.
pub open spec fn opt_text(o: Option<Seq<u8>>) -> Seq<u8> {
    match o {
        Some(t) => t,
        None => Seq::empty(),
    }
}

/// The values a completed request appends: URL, host, referer and
/// user-agent, absent headers as empty texts.
pub open spec fn req_values(ids: DecoderIds, h: ReqHeadV) -> Seq<CustomV> {
    seq![
        CustomV { id: ids.req_url, value: ValueV::Str(h.url) },
        CustomV { id: ids.req_host, value: ValueV::Str(opt_text(h.hdrs.host)) },
        CustomV { id: ids.req_referer, value: ValueV::Str(opt_text(h.hdrs.referer)) },
        CustomV { id: ids.req_ua, value: ValueV::Str(opt_text(h.hdrs.ua)) },
    ]
}

/// The values a completed response appends: the paired request's URL,
/// host, referer and user-agent, the status code, and the clamped
/// request-to-response latency.
pub open spec fn res_values(ids: DecoderIds, q: ReqV, status: u16, lat: Duration) -> Seq<CustomV> {
    seq![
        CustomV { id: ids.req_url, value: ValueV::Str(q.url) },
        CustomV { id: ids.req_host, value: ValueV::Str(opt_text(q.host)) },
        CustomV { id: ids.req_referer, value: ValueV::Str(opt_text(q.referer)) },
        CustomV { id: ids.req_ua, value: ValueV::Str(opt_text(q.ua)) },
        CustomV { id: ids.res_status, value: ValueV::U32(status as u32) },
        CustomV { id: ids.latency, value: ValueV::U32(latency_ms(lat)) },
    ]
}

/// Whether a connection survives an idle sweep at `ts`: it is not yet
/// idle for longer than the timeout.
pub open spec fn survives(c: Connection, ts: Timestamp, timeout: Duration) -> bool {
    ts.nanos() - c.last_spec().nanos() <= timeout.ns
}

/// The column ids the HTTP decoder appends under.
pub struct DecoderIds {
    pub req_url: u64,
    pub req_host: u64,
    pub req_referer: u64,
    pub req_ua: u64,
    pub res_status: u64,
    pub latency: u64,
}

/// What one decode attempt over `payload` does: with no tracked
/// connection and no SYN, nothing; otherwise the keyed connection is
/// stepped by the request or response parser — picked by the inferred
/// server port — and a completed message appends exactly its values.
pub open spec fn attempt_effect(
    m0: Map<AddrPair, Connection>,
    cs0: Seq<CustomV>,
    m1: Map<AddrPair, Connection>,
    cs1: Seq<CustomV>,
    ids: DecoderIds,
    src: Addr,
    dst: Addr,
    flags: u16,
    ts: Timestamp,
    payload: Seq<u8>,
    eof: bool,
    r: bool,
) -> bool {
    let key = pair_key(src, dst);
    let created = !m0.contains_key(key) && (flags & (SYN | ACK) == SYN || flags & (SYN | ACK) == (
    SYN | ACK));
    let tracked_conn = m0.contains_key(key) || created;
    if !tracked_conn {
        !r && m1 == m0 && cs1 == cs0
    } else {
        let server0 = if m0.contains_key(key) {
            m0[key].server_spec()
        } else if flags & (SYN | ACK) == SYN {
            dst.port
        } else {
            src.port
        };
        let rb0 = if m0.contains_key(key) {
            m0[key].req_buffered()
        } else {
            Seq::<u8>::empty()
        };
        let sb0 = if m0.contains_key(key) {
            m0[key].res_buffered()
        } else {
            Seq::<u8>::empty()
        };
        let pend0 = if m0.contains_key(key) {
            m0[key].pending_spec()
        } else {
            Seq::<ReqV>::empty()
        };
        let rts0 = if m0.contains_key(key) {
            m0[key].req_ts_spec()
        } else {
            Option::<Timestamp>::None
        };
        let client = dst.port == server0;
        &&& m1.contains_key(key)
        &&& m1[key].server_spec() == server0
        &&& (forall|k2: AddrPair|
            k2 != key ==> #[trigger] m1.contains_key(k2) == m0.contains_key(k2) && (m0.contains_key(
                k2,
            ) ==> m1[k2] == m0[k2]))
        &&& (client ==> {
            let joined = rb0 + payload;
            let rts = match rts0 {
                Some(t) => t,
                None => ts,
            };
            &&& m1[key].res_buffered() == sb0
            &&& (match req_step(joined) {
                StepV::Complete(consumed) => {
                    &&& r
                    &&& cs1 == cs0 + req_values(ids, req_head(joined)->0->0)
                    &&& m1[key].req_buffered() == joined.subrange(consumed, joined.len() as int)
                    &&& m1[key].pending_spec() == pend0.push(req_of(req_head(joined)->0->0, rts))
                },
                StepV::Incomplete => !r && cs1 == cs0 && m1[key].req_buffered() == joined
                    && m1[key].pending_spec() == pend0,
                _ => !r && cs1 == cs0 && m1[key].req_buffered().len() == 0
                    && m1[key].pending_spec().len() == 0,
            })
        })
        &&& (!client ==> {
            let joined = sb0 + payload;
            &&& (match res_step(joined, eof) {
                StepV::Complete(consumed) => {
                    &&& m1[key].res_buffered() == joined.subrange(consumed, joined.len() as int)
                    &&& m1[key].req_buffered() == rb0
                    &&& (pend0.len() > 0 ==> r && cs1 == cs0 + res_values(
                        ids,
                        pend0[0],
                        res_head(joined)->0->0.status,
                        Duration { ns: (ts.nanos() - pend0[0].ts.nanos()) as i64 },
                    ) && m1[key].pending_spec() == pend0.drop_first())
                    &&& (pend0.len() == 0 ==> !r && cs1 == cs0 && m1[key].pending_spec() == pend0)
                },
                StepV::Incomplete => !r && cs1 == cs0 && m1[key].res_buffered() == joined
                    && m1[key].req_buffered() == rb0 && m1[key].pending_spec() == pend0,
                _ => !r && cs1 == cs0 && m1[key].res_buffered().len() == 0
                    && m1[key].req_buffered().len() == 0 && m1[key].pending_spec().len() == 0,
            })
        })
    }
}

/// The unordered pair of a flow's endpoints, smaller port first.
pub open spec fn pair_key(x: Addr, y: Addr) -> AddrPair {
    if x.port < y.port {
        AddrPair { a: x, b: y }
    } else {
        AddrPair { a: y, b: x }
    }
}

/// The HTTP decoder: column ids and per-connection parser state keyed
/// by unordered address pair.
pub struct Decoder {
    req_url: u64,
    req_host: u64,
    req_referer: u64,
    req_ua: u64,
    res_status: u64,
    latency: u64,
    conns: Table<AddrPair, Connection>,
}

impl Decoder {
    /// The column ids.
    pub closed spec fn ids(&self) -> DecoderIds {
        DecoderIds {
            req_url: self.req_url,
            req_host: self.req_host,
            req_referer: self.req_referer,
            req_ua: self.req_ua,
            res_status: self.res_status,
            latency: self.latency,
        }
    }

    /// The tracked connections.
    pub closed spec fn view(&self) -> Map<AddrPair, Connection> {
        self.conns@
    }

    /// Well-formed.
    pub closed spec fn wf(&self) -> bool {
        &&& self.conns.wf()
        &&& forall|k: AddrPair| #[trigger] self.conns@.contains_key(k) ==> self.conns@[k].wf()
    }

    /// A decoder bound to the dictionary; `Err` when any column the
    /// decoder needs is missing, which disables it.
    /// Whether the dictionary carries every column this decoder needs.
    pub open spec fn enabled(cs: Customs) -> bool {
        &&& cs.get_spec(HTTP_URL@) is Some
        &&& cs.get_spec(HTTP_HOST@) is Some
        &&& cs.get_spec(HTTP_REFERER@) is Some
        &&& cs.get_spec(HTTP_UA@) is Some
        &&& cs.get_spec(HTTP_STATUS@) is Some
        &&& cs.get_spec(APP_LATENCY@) is Some
    }

    pub fn new(cs: &Customs) -> (r: Result<Decoder, ()>)
        ensures
            r is Ok <==> Self::enabled(*cs),
            r is Ok <==> {
                &&& cs.get_spec(HTTP_URL@) is Some
                &&& cs.get_spec(HTTP_HOST@) is Some
                &&& cs.get_spec(HTTP_REFERER@) is Some
                &&& cs.get_spec(HTTP_UA@) is Some
                &&& cs.get_spec(HTTP_STATUS@) is Some
                &&& cs.get_spec(APP_LATENCY@) is Some
            },
            match r {
                Ok(d) => {
                    &&& d.wf()
                    &&& d@ == Map::<AddrPair, Connection>::empty()
                    &&& Some(d.ids().req_url) == cs.get_spec(HTTP_URL@)
                    &&& Some(d.ids().req_host) == cs.get_spec(HTTP_HOST@)
                    &&& Some(d.ids().req_referer) == cs.get_spec(HTTP_REFERER@)
                    &&& Some(d.ids().req_ua) == cs.get_spec(HTTP_UA@)
                    &&& Some(d.ids().res_status) == cs.get_spec(HTTP_STATUS@)
                    &&& Some(d.ids().latency) == cs.get_spec(APP_LATENCY@)
                },
                Err(()) => true,
            },
    {
        let req_url = match cs.get(HTTP_URL) {
            Ok(id) => id,
            Err(()) => {
                return Err(());
            },
        };
        let req_host = match cs.get(HTTP_HOST) {
            Ok(id) => id,
            Err(()) => {
                return Err(());
            },
        };
        let req_referer = match cs.get(HTTP_REFERER) {
            Ok(id) => id,
            Err(()) => {
                return Err(());
            },
        };
        let req_ua = match cs.get(HTTP_UA) {
            Ok(id) => id,
            Err(()) => {
                return Err(());
            },
        };
        let res_status = match cs.get(HTTP_STATUS) {
            Ok(id) => id,
            Err(()) => {
                return Err(());
            },
        };
        let latency = match cs.get(APP_LATENCY) {
            Ok(id) => id,
            Err(()) => {
                return Err(());
            },
        };
        Ok(Decoder {
            req_url,
            req_host,
            req_referer,
            req_ua,
            res_status,
            latency,
            conns: Table::new(),
        })
    }

    fn add_text(cs: &mut Customs, id: u64, v: Option<Vec<u8>>)
        ensures
            final(cs)@ == old(cs)@.push(CustomV {
                id,
                value: ValueV::Str(match v {
                    Some(h) => h@,
                    None => Seq::empty(),
                }),
            }),
            final(cs).get_spec_unchanged(*old(cs)),
    {
        match v {
            Some(h) => cs.add_str(id, h),
            None => cs.add_str(id, Vec::new()),
        }
    }

    /// One decode attempt over the given payload.
    #[verifier::rlimit(100)]
    #[verifier::spinoff_prover]
    fn attempt(&mut self, flow: &Flow, payload: &[u8], eof: bool, cs: &mut Customs) -> (r: bool)
        requires
            old(self).wf(),
            flow.wf(),
        ensures
            final(self).wf(),
            final(self).ids() == old(self).ids(),
            final(cs).get_spec_unchanged(*old(cs)),
            final(cs)@.len() >= old(cs)@.len() && final(cs)@.subrange(
                0,
                old(cs)@.len() as int,
            ) == old(cs)@,
            attempt_effect(
                old(self)@,
                old(cs)@,
                final(self)@,
                final(cs)@,
                old(self).ids(),
                flow.src,
                flow.dst,
                flow.spec_tcp_flags(),
                flow.timestamp,
                payload@,
                eof,
                r,
            ),
    {
        let key = AddrPair::ordered(flow.src, flow.dst);
        proof {
            assert(key == pair_key(flow.src, flow.dst));
        }
        let flags = flow.tcp_flags();
        let found = self.conns.remove(&key);
        let conn = match found {
            Some(c) => c,
            None => {
                if flags & (SYN | ACK) == SYN {
                    Connection::new(flow.dst.port)
                } else if flags & (SYN | ACK) == (SYN | ACK) {
                    Connection::new(flow.src.port)
                } else {
                    proof {
                        assert(self@ =~= old(self)@);
                        assert(cs@.subrange(0, old(cs)@.len() as int) =~= old(cs)@);
                    }
                    return false;
                }
            },
        };
        let ghost conn0 = conn;
        let (conn, decoded) = self.step_conn(conn, flow, payload, eof, cs);
        self.conns.insert(key, conn);
        proof {
            assert(self@ =~= old(self)@.insert(key, conn));
            assert(cs@.subrange(0, old(cs)@.len() as int) =~= old(cs)@);
            if !old(self)@.contains_key(key) {
                assert(conn0.req_buffered() =~= Seq::<u8>::empty());
                assert(conn0.res_buffered() =~= Seq::<u8>::empty());
                assert(conn0.pending_spec() =~= Seq::<ReqV>::empty());
            }
            assert(attempt_effect(
                old(self)@,
                old(cs)@,
                self@,
                cs@,
                old(self).ids(),
                flow.src,
                flow.dst,
                flow.spec_tcp_flags(),
                flow.timestamp,
                payload@,
                eof,
                decoded,
            ));
        }
        decoded
    }

    /// Step one connection by the flow's direction and append a
    /// completed message's values.
    #[verifier::rlimit(100)]
    #[verifier::spinoff_prover]
    fn step_conn(&self, conn: Connection, flow: &Flow, payload: &[u8], eof: bool, cs: &mut Customs) -> (out: (
        Connection,
        bool,
    ))
        requires
            conn.wf(),
            flow.wf(),
        ensures
            out.0.wf(),
            final(cs).get_spec_unchanged(*old(cs)),
            final(cs)@.subrange(0, old(cs)@.len() as int) == old(cs)@,
            final(cs)@.len() >= old(cs)@.len(),
            out.0.server_spec() == conn.server_spec(),
            ({
                let client = flow.dst.port == conn.server_spec();
                let rts = match conn.req_ts_spec() {
                    Some(t) => t,
                    None => flow.timestamp,
                };
                &&& (client ==> {
                    let joined = conn.req_buffered() + payload@;
                    &&& out.0.res_buffered() == conn.res_buffered()
                    &&& (match req_step(joined) {
                        StepV::Complete(consumed) => {
                            &&& out.1
                            &&& final(cs)@ == old(cs)@ + req_values(
                                self.ids(),
                                req_head(joined)->0->0,
                            )
                            &&& out.0.req_buffered() == joined.subrange(
                                consumed,
                                joined.len() as int,
                            )
                            &&& out.0.pending_spec() == conn.pending_spec().push(
                                req_of(req_head(joined)->0->0, rts),
                            )
                        },
                        StepV::Incomplete => !out.1 && final(cs)@ == old(cs)@
                            && out.0.req_buffered() == joined && out.0.pending_spec()
                            == conn.pending_spec(),
                        _ => !out.1 && final(cs)@ == old(cs)@ && out.0.req_buffered().len() == 0
                            && out.0.pending_spec().len() == 0,
                    })
                })
                &&& (!client ==> {
                    let joined = conn.res_buffered() + payload@;
                    &&& (match res_step(joined, eof) {
                        StepV::Complete(consumed) => {
                            &&& out.0.res_buffered() == joined.subrange(
                                consumed,
                                joined.len() as int,
                            )
                            &&& out.0.req_buffered() == conn.req_buffered()
                            &&& (conn.pending_spec().len() > 0 ==> out.1 && final(cs)@ == old(cs)@
                                + res_values(
                                self.ids(),
                                conn.pending_spec()[0],
                                res_head(joined)->0->0.status,
                                Duration {
                                    ns: (flow.timestamp.nanos()
                                        - conn.pending_spec()[0].ts.nanos()) as i64,
                                },
                            ) && out.0.pending_spec() == conn.pending_spec().drop_first())
                            &&& (conn.pending_spec().len() == 0 ==> !out.1 && final(cs)@ == old(
                                cs,
                            )@ && out.0.pending_spec() == conn.pending_spec())
                        },
                        StepV::Incomplete => !out.1 && final(cs)@ == old(cs)@
                            && out.0.res_buffered() == joined && out.0.req_buffered()
                            == conn.req_buffered() && out.0.pending_spec() == conn.pending_spec(),
                        _ => !out.1 && final(cs)@ == old(cs)@ && out.0.res_buffered().len() == 0
                            && out.0.req_buffered().len() == 0 && out.0.pending_spec().len() == 0,
                    })
                })
            }),
    {
        let mut conn = conn;
        let decoded = if conn.is_client(flow) {
            match conn.parse_req(flow.timestamp, payload) {
                Some(req) => {
                    Self::add_text(cs, self.req_url, Some(req.url));
                    Self::add_text(cs, self.req_host, req.host);
                    Self::add_text(cs, self.req_referer, req.referer);
                    Self::add_text(cs, self.req_ua, req.ua);
                    proof {
                        assert(cs@.subrange(0, old(cs)@.len() as int) =~= old(cs)@);
                    }
                    true
                },
                None => {
                    proof {
                        assert(cs@.subrange(0, old(cs)@.len() as int) =~= old(cs)@);
                    }
                    false
                },
            }
        } else {
            match conn.parse_res(flow.timestamp, payload, eof) {
                Some(res) => {
                    Self::add_text(cs, self.req_url, Some(res.url));
                    Self::add_text(cs, self.req_host, res.host);
                    Self::add_text(cs, self.req_referer, res.referer);
                    Self::add_text(cs, self.req_ua, res.ua);
                    cs.add_u32(self.res_status, res.status as u32);
                    cs.add_latency(self.latency, res.latency);
                    proof {
                        assert(cs@.subrange(0, old(cs)@.len() as int) =~= old(cs)@);
                    }
                    true
                },
                None => {
                    proof {
                        assert(cs@.subrange(0, old(cs)@.len() as int) =~= old(cs)@);
                    }
                    false
                },
            }
        };
        (conn, decoded)
    }

    /// Decode one segment: requests and responses are parsed by
    /// direction against the inferred server port, exactly one attempt
    /// effect; a FIN after undecoded payload triggers one final attempt
    /// with an empty feed, flushing a close-delimited response.
    pub fn decode(&mut self, flow: &Flow, cs: &mut Customs) -> (r: bool)
        requires
            old(self).wf(),
            flow.wf(),
        ensures
            final(self).wf(),
            final(self).ids() == old(self).ids(),
            final(cs).get_spec_unchanged(*old(cs)),
            final(cs)@.len() >= old(cs)@.len() && final(cs)@.subrange(
                0,
                old(cs)@.len() as int,
            ) == old(cs)@,
            exists|m1: Map<AddrPair, Connection>, c1: Seq<CustomV>, r1: bool|
                {
                    &&& #[trigger] attempt_effect(
                        old(self)@,
                        old(cs)@,
                        m1,
                        c1,
                        old(self).ids(),
                        flow.src,
                        flow.dst,
                        flow.spec_tcp_flags(),
                        flow.timestamp,
                        flow.payload@,
                        false,
                        r1,
                    )
                    &&& (!(!r1 && flow.payload@.len() > 0 && flow.spec_tcp_flags() & FIN == FIN)
                        ==> final(self)@ == m1 && final(cs)@ == c1 && r == r1)
                    &&& (!r1 && flow.payload@.len() > 0 && flow.spec_tcp_flags() & FIN == FIN
                        ==> attempt_effect(
                        m1,
                        c1,
                        final(self)@,
                        final(cs)@,
                        old(self).ids(),
                        flow.src,
                        flow.dst,
                        flow.spec_tcp_flags(),
                        flow.timestamp,
                        Seq::<u8>::empty(),
                        true,
                        r,
                    ))
                },
    {
        let flags = flow.tcp_flags();
        let decoded = self.attempt(flow, flow.payload.as_slice(), false, cs);
        let ghost m1 = self@;
        let ghost c1 = cs@;
        if !decoded && flow.payload.len() > 0 && flags & FIN == FIN {
            let empty: Vec<u8> = Vec::new();
            let r2 = self.attempt(flow, empty.as_slice(), true, cs);
            proof {
                assert(cs@.subrange(0, old(cs)@.len() as int) =~= old(cs)@);
            }
            r2
        } else {
            proof {
                assert(cs@.subrange(0, old(cs)@.len() as int) =~= old(cs)@);
            }
            decoded
        }
    }

    /// Drop connections quiet past the timeout.
    pub fn clear(&mut self, ts: Timestamp, timeout: Duration)
        requires
            old(self).wf(),
            ts.wf(),
        ensures
            final(self).wf(),
            final(self).ids() == old(self).ids(),
            forall|k: AddrPair| final(self)@.contains_key(k) <==> (#[trigger] old(
                self,
            )@.contains_key(k) && survives(old(self)@[k], ts, timeout)),
            forall|k: AddrPair| #[trigger] final(self)@.contains_key(k) ==> final(self)@[k] == old(
                self,
            )@[k],
    {
        let keys = self.conns.keys();
        let ghost m0 = self@;
        let mut i: usize = 0;
        #[verifier::loop_isolation(false)]
        while i < keys.len()
            invariant
                self.wf(),
                i <= keys@.len(),
                self.ids() == old(self).ids(),
                forall|j: int, l: int| 0 <= j < l < keys@.len() ==> keys@[j] != keys@[l],
                forall|j: int| 0 <= j < keys@.len() ==> m0.contains_key(#[trigger] keys@[j]),
                forall|k: AddrPair| m0.contains_key(k) ==> keys@.contains(k),
                forall|k: AddrPair| #[trigger] self@.contains_key(k) ==> m0.contains_key(k)
                    && self@[k] == m0[k],
                forall|k: AddrPair| m0.contains_key(k) && !keys@.take(i as int).contains(k)
                    ==> #[trigger] self@.contains_key(k),
                forall|j: int| 0 <= j < i ==> (#[trigger] self@.contains_key(keys@[j]) <==> survives(
                    m0[keys@[j]],
                    ts,
                    timeout,
                )),
            decreases keys@.len() - i,
        {
            let k = keys[i];
            let ghost m_in = self@;
            proof {
                assert(!keys@.take(i as int).contains(k)) by {
                    if keys@.take(i as int).contains(k) {
                        let j = choose|j: int|
                            0 <= j < i && (#[trigger] keys@.take(i as int)[j]) == k;
                        assert(keys@[j] == k);
                    }
                }
            }
            let idle = match self.conns.get(&k) {
                Some(c) => c.is_idle(ts, timeout),
                None => false,
            };
            if idle {
                let _gone = self.conns.remove(&k);
            }
            proof {
                assert forall|k2: AddrPair| #[trigger] keys@.take(i + 1).contains(k2)
                    implies keys@.take(i as int).contains(k2) || k2 == keys@[i as int] by {
                    let j = choose|j: int| 0 <= j < i + 1 && (#[trigger] keys@.take(i + 1)[j]) == k2;
                    if j < i {
                        assert(keys@.take(i as int)[j] == k2);
                    }
                }
                assert forall|k2: AddrPair| keys@.take(i as int).contains(k2)
                    implies #[trigger] keys@.take(i + 1).contains(k2) by {
                    let j = choose|j: int| 0 <= j < i && (#[trigger] keys@.take(i as int)[j]) == k2;
                    assert(keys@.take(i + 1)[j] == k2);
                }
                assert(keys@.take(i + 1)[i as int] == keys@[i as int]);
                assert forall|k2: AddrPair| m0.contains_key(k2) && !keys@.take(i + 1).contains(k2)
                    implies #[trigger] self@.contains_key(k2) by {
                    if k2 == keys@[i as int] {
                        assert(keys@.take(i + 1)[i as int] == k2);
                        assert(keys@.take(i + 1).contains(k2));
                    }
                    assert(!keys@.take(i as int).contains(k2));
                    assert(k2 != keys@[i as int]);
                    assert(m_in.contains_key(k2));
                }
                assert forall|k2: AddrPair| #[trigger] self@.contains_key(k2)
                    implies m0.contains_key(k2) && self@[k2] == m0[k2] by {
                    assert(m_in.contains_key(k2));
                }
            }
            i = i + 1;
        }
        proof {
            assert(keys@.take(keys@.len() as int) =~= keys@);
            assert forall|k: AddrPair| self@.contains_key(k) <==> (#[trigger] m0.contains_key(k)
                && survives(m0[k], ts, timeout)) by {
                if m0.contains_key(k) {
                    let j = choose|j: int| 0 <= j < keys@.len() && (#[trigger] keys@[j]) == k;
                    assert(self@.contains_key(keys@[j]) <==> survives(m0[keys@[j]], ts, timeout));
                }
            }
        }
    }
}

} // verus!
