//! The per-flow connection tracker: TCP/UDP quality metrics computed
//! from sequence and flag observations, keyed by directional flow key
//! with the peer direction read as the sibling entry.

pub mod id;

use vstd::prelude::*;
use crate::custom::{
    Customs, CustomV, ValueV, latency_ms, APP_PROTOCOL, CLIENT_NW_LATENCY, CONNECTION_ID,
    FPX_LATENCY, OOORDER_IN, RECEIVE_WINDOW, REPEATED_RETRANSMITS, RETRANSMITTED_OUT,
    SERVER_NW_LATENCY, ZERO_WINDOWS,
};
use crate::flow::{Flow, Key, Protocol, Transport, Window, ACK, FIN, RST, SYN};
use crate::table::Table;
use crate::time::{Duration, Timestamp, NANOS_PER_SEC};
use crate::track::id::{id_spec, Generator};

verus! {

/// The retransmit counters of one direction: total since last export,
/// a run length of one sequence number, and completed runs of three.
#[derive(Clone, Copy, Debug, PartialEq, Eq, Structural)]
pub struct Retransmits {
    pub serial: u32,
    pub total: u32,
    pub repeats: u32,
    pub seq: u32,
}

/// A u32 counter stepped by one, wrapping.
pub open spec fn bump(x: u32) -> u32 {
    ((x + 1) % 0x1_0000_0000) as u32
}

impl Retransmits {
    /// Fresh counters positioned at `seq`.
    pub fn new(seq: u32) -> (r: Retransmits)
        ensures
            r == (Retransmits { serial: 0, total: 0, repeats: 0, seq }),
    {
        Retransmits { serial: 0, total: 0, repeats: 0, seq }
    }

    /// The counters after one retransmitted segment at `seq`: the total
    /// grows, the run length follows the sequence number, and the third
    /// consecutive retransmit of one sequence number completes a run.
    pub open spec fn add_spec(self, seq: u32) -> Retransmits {
        let total = bump(self.total);
        let (serial, at) = if seq == self.seq {
            (bump(self.serial), self.seq)
        } else {
            (0u32, seq)
        };
        let repeats = if serial == 3 {
            bump(self.repeats)
        } else {
            self.repeats
        };
        Retransmits { serial, total, repeats, seq: at }
    }

    /// Count one retransmitted segment at `seq`.
    pub fn add(&mut self, seq: u32)
        ensures
            *final(self) == old(self).add_spec(seq),
    {
        self.total = self.total.wrapping_add(1);
        if seq == self.seq {
            self.serial = self.serial.wrapping_add(1);
        } else {
            self.serial = 0;
            self.seq = seq;
        }
        if self.serial == 3 {
            self.repeats = self.repeats.wrapping_add(1);
        }
    }

    /// The exported pair: total retransmits and completed runs.
    pub fn get(&self) -> (r: (u32, u32))
        ensures
            r == (self.total, self.repeats),
    {
        (self.total, self.repeats)
    }

    /// Zero the exported counters; the run position is kept.
    pub fn reset(&mut self)
        ensures
            *final(self) == (Retransmits {
                total: 0,
                repeats: 0,
                ..*old(self)
            }),
    {
        self.total = 0;
        self.repeats = 0;
    }
}

/// A measured handshake round-trip, classified by which side completed
/// the handshake.
#[derive(Clone, Copy, Debug, PartialEq, Eq, Structural)]
pub enum RTT {
    Server(Duration),
    Client(Duration),
}

/// The tracked state of one flow direction.
#[derive(Clone, Copy, Debug)]
pub struct State {
    pub id: u32,
    pub latency: Option<Duration>,
    pub rtt: Option<RTT>,
    pub syn: Option<Timestamp>,
    pub payload: Option<Timestamp>,
    pub fin: Option<Timestamp>,
    pub seq: u32,
    pub window: Window,
    pub retransmits: Retransmits,
    pub ooorder: u32,
    pub zwindows: u32,
    pub last: Timestamp,
}

impl State {
    /// Every held timestamp is in range, and every held span
    /// representable enough to halve.
    pub open spec fn wf(self) -> bool {
        &&& self.last.wf()
        &&& match self.syn {
            Some(t) => t.wf(),
            None => true,
        }
        &&& match self.payload {
            Some(t) => t.wf(),
            None => true,
        }
        &&& match self.fin {
            Some(t) => t.wf(),
            None => true,
        }
        &&& match self.rtt {
            Some(RTT::Server(d)) => d.ns != i64::MIN,
            Some(RTT::Client(d)) => d.ns != i64::MIN,
            None => true,
        }
        &&& match self.latency {
            Some(d) => d.ns != i64::MIN,
            None => true,
        }
    }
}

/// The span from `b` to `a`.
pub open spec fn span(a: Timestamp, b: Timestamp) -> Duration {
    Duration { ns: (a.nanos() - b.nanos()) as i64 }
}

/// The column ids the tracker appends under.
pub struct TrackIds {
    pub conn_id: Option<u64>,
    pub cli_latency: Option<u64>,
    pub srv_latency: Option<u64>,
    pub fpx_latency: Option<u64>,
    pub retx_out: Option<u64>,
    pub retx_repeats: Option<u64>,
    pub ooorder_in: Option<u64>,
    pub rwindow: Option<u64>,
    pub zwindows: Option<u64>,
}

/// The tracker: one `State` per directional key.
pub struct Tracker {
    conn_id: Option<u64>,
    cli_latency: Option<u64>,
    srv_latency: Option<u64>,
    fpx_latency: Option<u64>,
    retx_out: Option<u64>,
    retx_repeats: Option<u64>,
    ooorder_in: Option<u64>,
    rwindow: Option<u64>,
    zwindows: Option<u64>,
    generator: Generator,
    states: Table<Key, State>,
}

/// The state a first packet creates: TCP and UDP flows receive a
/// connection id, TCP flows their initial sequence number and window.
pub open spec fn new_state_spec(flow: Flow) -> State {
    let (id, seq, win) = match flow.transport {
        Transport::TCP { seq, window, .. } => (id_spec(flow), seq, window),
        Transport::UDP => (id_spec(flow), 0u32, Window { size: 0, scale: 0 }),
        _ => (0u32, 0u32, Window { size: 0, scale: 0 }),
    };
    State {
        id,
        latency: None,
        rtt: None,
        syn: None,
        payload: None,
        fin: None,
        seq,
        window: win,
        retransmits: Retransmits { serial: 0, total: 0, repeats: 0, seq },
        ooorder: 0,
        zwindows: 0,
        last: flow.timestamp,
    }
}

/// First-payload bookkeeping: record the first payload timestamp for
/// this direction, and when the peer already saw payload, this side's
/// first-payload-exchange latency.
pub open spec fn stage_payload(this: State, peer: Option<State>, flow: Flow) -> State {
    if this.payload is None && flow.payload@.len() > 0 {
        let with_ts = State { payload: Some(flow.timestamp), ..this };
        match peer {
            Some(p) => match p.payload {
                Some(pts) => State { latency: Some(span(flow.timestamp, pts)), ..with_ts },
                None => with_ts,
            },
            None => with_ts,
        }
    } else {
        this
    }
}

/// SYN and handshake bookkeeping: record this side's SYN, and measure
/// the round-trip when an ACK answers the peer's SYN — as the server
/// for a SYN-ACK, as the client for a bare ACK after this side's SYN.
pub open spec fn stage_handshake(this: State, peer: Option<State>, flow: Flow, flags: u16) -> State {
    let syn = flags & SYN == SYN;
    let ack = flags & ACK == ACK;
    let s1 = if syn {
        State { syn: Some(flow.timestamp), ..this }
    } else {
        this
    };
    let peer_syn = match peer {
        Some(p) => p.syn,
        None => None,
    };
    if syn && ack && s1.rtt is None {
        match peer_syn {
            Some(pts) => State { rtt: Some(RTT::Server(span(flow.timestamp, pts))), ..s1 },
            None => s1,
        }
    } else if !(syn && ack) && ack && s1.rtt is None && s1.syn is Some {
        match peer_syn {
            Some(pts) => State { rtt: Some(RTT::Client(span(flow.timestamp, pts))), ..s1 },
            None => s1,
        }
    } else {
        s1
    }
}

/// The effective receive window: the raw size shifted by the scale
/// captured at SYN.
pub open spec fn scaled_window(size: u32, scale: u8) -> u32 {
    (size << ((scale & 31) as u32)) as u32
}

/// Window bookkeeping on an ACK without SYN: scale the announced size
/// and count a zero window.
pub open spec fn stage_window(this: State, flags: u16, wsize: u32) -> State {
    let syn = flags & SYN == SYN;
    let ack = flags & ACK == ACK;
    if ack && !syn {
        let scaled = scaled_window(wsize, this.window.scale);
        let s = State { window: Window { size: scaled, ..this.window }, ..this };
        if scaled == 0 {
            State { zwindows: bump(s.zwindows), ..s }
        } else {
            s
        }
    } else {
        this
    }
}

/// The round-trip below which an unexpected sequence number counts as
/// out of order rather than as a retransmit; 3 ms when unmeasured.
pub open spec fn ooo_bound(rtt: Option<RTT>) -> Duration {
    match rtt {
        Some(RTT::Server(d)) => d,
        Some(RTT::Client(d)) => d,
        None => Duration { ns: 3_000_000 },
    }
}

/// Sequence bookkeeping: classify an unexpected segment as retransmit
/// or reorder, and advance the expected next sequence number.
pub open spec fn stage_seq(this: State, flow: Flow, seq: u32, flags: u16) -> State {
    let syn = flags & SYN == SYN;
    let fin = flags & FIN == FIN;
    let seglen = flow.payload@.len();
    let keepalive = seglen <= 1 && seq == (this.seq - 1) % 0x1_0000_0000 && flags & (SYN | FIN
        | RST) == 0;
    let s1 = if (seglen > 0 || fin || syn) && seq != this.seq && !keepalive {
        if span(flow.timestamp, this.last).ns < ooo_bound(this.rtt).ns {
            State { ooorder: bump(this.ooorder), ..this }
        } else {
            State { retransmits: this.retransmits.add_spec(seq), ..this }
        }
    } else {
        this
    };
    let seg32 = seglen as u32;
    let base = ((seq + seg32) % 0x1_0000_0000) as u32;
    let nextseq: u32 = if syn || fin {
        bump(base)
    } else {
        base
    };
    if nextseq > s1.seq {
        State { seq: nextseq, last: flow.timestamp, ..s1 }
    } else {
        s1
    }
}

/// Whether this packet tears the pair down: both directions have seen
/// a FIN.
pub open spec fn tears_down(this: State, peer: Option<State>, flow: Flow) -> bool {
    &&& flow.transport is TCP
    &&& this.fin is Some
    &&& match peer {
        Some(p) => p.fin is Some,
        None => false,
    }
}

/// The update of a post-payload-stage state for one TCP packet.
pub open spec fn step_tcp(s1: State, peer: Option<State>, flow: Flow, seq: u32, flags: u16, win: Window) -> State {
    let s2 = stage_handshake(s1, peer, flow, flags);
    let fin = flags & FIN == FIN;
    let s3 = if fin && !(s2.fin is Some) {
        State { fin: Some(flow.timestamp), ..s2 }
    } else {
        s2
    };
    let s4 = stage_window(s3, flags, win.size);
    stage_seq(s4, flow, seq, flags)
}

/// The update of this direction's state for one packet of any
/// transport.
pub open spec fn step_state(this: State, peer: Option<State>, flow: Flow) -> State {
    match flow.transport {
        Transport::TCP { seq, flags, window } => step_tcp(
            stage_payload(this, peer, flow),
            peer,
            flow,
            seq,
            flags,
            window,
        ),
        _ => State { last: flow.timestamp, ..stage_payload(this, peer, flow) },
    }
}

/// The whole tracker map after one packet: the entry for the flow's key
/// is created or stepped, and a FIN answered by the peer's FIN removes
/// both directions.
pub open spec fn step_map(m: Map<Key, State>, flow: Flow) -> Map<Key, State> {
    let key = Key(flow.protocol, flow.src, flow.dst);
    let pkey = Key(flow.protocol, flow.dst, flow.src);
    let this0 = if m.contains_key(key) {
        m[key]
    } else {
        new_state_spec(flow)
    };
    let peer = if pkey == key {
        Some(this0)
    } else if m.contains_key(pkey) {
        Some(m[pkey])
    } else {
        None
    };
    if tears_down(this0, peer, flow) {
        m.remove(key).remove(pkey)
    } else {
        m.insert(key, step_state(this0, peer, flow))
    }
}

impl Tracker {
    /// Well-formed: the table is sound and every state in range.
    pub closed spec fn wf(&self) -> bool {
        &&& self.states.wf()
        &&& forall|k: Key| #[trigger] self.states@.contains_key(k) ==> self.states@[k].wf()
    }

    /// The tracked states.
    pub closed spec fn view(&self) -> Map<Key, State> {
        self.states@
    }

    /// The column ids this tracker appends under.
    pub closed spec fn ids(&self) -> TrackIds {
        TrackIds {
            conn_id: self.conn_id,
            cli_latency: self.cli_latency,
            srv_latency: self.srv_latency,
            fpx_latency: self.fpx_latency,
            retx_out: self.retx_out,
            retx_repeats: self.retx_repeats,
            ooorder_in: self.ooorder_in,
            rwindow: self.rwindow,
            zwindows: self.zwindows,
        }
    }

    /// A tracker bound to the dictionary's tracker columns; fields the
    /// sink does not know are skipped at append time.
    pub fn new(cs: &Customs) -> (r: Tracker)
        ensures
            r@ == Map::<Key, State>::empty(),
            r.wf(),
            r.ids() == (TrackIds {
                conn_id: cs.get_spec(CONNECTION_ID@),
                cli_latency: cs.get_spec(CLIENT_NW_LATENCY@),
                srv_latency: cs.get_spec(SERVER_NW_LATENCY@),
                fpx_latency: cs.get_spec(FPX_LATENCY@),
                retx_out: cs.get_spec(RETRANSMITTED_OUT@),
                retx_repeats: cs.get_spec(REPEATED_RETRANSMITS@),
                ooorder_in: cs.get_spec(OOORDER_IN@),
                rwindow: cs.get_spec(RECEIVE_WINDOW@),
                zwindows: cs.get_spec(ZERO_WINDOWS@),
            }),
    {
        Tracker {
            conn_id: cs.get(CONNECTION_ID).ok(),
            cli_latency: cs.get(CLIENT_NW_LATENCY).ok(),
            srv_latency: cs.get(SERVER_NW_LATENCY).ok(),
            fpx_latency: cs.get(FPX_LATENCY).ok(),
            retx_out: cs.get(RETRANSMITTED_OUT).ok(),
            retx_repeats: cs.get(REPEATED_RETRANSMITS).ok(),
            ooorder_in: cs.get(OOORDER_IN).ok(),
            rwindow: cs.get(RECEIVE_WINDOW).ok(),
            zwindows: cs.get(ZERO_WINDOWS).ok(),
            generator: Generator::new(),
            states: Table::new(),
        }
    }

    /// Observe one packet: create or step the state for its key, and
    /// tear the pair down when both directions have closed.
    pub fn add(&mut self, flow: &Flow)
        requires
            old(self).wf(),
            flow.wf(),
        ensures
            final(self).wf(),
            final(self)@ == step_map(old(self)@, *flow),
            final(self).ids() == old(self).ids(),
    {
        let key = flow.key();
        let pkey = Key(flow.protocol, flow.dst, flow.src);

        let this0: State = match self.states.remove(&key) {
            Some(s) => s,
            None => self.new_state(flow),
        };
        let peer: Option<State> = if key == pkey {
            Some(this0)
        } else {
            match self.states.get(&pkey) {
                Some(s) => Some(*s),
                None => None,
            }
        };

        let is_tcp = match flow.transport {
            Transport::TCP { .. } => true,
            _ => false,
        };
        let peer_fin = match peer {
            Some(p) => p.fin.is_some(),
            None => false,
        };
        if is_tcp && this0.fin.is_some() && peer_fin {
            let _gone = self.states.remove(&pkey);
            proof {
                assert(self@ =~= step_map(old(self)@, *flow));
            }
            return;
        }

        let this = Self::step_one(this0, peer, flow);
        self.states.insert(key, this);
        proof {
            assert(self@ =~= step_map(old(self)@, *flow));
        }
    }

    /// The stepped state of one direction for one packet.
    fn step_one(this0: State, peer: Option<State>, flow: &Flow) -> (r: State)
        requires
            this0.wf(),
            match peer {
                Some(p) => p.wf(),
                None => true,
            },
            flow.wf(),
        ensures
            r == step_state(this0, peer, *flow),
            r.wf(),
    {
        let mut this = this0;

        // First payload seen for this direction.
        if this.payload.is_none() && flow.payload.len() > 0 {
            this.payload = Some(flow.timestamp);
            if let Some(p) = peer {
                if let Some(pts) = p.payload {
                    this.latency = Some(flow.timestamp.minus(pts));
                }
            }
        }
        proof {
            assert(this == stage_payload(this0, peer, *flow));
        }

        if let Transport::TCP { seq, flags, window } = flow.transport {
            Self::step_tcp_one(this, peer, flow, seq, flags, window)
        } else {
            this.last = flow.timestamp;
            proof {
                assert(this == step_state(this0, peer, *flow));
            }
            this
        }
    }

    /// The TCP bookkeeping: handshake, close, window, and sequence.
    fn step_tcp_one(s1: State, peer: Option<State>, flow: &Flow, seq: u32, flags: u16, window: Window) -> (r: State)
        requires
            s1.wf(),
            match peer {
                Some(p) => p.wf(),
                None => true,
            },
            flow.wf(),
        ensures
            r == step_tcp(s1, peer, *flow, seq, flags, window),
            r.wf(),
    {
        let s2 = Self::handshake_stage(s1, peer, flow, flags);
        let s3 = Self::fin_stage(s2, flow, flags);
        let s4 = Self::window_stage(s3, flags, window);
        Self::seq_stage(s4, flow, seq, flags)
    }

    /// SYN recording and round-trip measurement.
    fn handshake_stage(s1: State, peer: Option<State>, flow: &Flow, flags: u16) -> (r: State)
        requires
            s1.wf(),
            match peer {
                Some(p) => p.wf(),
                None => true,
            },
            flow.wf(),
        ensures
            r == stage_handshake(s1, peer, *flow, flags),
            r.wf(),
    {
        let mut this = s1;
        let syn = flags & SYN == SYN;
        let ack = flags & ACK == ACK;

        if syn {
            this.syn = Some(flow.timestamp);
        }

        let peer_syn: Option<Timestamp> = match peer {
            Some(p) => p.syn,
            None => None,
        };
        if syn && ack && this.rtt.is_none() {
            if let Some(pts) = peer_syn {
                this.rtt = Some(RTT::Server(flow.timestamp.minus(pts)));
            }
        } else if ack && this.rtt.is_none() && this.syn.is_some() {
            if let Some(pts) = peer_syn {
                this.rtt = Some(RTT::Client(flow.timestamp.minus(pts)));
            }
        }
        this
    }

    /// First-FIN recording.
    fn fin_stage(s2: State, flow: &Flow, flags: u16) -> (r: State)
        requires
            s2.wf(),
            flow.wf(),
        ensures
            r == (if flags & FIN == FIN && !(s2.fin is Some) {
                State { fin: Some(flow.timestamp), ..s2 }
            } else {
                s2
            }),
            r.wf(),
    {
        let mut this = s2;
        if flags & FIN == FIN && this.fin.is_none() {
            this.fin = Some(flow.timestamp);
        }
        this
    }

    /// Receive-window scaling and zero-window counting.
    fn window_stage(s3: State, flags: u16, window: Window) -> (r: State)
        requires
            s3.wf(),
        ensures
            r == stage_window(s3, flags, window.size),
            r.wf(),
    {
        let mut this = s3;
        let syn = flags & SYN == SYN;
        let ack = flags & ACK == ACK;
        if ack && !syn {
            let shift = (this.window.scale & 31) as u32;
            proof {
                let sc = this.window.scale;
                assert(sc & 31 < 32) by (bit_vector);
            }
            let scaled = window.size << shift;
            this.window.size = scaled;
            if scaled == 0 {
                this.zwindows = this.zwindows.wrapping_add(1);
            }
        }
        this
    }

    /// Retransmit/reorder classification and next-sequence advance.
    #[verifier::rlimit(100)]
    #[verifier::spinoff_prover]
    fn seq_stage(s4: State, flow: &Flow, seq: u32, flags: u16) -> (r: State)
        requires
            s4.wf(),
            flow.wf(),
        ensures
            r == stage_seq(s4, *flow, seq, flags),
            r.wf(),
    {
        let mut this = s4;
        let syn = flags & SYN == SYN;
        let fin = flags & FIN == FIN;

        let seglen = flow.payload.len();
        let keepalive = seglen <= 1 && seq == this.seq.wrapping_sub(1) && flags & (SYN | FIN
            | RST) == 0;

        if (seglen > 0 || (fin || syn)) && seq != this.seq && !keepalive {
            let bound = match this.rtt {
                Some(RTT::Server(d)) => d,
                Some(RTT::Client(d)) => d,
                None => Duration::milliseconds(3),
            };
            let ooo = flow.timestamp.minus(this.last).lt(bound);
            if !ooo {
                this.retransmits.add(seq);
            } else {
                this.ooorder = this.ooorder.wrapping_add(1);
            }
        }
        let base = seq.wrapping_add(#[verifier::truncate] (flow.payload.len() as u32));
        let nextseq = if syn || fin {
            base.wrapping_add(1)
        } else {
            base
        };
        if nextseq > this.seq {
            this.seq = nextseq;
            this.last = flow.timestamp;
        }
        this
    }

    /// Halve a span, truncating toward zero.
    pub open spec fn half_dur(d: Duration) -> Duration {
        Duration { ns: Duration::div_trunc(d.ns as int, 2) as i64 }
    }

    /// Append `v` under `id` when the sink knows the column.
    pub open spec fn opt_push(s: Seq<CustomV>, id: Option<u64>, v: ValueV) -> Seq<CustomV> {
        match id {
            Some(i) => s.push(CustomV { id: i, value: v }),
            None => s,
        }
    }

    /// The values one state appends at export, in order: the connection
    /// id; half the handshake round-trip as client or server network
    /// latency; the first-payload-exchange latency; retransmits and
    /// repeated-retransmit runs; reorders; the receive window when a SYN
    /// was seen; and zero windows. Latencies are clamped milliseconds;
    /// zero counters are skipped.
    pub open spec fn append_seq(t: TrackIds, s: State) -> Seq<CustomV> {
        Self::append_head(t, s) + Self::append_tail(t, s)
    }

    /// The identity and latency values of an export: the connection id,
    /// half the round-trip as client or server network latency, and the
    /// first-payload-exchange latency.
    pub open spec fn append_head(t: TrackIds, s: State) -> Seq<CustomV> {
        let r0 = Seq::<CustomV>::empty();
        let r1 = if s.id != 0 {
            Self::opt_push(r0, t.conn_id, ValueV::U32(s.id))
        } else {
            r0
        };
        let r2 = match s.rtt {
            Some(RTT::Client(d)) => Self::opt_push(
                r1,
                t.cli_latency,
                ValueV::U32(latency_ms(Self::half_dur(d))),
            ),
            Some(RTT::Server(d)) => Self::opt_push(
                r1,
                t.srv_latency,
                ValueV::U32(latency_ms(Self::half_dur(d))),
            ),
            None => r1,
        };
        match s.latency {
            Some(d) => Self::opt_push(r2, t.fpx_latency, ValueV::U32(latency_ms(d))),
            None => r2,
        }
    }

    /// The counter values of an export: retransmits, repeated-retransmit
    /// runs, reorders, the receive window after a SYN, and zero windows;
    /// zero counters are skipped.
    pub open spec fn append_tail(t: TrackIds, s: State) -> Seq<CustomV> {
        let r0 = Seq::<CustomV>::empty();
        let r4 = if s.retransmits.total > 0 {
            Self::opt_push(r0, t.retx_out, ValueV::U32(s.retransmits.total))
        } else {
            r0
        };
        let r5 = if s.retransmits.repeats > 0 {
            Self::opt_push(r4, t.retx_repeats, ValueV::U32(s.retransmits.repeats))
        } else {
            r4
        };
        let r6 = if s.ooorder > 0 {
            Self::opt_push(r5, t.ooorder_in, ValueV::U32(s.ooorder))
        } else {
            r5
        };
        let r7 = if s.syn is Some {
            Self::opt_push(r6, t.rwindow, ValueV::U32(s.window.size))
        } else {
            r6
        };
        if s.zwindows > 0 {
            Self::opt_push(r7, t.zwindows, ValueV::U32(s.zwindows))
        } else {
            r7
        }
    }

    /// The state after an export: per-export counters zeroed, the rest
    /// kept.
    pub open spec fn reset_spec(s: State) -> State {
        State {
            retransmits: Retransmits { total: 0, repeats: 0, ..s.retransmits },
            ooorder: 0,
            zwindows: 0,
            ..s
        }
    }

    /// Append the tracked metrics for `key` to the scratch vector and
    /// zero the per-export counters; an untracked key appends nothing.
    pub fn append(&mut self, key: &Key, cs: &mut Customs)
        requires
            old(self).wf(),
        ensures
            final(self).wf(),
            final(self).ids() == old(self).ids(),
            final(cs).get_spec_unchanged(*old(cs)),
            old(self)@.contains_key(*key) ==> {
                &&& final(cs)@ == old(cs)@ + Self::append_seq(old(self).ids(), old(self)@[*key])
                &&& final(self)@ == old(self)@.insert(*key, Self::reset_spec(old(self)@[*key]))
            },
            !old(self)@.contains_key(*key) ==> {
                &&& final(cs)@ == old(cs)@
                &&& final(self)@ == old(self)@
            },
    {
        let found = self.states.remove(key);
        let mut s = match found {
            Some(s) => s,
            None => {
                proof {
                    assert(self@ =~= old(self)@);
                }
                return;
            },
        };

        self.emit(&s, cs);

        s.retransmits.reset();
        s.ooorder = 0;
        s.zwindows = 0;

        let ghost s0 = old(self)@[*key];
        proof {
            assert(s == Self::reset_spec(s0));
        }
        self.states.insert(*key, s);
        proof {
            assert(self@ =~= old(self)@.insert(*key, Self::reset_spec(s0)));
        }
    }

    /// Push one state's metric values onto the scratch vector.
    fn emit(&self, s: &State, cs: &mut Customs)
        requires
            s.wf(),
        ensures
            final(cs)@ == old(cs)@ + Self::append_seq(self.ids(), *s),
            final(cs).get_spec_unchanged(*old(cs)),
    {
        self.emit_head(s, cs);
        self.emit_tail(s, cs);
        proof {
            assert(cs@ =~= old(cs)@ + Self::append_seq(self.ids(), *s));
        }
    }

    /// Push the connection id and latency values.
    #[verifier::rlimit(100)]
    #[verifier::spinoff_prover]
    fn emit_head(&self, s: &State, cs: &mut Customs)
        requires
            s.wf(),
        ensures
            final(cs)@ == old(cs)@ + Self::append_head(self.ids(), *s),
            final(cs).get_spec_unchanged(*old(cs)),
    {
        let ghost t = self.ids();
        let ghost r0 = Seq::<CustomV>::empty();
        let ghost r1 = if s.id != 0 {
            Self::opt_push(r0, t.conn_id, ValueV::U32(s.id))
        } else {
            r0
        };
        let ghost r2 = match s.rtt {
            Some(RTT::Client(d)) => Self::opt_push(
                r1,
                t.cli_latency,
                ValueV::U32(latency_ms(Self::half_dur(d))),
            ),
            Some(RTT::Server(d)) => Self::opt_push(
                r1,
                t.srv_latency,
                ValueV::U32(latency_ms(Self::half_dur(d))),
            ),
            None => r1,
        };

        if s.id != 0 {
            if let Some(id) = self.conn_id {
                cs.add_u32(id, s.id);
            }
        }
        proof {
            assert(cs@ =~= old(cs)@ + r1);
        }

        match s.rtt {
            Some(RTT::Client(d)) => {
                if let Some(id) = self.cli_latency {
                    cs.add_latency(id, d.half());
                }
            },
            Some(RTT::Server(d)) => {
                if let Some(id) = self.srv_latency {
                    cs.add_latency(id, d.half());
                }
            },
            None => {},
        }
        proof {
            assert(cs@ =~= old(cs)@ + r2);
        }

        if let Some(d) = s.latency {
            if let Some(id) = self.fpx_latency {
                cs.add_latency(id, d);
            }
        }
        proof {
            assert(cs@ =~= old(cs)@ + Self::append_head(t, *s));
        }
    }

    /// Push the per-export counter values.
    #[verifier::rlimit(100)]
    #[verifier::spinoff_prover]
    fn emit_tail(&self, s: &State, cs: &mut Customs)
        requires
            s.wf(),
        ensures
            final(cs)@ == old(cs)@ + Self::append_tail(self.ids(), *s),
            final(cs).get_spec_unchanged(*old(cs)),
    {
        let ghost t = self.ids();
        let ghost r0 = Seq::<CustomV>::empty();
        let ghost r4 = if s.retransmits.total > 0 {
            Self::opt_push(r0, t.retx_out, ValueV::U32(s.retransmits.total))
        } else {
            r0
        };
        let ghost r5 = if s.retransmits.repeats > 0 {
            Self::opt_push(r4, t.retx_repeats, ValueV::U32(s.retransmits.repeats))
        } else {
            r4
        };
        let ghost r6 = if s.ooorder > 0 {
            Self::opt_push(r5, t.ooorder_in, ValueV::U32(s.ooorder))
        } else {
            r5
        };
        let ghost r7 = if s.syn is Some {
            Self::opt_push(r6, t.rwindow, ValueV::U32(s.window.size))
        } else {
            r6
        };

        let (retransmits, repeats) = s.retransmits.get();
        if retransmits > 0 {
            if let Some(id) = self.retx_out {
                cs.add_u32(id, retransmits);
            }
        }
        proof {
            assert(cs@ =~= old(cs)@ + r4);
        }
        if repeats > 0 {
            if let Some(id) = self.retx_repeats {
                cs.add_u32(id, repeats);
            }
        }
        proof {
            assert(cs@ =~= old(cs)@ + r5);
        }

        if s.ooorder > 0 {
            if let Some(id) = self.ooorder_in {
                cs.add_u32(id, s.ooorder);
            }
        }
        proof {
            assert(cs@ =~= old(cs)@ + r6);
        }

        if s.syn.is_some() {
            if let Some(id) = self.rwindow {
                cs.add_u32(id, s.window.size);
            }
        }
        proof {
            assert(cs@ =~= old(cs)@ + r7);
        }

        if s.zwindows > 0 {
            if let Some(id) = self.zwindows {
                cs.add_u32(id, s.zwindows);
            }
        }
        proof {
            assert(cs@ =~= old(cs)@ + Self::append_tail(t, *s));
        }
    }

    /// Drop states idle for the timeout or longer.
    pub fn clear(&mut self, ts: Timestamp)
        requires
            old(self).wf(),
            ts.wf(),
        ensures
            final(self).wf(),
            final(self).ids() == old(self).ids(),
            forall|k: Key| final(self)@.contains_key(k) <==> (#[trigger] old(self)@.contains_key(
                k,
            ) && ts.nanos() - old(self)@[k].last.nanos() < 60 * NANOS_PER_SEC),
            forall|k: Key| #[trigger] final(self)@.contains_key(k) ==> final(self)@[k] == old(
                self,
            )@[k],
    {
        let timeout = Duration::seconds(60);
        let keys = self.states.keys();
        let ghost m0 = self@;
        let mut i: usize = 0;
        #[verifier::loop_isolation(false)]
        while i < keys.len()
            invariant
                self.wf(),
                i <= keys@.len(),
                self.ids() == old(self).ids(),
                forall|j: int, l: int| 0 <= j < l < keys@.len() ==> keys@[j] != keys@[l],
                forall|j: int| 0 <= j < keys@.len() ==> m0.contains_key(#[trigger] keys@[j]),
                forall|k: Key| m0.contains_key(k) ==> keys@.contains(k),
                forall|k: Key| #[trigger] self@.contains_key(k) ==> m0.contains_key(k)
                    && self@[k] == m0[k],
                forall|k: Key| m0.contains_key(k) && !keys@.take(i as int).contains(k)
                    ==> #[trigger] self@.contains_key(k),
                forall|j: int| 0 <= j < i ==> (#[trigger] self@.contains_key(keys@[j]) <==> ts.nanos()
                    - m0[keys@[j]].last.nanos() < 60 * NANOS_PER_SEC),
            decreases keys@.len() - i,
        {
            let k = keys[i];
            let ghost m_in = self@;
            proof {
                assert(!keys@.take(i as int).contains(k)) by {
                    if keys@.take(i as int).contains(k) {
                        let j = choose|j: int|
                            0 <= j < i && (#[trigger] keys@.take(i as int)[j]) == k;
                        assert(keys@[j] == k);
                    }
                }
            }
            let stale = match self.states.get(&k) {
                Some(st) => !ts.minus(st.last).lt(timeout),
                None => false,
            };
            if stale {
                let _gone = self.states.remove(&k);
            }
            proof {
                assert forall|k2: Key| #[trigger] keys@.take(i + 1).contains(k2) implies keys@.take(
                    i as int,
                ).contains(k2) || k2 == keys@[i as int] by {
                    let j = choose|j: int| 0 <= j < i + 1 && (#[trigger] keys@.take(i + 1)[j]) == k2;
                    if j < i {
                        assert(keys@.take(i as int)[j] == k2);
                    }
                }
                assert forall|k2: Key| keys@.take(i as int).contains(k2) implies #[trigger] keys@.take(
                    i + 1,
                ).contains(k2) by {
                    let j = choose|j: int| 0 <= j < i && (#[trigger] keys@.take(i as int)[j]) == k2;
                    assert(keys@.take(i + 1)[j] == k2);
                }
                assert(keys@.take(i + 1)[i as int] == keys@[i as int]);
                assert forall|k2: Key| m0.contains_key(k2) && !keys@.take(i + 1).contains(k2)
                    implies #[trigger] self@.contains_key(k2) by {
                    if k2 == keys@[i as int] {
                        assert(keys@.take(i + 1)[i as int] == k2);
                        assert(keys@.take(i + 1).contains(k2));
                    }
                    assert(!keys@.take(i as int).contains(k2));
                    assert(k2 != keys@[i as int]);
                    assert(m_in.contains_key(k2));
                }
                assert forall|k2: Key| #[trigger] self@.contains_key(k2) implies m0.contains_key(
                    k2,
                ) && self@[k2] == m0[k2] by {
                    assert(m_in.contains_key(k2));
                }
            }
            i = i + 1;
        }
        proof {
            assert(keys@.take(keys@.len() as int) =~= keys@);
            assert forall|k: Key| final(self)@.contains_key(k) <==> (#[trigger] old(
                self,
            )@.contains_key(k) && ts.nanos() - old(self)@[k].last.nanos() < 60 * NANOS_PER_SEC) by {
                if m0.contains_key(k) {
                    let j = choose|j: int| 0 <= j < keys@.len() && (#[trigger] keys@[j]) == k;
                    assert(self@.contains_key(keys@[j]) <==> ts.nanos() - m0[keys@[j]].last.nanos()
                        < 60 * NANOS_PER_SEC);
                }
            }
        }
    }

    /// The first-payload-exchange latency tracked for `key`.
    pub fn latency(&self, key: &Key) -> (r: Option<Duration>)
        requires
            self.wf(),
        ensures
            r == (if self@.contains_key(*key) {
                self@[*key].latency
            } else {
                Option::<Duration>::None
            }),
    {
        match self.states.get(key) {
            Some(s) => s.latency,
            None => None,
        }
    }

    /// The retransmit counters tracked for `key`.
    pub fn retransmits(&self, key: &Key) -> (r: Option<(u32, u32)>)
        requires
            self.wf(),
        ensures
            r == (if self@.contains_key(*key) {
                Some((self@[*key].retransmits.total, self@[*key].retransmits.repeats))
            } else {
                Option::<(u32, u32)>::None
            }),
    {
        match self.states.get(key) {
            Some(s) => Some(s.retransmits.get()),
            None => None,
        }
    }

    /// The reorder count tracked for `key`.
    pub fn ooorder(&self, key: &Key) -> (r: Option<u32>)
        requires
            self.wf(),
        ensures
            r == (if self@.contains_key(*key) {
                Some(self@[*key].ooorder)
            } else {
                Option::<u32>::None
            }),
    {
        match self.states.get(key) {
            Some(s) => Some(s.ooorder),
            None => None,
        }
    }

    /// The zero-window count tracked for `key`.
    pub fn zwindows(&self, key: &Key) -> (r: Option<u32>)
        requires
            self.wf(),
        ensures
            r == (if self@.contains_key(*key) {
                Some(self@[*key].zwindows)
            } else {
                Option::<u32>::None
            }),
    {
        match self.states.get(key) {
            Some(s) => Some(s.zwindows),
            None => None,
        }
    }

    fn new_state(&self, flow: &Flow) -> (r: State)
        requires
            flow.wf(),
        ensures
            r == new_state_spec(*flow),
            r.wf(),
    {
        let (id, seq, win) = match flow.transport {
            Transport::TCP { seq, window, .. } => (self.generator.id(flow), seq, window),
            Transport::UDP => (self.generator.id(flow), 0u32, Window { size: 0, scale: 0 }),
            _ => (0u32, 0u32, Window { size: 0, scale: 0 }),
        };
        State {
            id,
            latency: None,
            rtt: None,
            syn: None,
            payload: None,
            fin: None,
            seq,
            window: win,
            retransmits: Retransmits::new(seq),
            ooorder: 0,
            zwindows: 0,
            last: flow.timestamp,
        }
    }
}

/// Exactly three consecutive retransmits of one sequence number
/// complete one repeated-retransmit run, and a fourth consecutive one
/// adds no further run.
pub proof fn lemma_repeated_retransmits(r0: Retransmits, s: u32)
    requires
        r0.serial == 0,
        r0.seq == s,
        r0.repeats < 0xFFFF_FFFFu32,
        r0.total < 0xFFFF_FFFCu32,
    ensures
        ({
            let r3 = r0.add_spec(s).add_spec(s).add_spec(s);
            &&& r3.repeats == r0.repeats + 1
            &&& r3.add_spec(s).repeats == r3.repeats
        }),
{
}

/// After a measured handshake round-trip, the exported network latency
/// is half the round-trip in clamped milliseconds: it stands in the
/// appended values under the client or server column, within the
/// [1, 20 000] clamp, and never above half the round-trip plus one
/// millisecond.
pub proof fn lemma_handshake_latency(t: TrackIds, s: State, d: Duration)
    requires
        s.rtt == Some(RTT::Client(d)) || s.rtt == Some(RTT::Server(d)),
        t.cli_latency is Some,
        t.srv_latency is Some,
        d.ns >= 0,
    ensures
        ({
            let v = latency_ms(Tracker::half_dur(d));
            let col = if s.rtt == Some(RTT::Client(d)) {
                t.cli_latency->0
            } else {
                t.srv_latency->0
            };
            let at: int = if s.id != 0 && t.conn_id is Some {
                1
            } else {
                0
            };
            &&& 1 <= v <= 20_000
            &&& v * 1_000_000 <= Duration::div_trunc(d.ns as int, 2) + 1_000_000
            &&& 0 <= at < Tracker::append_seq(t, s).len()
            &&& Tracker::append_seq(t, s)[at] == (CustomV { id: col, value: ValueV::U32(v) })
        }),
{
    let v = latency_ms(Tracker::half_dur(d));
    let half = Duration::div_trunc(d.ns as int, 2);
    if Tracker::half_dur(d).ns > 20_000_000_000 {
        assert(v == 20_000);
    } else if Tracker::half_dur(d).ns < 1_000_000 {
        assert(v == 1);
    } else {
        assert(v == half / 1_000_000);
        assert(v * 1_000_000 <= half) by (nonlinear_arith)
            requires
                v == half / 1_000_000,
                0 <= half,
        ;
    }
}

} // verus!