//! The flow queue: the table of per-key counters, counter accumulation,
//! timer-driven export with per-entry deadlines, compaction, and the
//! hand-off of assembled records to the sink buffer.

use vstd::prelude::*;
use crate::custom::{Custom, CustomV, Customs};
use crate::flow::{Direction, Ethernet, Flow, FlowStats, Key, Transport};
use crate::protocol::classify::Classify;
use crate::protocol::decode::{Decoder, Decoders};
use crate::table::Table;
use crate::time::{Duration, Timestamp, MAX_SEC, NANOS_PER_SEC};
use crate::timer::{Timeout, Timer};
use crate::track::Tracker;

verus! {

/// The long-lived counter of one flow-table entry.
pub struct Counter {
    pub ethernet: Ethernet,
    pub direction: Direction,
    pub tos: u8,
    pub tcp_flags: u16,
    pub packets: u64,
    pub bytes: u64,
    pub fragments: u64,
    pub decoder: Decoder,
    pub export: Timestamp,
}

/// A u64 total grown by a packet count, saturating.
pub open spec fn add64(x: u64, y: int) -> u64 {
    if x + y <= u64::MAX {
        (x + y) as u64
    } else {
        u64::MAX
    }
}

fn add64_exec(x: u64, y: u64) -> (r: u64)
    ensures
        r == add64(x, y as int),
{
    if x <= u64::MAX - y {
        x + y
    } else {
        u64::MAX
    }
}

impl Counter {
    /// The counter after one exported flow: TOS and TCP flags OR in,
    /// packet, byte and fragment totals grow. An unexported flow
    /// changes nothing.
    pub open spec fn recorded_s(self, st: FlowStats) -> Counter {
        if st.export {
            Counter {
                tos: (self.tos | st.tos) as u8,
                tcp_flags: (self.tcp_flags | st.tcp_flags) as u16,
                packets: add64(self.packets, st.packets as int),
                bytes: add64(self.bytes, st.bytes as int),
                fragments: add64(self.fragments, st.fragments as int),
                ..self
            }
        } else {
            self
        }
    }

    /// The counter after one flow, by the flow's stats.
    pub open spec fn recorded(self, flow: Flow) -> Counter {
        self.recorded_s(flow.stats())
    }

    /// Zero the volatile totals after an export.
    pub open spec fn cleared(self) -> Counter {
        Counter { tos: 0, tcp_flags: 0, packets: 0, bytes: 0, fragments: 0, ..self }
    }

    fn clear(&mut self)
        ensures
            *final(self) == old(self).cleared(),
    {
        self.tos = 0;
        self.tcp_flags = 0;
        self.packets = 0;
        self.bytes = 0;
        self.fragments = 0;
    }
}

/// One record as handed to the sink: the key, the counter totals, the
/// sample rate, and the appended custom columns.
pub struct Record {
    pub key: Key,
    pub ethernet: Ethernet,
    pub direction: Direction,
    pub tos: u8,
    pub tcp_flags: u16,
    pub packets: u64,
    pub bytes: u64,
    pub fragments: u64,
    pub sample_rate: u32,
    pub customs: Vec<Custom>,
}

/// The mathematical value of a record.
pub struct RecordV {
    pub key: Key,
    pub tos: u8,
    pub tcp_flags: u16,
    pub packets: u64,
    pub bytes: u64,
    pub fragments: u64,
    pub sample_rate: u32,
    pub customs: Seq<CustomV>,
}

impl View for Record {
    type V = RecordV;

    open spec fn view(&self) -> RecordV {
        RecordV {
            key: self.key,
            tos: self.tos,
            tcp_flags: self.tcp_flags,
            packets: self.packets,
            bytes: self.bytes,
            fragments: self.fragments,
            sample_rate: self.sample_rate,
            customs: self.customs@.map_values(|c: Custom| c@),
        }
    }
}

/// The sink buffer: records assembled by the queue, waiting for the
/// caller to drain them toward the downstream transport.
pub struct VecSink {
    records: Vec<Record>,
}

impl VecSink {
    /// The buffered records, oldest first.
    pub closed spec fn view(&self) -> Seq<RecordV> {
        self.records@.map_values(|r: Record| r@)
    }

    /// An empty sink buffer.
    pub fn new() -> (r: VecSink)
        ensures
            r@.len() == 0,
    {
        let r = VecSink { records: Vec::new() };
        proof {
            assert(r.records@.map_values(|q: Record| q@) =~= Seq::<RecordV>::empty());
        }
        r
    }

    fn send(&mut self, rec: Record)
        ensures
            final(self)@ == old(self)@.push(rec@),
    {
        self.records.push(rec);
        proof {
            assert(self.records@.map_values(|q: Record| q@) =~= old(self)@.push(rec@));
        }
    }

    /// Drain the buffered records.
    pub fn take_records(&mut self) -> (r: Vec<Record>)
        ensures
            final(self)@.len() == 0,
            r@.map_values(|q: Record| q@) == old(self)@,
    {
        let mut out: Vec<Record> = Vec::new();
        core::mem::swap(&mut out, &mut self.records);
        proof {
            assert(self.records@.map_values(|q: Record| q@) =~= Seq::<RecordV>::empty());
        }
        out
    }
}

/// The flow queue: counters by key, the shared scratch dictionary, the
/// decoders and tracker, the export and compaction clocks, and the
/// sink buffer.
pub struct FlowQueue {
    flows: Table<Key, Counter>,
    decoders: Decoders,
    tracker: Tracker,
    classify: Classify,
    customs: Customs,
    sample: u32,
    compact: Timer,
    export: Timer,
    timeout: Timeout,
    sink: VecSink,
}

/// Whether an entry must be sent by a timer-driven export at `ts`: its
/// deadline has passed and it counted at least one packet.
pub open spec fn entry_due(c: Counter, ts: Timestamp) -> bool {
    c.export.nanos() <= ts.nanos() && c.packets > 0
}

/// The counter after a timer-driven send: volatile totals zeroed, the
/// identity kept, and the deadline advanced by the export interval.
pub open spec fn drained_entry(pre: Counter, post: Counter) -> bool {
    &&& post.tos == 0 && post.tcp_flags == 0 && post.packets == 0 && post.bytes == 0
        && post.fragments == 0
    &&& post.ethernet == pre.ethernet && post.direction == pre.direction && post.decoder
        == pre.decoder
    &&& post.export.wf()
    &&& (pre.export.nanos() + 15 * NANOS_PER_SEC <= MAX_SEC * NANOS_PER_SEC ==> post.export.nanos()
        == pre.export.nanos() + 15 * NANOS_PER_SEC)
}

/// What adding one flow does to the counters and the sink: the flow's
/// counter accumulates exactly its stats (a fresh entry draws a
/// jittered deadline within fifteen seconds), every other entry is
/// untouched, and at most one record leaves — exactly when a decoder
/// recognized a completed message on an exported flow, carrying this
/// key and the accumulated totals, after which the counter stands
/// cleared.
pub open spec fn add_effect(
    f0: Map<Key, Counter>,
    s0: Seq<RecordV>,
    f1: Map<Key, Counter>,
    s1: Seq<RecordV>,
    tag: Decoder,
    st: FlowStats,
    sample: u32,
) -> bool {
    let key = st.key;
    let base = if f0.contains_key(key) {
        f0[key]
    } else {
        Counter {
            ethernet: st.ethernet,
            direction: st.direction,
            tos: 0,
            tcp_flags: 0,
            packets: 0,
            bytes: 0,
            fragments: 0,
            decoder: tag,
            export: f1[key].export,
        }
    };
    let rec = base.recorded_s(st);
    &&& f1.contains_key(key)
    &&& (f1[key] == rec || f1[key] == rec.cleared())
    &&& (forall|k2: Key|
        k2 != key ==> #[trigger] f1.contains_key(k2) == f0.contains_key(k2) && (f0.contains_key(k2)
            ==> f1[k2] == f0[k2]))
    &&& (!f0.contains_key(key) && st.timestamp.nanos() + 15 * NANOS_PER_SEC <= MAX_SEC
        * NANOS_PER_SEC ==> st.timestamp.nanos() <= f1[key].export.nanos() <= st.timestamp.nanos()
        + 15 * NANOS_PER_SEC)
    &&& (s1.len() == s0.len() || s1.len() == s0.len() + 1)
    &&& s1.subrange(0, s0.len() as int) == s0
    &&& (s1.len() == s0.len() + 1 ==> st.export && f1[key] == rec.cleared() && s1.last().key == key
        && s1.last().packets == rec.packets && s1.last().bytes == rec.bytes
        && s1.last().sample_rate == sample)
    &&& (s1.len() == s0.len() ==> f1[key] == rec)
}

/// What one timer-driven export pass does to the counters and the sink:
/// exactly the due entries are sent, each once, with its key, totals and
/// the sample rate; a sent entry stands drained; entries not due are
/// untouched; and when the pass also compacts, an entry survives
/// exactly when its (possibly advanced) deadline still lies ahead.
pub open spec fn export_effect(
    f0: Map<Key, Counter>,
    s0: Seq<RecordV>,
    f1: Map<Key, Counter>,
    s1: Seq<RecordV>,
    ts: Timestamp,
    compacting: bool,
    sample: u32,
) -> bool {
    &&& s1.len() >= s0.len()
    &&& s1.subrange(0, s0.len() as int) == s0
    &&& (forall|i: int|
        s0.len() <= i < s1.len() ==> f0.contains_key((#[trigger] s1[i]).key))
    &&& (forall|i: int|
        s0.len() <= i < s1.len() ==> entry_due(f0[(#[trigger] s1[i]).key], ts))
    &&& (forall|i: int|
        s0.len() <= i < s1.len() ==> (#[trigger] s1[i]).packets == f0[s1[i].key].packets)
    &&& (forall|i: int|
        s0.len() <= i < s1.len() ==> (#[trigger] s1[i]).bytes == f0[s1[i].key].bytes)
    &&& (forall|i: int|
        s0.len() <= i < s1.len() ==> (#[trigger] s1[i]).sample_rate == sample)
    &&& (forall|i: int, j: int|
        s0.len() <= i < j < s1.len() ==> (#[trigger] s1[i]).key != (#[trigger] s1[j]).key)
    &&& (forall|k: Key|
        f0.contains_key(k) && entry_due(#[trigger] f0[k], ts) ==> exists|i: int|
            s0.len() <= i < s1.len() && (#[trigger] s1[i]).key == k)
    &&& (forall|k: Key| #[trigger] f1.contains_key(k) ==> f0.contains_key(k))
    &&& (forall|k: Key|
        #[trigger] f1.contains_key(k) && entry_due(f0[k], ts) ==> drained_entry(f0[k], f1[k]))
    &&& (forall|k: Key| #[trigger] f1.contains_key(k) && !entry_due(f0[k], ts) ==> f1[k] == f0[k])
    &&& (!compacting ==> forall|k: Key| #[trigger] f0.contains_key(k) ==> f1.contains_key(k))
    &&& (compacting ==> forall|k: Key|
        #[trigger] f0.contains_key(k) && !entry_due(f0[k], ts) ==> (f1.contains_key(k)
            <==> f0[k].export.nanos() > ts.nanos()))
    &&& (compacting ==> forall|k: Key|
        #[trigger] f0.contains_key(k) && entry_due(f0[k], ts) && f0[k].export.nanos() + 15
            * NANOS_PER_SEC <= MAX_SEC * NANOS_PER_SEC ==> (f1.contains_key(k)
            <==> f0[k].export.nanos() + 15 * NANOS_PER_SEC > ts.nanos()))
}

impl FlowQueue {
    /// The flow table.
    pub closed spec fn flows(&self) -> Map<Key, Counter> {
        self.flows@
    }

    /// The sink buffer's records.
    pub closed spec fn sent(&self) -> Seq<RecordV> {
        self.sink@
    }

    /// The tracked connection states.
    pub closed spec fn conn_states(&self) -> Map<Key, crate::track::State> {
        self.tracker@
    }

    /// The scratch vector's length (empty between calls).
    pub closed spec fn scratch_len(&self) -> int {
        self.customs@.len() as int
    }

    /// The configured sample rate, as it is stamped on records.
    pub closed spec fn sample_spec(&self) -> u32 {
        self.sample
    }

    /// Whether no decoder is active: such a queue never sends from the
    /// decode path.
    pub closed spec fn decoders_inactive(&self) -> bool {
        self.decoders.is_inactive()
    }

    /// The export clock's next deadline.
    pub closed spec fn export_deadline(&self) -> Timestamp {
        self.export.next
    }

    /// The compaction clock's next deadline.
    pub closed spec fn compact_deadline(&self) -> Timestamp {
        self.compact.next
    }

    /// Whether the export clock is due at `ts`.
    pub open spec fn export_due(&self, ts: Timestamp) -> bool {
        self.export_deadline().nanos() <= ts.nanos()
    }

    /// Whether the compaction clock is due at `ts`.
    pub open spec fn compact_due(&self, ts: Timestamp) -> bool {
        self.compact_deadline().nanos() <= ts.nanos()
    }

    /// Well-formed: tables sound, clocks and deadlines in range.
    pub closed spec fn wf(&self) -> bool {
        &&& self.flows.wf()
        &&& self.tracker.wf()
        &&& self.decoders.wf()
        &&& self.compact.wf()
        &&& self.export.wf()
        &&& self.timeout.wf()
        &&& self.timeout.delay.ns == 15 * NANOS_PER_SEC
        &&& forall|k: Key| #[trigger] self.flows@.contains_key(k) ==> self.flows@[k].export.wf()
    }

    /// A queue over the sink's dictionary: the decoders register their
    /// canonical ports, the export clock ticks every two seconds, the
    /// compaction clock every thirty, and first exports are jittered
    /// over fifteen seconds.
    pub fn new(sample: Option<u64>, customs: Customs, classify: Classify, decode: bool) -> (r:
        FlowQueue)
        requires
            customs@.len() == 0,
        ensures
            r.wf(),
            r.flows() == Map::<Key, Counter>::empty(),
            r.sent().len() == 0,
            r.scratch_len() == 0,
            !decode ==> r.decoders_inactive(),
            r.sample_spec() == (match sample {
                Some(n) => n as u32,
                None => 1u32,
            }),
    {
        let mut classify = classify;
        let decoders = Decoders::new(&customs, &mut classify, decode);
        let tracker = Tracker::new(&customs);
        let sample32: u32 = match sample {
            Some(n) => #[verifier::truncate] (n as u32),
            None => 1,
        };
        FlowQueue {
            flows: Table::new(),
            decoders,
            tracker,
            classify,
            customs,
            sample: sample32,
            compact: Timer::new(Duration::seconds(30)),
            export: Timer::new(Duration::seconds(2)),
            timeout: Timeout::new(Duration::seconds(15)),
            sink: VecSink::new(),
        }
    }

    /// Add one flow: step the tracker, create or accumulate the
    /// counter (new entries draw a jittered first export deadline),
    /// run the classified decoder, and when it recognizes a completed
    /// message on an exported flow, send the counter at once. The
    /// scratch vector is empty again afterwards.
    #[verifier::rlimit(100)]
    #[verifier::spinoff_prover]
    pub fn add(&mut self, flow: Flow)
        requires
            old(self).wf(),
            flow.wf(),
            old(self).scratch_len() == 0,
        ensures
            final(self).wf(),
            final(self).scratch_len() == 0,
            ({
                let stepped = crate::track::step_map(old(self).conn_states(), flow);
                let key = Key(flow.protocol, flow.src, flow.dst);
                final(self).conn_states() == stepped || (stepped.contains_key(key) && final(self).conn_states() == stepped.insert(key, Tracker::reset_spec(stepped[key])))
            }),
            add_effect(
                old(self).flows(),
                old(self).sent(),
                final(self).flows(),
                final(self).sent(),
                old(self).classify_spec().find_spec(flow),
                flow.stats(),
                old(self).sample_spec(),
            ),
            final(self).decoders_inactive() == old(self).decoders_inactive(),
            old(self).decoders_inactive() ==> final(self).sent() == old(self).sent(),
            final(self).sample_spec() == old(self).sample_spec(),
            final(self).classify_spec() == old(self).classify_spec(),
            final(self).export_deadline() == old(self).export_deadline(),
            final(self).compact_deadline() == old(self).compact_deadline(),
    {
        let key = flow.key();
        let dec = self.record(key, &flow);

        let decoded = self.decoders.decode(dec, &flow, &mut self.customs);
        if decoded {
            if flow.export {
                let ghost fmid = self.flows@;
                let found = self.flows.remove(&key);
                match found {
                    Some(mut ctr) => {
                        Self::send_one(
                            &mut self.customs,
                            &mut self.tracker,
                            &mut self.sink,
                            &key,
                            &mut ctr,
                            self.sample,
                        );
                        self.flows.insert(key, ctr);
                        proof {
                            assert(self.flows@ =~= fmid.insert(key, ctr));
                        }
                    },
                    None => {},
                }
            }
        }
        self.customs.clear();
        proof {
            assert(self.sent().subrange(0, old(self).sent().len() as int) =~= old(self).sent());
        }
    }

    /// The classifier.
    pub closed spec fn classify_spec(&self) -> Classify {
        self.classify
    }

    #[verifier::rlimit(100)]
    #[verifier::spinoff_prover]
    fn record(&mut self, key: Key, flow: &Flow) -> (dec: Decoder)
        requires
            old(self).wf(),
            flow.wf(),
            key == Key(flow.protocol, flow.src, flow.dst),
            old(self).scratch_len() == 0,
        ensures
            final(self).wf(),
            final(self).scratch_len() == 0,
            final(self).sent() == old(self).sent(),
            final(self).conn_states() == crate::track::step_map(old(self).conn_states(), *flow),
            final(self).classify_spec() == old(self).classify_spec(),
            final(self).sample_spec() == old(self).sample_spec(),
            final(self).decoders_inactive() == old(self).decoders_inactive(),
            final(self).export_deadline() == old(self).export_deadline(),
            final(self).compact_deadline() == old(self).compact_deadline(),
            old(self).flows().contains_key(key) ==> final(self).flows() == old(self).flows().insert(key, old(self).flows()[key].recorded(*flow)) && dec == old(self).flows()[key].decoder,
            !old(self).flows().contains_key(key) ==> {
                &&& final(self).flows().contains_key(key)
                &&& dec == old(self).classify_spec().find_spec(*flow)
                &&& ({
                    let c = final(self).flows()[key];
                    c == (Counter {
                        ethernet: flow.ethernet,
                        direction: flow.direction,
                        tos: 0,
                        tcp_flags: 0,
                        packets: 0,
                        bytes: 0,
                        fragments: 0,
                        decoder: dec,
                        export: c.export,
                    }).recorded(*flow)
                })
                &&& final(self).flows()[key].export.wf()
                &&& (flow.timestamp.nanos() + 15 * NANOS_PER_SEC <= MAX_SEC * NANOS_PER_SEC
                    ==> flow.timestamp.nanos() <= final(self).flows()[key].export.nanos()
                    <= flow.timestamp.nanos() + 15 * NANOS_PER_SEC)
                &&& forall|k2: Key| k2 != key ==> final(self).flows().contains_key(k2) == old(self).flows().contains_key(k2) && (old(self).flows().contains_key(k2) ==> final(self).flows()[k2] == old(self).flows()[k2])
            },
    {
        self.tracker.add(flow);

        let found = self.flows.remove(&key);
        let (mut ctr, dec) = match found {
            Some(c) => {
                let d = c.decoder;
                (c, d)
            },
            None => {
                let export = self.timeout.first(flow.timestamp);
                let d = self.classify.find(flow);
                (
                    Counter {
                        ethernet: flow.ethernet,
                        direction: flow.direction,
                        tos: 0,
                        tcp_flags: 0,
                        packets: 0,
                        bytes: 0,
                        fragments: 0,
                        decoder: d,
                        export,
                    },
                    d,
                )
            },
        };

        if flow.export {
            ctr.tos = ctr.tos | flow.tos;
            ctr.packets = add64_exec(ctr.packets, flow.packets as u64);
            ctr.bytes = add64_exec(ctr.bytes, flow.bytes as u64);
            ctr.fragments = add64_exec(ctr.fragments, flow.fragments as u64);
            if let Transport::TCP { flags, .. } = flow.transport {
                ctr.tcp_flags = ctr.tcp_flags | flags;
            } else {
                proof {
                    let x = ctr.tcp_flags;
                    assert(x | 0u16 == x) by (bit_vector);
                }
            }
        }
        let ghost want = if old(self).flows().contains_key(key) {
            old(self).flows()[key].recorded(*flow)
        } else {
            Counter {
                ethernet: flow.ethernet,
                direction: flow.direction,
                tos: 0,
                tcp_flags: 0,
                packets: 0,
                bytes: 0,
                fragments: 0,
                decoder: dec,
                export: ctr.export,
            }.recorded(*flow)
        };
        proof {
            assert(ctr == want);
        }
        self.flows.insert(key, ctr);
        proof {
            if old(self).flows().contains_key(key) {
                assert(self.flows@ =~= old(self).flows().insert(
                    key,
                    old(self).flows()[key].recorded(*flow),
                ));
            } else {
                assert(self.flows@.contains_key(key));
                assert(self.flows@[key] == ctr);
                assert(ctr == want);
                assert(want == (Counter {
                    ethernet: flow.ethernet,
                    direction: flow.direction,
                    tos: 0,
                    tcp_flags: 0,
                    packets: 0,
                    bytes: 0,
                    fragments: 0,
                    decoder: dec,
                    export: self.flows@[key].export,
                }).recorded(*flow));
                assert(self.flows@[key].export.wf());
                assert(forall|k2: Key| k2 != key ==> self.flows@.contains_key(k2) == old(
                    self,
                ).flows().contains_key(k2));
                assert(forall|k2: Key| k2 != key && old(self).flows().contains_key(k2)
                    ==> self.flows@[k2] == old(self).flows()[k2]);
            }
        }
        dec
    }

    /// Assemble and send one record: the dictionary-level fields, the
    /// tracker metrics, then the counter totals; the counter's volatile
    /// totals are zeroed.
    fn send_one(
        customs: &mut Customs,
        tracker: &mut Tracker,
        sink: &mut VecSink,
        key: &Key,
        ctr: &mut Counter,
        sr: u32,
    )
        requires
            old(tracker).wf(),
        ensures
            final(tracker).wf(),
            final(tracker).ids() == old(tracker).ids(),
            old(tracker)@.contains_key(*key) ==> final(tracker)@ == old(tracker)@.insert(
                *key,
                Tracker::reset_spec(old(tracker)@[*key]),
            ),
            !old(tracker)@.contains_key(*key) ==> final(tracker)@ == old(tracker)@,
            final(sink)@.len() == old(sink)@.len() + 1,
            final(sink)@.subrange(0, old(sink)@.len() as int) == old(sink)@,
            final(sink)@.last().key == *key,
            final(sink)@.last().packets == old(ctr).packets,
            final(sink)@.last().bytes == old(ctr).bytes,
            final(sink)@.last().sample_rate == sr,
            *final(ctr) == old(ctr).cleared(),
            final(customs)@.len() == 0,
            final(customs).get_spec_unchanged(*old(customs)),
    {
        customs.append(ctr.fragments, ctr.decoder);
        tracker.append(key, customs);
        let vals = customs.take_entries();
        let rec = Record {
            key: *key,
            ethernet: ctr.ethernet,
            direction: ctr.direction,
            tos: ctr.tos,
            tcp_flags: ctr.tcp_flags,
            packets: ctr.packets,
            bytes: ctr.bytes,
            fragments: ctr.fragments,
            sample_rate: sr,
            customs: vals,
        };
        sink.send(rec);
        ctr.clear();
        proof {
            assert(sink@.subrange(0, old(sink)@.len() as int) =~= old(sink)@);
        }
    }

    /// Timer-driven export: when the export clock is due, exactly the
    /// entries whose deadline has passed with a positive packet total
    /// are assembled and sent — each once, with its key, totals and the
    /// sample rate — their volatile counters zeroed and deadlines
    /// advanced by the export interval; entries not due are untouched.
    /// When the compaction clock is also due, an entry survives exactly
    /// when its (possibly advanced) deadline still lies ahead, and
    /// decoder and tracker state idle past their timeouts is evicted.
    #[verifier::rlimit(100)]
    #[verifier::spinoff_prover]
    pub fn export(&mut self, ts: Timestamp)
        requires
            old(self).wf(),
            ts.wf(),
            old(self).scratch_len() == 0,
        ensures
            final(self).wf(),
            final(self).scratch_len() == 0,
            !old(self).export_due(ts) ==> *final(self) == *old(self),
            old(self).export_due(ts) ==> export_effect(
                old(self).flows(),
                old(self).sent(),
                final(self).flows(),
                final(self).sent(),
                ts,
                old(self).compact_due(ts),
                old(self).sample_spec(),
            ),
    {
        let ghost f0 = self.flows@;
        let ghost s0 = self.sink@;
        let ready = self.export.ready(ts);
        if !ready {
            return;
        }

        let keys = self.flows.keys();
        let mut i: usize = 0;
        while i < keys.len()
            invariant
                self.wf(),
                ts.wf(),
                self.scratch_len() == 0,
                i <= keys@.len(),
                f0 == old(self).flows(),
                s0 == old(self).sent(),
                self.compact == old(self).compact,
                self.timeout == old(self).timeout,
                self.sample == old(self).sample,
                forall|j: int, l: int| 0 <= j < l < keys@.len() ==> keys@[j] != keys@[l],
                forall|j: int| 0 <= j < keys@.len() ==> f0.contains_key(#[trigger] keys@[j]),
                forall|k: Key| f0.contains_key(k) ==> keys@.contains(k),
                forall|k: Key| #[trigger] self.flows@.contains_key(k) == f0.contains_key(k),
                forall|k: Key| f0.contains_key(k) && !keys@.take(i as int).contains(k)
                    ==> #[trigger] self.flows@[k] == f0[k],
                forall|j: int| 0 <= j < i ==> {
                    let k = #[trigger] keys@[j];
                    &&& (entry_due(f0[k], ts) ==> drained_entry(f0[k], self.flows@[k]))
                    &&& (!entry_due(f0[k], ts) ==> self.flows@[k] == f0[k])
                },
                self.sink@.len() >= s0.len(),
                self.sink@.subrange(0, s0.len() as int) == s0,
                forall|a: int| s0.len() <= a < self.sink@.len() ==> f0.contains_key(
                    (#[trigger] self.sink@[a]).key,
                ),
                forall|a: int| s0.len() <= a < self.sink@.len() ==> entry_due(
                    f0[(#[trigger] self.sink@[a]).key],
                    ts,
                ),
                forall|a: int| s0.len() <= a < self.sink@.len() ==> (#[trigger] self.sink@[
                    a
                ]).packets == f0[self.sink@[a].key].packets,
                forall|a: int| s0.len() <= a < self.sink@.len() ==> (#[trigger] self.sink@[
                    a
                ]).bytes == f0[self.sink@[a].key].bytes,
                forall|a: int| s0.len() <= a < self.sink@.len() ==> (#[trigger] self.sink@[
                    a
                ]).sample_rate == self.sample,
                forall|a: int| s0.len() <= a < self.sink@.len() ==> keys@.take(i as int).contains(
                    (#[trigger] self.sink@[a]).key,
                ),
                forall|a: int, b: int| s0.len() <= a < b < self.sink@.len() ==> (
                #[trigger] self.sink@[a]).key != (#[trigger] self.sink@[b]).key,
                forall|j: int| 0 <= j < i && entry_due(f0[#[trigger] keys@[j]], ts)
                    ==> exists|a: int|
                        s0.len() <= a < self.sink@.len() && (#[trigger] self.sink@[a]).key
                            == keys@[j],
            decreases keys@.len() - i,
        {
            let ghost sent_in = self.sink@;
            let ghost flows_in = self.flows@;
            let k = keys[i];
            proof {
                assert(!keys@.take(i as int).contains(k)) by {
                    if keys@.take(i as int).contains(k) {
                        let j = choose|j: int|
                            0 <= j < i && (#[trigger] keys@.take(i as int)[j]) == k;
                        assert(keys@[j] == k);
                    }
                }
                assert(flows_in.contains_key(k));
                assert(flows_in[k] == f0[k]);
            }
            let found = self.flows.remove(&k);
            match found {
                Some(mut ctr) => {
                    if ctr.export.le(ts) && ctr.packets > 0 {
                        self.decoders.append(ctr.decoder, &k, &mut self.customs);
                        Self::send_one(
                            &mut self.customs,
                            &mut self.tracker,
                            &mut self.sink,
                            &k,
                            &mut ctr,
                            self.sample,
                        );
                        ctr.export = self.timeout.next(ctr.export);
                        self.customs.clear();
                        proof {
                            assert(self.sink@.len() == sent_in.len() + 1);
                            assert(self.sink@.last().key == k);
                            assert(drained_entry(f0[k], ctr));
                        }
                    } else {
                        proof {
                            assert(!entry_due(f0[k], ts));
                        }
                    }
                    self.flows.insert(k, ctr);
                },
                None => {},
            }
            proof {
                assert(self.flows@ =~= flows_in.insert(k, self.flows@[k]));
                assert forall|j2: int| 0 <= j2 < sent_in.len() implies self.sink@[j2]
                    == sent_in[j2] by {
                    assert(self.sink@.subrange(0, sent_in.len() as int)[j2] == self.sink@[j2]);
                }
                assert(self.sink@.subrange(0, s0.len() as int) =~= s0);
                assert forall|k2: Key| #[trigger] keys@.take(i + 1).contains(k2) implies keys@.take(
                    i as int,
                ).contains(k2) || k2 == keys@[i as int] by {
                    let j = choose|j: int|
                        0 <= j < i + 1 && (#[trigger] keys@.take(i + 1)[j]) == k2;
                    if j < i {
                        assert(keys@.take(i as int)[j] == k2);
                    }
                }
                assert forall|k2: Key| keys@.take(i as int).contains(k2) implies #[trigger] keys@.take(
                    i + 1,
                ).contains(k2) by {
                    let j = choose|j: int|
                        0 <= j < i && (#[trigger] keys@.take(i as int)[j]) == k2;
                    assert(keys@.take(i + 1)[j] == k2);
                }
                assert(keys@.take(i + 1)[i as int] == keys@[i as int]);
                assert(keys@.take(i + 1).contains(k));
                assert forall|a: int| s0.len() <= a < self.sink@.len() implies {
                    let r = #[trigger] self.sink@[a];
                    &&& f0.contains_key(r.key)
                    &&& entry_due(f0[r.key], ts)
                    &&& r.packets == f0[r.key].packets
                    &&& r.bytes == f0[r.key].bytes
                    &&& r.sample_rate == self.sample
                    &&& keys@.take(i + 1).contains(r.key)
                } by {
                    if a < sent_in.len() {
                        assert(self.sink@[a] == sent_in[a]);
                    } else {
                        assert(a == self.sink@.len() - 1);
                        assert(self.sink@[a] == self.sink@.last());
                    }
                }
                assert forall|a: int, b: int| s0.len() <= a < b < self.sink@.len() implies (
                #[trigger] self.sink@[a]).key != (#[trigger] self.sink@[b]).key by {
                    if b < sent_in.len() {
                        assert(self.sink@[a] == sent_in[a]);
                        assert(self.sink@[b] == sent_in[b]);
                    } else {
                        assert(b == self.sink@.len() - 1);
                        assert(self.sink@[a] == sent_in[a]);
                        assert(keys@.take(i as int).contains(sent_in[a].key));
                        assert(self.sink@[b] == self.sink@.last());
                    }
                }
                assert forall|j: int| 0 <= j < i + 1 && entry_due(f0[#[trigger] keys@[j]], ts)
                    implies exists|a: int| s0.len() <= a < self.sink@.len() && (
                #[trigger] self.sink@[a]).key == keys@[j] by {
                    if j < i {
                        let a0 = choose|a: int|
                            s0.len() <= a < sent_in.len() && (#[trigger] sent_in[a]).key
                                == keys@[j];
                        assert(self.sink@[a0] == sent_in[a0]);
                    } else {
                        assert(self.sink@[self.sink@.len() - 1].key == k);
                    }
                }
            }
            i = i + 1;
        }
        proof {
            assert(keys@.take(keys@.len() as int) =~= keys@);
            assert(forall|a: int| s0.len() <= a < self.sink@.len() ==> f0.contains_key(
                (#[trigger] self.sink@[a]).key,
            ));
        }
        let ghost fmid = self.flows@;
        let ghost smid = self.sink@;
        proof {
            assert forall|k: Key| f0.contains_key(k) implies {
                &&& #[trigger] fmid.contains_key(k)
                &&& (entry_due(f0[k], ts) ==> drained_entry(f0[k], fmid[k]))
                &&& (!entry_due(f0[k], ts) ==> fmid[k] == f0[k])
            } by {
                let j = choose|j: int| 0 <= j < keys@.len() && (#[trigger] keys@[j]) == k;
                assert(keys@[j] == k);
            }
        }

        let compact_ready = self.compact.ready(ts);
        if compact_ready {
            let keys2 = self.flows.keys();
            let mut j: usize = 0;
            while j < keys2.len()
                invariant
                    self.wf(),
                    ts.wf(),
                    self.scratch_len() == 0,
                    j <= keys2@.len(),
                    self.sink@ == smid,
                    self.sample == old(self).sample,
                    forall|l: int, m: int| 0 <= l < m < keys2@.len() ==> keys2@[l] != keys2@[m],
                    forall|l: int| 0 <= l < keys2@.len() ==> fmid.contains_key(
                        #[trigger] keys2@[l],
                    ),
                    forall|k: Key| fmid.contains_key(k) ==> keys2@.contains(k),
                    forall|k: Key| #[trigger] self.flows@.contains_key(k) ==> fmid.contains_key(k)
                        && self.flows@[k] == fmid[k],
                    forall|k: Key| fmid.contains_key(k) && !keys2@.take(j as int).contains(k)
                        ==> #[trigger] self.flows@.contains_key(k),
                    forall|l: int| 0 <= l < j ==> (#[trigger] self.flows@.contains_key(keys2@[l])
                        <==> fmid[keys2@[l]].export.nanos() > ts.nanos()),
                decreases keys2@.len() - j,
            {
                let ghost m_in = self.flows@;
                let k = keys2[j];
                proof {
                    assert(!keys2@.take(j as int).contains(k)) by {
                        if keys2@.take(j as int).contains(k) {
                            let l = choose|l: int|
                                0 <= l < j && (#[trigger] keys2@.take(j as int)[l]) == k;
                            assert(keys2@[l] == k);
                        }
                    }
                    assert(m_in.contains_key(k));
                    assert(m_in[k] == fmid[k]);
                }
                let stale = match self.flows.get(&k) {
                    Some(c) => c.export.le(ts),
                    None => false,
                };
                proof {
                    assert(stale == (fmid[k].export.nanos() <= ts.nanos()));
                }
                if stale {
                    let _gone = self.flows.remove(&k);
                    proof {
                        assert(self.flows@ =~= m_in.remove(k));
                    }
                }
                proof {
                    assert forall|k2: Key| #[trigger] keys2@.take(j + 1).contains(k2) implies
                        keys2@.take(j as int).contains(k2) || k2 == keys2@[j as int] by {
                        let l = choose|l: int|
                            0 <= l < j + 1 && (#[trigger] keys2@.take(j + 1)[l]) == k2;
                        if l < j {
                            assert(keys2@.take(j as int)[l] == k2);
                        }
                    }
                    assert forall|k2: Key| keys2@.take(j as int).contains(k2)
                        implies #[trigger] keys2@.take(j + 1).contains(k2) by {
                        let l = choose|l: int|
                            0 <= l < j && (#[trigger] keys2@.take(j as int)[l]) == k2;
                        assert(keys2@.take(j + 1)[l] == k2);
                    }
                    assert(keys2@.take(j + 1)[j as int] == keys2@[j as int]);
                    assert forall|k2: Key| fmid.contains_key(k2) && !keys2@.take(j + 1).contains(
                        k2,
                    ) implies #[trigger] self.flows@.contains_key(k2) by {
                        if k2 == keys2@[j as int] {
                            assert(keys2@.take(j + 1).contains(k2));
                        }
                        assert(!keys2@.take(j as int).contains(k2));
                        assert(k2 != keys2@[j as int]);
                        assert(m_in.contains_key(k2));
                    }
                }
                j = j + 1;
            }
            proof {
                assert(keys2@.take(keys2@.len() as int) =~= keys2@);
                assert forall|k: Key| fmid.contains_key(k) implies (
                #[trigger] self.flows@.contains_key(k) <==> fmid[k].export.nanos() > ts.nanos())
                    by {
                    let l = choose|l: int| 0 <= l < keys2@.len() && (#[trigger] keys2@[l]) == k;
                    assert(self.flows@.contains_key(keys2@[l]) <==> fmid[keys2@[l]].export.nanos()
                        > ts.nanos());
                }
            }
            self.decoders.clear(ts);
            self.tracker.clear(ts);
        }
        proof {
            let ffin = self.flows@;
            let sfin = self.sink@;
            assert(sfin == smid);
            assert forall|k: Key| f0.contains_key(k) && entry_due(#[trigger] f0[k], ts) implies
                exists|a: int| s0.len() <= a < sfin.len() && (#[trigger] sfin[a]).key == k by {
                let j = choose|j: int| 0 <= j < keys@.len() && (#[trigger] keys@[j]) == k;
                assert(exists|a: int|
                    s0.len() <= a < smid.len() && (#[trigger] smid[a]).key == keys@[j]);
            }
            assert forall|k: Key| #[trigger] ffin.contains_key(k) implies f0.contains_key(k) by {}
            assert forall|k: Key| #[trigger] ffin.contains_key(k) && entry_due(f0[k], ts) implies
                drained_entry(f0[k], ffin[k]) by {
                assert(fmid.contains_key(k));
            }
            assert forall|k: Key| #[trigger] ffin.contains_key(k) && !entry_due(f0[k], ts) implies
                ffin[k] == f0[k] by {
                assert(fmid.contains_key(k));
            }
            if old(self).compact_due(ts) {
                assert forall|k: Key| #[trigger] f0.contains_key(k) && !entry_due(f0[k], ts)
                    implies (ffin.contains_key(k) <==> f0[k].export.nanos() > ts.nanos()) by {
                    assert(fmid.contains_key(k) && fmid[k] == f0[k]);
                }
                assert forall|k: Key| #[trigger] f0.contains_key(k) && entry_due(f0[k], ts)
                    && f0[k].export.nanos() + 15 * NANOS_PER_SEC <= MAX_SEC * NANOS_PER_SEC
                    implies (ffin.contains_key(k) <==> f0[k].export.nanos() + 15 * NANOS_PER_SEC
                    > ts.nanos()) by {
                    assert(fmid.contains_key(k) && drained_entry(f0[k], fmid[k]));
                }
            } else {
                assert(forall|k: Key| #[trigger] f0.contains_key(k) ==> ffin.contains_key(k));
            }
            assert(sfin.len() >= s0.len());
            assert(sfin.subrange(0, s0.len() as int) == s0);
            assert forall|a: int| s0.len() <= a < sfin.len() implies f0.contains_key(
                (#[trigger] sfin[a]).key,
            ) by {
                assert(sfin[a] == smid[a]);
            }
            assert forall|a: int| s0.len() <= a < sfin.len() implies entry_due(
                f0[(#[trigger] sfin[a]).key],
                ts,
            ) by {
                assert(sfin[a] == smid[a]);
            }
            assert forall|a: int| s0.len() <= a < sfin.len() implies (#[trigger] sfin[a]).packets
                == f0[sfin[a].key].packets by {
                assert(sfin[a] == smid[a]);
            }
            assert forall|a: int| s0.len() <= a < sfin.len() implies (#[trigger] sfin[a]).bytes
                == f0[sfin[a].key].bytes by {
                assert(sfin[a] == smid[a]);
            }
            assert forall|a: int| s0.len() <= a < sfin.len() implies (#[trigger] sfin[a]).sample_rate
                == self.sample by {
                assert(sfin[a] == smid[a]);
            }
            assert(forall|a: int, b: int|
                s0.len() <= a < b < sfin.len() ==> (#[trigger] sfin[a]).key != (
                #[trigger] sfin[b]).key);
            assert(export_effect(
                f0,
                s0,
                ffin,
                sfin,
                ts,
                old(self).compact_due(ts),
                self.sample,
            ));
        }
    }

    /// The counter of one key, for inspection.
    pub fn counter(&self, key: &Key) -> (r: Option<&Counter>)
        requires
            self.wf(),
        ensures
            match r {
                Some(c) => self.flows().contains_key(*key) && *c == self.flows()[*key],
                None => !self.flows().contains_key(*key),
            },
    {
        self.flows.get(key)
    }

    /// The number of flow-table entries.
    pub fn len(&self) -> (r: usize)
        requires
            self.wf(),
        ensures
            r == self.flows().len(),
    {
        self.flows.len()
    }

    /// Drain the assembled records toward the caller's transport.
    pub fn take_records(&mut self) -> (r: Vec<Record>)
        requires
            old(self).wf(),
        ensures
            final(self).wf(),
            final(self).scratch_len() == old(self).scratch_len(),
            final(self).sent().len() == 0,
            final(self).flows() == old(self).flows(),
            r@.map_values(|q: Record| q@) == old(self).sent(),
    {
        self.sink.take_records()
    }

    /// The tracked metrics of a key, for inspection.
    pub fn latency(&self, key: &Key) -> (r: Option<Duration>)
        requires
            self.wf(),
        ensures
            r == (if self.conn_states().contains_key(*key) {
                self.conn_states()[*key].latency
            } else {
                Option::<Duration>::None
            }),
    {
        self.tracker.latency(key)
    }
}

/// The totals a counter reaches over a run of flows.
pub open spec fn fold_recorded(c: Counter, flows: Seq<Flow>) -> Counter
    decreases flows.len(),
{
    if flows.len() == 0 {
        c
    } else {
        fold_recorded(c.recorded(flows[0]), flows.drop_first())
    }
}

/// The packet total of a run of flows.
pub open spec fn sum_packets(flows: Seq<Flow>) -> int
    decreases flows.len(),
{
    if flows.len() == 0 {
        0
    } else {
        flows[0].packets + sum_packets(flows.drop_first())
    }
}

/// The byte total of a run of flows.
pub open spec fn sum_bytes(flows: Seq<Flow>) -> int
    decreases flows.len(),
{
    if flows.len() == 0 {
        0
    } else {
        flows[0].bytes + sum_bytes(flows.drop_first())
    }
}

/// Packet and byte conservation: over any run of exported flows whose
/// totals stay in range, the counter's packet and byte totals are the
/// sums of what was observed; and when every flow carries exactly one
/// packet — as every unfragmented datagram does — the packet total is
/// the number of packets observed.
pub proof fn lemma_packet_conservation(c: Counter, flows: Seq<Flow>)
    requires
        forall|i: int| 0 <= i < flows.len() ==> (#[trigger] flows[i]).export,
        c.packets + sum_packets(flows) <= u64::MAX,
        c.bytes + sum_bytes(flows) <= u64::MAX,
        forall|i: int| 0 <= i < flows.len() ==> (#[trigger] flows[i]).packets >= 0,
    ensures
        fold_recorded(c, flows).packets == c.packets + sum_packets(flows),
        fold_recorded(c, flows).bytes == c.bytes + sum_bytes(flows),
        (forall|i: int| 0 <= i < flows.len() ==> (#[trigger] flows[i]).packets == 1)
            ==> fold_recorded(c, flows).packets == c.packets + flows.len(),
    decreases flows.len(),
{
    lemma_sums_nonneg(flows);
    if flows.len() > 0 {
        let rest = flows.drop_first();
        lemma_sums_nonneg(rest);
        assert(forall|i: int| 0 <= i < rest.len() ==> rest[i] == flows[i + 1]);
        lemma_packet_conservation(c.recorded(flows[0]), rest);
        if forall|i: int| 0 <= i < flows.len() ==> (#[trigger] flows[i]).packets == 1 {
            lemma_sum_ones(flows);
        }
    }
}

/// Packet and byte sums are never negative.
proof fn lemma_sums_nonneg(flows: Seq<Flow>)
    ensures
        sum_packets(flows) >= 0,
        sum_bytes(flows) >= 0,
    decreases flows.len(),
{
    if flows.len() > 0 {
        lemma_sums_nonneg(flows.drop_first());
    }
}

/// A run of single-packet flows counts its own length.
proof fn lemma_sum_ones(flows: Seq<Flow>)
    requires
        forall|i: int| 0 <= i < flows.len() ==> (#[trigger] flows[i]).packets == 1,
    ensures
        sum_packets(flows) == flows.len(),
    decreases flows.len(),
{
    if flows.len() > 0 {
        let rest = flows.drop_first();
        assert(forall|i: int| 0 <= i < rest.len() ==> (#[trigger] rest[i]) == flows[i + 1]);
        lemma_sum_ones(rest);
    }
}

} // verus!
