//! IPv4 fragment reassembly: per-datagram hole lists over a fixed
//! scratch region, with packet, fragment and byte totals.

use vstd::prelude::*;
use crate::packet::{Ipv4Packet, Packet};
use crate::table::{KeyT, Table};
use crate::time::{Duration, Timestamp, NANOS_PER_SEC};
use crate::wire::sub_vec;

verus! {

/// A reassembled (or pass-through) datagram with the counts of its
/// constituent packets.
pub struct Output {
    pub packets: u16,
    pub frags: u16,
    pub bytes: usize,
    pub data: Vec<u8>,
}

impl Output {
    /// The pass-through for an unfragmented packet: one packet, no
    /// fragments, the datagram's own length on the wire.
    pub fn single(packets_len: usize, payload: Vec<u8>) -> (r: Output)
        ensures
            r.packets == 1,
            r.frags == 0,
            r.bytes == packets_len,
            r.data@ == payload@,
    {
        Output { packets: 1, frags: 0, bytes: packets_len, data: payload }
    }
}

/// An unfilled byte range of an in-progress datagram.
#[derive(Clone, Copy, Debug, PartialEq, Eq, Structural)]
pub struct Hole {
    pub first: u16,
    pub last: u16,
}

impl Hole {
    /// A hole over the given range.
    pub fn new(first: u16, last: u16) -> (r: Hole)
        ensures
            r == (Hole { first, last }),
    {
        Hole { first, last }
    }

    /// The initial hole: the whole datagram range.
    pub fn empty() -> (r: Hole)
        ensures
            r == (Hole { first: 0u16, last: 65535u16 }),
    {
        Hole { first: 0, last: 65535 }
    }
}

/// The identity of an in-flight fragmented datagram.
#[derive(Clone, Copy, Debug, PartialEq, Eq, Structural, Hash)]
pub struct FragKey {
    pub src: u32,
    pub dst: u32,
    pub id: u16,
    pub proto: u8,
}

impl KeyT for FragKey {
    fn key_eq(&self, other: &Self) -> (r: bool)
        ensures
            r == (self == other),
    {
        self == other
    }
}

/// One in-progress datagram: totals, the scratch region, the written
/// length, the hole list, and the last-activity time.
pub struct Buffer {
    pub packets: u16,
    pub frags: u16,
    pub bytes: usize,
    pub data: Vec<u8>,
    pub len: usize,
    pub holes: Vec<Hole>,
    pub last: Timestamp,
}

/// The mathematical value of a `Buffer`.
#[verifier::ext_equal]
pub struct BufferV {
    pub packets: u16,
    pub frags: u16,
    pub bytes: usize,
    pub data: Seq<u8>,
    pub len: usize,
    pub holes: Seq<Hole>,
    pub last: Timestamp,
}

impl View for Buffer {
    type V = BufferV;

    open spec fn view(&self) -> BufferV {
        BufferV {
            packets: self.packets,
            frags: self.frags,
            bytes: self.bytes,
            data: self.data@,
            len: self.len,
            holes: self.holes@,
            last: self.last,
        }
    }
}

impl BufferV {
    /// Well-formed: a full scratch region, a bounded written length, an
    /// in-range last-activity time.
    pub open spec fn wf(self) -> bool {
        &&& self.data.len() == 65535
        &&& self.len <= 65535
        &&& self.last.wf()
    }
}

/// The buffer a first fragment creates: zeroed scratch, no totals, one
/// hole spanning the whole range, the epoch as last activity.
pub open spec fn fresh_buffer() -> BufferV {
    BufferV {
        packets: 0,
        frags: 0,
        bytes: 0,
        data: Seq::new(65535, |i: int| 0u8),
        len: 0,
        holes: seq![Hole { first: 0u16, last: 65535u16 }],
        last: Timestamp { sec: 0, nsec: 0 },
    }
}

/// Whether a fragment lies inside the datagram range: its last byte
/// index must be positive and below the 65 535-byte limit.
pub open spec fn frag_bounds(ff: int, paylen: int) -> bool {
    0 < ff + paylen - 1 < 65535
}

/// The index of the first hole the fragment range overlaps, from `i`.
pub open spec fn first_overlap(holes: Seq<Hole>, ff: int, fl: int, i: int) -> Option<int>
    decreases holes.len() - i,
{
    if i < 0 || i >= holes.len() {
        None
    } else if !(ff > holes[i].last || fl < holes[i].first) {
        Some(i)
    } else {
        first_overlap(holes, ff, fl, i + 1)
    }
}

/// The scratch bytes with the fragment written at its offset.
pub open spec fn written(data: Seq<u8>, ff: int, payload: Seq<u8>) -> Seq<u8> {
    Seq::new(
        data.len(),
        |j: int|
            if ff <= j < ff + payload.len() {
                payload[j - ff]
            } else {
                data[j]
            },
    )
}

/// One fragment folded into a buffer, after spec §4.2: a fragment out
/// of range, or overlapping no hole, changes nothing; otherwise the
/// first overlapping hole is taken out (the list's last hole moving
/// into its slot), the uncovered left and — when more fragments follow
/// — right parts are pushed back, the payload is written at its offset,
/// and every total grows by the fragment's own size.
pub open spec fn fill_spec(b: BufferV, ff: int, payload: Seq<u8>, more: bool, hdr: int) -> BufferV {
    if !frag_bounds(ff, payload.len() as int) {
        b
    } else {
        let fl = ff + payload.len() - 1;
        match first_overlap(b.holes, ff, fl, 0) {
            None => b,
            Some(i) => {
                let h = b.holes[i];
                let removed = b.holes.update(i, b.holes.last()).drop_last();
                let with_left = if ff > h.first {
                    removed.push(Hole { first: h.first, last: (ff - 1) as u16 })
                } else {
                    removed
                };
                let holes2 = if fl < h.last && more {
                    with_left.push(Hole { first: (fl + 1) as u16, last: h.last })
                } else {
                    with_left
                };
                let grown = add_usize(b.len, payload.len() as int);
                BufferV {
                    packets: bump16(b.packets),
                    frags: bump16(b.frags),
                    bytes: add_usize(b.bytes, hdr + payload.len() as int),
                    data: written(b.data, ff, payload),
                    len: if grown > 65535 {
                        65535
                    } else {
                        grown
                    },
                    holes: holes2,
                    last: b.last,
                }
            },
        }
    }
}

impl Buffer {
    /// A fresh buffer: one hole spanning the whole range.
    pub fn new() -> (r: Buffer)
        ensures
            r@ == fresh_buffer(),
            r@.wf(),
    {
        let mut data: Vec<u8> = Vec::new();
        data.resize(65535, 0);
        let mut holes: Vec<Hole> = Vec::new();
        holes.push(Hole::empty());
        let r = Buffer {
            packets: 0,
            frags: 0,
            bytes: 0,
            data,
            len: 0,
            holes,
            last: Timestamp { sec: 0, nsec: 0 },
        };
        proof {
            assert(r@.data =~= fresh_buffer().data);
            assert(r@.holes =~= fresh_buffer().holes);
        }
        r
    }

    /// Copy one fragment into the scratch region, exactly as `fill_spec`
    /// folds it.
    pub fn fill(&mut self, p: &Ipv4Packet, more: bool)
        requires
            old(self)@.wf(),
        ensures
            final(self)@ == fill_spec(
                old(self)@,
                p.frag_offset * 8,
                p.payload@,
                more,
                p.header_len as int,
            ),
            final(self)@.wf(),
    {
        let ghost pre = self@;
        let paylen = p.payload.len();
        let frag_first_u: usize = p.frag_offset as usize * 8;
        if paylen > 65535 || frag_first_u + paylen <= 1 || frag_first_u + paylen - 1 >= 65535 {
            proof {
                assert(!frag_bounds(frag_first_u as int, paylen as int));
            }
            return;
        }
        proof {
            assert(frag_bounds(frag_first_u as int, paylen as int));
        }
        let frag_first: u16 = frag_first_u as u16;
        let frag_last: u16 = (frag_first_u + paylen - 1) as u16;

        let mut i: usize = 0;
        #[verifier::loop_isolation(false)]
        while i < self.holes.len()
            invariant
                *self == *old(self),
                i <= self.holes@.len(),
                first_overlap(pre.holes, frag_first as int, frag_last as int, 0) == first_overlap(
                    pre.holes,
                    frag_first as int,
                    frag_last as int,
                    i as int,
                ),
            decreases self.holes@.len() - i,
        {
            let Hole { first: hole_first, last: hole_last } = self.holes[i];

            if frag_first > hole_last || frag_last < hole_first {
                i = i + 1;
                continue;
            }
            proof {
                assert(first_overlap(pre.holes, frag_first as int, frag_last as int, 0) == Some(
                    i as int,
                ));
            }

            if self.holes.len() > 1 {
                let _old = self.holes.swap_remove(i);
            } else {
                let _old = self.holes.remove(i);
                proof {
                    assert(self.holes@ =~= pre.holes.update(i as int, pre.holes.last()).drop_last());
                }
            }

            if frag_first > hole_first {
                self.holes.push(Hole::new(hole_first, frag_first - 1));
            }
            if frag_last < hole_last && more {
                self.holes.push(Hole::new(frag_last + 1, hole_last));
            }

            let ghost holes_mid = self.holes@;
            let mut k: usize = 0;
            #[verifier::loop_isolation(false)]
            while k < paylen
                invariant
                    self.data@.len() == 65535,
                    k <= paylen,
                    frag_first_u + paylen <= 65535,
                    self.holes@ == holes_mid,
                    forall|j: int| 0 <= j < k ==> self.data@[frag_first_u + j] == p.payload@[j],
                    forall|j: int| 0 <= j < 65535 && !(frag_first_u <= j < frag_first_u + paylen)
                        ==> self.data@[j] == pre.data[j],
                    self.packets == pre.packets,
                    self.frags == pre.frags,
                    self.bytes == pre.bytes,
                    self.len == pre.len,
                    self.last == pre.last,
                decreases paylen - k,
            {
                let slot = frag_first_u + k;
                let v = p.payload[k];
                self.data.set(slot, v);
                k = k + 1;
            }
            proof {
                assert(self.data@ =~= written(pre.data, frag_first_u as int, p.payload@));
            }

            self.packets = self.packets.wrapping_add(1);
            self.frags = self.frags.wrapping_add(1);
            self.bytes = add_usize_exec(self.bytes, p.header_len as usize + paylen);
            self.len = add_usize_exec(self.len, paylen);
            if self.len > 65535 {
                self.len = 65535;
            }
            proof {
                let ghost spec_post = fill_spec(
                    pre,
                    p.frag_offset * 8,
                    p.payload@,
                    more,
                    p.header_len as int,
                );
                assert(self@.packets == spec_post.packets);
                assert(self@.frags == spec_post.frags);
                assert(self@.bytes == spec_post.bytes);
                assert(self@.len == spec_post.len);
                assert(self@.last == spec_post.last);
                assert(self@.data =~= spec_post.data);
                assert(self@.holes =~= spec_post.holes);
                assert(self@ =~= spec_post);
            }
            return;
        }
        proof {
            assert(first_overlap(pre.holes, frag_first as int, frag_last as int, 0) is None);
        }
    }

    /// Whether the buffer has been quiet past the timeout.
    pub fn is_old(&self, ts: Timestamp, timeout: Duration) -> (r: bool)
        requires
            ts.wf(),
            self.last.wf(),
        ensures
            r == (ts.nanos() - self.last.nanos() > timeout.ns),
    {
        timeout.lt(ts.minus(self.last))
    }
}

/// A u16 counter stepped by one, wrapping.
pub open spec fn bump16(x: u16) -> u16 {
    ((x + 1) % 0x1_0000) as u16
}

/// Saturating usize addition, as the totals grow.
pub open spec fn add_usize(x: usize, y: int) -> usize {
    if x + y <= usize::MAX {
        (x + y) as usize
    } else {
        usize::MAX
    }
}

fn add_usize_exec(x: usize, y: usize) -> (r: usize)
    ensures
        r == add_usize(x, y as int),
{
    if x <= usize::MAX - y {
        x + y
    } else {
        usize::MAX
    }
}

/// The in-flight buffers of a reassembler, as mathematics sees them.
pub open spec fn buffers_view(m: Map<FragKey, Buffer>) -> Map<FragKey, BufferV> {
    Map::new(|k: FragKey| m.contains_key(k), |k: FragKey| m[k]@)
}

/// The reassembler: in-flight fragmented datagrams by identity, and
/// the periodic-flush clock.
pub struct Reassembler {
    buffers: Table<FragKey, Buffer>,
    flushed: Timestamp,
    timeout: Duration,
}

impl Reassembler {
    /// The in-flight buffers.
    pub closed spec fn view(&self) -> Map<FragKey, BufferV> {
        buffers_view(self.buffers@)
    }

    /// When the periodic flush last ran.
    pub closed spec fn flushed_at(&self) -> Timestamp {
        self.flushed
    }

    /// Well-formed.
    pub closed spec fn wf(&self) -> bool {
        &&& self.buffers.wf()
        &&& self.flushed.wf()
        &&& self.timeout.ns == 60 * NANOS_PER_SEC
        &&& forall|k: FragKey| #[trigger] self.buffers@.contains_key(k) ==> self.buffers@[k]@.wf()
    }

    /// A reassembler with a one-minute eviction timeout.
    pub fn new() -> (r: Reassembler)
        ensures
            r.wf(),
            r@ == Map::<FragKey, BufferV>::empty(),
            r.flushed_at().nanos() == 0,
    {
        let r = Reassembler {
            buffers: Table::new(),
            flushed: Timestamp::zero(),
            timeout: Duration::seconds(60),
        };
        proof {
            assert(r@ =~= Map::<FragKey, BufferV>::empty());
        }
        r
    }

    /// Reassemble one packet. A non-IPv4 or unfragmented packet passes
    /// through as a single-packet output, the buffers untouched. A
    /// fragment is folded into its datagram's buffer (created on first
    /// sight); when the hole list empties, the whole datagram comes out
    /// with the buffer's totals and its buffer is released, else the
    /// buffer is kept with the fragment's arrival time.
    pub fn reassemble(&mut self, ts: Timestamp, p: Packet) -> (r: Option<Output>)
        requires
            old(self).wf(),
            ts.wf(),
        ensures
            final(self).wf(),
            final(self).flushed_at() == old(self).flushed_at(),
            match p {
                Packet::IPv4(v4) => {
                    &&& ((!v4.more_frags && v4.frag_offset == 0) ==> (r matches Some(out)
                        && out.packets == 1 && out.frags == 0 && out.bytes == add_usize(
                        v4.header_len as usize,
                        v4@.payload.len() as int,
                    ) && out.data@ == v4@.payload && final(self)@ == old(self)@))
                    &&& ((v4.more_frags || v4.frag_offset != 0) ==> {
                        let key = FragKey {
                            src: v4.src,
                            dst: v4.dst,
                            id: v4.id,
                            proto: v4.protocol,
                        };
                        let b0 = if old(self)@.contains_key(key) {
                            old(self)@[key]
                        } else {
                            fresh_buffer()
                        };
                        let b1 = BufferV {
                            last: ts,
                            ..fill_spec(
                                b0,
                                v4.frag_offset * 8,
                                v4@.payload,
                                v4.more_frags,
                                v4.header_len as int,
                            )
                        };
                        &&& (b1.holes.len() == 0 ==> (r matches Some(out) && out.packets
                            == b1.packets && out.frags == b1.frags && out.bytes == b1.bytes
                            && out.data@ == b1.data.take(b1.len as int) && final(self)@ == old(
                            self,
                        )@.remove(key)))
                        &&& (b1.holes.len() > 0 ==> r is None && final(self)@ == old(
                            self,
                        )@.insert(key, b1))
                    })
                },
                Packet::IPv6(v6) => (r matches Some(out) && out.packets == 1 && out.frags == 0
                    && out.bytes as int == v6@.buf_len && out.data@ == v6@.payload && final(self)@
                    == old(self)@),
                Packet::Other(o) => (r matches Some(out) && out.packets == 1 && out.frags == 0
                    && out.bytes == o.payload@.len() && out.data@ == o.payload@ && final(self)@
                    == old(self)@),
            },
    {
        match p {
            Packet::IPv4(v4) => {
                if !v4.more_frags && v4.frag_offset == 0 {
                    let bytes = add_usize_exec(v4.header_len as usize, v4.payload.len());
                    return Some(Output::single(bytes, v4.payload));
                }
                let key = FragKey { src: v4.src, dst: v4.dst, id: v4.id, proto: v4.protocol };
                let ghost b0 = if old(self)@.contains_key(key) {
                    old(self)@[key]
                } else {
                    fresh_buffer()
                };
                let mut buf = match self.buffers.remove(&key) {
                    Some(b) => b,
                    None => Buffer::new(),
                };
                proof {
                    assert(buf@ == b0);
                }
                buf.fill(&v4, v4.more_frags);
                buf.last = ts;
                let ghost b1 = buf@;
                if buf.holes.len() == 0 {
                    let keep = if buf.len <= 65535 {
                        buf.len
                    } else {
                        65535
                    };
                    let data = sub_vec(buf.data.as_slice(), 0, keep);
                    proof {
                        assert(data@ =~= b1.data.take(b1.len as int));
                        assert(self@ =~= old(self)@.remove(key));
                    }
                    Some(Output { packets: buf.packets, frags: buf.frags, bytes: buf.bytes, data })
                } else {
                    self.buffers.insert(key, buf);
                    proof {
                        assert(self@ =~= old(self)@.insert(key, b1));
                    }
                    None
                }
            },
            Packet::IPv6(v6) => {
                let bytes = v6.buf_len;
                Some(Output::single(bytes, v6.payload))
            },
            Packet::Other(o) => {
                let bytes = o.payload.len();
                Some(Output::single(bytes, o.payload))
            },
        }
    }

    /// The periodic flush: more than fifteen seconds of capture time
    /// after the last run, a buffer survives exactly when a fragment
    /// reached it within the last minute; earlier, nothing changes.
    pub fn flush(&mut self, ts: Timestamp)
        requires
            old(self).wf(),
            ts.wf(),
        ensures
            final(self).wf(),
            Duration::div_trunc(
                ts.nanos() - old(self).flushed_at().nanos(),
                NANOS_PER_SEC as int,
            ) <= 15 ==> *final(self) == *old(self),
            Duration::div_trunc(
                ts.nanos() - old(self).flushed_at().nanos(),
                NANOS_PER_SEC as int,
            ) > 15 ==> {
                &&& final(self).flushed_at() == ts
                &&& forall|k: FragKey| final(self)@.contains_key(k) <==> (#[trigger] old(
                    self,
                )@.contains_key(k) && ts.nanos() - old(self)@[k].last.nanos() <= 60
                    * NANOS_PER_SEC)
                &&& forall|k: FragKey| #[trigger] final(self)@.contains_key(k) ==> final(self)@[k]
                    == old(self)@[k]
            },
    {
        let since = ts.minus(self.flushed);
        if since.whole_seconds() > 15 {
            let timeout = self.timeout;
            let keys = self.buffers.keys();
            let ghost m0 = self@;
            let mut i: usize = 0;
            while i < keys.len()
                invariant
                    self.wf(),
                    ts.wf(),
                    i <= keys@.len(),
                    timeout == self.timeout,
                    self.flushed == old(self).flushed,
                    forall|j: int, l: int| 0 <= j < l < keys@.len() ==> keys@[j] != keys@[l],
                    forall|j: int| 0 <= j < keys@.len() ==> m0.contains_key(#[trigger] keys@[j]),
                    forall|k: FragKey| m0.contains_key(k) ==> keys@.contains(k),
                    forall|k: FragKey| #[trigger] self@.contains_key(k) ==> m0.contains_key(k)
                        && self@[k] == m0[k],
                    forall|k: FragKey| m0.contains_key(k) && !keys@.take(i as int).contains(k)
                        ==> #[trigger] self@.contains_key(k),
                    forall|j: int| 0 <= j < i ==> (#[trigger] self@.contains_key(keys@[j])
                        <==> ts.nanos() - m0[keys@[j]].last.nanos() <= 60 * NANOS_PER_SEC),
                decreases keys@.len() - i,
            {
                let ghost m_in = self@;
                let k = keys[i];
                proof {
                    assert(!keys@.take(i as int).contains(k)) by {
                        if keys@.take(i as int).contains(k) {
                            let j = choose|j: int|
                                0 <= j < i && (#[trigger] keys@.take(i as int)[j]) == k;
                            assert(keys@[j] == k);
                        }
                    }
                    assert(m_in.contains_key(k));
                    assert(m_in[k] == m0[k]);
                    assert(m_in[k] == self.buffers@[k]@);
                }
                let stale = match self.buffers.get(&k) {
                    Some(b) => b.is_old(ts, timeout),
                    None => false,
                };
                proof {
                    assert(stale == (ts.nanos() - m0[k].last.nanos() > 60 * NANOS_PER_SEC));
                }
                if stale {
                    let _gone = self.buffers.remove(&k);
                    proof {
                        assert(self@ =~= m_in.remove(k));
                    }
                } else {
                    proof {
                        assert(self@ =~= m_in);
                    }
                }
                proof {
                    assert forall|j: int| 0 <= j < i + 1 implies (#[trigger] self@.contains_key(
                        keys@[j],
                    ) <==> ts.nanos() - m0[keys@[j]].last.nanos() <= 60 * NANOS_PER_SEC) by {
                        if j == i {
                            assert(keys@[j] == k);
                        } else {
                            assert(keys@[j] != k);
                            assert(m_in.contains_key(keys@[j]) == self@.contains_key(keys@[j]));
                        }
                    }
                    assert forall|k2: FragKey| #[trigger] keys@.take(i + 1).contains(k2) implies
                        keys@.take(i as int).contains(k2) || k2 == keys@[i as int] by {
                        let j = choose|j: int|
                            0 <= j < i + 1 && (#[trigger] keys@.take(i + 1)[j]) == k2;
                        if j < i {
                            assert(keys@.take(i as int)[j] == k2);
                        }
                    }
                    assert forall|k2: FragKey| keys@.take(i as int).contains(k2)
                        implies #[trigger] keys@.take(i + 1).contains(k2) by {
                        let j = choose|j: int|
                            0 <= j < i && (#[trigger] keys@.take(i as int)[j]) == k2;
                        assert(keys@.take(i + 1)[j] == k2);
                    }
                    assert(keys@.take(i + 1)[i as int] == keys@[i as int]);
                    assert forall|k2: FragKey| m0.contains_key(k2) && !keys@.take(i + 1).contains(
                        k2,
                    ) implies #[trigger] self@.contains_key(k2) by {
                        if k2 == keys@[i as int] {
                            assert(keys@.take(i + 1)[i as int] == k2);
                            assert(keys@.take(i + 1).contains(k2));
                        }
                        assert(!keys@.take(i as int).contains(k2));
                        assert(k2 != keys@[i as int]);
                        assert(m_in.contains_key(k2));
                    }
                    assert forall|k2: FragKey| #[trigger] self@.contains_key(k2) implies
                        m0.contains_key(k2) && self@[k2] == m0[k2] by {
                        assert(m_in.contains_key(k2));
                    }
                }
                i = i + 1;
            }
            let ghost mfin = self@;
            proof {
                assert(m0 == old(self)@);
                assert forall|k: FragKey| mfin.contains_key(k) <==> (#[trigger] m0.contains_key(
                    k,
                ) && ts.nanos() - m0[k].last.nanos() <= 60 * NANOS_PER_SEC) by {
                    if m0.contains_key(k) {
                        assert(keys@.contains(k));
                        let j = choose|j: int| 0 <= j < keys@.len() && (#[trigger] keys@[j]) == k;
                        assert(mfin.contains_key(keys@[j]) <==> ts.nanos()
                            - m0[keys@[j]].last.nanos() <= 60 * NANOS_PER_SEC);
                    }
                }
            }
            self.flushed = ts;
            proof {
                assert(self@ =~= mfin);
            }
        }
    }
}

} // verus!
