//! Sampling admission: deterministic 1-in-N keyed on the 5-tuple, so
//! both directions of a conversation receive the same decision.

use vstd::prelude::*;
use crate::flow::{Flow, IpAddr};
use crate::track::id::{fnv_fold, proto_word};

verus! {

/// What to do with a sampled flow: export it, run decoders without
/// exporting, or drop it.
#[derive(Clone, Copy, Debug, PartialEq, Eq, Structural)]
pub enum Accept {
    Export,
    Decode,
    Ignore,
}

/// A direction-insensitive word for one endpoint.
pub open spec fn end_word(a: crate::flow::Addr) -> u64 {
    match a.addr {
        IpAddr::V4(ip) => fnv_fold(seq![4u64, ip as u64, a.port as u64]),
        IpAddr::V6(ip) => fnv_fold(
            seq![
                6u64,
                (ip >> 64) as u64,
                (ip & 0xFFFF_FFFF_FFFF_FFFF) as u64,
                a.port as u64,
            ],
        ),
    }
}

/// The sampling key of a flow: protocol and both endpoints, combined
/// symmetrically so a conversation's two directions agree.
pub open spec fn sample_key(flow: Flow) -> u64 {
    fnv_fold(seq![proto_word(flow.protocol), end_word(flow.src) ^ end_word(flow.dst)])
}

/// The decision for a flow under rate `n`: export one conversation in
/// `n`, ignore the rest.
pub open spec fn accept_spec(n: u64, flow: Flow) -> Accept {
    if n <= 1 || sample_key(flow) % n == 0 {
        Accept::Export
    } else {
        Accept::Ignore
    }
}

/// The 1-in-N sampler.
pub struct Sampler {
    pub n: u64,
}

impl Sampler {
    /// A sampler that admits one conversation in `n`.
    pub fn new(n: u64) -> (r: Sampler)
        ensures
            r.n == n,
    {
        Sampler { n }
    }

    fn end_word_exec(a: crate::flow::Addr) -> (r: u64)
        ensures
            r == end_word(a),
    {
        let mut words: Vec<u64> = Vec::new();
        match a.addr {
            IpAddr::V4(ip) => {
                words.push(4u64);
                words.push(ip as u64);
            },
            IpAddr::V6(ip) => {
                words.push(6u64);
                words.push(#[verifier::truncate] ((ip >> 64) as u64));
                words.push(#[verifier::truncate] ((ip & 0xFFFF_FFFF_FFFF_FFFF) as u64));
            },
        }
        words.push(a.port as u64);
        proof {
            match a.addr {
                IpAddr::V4(ip) => {
                    assert(words@ =~= seq![4u64, ip as u64, a.port as u64]);
                },
                IpAddr::V6(ip) => {
                    assert(words@ =~= seq![
                        6u64,
                        (ip >> 64) as u64,
                        (ip & 0xFFFF_FFFF_FFFF_FFFF) as u64,
                        a.port as u64,
                    ]);
                },
            }
        }
        Self::fold(&words)
    }

    fn fold(words: &Vec<u64>) -> (r: u64)
        ensures
            r == fnv_fold(words@),
    {
        let mut h: u64 = crate::track::id::FNV_OFFSET;
        let mut i: usize = 0;
        proof {
            assert(words@.take(0) =~= Seq::<u64>::empty());
        }
        while i < words.len()
            invariant
                i <= words@.len(),
                h == fnv_fold(words@.take(i as int)),
            decreases words@.len() - i,
        {
            h = (h ^ words[i]).wrapping_mul(crate::track::id::FNV_PRIME);
            proof {
                assert(words@.take(i + 1).drop_last() =~= words@.take(i as int));
                assert(words@.take(i + 1).last() == words@[i as int]);
            }
            i = i + 1;
        }
        proof {
            assert(words@.take(words@.len() as int) =~= words@);
        }
        h
    }

    /// The decision for one flow.
    pub fn accept(&self, flow: &Flow) -> (r: Accept)
        ensures
            r == accept_spec(self.n, *flow),
    {
        if self.n <= 1 {
            return Accept::Export;
        }
        let proto: u64 = match flow.protocol {
            crate::flow::Protocol::ICMP => 1u64,
            crate::flow::Protocol::TCP => 6u64,
            crate::flow::Protocol::UDP => 17u64,
            crate::flow::Protocol::Other(m) => 0x1_0000 + m as u64,
        };
        let a = Self::end_word_exec(flow.src);
        let b = Self::end_word_exec(flow.dst);
        let mut words: Vec<u64> = Vec::new();
        words.push(proto);
        words.push(a ^ b);
        let h = Self::fold(&words);
        proof {
            assert(words@ =~= seq![proto_word(flow.protocol), end_word(flow.src) ^ end_word(
                flow.dst,
            )]);
        }
        if h % self.n == 0 {
            Accept::Export
        } else {
            Accept::Ignore
        }
    }
}

/// Both directions of a conversation receive one decision: a flow and
/// its endpoint-swapped reverse sample alike.
pub proof fn lemma_sampling_symmetric(n: u64, a: Flow, b: Flow)
    requires
        b.protocol == a.protocol,
        b.src == a.dst,
        b.dst == a.src,
    ensures
        accept_spec(n, a) == accept_spec(n, b),
{
    let x = end_word(a.src);
    let y = end_word(a.dst);
    assert(x ^ y == y ^ x) by (bit_vector);
    assert(seq![proto_word(a.protocol), end_word(a.src) ^ end_word(a.dst)] =~= seq![
        proto_word(b.protocol),
        end_word(b.src) ^ end_word(b.dst),
    ]);
}

} // verus!
