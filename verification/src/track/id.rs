//! The connection-id generator: a 32-bit hash of a flow's protocol,
//! ordered endpoints and VLAN, equal for both directions of one
//! conversation.

use vstd::prelude::*;
use crate::flow::{Addr, Direction, Flow, IpAddr, Protocol};

verus! {

/// The FNV-1a offset basis.
pub const FNV_OFFSET: u64 = 0xcbf2_9ce4_8422_2325;
/// The FNV-1a prime.
pub const FNV_PRIME: u64 = 0x100_0000_01b3;

/// One folding step: xor the word in, multiply by the prime (mod 2^64).
pub open spec fn fnv_step(h: u64, w: u64) -> u64 {
    (((h ^ w) * FNV_PRIME) % 0x1_0000_0000_0000_0000) as u64
}

/// Fold a sequence of words into a 64-bit hash.
pub open spec fn fnv_fold(s: Seq<u64>) -> u64
    decreases s.len(),
{
    if s.len() == 0 {
        FNV_OFFSET
    } else {
        fnv_step(fnv_fold(s.drop_last()), s.last())
    }
}

/// The words one endpoint contributes: its MAC, its address tagged by
/// family, and its port.
pub open spec fn side_words(mac: u64, a: Addr) -> Seq<u64> {
    match a.addr {
        IpAddr::V4(ip) => seq![mac, 4u64, ip as u64, a.port as u64],
        IpAddr::V6(ip) => seq![mac, 6u64, (ip >> 64) as u64, (ip & 0xFFFF_FFFF_FFFF_FFFF) as u64, a.port as u64],
    }
}

/// The word a protocol contributes.
pub open spec fn proto_word(p: Protocol) -> u64 {
    match p {
        Protocol::ICMP => 1u64,
        Protocol::TCP => 6u64,
        Protocol::UDP => 17u64,
        Protocol::Other(n) => (0x1_0000 + n as u64) as u64,
    }
}

/// The word a VLAN id contributes.
pub open spec fn vlan_word(v: Option<u16>) -> u64 {
    match v {
        Some(id) => (0x1_0000 + id as u64) as u64,
        None => 0u64,
    }
}

/// All words a flow contributes, with the endpoints ordered by the
/// flow's direction so both directions agree.
pub open spec fn flow_words(flow: Flow) -> Seq<u64> {
    let first = if flow.direction == Direction::Out {
        side_words(flow.ethernet.src.0, flow.src)
    } else {
        side_words(flow.ethernet.dst.0, flow.dst)
    };
    let second = if flow.direction == Direction::Out {
        side_words(flow.ethernet.dst.0, flow.dst)
    } else {
        side_words(flow.ethernet.src.0, flow.src)
    };
    seq![proto_word(flow.protocol)] + first + second + seq![vlan_word(flow.ethernet.vlan)]
}

/// The connection id of a flow.
pub open spec fn id_spec(flow: Flow) -> u32 {
    (fnv_fold(flow_words(flow)) & 0xFFFF_FFFF) as u32
}

/// Produces connection ids.
pub struct Generator {
    pub marker: bool,
}

impl Generator {
    /// A fresh generator.
    pub fn new() -> (r: Generator) {
        Generator { marker: true }
    }

    fn push_side(words: &mut Vec<u64>, mac: u64, a: Addr)
        ensures
            final(words)@ == old(words)@ + side_words(mac, a),
    {
        words.push(mac);
        match a.addr {
            IpAddr::V4(ip) => {
                words.push(4u64);
                words.push(ip as u64);
            },
            IpAddr::V6(ip) => {
                words.push(6u64);
                words.push((ip >> 64) as u64);
                words.push((ip & 0xFFFF_FFFF_FFFF_FFFF) as u64);
            },
        }
        words.push(a.port as u64);
        proof {
            assert(words@ =~= old(words)@ + side_words(mac, a));
        }
    }

    /// The connection id of `flow`: both directions of a conversation
    /// receive the same value.
    pub fn id(&self, flow: &Flow) -> (r: u32)
        ensures
            r == id_spec(*flow),
    {
        let mut words: Vec<u64> = Vec::new();
        let proto: u64 = match flow.protocol {
            Protocol::ICMP => 1u64,
            Protocol::TCP => 6u64,
            Protocol::UDP => 17u64,
            Protocol::Other(n) => 0x1_0000 + n as u64,
        };
        words.push(proto);
        let out = match flow.direction {
            Direction::Out => true,
            _ => false,
        };
        if out {
            Self::push_side(&mut words, flow.ethernet.src.0, flow.src);
            Self::push_side(&mut words, flow.ethernet.dst.0, flow.dst);
        } else {
            Self::push_side(&mut words, flow.ethernet.dst.0, flow.dst);
            Self::push_side(&mut words, flow.ethernet.src.0, flow.src);
        }
        let vlan: u64 = match flow.ethernet.vlan {
            Some(id) => 0x1_0000 + id as u64,
            None => 0u64,
        };
        words.push(vlan);
        proof {
            assert(words@ =~= flow_words(*flow));
        }

        let mut h: u64 = FNV_OFFSET;
        let mut i: usize = 0;
        proof {
            assert(words@.take(0) =~= Seq::<u64>::empty());
        }
        while i < words.len()
            invariant
                i <= words@.len(),
                h == fnv_fold(words@.take(i as int)),
            decreases words@.len() - i,
        {
            h = (h ^ words[i]).wrapping_mul(FNV_PRIME);
            proof {
                assert(words@.take(i + 1).drop_last() =~= words@.take(i as int));
                assert(words@.take(i + 1).last() == words@[i as int]);
            }
            i = i + 1;
        }
        proof {
            assert(words@.take(words@.len() as int) =~= words@);
        }
        (h & 0xFFFF_FFFF) as u32
    }
}

/// `b` reverses `a` consistently with direction: same protocol and VLAN,
/// endpoints and MACs swapped, and the direction flipped between `Out`
/// and `In`.
pub open spec fn reverses(a: Flow, b: Flow) -> bool {
    &&& b.protocol == a.protocol
    &&& b.src == a.dst
    &&& b.dst == a.src
    &&& b.ethernet.src == a.ethernet.dst
    &&& b.ethernet.dst == a.ethernet.src
    &&& b.ethernet.vlan == a.ethernet.vlan
    &&& ((a.direction == Direction::Out && b.direction == Direction::In) || (a.direction
        == Direction::In && b.direction == Direction::Out))
}

/// The connection id is the same for both directions of a conversation:
/// a flow and its direction-consistent reverse hash to one id.
pub proof fn lemma_id_direction_symmetric(a: Flow, b: Flow)
    requires
        reverses(a, b),
    ensures
        id_spec(a) == id_spec(b),
{
    assert(flow_words(a) =~= flow_words(b));
}

} // verus!
