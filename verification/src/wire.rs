//! Byte-level readers and texts: big-endian integers, decimal and hex
//! renderings, MAC and IP address texts.

use vstd::prelude::*;
use crate::flow::IpAddr;

verus! {

/// The big-endian 16-bit value at `i`.
pub open spec fn be16(s: Seq<u8>, i: int) -> u16 {
    (s[i] * 256 + s[i + 1]) as u16
}

/// The big-endian 32-bit value at `i`.
pub open spec fn be32(s: Seq<u8>, i: int) -> u32 {
    (s[i] * 0x100_0000 + s[i + 1] * 0x1_0000 + s[i + 2] * 0x100 + s[i + 3]) as u32
}

/// Read the big-endian 16-bit value at `i`.
pub fn read_be16(b: &[u8], i: usize) -> (r: u16)
    requires
        i + 2 <= b@.len(),
    ensures
        r == be16(b@, i as int),
{
    (b[i] as u16) * 256 + (b[i + 1] as u16)
}

/// Read the big-endian 32-bit value at `i`.
pub fn read_be32(b: &[u8], i: usize) -> (r: u32)
    requires
        i + 4 <= b@.len(),
    ensures
        r == be32(b@, i as int),
{
    (b[i] as u32) * 0x100_0000 + (b[i + 1] as u32) * 0x1_0000 + (b[i + 2] as u32) * 0x100 + (b[i
        + 3] as u32)
}

/// The decimal text of `n`.
pub open spec fn dec_text(n: u32) -> Seq<u8>
    decreases n,
{
    if n < 10 {
        seq![(48 + n) as u8]
    } else {
        dec_text(n / 10).push((48 + n % 10) as u8)
    }
}

/// Append the decimal text of `n` to `out`.
pub fn push_dec(out: &mut Vec<u8>, n: u32)
    ensures
        final(out)@ == old(out)@ + dec_text(n),
    decreases n,
{
    if n < 10 {
        out.push((48 + n) as u8);
        proof {
            assert(out@ =~= old(out)@ + dec_text(n));
        }
    } else {
        push_dec(out, n / 10);
        out.push((48 + (n % 10)) as u8);
        proof {
            assert(out@ =~= old(out)@ + dec_text(n));
        }
    }
}

/// The dotted-decimal text of an IPv4 address.
pub open spec fn ipv4_text(ip: u32) -> Seq<u8> {
    dec_text((ip >> 24) as u32) + seq![46u8] + dec_text(((ip >> 16) & 0xFF) as u32) + seq![46u8]
        + dec_text(((ip >> 8) & 0xFF) as u32) + seq![46u8] + dec_text((ip & 0xFF) as u32)
}

/// Append the dotted-decimal text of an IPv4 address.
pub fn push_ipv4(out: &mut Vec<u8>, ip: u32)
    ensures
        final(out)@ == old(out)@ + ipv4_text(ip),
{
    push_dec(out, ip >> 24);
    out.push(46u8);
    push_dec(out, (ip >> 16) & 0xFF);
    out.push(46u8);
    push_dec(out, (ip >> 8) & 0xFF);
    out.push(46u8);
    push_dec(out, ip & 0xFF);
    proof {
        assert(out@ =~= old(out)@ + ipv4_text(ip));
    }
}

/// The lowercase hex digit for `n < 16`.
pub open spec fn hex_digit(n: u8) -> u8 {
    if n < 10 {
        (48 + n) as u8
    } else {
        (87 + n) as u8
    }
}

/// The lowercase hex text of a 16-bit group, without leading zeros.
pub open spec fn hex16_text(n: u16) -> Seq<u8>
    decreases n,
{
    if n < 16 {
        seq![hex_digit(n as u8)]
    } else {
        hex16_text(n / 16).push(hex_digit((n % 16) as u8))
    }
}

/// Append the lowercase hex text of a 16-bit group.
pub fn push_hex16(out: &mut Vec<u8>, n: u16)
    ensures
        final(out)@ == old(out)@ + hex16_text(n),
    decreases n,
{
    if n < 16 {
        out.push(if n < 10 {
            (48 + n) as u8
        } else {
            (87 + n) as u8
        });
        proof {
            assert(out@ =~= old(out)@ + hex16_text(n));
        }
    } else {
        push_hex16(out, n / 16);
        let d = (n % 16) as u8;
        out.push(if d < 10 {
            48 + d
        } else {
            87 + d
        });
        proof {
            assert(out@ =~= old(out)@ + hex16_text(n));
        }
    }
}

/// The two-digit lowercase hex text of a byte.
pub open spec fn hex8_text(n: u8) -> Seq<u8> {
    seq![hex_digit(n / 16), hex_digit(n % 16)]
}

/// The colon-separated text of a six-byte MAC address.
pub open spec fn mac_text(m: Seq<u8>) -> Seq<u8> {
    hex8_text(m[0]) + seq![58u8] + hex8_text(m[1]) + seq![58u8] + hex8_text(m[2]) + seq![58u8]
        + hex8_text(m[3]) + seq![58u8] + hex8_text(m[4]) + seq![58u8] + hex8_text(m[5])
}

fn push_hex8(out: &mut Vec<u8>, n: u8)
    ensures
        final(out)@ == old(out)@ + hex8_text(n),
{
    let hi = n / 16;
    let lo = n % 16;
    out.push(if hi < 10 {
        48 + hi
    } else {
        87 + hi
    });
    out.push(if lo < 10 {
        48 + lo
    } else {
        87 + lo
    });
    proof {
        assert(out@ =~= old(out)@ + hex8_text(n));
    }
}

/// Append the colon-separated text of a six-byte MAC address.
pub fn push_mac(out: &mut Vec<u8>, m: &[u8])
    requires
        m@.len() == 6,
    ensures
        final(out)@ == old(out)@ + mac_text(m@),
{
    push_hex8(out, m[0]);
    out.push(58u8);
    push_hex8(out, m[1]);
    out.push(58u8);
    push_hex8(out, m[2]);
    out.push(58u8);
    push_hex8(out, m[3]);
    out.push(58u8);
    push_hex8(out, m[4]);
    out.push(58u8);
    push_hex8(out, m[5]);
    proof {
        assert(out@ =~= old(out)@ + mac_text(m@));
    }
}

/// The eight 16-bit groups of an IPv6 address, most significant first.
pub open spec fn v6_groups(ip: u128) -> Seq<u16> {
    seq![
        (ip >> 112) as u16,
        ((ip >> 96) & 0xFFFF) as u16,
        ((ip >> 80) & 0xFFFF) as u16,
        ((ip >> 64) & 0xFFFF) as u16,
        ((ip >> 48) & 0xFFFF) as u16,
        ((ip >> 32) & 0xFFFF) as u16,
        ((ip >> 16) & 0xFFFF) as u16,
        (ip & 0xFFFF) as u16,
    ]
}

/// The length of the zero-group run starting at `i`.
pub open spec fn run_at(g: Seq<u16>, i: int) -> int
    decreases 8 - i,
{
    if i < 0 || i >= 8 || g[i] != 0 {
        0
    } else {
        1 + run_at(g, i + 1)
    }
}

/// The start of the leftmost longest zero-group run at or after `i`.
pub open spec fn best_run_from(g: Seq<u16>, i: int) -> int
    decreases 8 - i,
{
    if i >= 8 {
        8
    } else {
        let rest = best_run_from(g, i + 1);
        if run_at(g, i) >= run_at(g, rest) {
            i
        } else {
            rest
        }
    }
}

/// The hex texts of groups `[i, j)` joined with colons.
pub open spec fn groups_text(g: Seq<u16>, i: int, j: int) -> Seq<u8>
    decreases j - i,
{
    if i >= j {
        Seq::empty()
    } else if i + 1 == j {
        hex16_text(g[i])
    } else {
        hex16_text(g[i]) + seq![58u8] + groups_text(g, i + 1, j)
    }
}

/// The canonical text of an IPv6 address: lowercase hex groups with the
/// leftmost longest run of two or more zero groups compressed to `::`.
pub open spec fn ipv6_text(ip: u128) -> Seq<u8> {
    let g = v6_groups(ip);
    let s = best_run_from(g, 0);
    let n = run_at(g, s);
    if n >= 2 {
        groups_text(g, 0, s) + seq![58u8, 58u8] + groups_text(g, s + n, 8)
    } else {
        groups_text(g, 0, 8)
    }
}

fn group_vec(ip: u128) -> (r: Vec<u16>)
    ensures
        r@ == v6_groups(ip),
{
    let mut r: Vec<u16> = Vec::new();
    r.push((ip >> 112) as u16);
    r.push(#[verifier::truncate] (((ip >> 96) & 0xFFFF) as u16));
    r.push(#[verifier::truncate] (((ip >> 80) & 0xFFFF) as u16));
    r.push(#[verifier::truncate] (((ip >> 64) & 0xFFFF) as u16));
    r.push(#[verifier::truncate] (((ip >> 48) & 0xFFFF) as u16));
    r.push(#[verifier::truncate] (((ip >> 32) & 0xFFFF) as u16));
    r.push(#[verifier::truncate] (((ip >> 16) & 0xFFFF) as u16));
    r.push(#[verifier::truncate] ((ip & 0xFFFF) as u16));
    proof {
        assert(r@ =~= v6_groups(ip));
    }
    r
}

fn run_at_exec(g: &Vec<u16>, i: usize) -> (r: usize)
    requires
        g@.len() == 8,
        i <= 8,
    ensures
        r == run_at(g@, i as int),
        r <= 8 - i,
    decreases 8 - i,
{
    if i >= 8 || g[i] != 0 {
        0
    } else {
        1 + run_at_exec(g, i + 1)
    }
}

fn best_run_from_exec(g: &Vec<u16>, i: usize) -> (r: usize)
    requires
        g@.len() == 8,
        i <= 8,
    ensures
        r == best_run_from(g@, i as int),
        r <= 8,
    decreases 8 - i,
{
    if i >= 8 {
        8
    } else {
        let rest = best_run_from_exec(g, i + 1);
        let here = run_at_exec(g, i);
        let there = if rest < 8 {
            run_at_exec(g, rest)
        } else {
            0
        };
        if here >= there {
            i
        } else {
            rest
        }
    }
}

fn push_groups(out: &mut Vec<u8>, g: &Vec<u16>, i: usize, j: usize)
    requires
        g@.len() == 8,
        i <= 8,
        j <= 8,
    ensures
        final(out)@ == old(out)@ + groups_text(g@, i as int, j as int),
    decreases 8 - i,
{
    if i >= j {
        proof {
            assert(out@ =~= old(out)@ + groups_text(g@, i as int, j as int));
        }
    } else if i + 1 == j {
        push_hex16(out, g[i]);
        proof {
            assert(out@ =~= old(out)@ + groups_text(g@, i as int, j as int));
        }
    } else {
        push_hex16(out, g[i]);
        out.push(58u8);
        push_groups(out, g, i + 1, j);
        proof {
            assert(out@ =~= old(out)@ + groups_text(g@, i as int, j as int));
        }
    }
}

/// Append the canonical text of an IPv6 address.
pub fn push_ipv6(out: &mut Vec<u8>, ip: u128)
    ensures
        final(out)@ == old(out)@ + ipv6_text(ip),
{
    let g = group_vec(ip);
    let s = best_run_from_exec(&g, 0);
    let n = if s < 8 {
        run_at_exec(&g, s)
    } else {
        0
    };
    if n >= 2 {
        push_groups(out, &g, 0, s);
        out.push(58u8);
        out.push(58u8);
        push_groups(out, &g, s + n, 8);
        proof {
            assert(out@ =~= old(out)@ + ipv6_text(ip));
        }
    } else {
        push_groups(out, &g, 0, 8);
        proof {
            assert(out@ =~= old(out)@ + ipv6_text(ip));
        }
    }
}

/// The text of an address: dotted decimal for IPv4, canonical hex for
/// IPv6.
pub open spec fn addr_text(a: IpAddr) -> Seq<u8> {
    match a {
        IpAddr::V4(ip) => ipv4_text(ip),
        IpAddr::V6(ip) => ipv6_text(ip),
    }
}

/// Append the text of an address.
pub fn push_addr(out: &mut Vec<u8>, a: IpAddr)
    ensures
        final(out)@ == old(out)@ + addr_text(a),
{
    match a {
        IpAddr::V4(ip) => push_ipv4(out, ip),
        IpAddr::V6(ip) => push_ipv6(out, ip),
    }
}

/// Whether two byte strings hold the same bytes.
pub fn bytes_eq(a: &[u8], b: &[u8]) -> (r: bool)
    ensures
        r == (a@ == b@),
{
    if a.len() != b.len() {
        proof {
            assert(a@ != b@);
        }
        return false;
    }
    let mut i: usize = 0;
    while i < a.len()
        invariant
            i <= a@.len(),
            a@.len() == b@.len(),
            forall|j: int| 0 <= j < i ==> a@[j] == b@[j],
        decreases a@.len() - i,
    {
        if a[i] != b[i] {
            return false;
        }
        i = i + 1;
    }
    proof {
        assert(a@ =~= b@);
    }
    true
}

/// Append all of `tail` to `out`.
pub fn extend_bytes(out: &mut Vec<u8>, tail: &[u8])
    ensures
        final(out)@ == old(out)@ + tail@,
{
    let mut i: usize = 0;
    while i < tail.len()
        invariant
            i <= tail@.len(),
            out@ == old(out)@ + tail@.take(i as int),
        decreases tail@.len() - i,
    {
        out.push(tail[i]);
        proof {
            assert(out@ =~= old(out)@ + tail@.take(i + 1));
        }
        i = i + 1;
    }
    proof {
        assert(out@ =~= old(out)@ + tail@);
    }
}

/// Copy bytes `[i, j)` out of a slice.
pub fn sub_vec(b: &[u8], i: usize, j: usize) -> (r: Vec<u8>)
    requires
        i <= j <= b@.len(),
    ensures
        r@ == b@.subrange(i as int, j as int),
{
    let mut r: Vec<u8> = Vec::new();
    let mut k: usize = i;
    while k < j
        invariant
            i <= k <= j <= b@.len(),
            r@ == b@.subrange(i as int, k as int),
        decreases j - k,
    {
        r.push(b[k]);
        proof {
            assert(r@ =~= b@.subrange(i as int, k + 1));
        }
        k = k + 1;
    }
    r
}

} // verus!
