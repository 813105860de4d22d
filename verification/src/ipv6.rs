//! The IPv6 transform routes: colon-grouped parsing (with `::` compression
//! and an embedded dotted-quad tail), canonical printing, the per-group XOR
//! transform, and the two handlers.
//!
//! The accepted grammar: up to eight groups of one to four hexadecimal
//! digits separated by single colons; one `::` may stand for at least one
//! zero group; the last two groups may instead be a dotted quad.

use vstd::prelude::*;
use vstd::string::StrSliceExecFns;

use crate::chars::hex_digits_val;
use crate::chars::hex_run_end;
use crate::chars::hex_text;
use crate::chars::lemma_hex_run_end;
use crate::chars::push_hex;
use crate::chars::chars_to_string;
use crate::chars::read_hex;
use crate::chars::scan_hex_digits;
use crate::ipv4::ipv4_text;
use crate::ipv4::push_ipv4_text;
use crate::ipv4::read_ipv4_at;
use crate::ipv4::scan_ipv4_at;
use crate::reply::Reply;
use crate::reply::reply_is;

verus! {

/// One group read at `pos`: a run of one to four hexadecimal digits.
pub open spec fn read_group(s: Seq<char>, pos: int) -> Option<(u16, int)> {
    let end = hex_run_end(s, pos);
    let k = end - pos;
    if 1 <= k <= 4 {
        Some((hex_digits_val(s, pos, end) as u16, end))
    } else {
        None
    }
}

/// A group preceded by a colon, except for the first.
pub open spec fn read_sep_group(s: Seq<char>, pos: int, first: bool) -> Option<(u16, int)> {
    if first {
        read_group(s, pos)
    } else if 0 <= pos < s.len() && s[pos] == ':' {
        read_group(s, pos + 1)
    } else {
        None
    }
}

/// A dotted quad preceded by a colon, except in first position.
pub open spec fn read_sep_ipv4(s: Seq<char>, pos: int, first: bool) -> Option<(Seq<u8>, int)> {
    if first {
        read_ipv4_at(s, pos)
    } else if 0 <= pos < s.len() && s[pos] == ':' {
        read_ipv4_at(s, pos + 1)
    } else {
        None
    }
}

/// The two groups an embedded dotted quad stands for, big-endian.
pub open spec fn groups_of_v4(o: Seq<u8>) -> Seq<u16>
    recommends
        o.len() == 4,
{
    seq![(o[0] * 256 + o[1]) as u16, (o[2] * 256 + o[3]) as u16]
}

/// Reads groups from slot `i` up to `limit` slots: at each slot an embedded
/// dotted quad is tried first (only while at least two slots remain), then a
/// hexadecimal group; the scan stops at the first slot that reads neither.
/// Yields the groups read, the position after them, and whether the scan
/// ended in an embedded dotted quad.
pub open spec fn read_groups(s: Seq<char>, pos: int, i: int, limit: int) -> (Seq<u16>, int, bool)
    decreases limit - i,
{
    if i >= limit {
        (Seq::<u16>::empty(), pos, false)
    } else {
        let v4 = if i + 1 < limit {
            read_sep_ipv4(s, pos, i == 0)
        } else {
            Option::<(Seq<u8>, int)>::None
        };
        match v4 {
            Some(ov) => (groups_of_v4(ov.0), ov.1, true),
            None => match read_sep_group(s, pos, i == 0) {
                Some(gv) => {
                    let rest = read_groups(s, gv.1, i + 1, limit);
                    (seq![gv.0] + rest.0, rest.1, rest.2)
                },
                None => (Seq::<u16>::empty(), pos, false),
            },
        }
    }
}

/// The whole of `s` is an IPv6 address: either eight groups, or fewer, then
/// `::` standing for the missing zero groups, then the remaining groups. An
/// embedded dotted quad may only end the address.
pub open spec fn parse_ipv6(s: Seq<char>) -> Option<Seq<u16>> {
    let h = read_groups(s, 0, 0, 8);
    if h.0.len() == 8 {
        if h.1 == s.len() {
            Some(h.0)
        } else {
            None
        }
    } else if h.2 {
        None
    } else if h.1 + 2 <= s.len() && s[h.1] == ':' && s[h.1 + 1] == ':' {
        let t = read_groups(s, h.1 + 2, 0, 8 - h.0.len() - 1);
        if t.1 == s.len() {
            Some(h.0 + Seq::new((8 - h.0.len() - t.0.len()) as nat, |j: int| 0u16) + t.0)
        } else {
            None
        }
    } else {
        None
    }
}

/// Scans one group at `pos`.
pub fn scan_group(s: &str, n: usize, pos: usize) -> (r: Option<(u16, usize)>)
    requires
        n == s@.len(),
        pos <= n,
    ensures
        match r {
            Some((v, p)) => read_group(s@, pos as int) == Some((v, p as int)) && pos <= p <= n,
            None => read_group(s@, pos as int) is None,
        },
{
    let end = scan_hex_digits(s, n, pos);
    proof {
        lemma_hex_run_end(s@, pos as int);
    }
    let k = end - pos;
    if 1 <= k && k <= 4 {
        let v = read_hex(s, pos, end);
        Some((v as u16, end))
    } else {
        None
    }
}

/// Scans one group, preceded by a colon except for the first.
pub fn scan_sep_group(s: &str, n: usize, pos: usize, first: bool) -> (r: Option<(u16, usize)>)
    requires
        n == s@.len(),
        pos <= n,
    ensures
        match r {
            Some((v, p)) => read_sep_group(s@, pos as int, first) == Some((v, p as int)) && pos
                <= p <= n,
            None => read_sep_group(s@, pos as int, first) is None,
        },
{
    if first {
        scan_group(s, n, pos)
    } else if pos < n && s.get_char(pos) == ':' {
        scan_group(s, n, pos + 1)
    } else {
        None
    }
}

/// Scans a dotted quad, preceded by a colon except in first position.
pub fn scan_sep_ipv4(s: &str, n: usize, pos: usize, first: bool) -> (r: Option<(Vec<u8>, usize)>)
    requires
        n == s@.len(),
        pos <= n,
    ensures
        match r {
            Some(v) => read_sep_ipv4(s@, pos as int, first) matches Some(ov) && ov.0 == v.0@
                && ov.1 == v.1 as int && v.0@.len() == 4 && pos <= v.1 <= n,
            None => read_sep_ipv4(s@, pos as int, first) is None,
        },
{
    if first {
        scan_ipv4_at(s, n, pos)
    } else if pos < n && s.get_char(pos) == ':' {
        scan_ipv4_at(s, n, pos + 1)
    } else {
        None
    }
}

/// Scans groups from slot `i` up to `limit` slots.
pub fn scan_groups(s: &str, n: usize, pos: usize, i: usize, limit: usize) -> (r: (
    Vec<u16>,
    usize,
    bool,
))
    requires
        n == s@.len(),
        pos <= n,
        i <= limit,
        limit <= 8,
    ensures
        ({
            let g = read_groups(s@, pos as int, i as int, limit as int);
            &&& r.0@ == g.0
            &&& r.1 as int == g.1
            &&& r.2 == g.2
            &&& pos <= r.1 <= n
            &&& i + r.0@.len() <= limit
        }),
    decreases limit - i,
{
    if i >= limit {
        return (Vec::new(), pos, false);
    }
    if i + 1 < limit {
        match scan_sep_ipv4(s, n, pos, i == 0) {
            Some((oct, p2)) => {
                let g0: u16 = (oct[0] as u16) * 256 + (oct[1] as u16);
                let g1: u16 = (oct[2] as u16) * 256 + (oct[3] as u16);
                let mut v: Vec<u16> = Vec::new();
                v.push(g0);
                v.push(g1);
                proof {
                    assert(v@ =~= groups_of_v4(oct@));
                }
                return (v, p2, true);
            },
            None => {},
        }
    }
    match scan_sep_group(s, n, pos, i == 0) {
        Some((g, p2)) => {
            let ret = scan_groups(s, n, p2, i + 1, limit);
            let mut rest = ret.0;
            let p3 = ret.1;
            let ended_v4 = ret.2;
            rest.insert(0, g);
            proof {
                let spec_rest = read_groups(s@, p2 as int, i as int + 1, limit as int);
                assert(rest@ =~= seq![g] + spec_rest.0);
            }
            (rest, p3, ended_v4)
        },
        None => (Vec::new(), pos, false),
    }
}

/// Parses the whole of `s` as an IPv6 address, as eight groups.
pub fn parse_ipv6_text(s: &str) -> (r: Option<Vec<u16>>)
    ensures
        match r {
            Some(v) => parse_ipv6(s@) == Some(v@) && v@.len() == 8,
            None => parse_ipv6(s@) is None,
        },
{
    let n = s.unicode_len();
    let (head, p, head_v4) = scan_groups(s, n, 0, 0, 8);
    let ghost hv = head@;
    if head.len() == 8 {
        if p == n {
            return Some(head);
        } else {
            return None;
        }
    }
    if head_v4 {
        return None;
    }
    if n - p >= 2 && s.get_char(p) == ':' {
        if s.get_char(p + 1) == ':' {
            let limit: usize = 8 - head.len() - 1;
            let (tail, p2, _tail_v4) = scan_groups(s, n, p + 2, 0, limit);
            if p2 == n {
                let zeros: usize = 8 - head.len() - tail.len();
                let mut v = head;
                let mut zi: usize = 0;
                while zi < zeros
                    invariant
                        zi <= zeros,
                        v@ == hv + Seq::new(zi as nat, |j: int| 0u16),
                    decreases zeros - zi,
                {
                    v.push(0u16);
                    proof {
                        assert(v@ =~= hv + Seq::new((zi + 1) as nat, |j: int| 0u16));
                    }
                    zi += 1;
                }
                let ghost zs = Seq::new(zeros as nat, |j: int| 0u16);
                let mut ti: usize = 0;
                while ti < tail.len()
                    invariant
                        ti <= tail@.len(),
                        v@ == hv + zs + tail@.subrange(0, ti as int),
                    decreases tail@.len() - ti,
                {
                    v.push(tail[ti]);
                    proof {
                        assert(v@ =~= hv + zs + tail@.subrange(0, ti + 1));
                    }
                    ti += 1;
                }
                proof {
                    assert(tail@.subrange(0, tail@.len() as int) =~= tail@);
                    assert(v@ =~= hv + zs + tail@);
                }
                return Some(v);
            } else {
                return None;
            }
        }
    }
    None
}

/// The per-group XOR of two addresses.
pub open spec fn xor_groups(a: Seq<u16>, b: Seq<u16>) -> Seq<u16> {
    Seq::new(a.len(), |i: int| a[i] ^ b[i])
}

/// XOR of two addresses is the same in either order.
pub proof fn lemma_ipv6_xor_commutes(a: Seq<u16>, b: Seq<u16>)
    requires
        a.len() == b.len(),
    ensures
        xor_groups(a, b) == xor_groups(b, a),
{
    assert forall|i: int| 0 <= i < a.len() implies xor_groups(a, b)[i] == xor_groups(b, a)[i] by {
        let x = a[i];
        let y = b[i];
        assert(x ^ y == y ^ x) by (bit_vector);
    }
    assert(xor_groups(a, b) =~= xor_groups(b, a));
}

/// XOR is self-inverse: applying the key twice recovers the address, for
/// every pair, the all-zero and all-one addresses included.
pub proof fn lemma_ipv6_xor_self_inverse(a: Seq<u16>, b: Seq<u16>)
    requires
        a.len() == b.len(),
    ensures
        xor_groups(xor_groups(a, b), b) == a,
{
    assert forall|i: int| 0 <= i < a.len() implies xor_groups(xor_groups(a, b), b)[i] == a[i] by {
        let x = a[i];
        let y = b[i];
        assert((x ^ y) ^ y == x) by (bit_vector);
    }
    assert(xor_groups(xor_groups(a, b), b) =~= a);
}

/// Executable per-group XOR.
pub fn ipv6_xor(a: &Vec<u16>, b: &Vec<u16>) -> (r: Vec<u16>)
    requires
        a@.len() == 8,
        b@.len() == 8,
    ensures
        r@ == xor_groups(a@, b@),
{
    let mut r: Vec<u16> = Vec::new();
    let mut i: usize = 0;
    while i < 8
        invariant
            a@.len() == 8,
            b@.len() == 8,
            i <= 8,
            r@.len() == i,
            forall|j: int| 0 <= j < i ==> r@[j] == (a@[j] ^ b@[j]),
        decreases 8 - i,
    {
        r.push(a[i] ^ b[i]);
        i += 1;
    }
    proof {
        assert(r@ =~= xor_groups(a@, b@));
    }
    r
}

/// The fold the printer uses to find the span of zero groups to compress:
/// after scanning the first `i` groups, the current run of zeros and the
/// longest run seen, each as (start, length). A longer run strictly beats an
/// earlier one, so the leftmost longest run is kept.
pub open spec fn span_scan(g: Seq<u16>, i: int) -> (int, int, int, int)
    decreases i,
{
    if i <= 0 {
        (0, 0, 0, 0)
    } else {
        let st = span_scan(g, i - 1);
        if g[i - 1] == 0 {
            let ncs = if st.1 == 0 {
                i - 1
            } else {
                st.0
            };
            let ncl = st.1 + 1;
            if ncl > st.3 {
                (ncs, ncl, ncs, ncl)
            } else {
                (ncs, ncl, st.2, st.3)
            }
        } else {
            (0, 0, st.2, st.3)
        }
    }
}

/// `g` is an IPv4-mapped address.
pub open spec fn is_v4_mapped(g: Seq<u16>) -> bool {
    &&& g.len() == 8
    &&& g[0] == 0
    &&& g[1] == 0
    &&& g[2] == 0
    &&& g[3] == 0
    &&& g[4] == 0
    &&& g[5] == 0xffff
}

/// The four octets an IPv4-mapped address carries.
pub open spec fn mapped_octets(g: Seq<u16>) -> Seq<u8>
    recommends
        g.len() == 8,
{
    seq![(g[6] / 256) as u8, (g[6] % 256) as u8, (g[7] / 256) as u8, (g[7] % 256) as u8]
}

/// Lowercase hexadecimal groups `g[from..to)` joined by single colons.
pub open spec fn join_hex(g: Seq<u16>, from: int, to: int) -> Seq<char>
    decreases to - from,
{
    if from >= to {
        Seq::<char>::empty()
    } else if from + 1 >= to {
        hex_text(g[from] as int)
    } else {
        hex_text(g[from] as int) + seq![':'] + join_hex(g, from + 1, to)
    }
}

/// Canonical text of eight groups: an IPv4-mapped address prints as
/// `::ffff:` and a dotted quad; otherwise the leftmost longest run of at
/// least two zero groups is compressed to `::`.
pub open spec fn ipv6_text(g: Seq<u16>) -> Seq<char>
    recommends
        g.len() == 8,
{
    if is_v4_mapped(g) {
        seq![':', ':', 'f', 'f', 'f', 'f', ':'] + ipv4_text(mapped_octets(g))
    } else {
        let st = span_scan(g, 8);
        if st.3 > 1 {
            join_hex(g, 0, st.2) + seq![':', ':'] + join_hex(g, st.2 + st.3, 8)
        } else {
            join_hex(g, 0, 8)
        }
    }
}

/// Appends the groups `g[from..to)` in hexadecimal, colon-joined.
pub fn push_join_hex(g: &Vec<u16>, from: usize, to: usize, out: &mut Vec<char>)
    requires
        from <= to <= g@.len(),
    ensures
        final(out)@ == old(out)@ + join_hex(g@, from as int, to as int),
    decreases to - from,
{
    if from < to {
        push_hex(g[from], out);
        if from + 1 < to {
            out.push(':');
            push_join_hex(g, from + 1, to, out);
        }
    }
    proof {
        assert(out@ =~= old(out)@ + join_hex(g@, from as int, to as int));
    }
}

/// Appends the canonical text of eight groups.
pub fn push_ipv6_text(g: &Vec<u16>, out: &mut Vec<char>)
    requires
        g@.len() == 8,
    ensures
        final(out)@ == old(out)@ + ipv6_text(g@),
{
    if g[0] == 0 && g[1] == 0 && g[2] == 0 && g[3] == 0 && g[4] == 0 && g[5] == 0xffff {
        out.push(':');
        out.push(':');
        out.push('f');
        out.push('f');
        out.push('f');
        out.push('f');
        out.push(':');
        let mut o: Vec<u8> = Vec::new();
        o.push((g[6] / 256) as u8);
        o.push((g[6] % 256) as u8);
        o.push((g[7] / 256) as u8);
        o.push((g[7] % 256) as u8);
        proof {
            assert(o@ =~= mapped_octets(g@));
        }
        push_ipv4_text(&o, out);
        proof {
            assert(out@ =~= old(out)@ + ipv6_text(g@));
        }
        return ;
    }
    let mut cs: usize = 0;
    let mut cl: usize = 0;
    let mut bs: usize = 0;
    let mut bl: usize = 0;
    let mut i: usize = 0;
    while i < 8
        invariant
            g@.len() == 8,
            i <= 8,
            span_scan(g@, i as int) == (cs as int, cl as int, bs as int, bl as int),
            cs + cl <= i,
            bs + bl <= i,
        decreases 8 - i,
    {
        if g[i] == 0 {
            if cl == 0 {
                cs = i;
            }
            cl = cl + 1;
            if cl > bl {
                bs = cs;
                bl = cl;
            }
        } else {
            cs = 0;
            cl = 0;
        }
        i += 1;
    }
    if bl > 1 {
        push_join_hex(g, 0, bs, out);
        out.push(':');
        out.push(':');
        push_join_hex(g, bs + bl, 8, out);
    } else {
        push_join_hex(g, 0, 8, out);
    }
    proof {
        assert(out@ =~= old(out)@ + ipv6_text(g@));
    }
}

/// The v6 destination route: both query values must parse as IPv6; on
/// success the body is the canonical text of the per-group XOR.
pub fn ipv6_encryption_validation(from: Option<&String>, key: Option<&String>) -> (r: Reply)
    ensures
        match (from, key) {
            (Some(f), Some(k)) => match (parse_ipv6(f@), parse_ipv6(k@)) {
                (Some(fg), Some(kg)) => reply_is(r, 200, ipv6_text(xor_groups(fg, kg))),
                _ => reply_is(
                    r,
                    400,
                    "One or more query parameter not representable as IP v6 address"@,
                ),
            },
            _ => reply_is(r, 400, "Error retrieving query parameters"@),
        },
{
    let (f, k) = match (from, key) {
        (Some(f), Some(k)) => (f, k),
        _ => {
            return Reply {
                status: 400,
                location: None,
                body: "Error retrieving query parameters".to_owned(),
            };
        },
    };
    let fg = parse_ipv6_text(f.as_str());
    let kg = parse_ipv6_text(k.as_str());
    match (fg, kg) {
        (Some(fg), Some(kg)) => {
            let dest = ipv6_xor(&fg, &kg);
            let mut cs: Vec<char> = Vec::new();
            push_ipv6_text(&dest, &mut cs);
            Reply { status: 200, location: None, body: chars_to_string(cs) }
        },
        _ => Reply {
            status: 400,
            location: None,
            body: "One or more query parameter not representable as IP v6 address".to_owned(),
        },
    }
}

/// The v6 key-recovery route: the same XOR, since XOR is self-inverse.
pub fn ipv6_encryption_reverser(from: Option<&String>, to: Option<&String>) -> (r: Reply)
    ensures
        match (from, to) {
            (Some(f), Some(t)) => match (parse_ipv6(f@), parse_ipv6(t@)) {
                (Some(fg), Some(tg)) => reply_is(r, 200, ipv6_text(xor_groups(fg, tg))),
                _ => reply_is(
                    r,
                    400,
                    "One or more query parameter not representable as IP v4 address"@,
                ),
            },
            _ => reply_is(r, 400, "Error retrieving query parameters"@),
        },
{
    let (f, t) = match (from, to) {
        (Some(f), Some(t)) => (f, t),
        _ => {
            return Reply {
                status: 400,
                location: None,
                body: "Error retrieving query parameters".to_owned(),
            };
        },
    };
    let fg = parse_ipv6_text(f.as_str());
    let tg = parse_ipv6_text(t.as_str());
    match (fg, tg) {
        (Some(fg), Some(tg)) => {
            let keyg = ipv6_xor(&fg, &tg);
            let mut cs: Vec<char> = Vec::new();
            push_ipv6_text(&keyg, &mut cs);
            Reply { status: 200, location: None, body: chars_to_string(cs) }
        },
        _ => Reply {
            status: 400,
            location: None,
            body: "One or more query parameter not representable as IP v4 address".to_owned(),
        },
    }
}

} // verus!
