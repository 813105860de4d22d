//! The IPv4 transform routes: dotted-quad parsing and printing, per-byte
//! wrapping arithmetic, and the two handlers.
//!
//! The accepted dotted-quad grammar is the strict one: four decimal octets,
//! each at most three digits, no leading zeros, value below 256, separated by
//! single dots, with nothing before or after.

use vstd::prelude::*;
use vstd::arithmetic::div_mod::lemma_mod_add_multiples_vanish;
use vstd::arithmetic::div_mod::lemma_small_mod;
use vstd::string::StrSliceExecFns;

use crate::chars::digit_run_end;
use crate::chars::digits_val;
use crate::chars::dec_text;
use crate::chars::is_digit;
use crate::chars::lemma_digit_run_end;
use crate::chars::push_dec;
use crate::chars::chars_to_string;
use crate::chars::read_decimal;
use crate::chars::scan_digits;
use crate::reply::Reply;
use crate::reply::reply_is;

verus! {

/// One octet read at `pos`: a run of one to three decimal digits, no leading
/// zero unless the octet is exactly "0", value below 256. Yields the value
/// and the position after the run.
pub open spec fn read_octet(s: Seq<char>, pos: int) -> Option<(u8, int)> {
    let end = digit_run_end(s, pos);
    let k = end - pos;
    if k < 1 || k > 3 {
        None
    } else if k > 1 && s[pos] == '0' {
        None
    } else {
        let v = digits_val(s, pos, end);
        if v > 255 {
            None
        } else {
            Some((v as u8, end))
        }
    }
}

/// An octet preceded by a dot, except for the first.
pub open spec fn read_sep_octet(s: Seq<char>, pos: int, first: bool) -> Option<(u8, int)> {
    if first {
        read_octet(s, pos)
    } else if 0 <= pos < s.len() && s[pos] == '.' {
        read_octet(s, pos + 1)
    } else {
        None
    }
}

/// A full dotted quad starting at `pos`: four dot-separated octets.
pub open spec fn read_ipv4_at(s: Seq<char>, pos: int) -> Option<(Seq<u8>, int)> {
    match read_sep_octet(s, pos, true) {
        None => None,
        Some((o0, p1)) => match read_sep_octet(s, p1, false) {
            None => None,
            Some((o1, p2)) => match read_sep_octet(s, p2, false) {
                None => None,
                Some((o2, p3)) => match read_sep_octet(s, p3, false) {
                    None => None,
                    Some((o3, p4)) => Some((seq![o0, o1, o2, o3], p4)),
                },
            },
        },
    }
}

/// The whole of `s` is a dotted quad.
pub open spec fn parse_ipv4(s: Seq<char>) -> Option<Seq<u8>> {
    match read_ipv4_at(s, 0) {
        Some((oct, p)) => if p == s.len() {
            Some(oct)
        } else {
            None
        },
        None => None,
    }
}

/// Scans one octet at `pos`.
pub fn scan_octet(s: &str, n: usize, pos: usize) -> (r: Option<(u8, usize)>)
    requires
        n == s@.len(),
        pos <= n,
    ensures
        match r {
            Some((v, p)) => read_octet(s@, pos as int) == Some((v, p as int)) && pos <= p <= n,
            None => read_octet(s@, pos as int) is None,
        },
{
    let end = scan_digits(s, n, pos);
    proof {
        lemma_digit_run_end(s@, pos as int);
    }
    let k = end - pos;
    if k < 1 || k > 3 {
        return None;
    }
    if k > 1 && s.get_char(pos) == '0' {
        return None;
    }
    let v = read_decimal(s, pos, end);
    if v > 255 {
        None
    } else {
        Some((v as u8, end))
    }
}

/// Scans one octet, preceded by a dot except for the first.
pub fn scan_sep_octet(s: &str, n: usize, pos: usize, first: bool) -> (r: Option<(u8, usize)>)
    requires
        n == s@.len(),
        pos <= n,
    ensures
        match r {
            Some((v, p)) => read_sep_octet(s@, pos as int, first) == Some((v, p as int)) && pos
                <= p <= n,
            None => read_sep_octet(s@, pos as int, first) is None,
        },
{
    if first {
        scan_octet(s, n, pos)
    } else if pos < n && s.get_char(pos) == '.' {
        scan_octet(s, n, pos + 1)
    } else {
        None
    }
}

/// Scans a full dotted quad at `pos`.
pub fn scan_ipv4_at(s: &str, n: usize, pos: usize) -> (r: Option<(Vec<u8>, usize)>)
    requires
        n == s@.len(),
        pos <= n,
    ensures
        match r {
            Some((v, p)) => read_ipv4_at(s@, pos as int) matches Some((oct, q)) && oct == v@ && q
                == p as int && v@.len() == 4 && pos <= p <= n,
            None => read_ipv4_at(s@, pos as int) is None,
        },
{
    let (o0, p1) = match scan_sep_octet(s, n, pos, true) {
        Some(x) => x,
        None => { return None; },
    };
    let (o1, p2) = match scan_sep_octet(s, n, p1, false) {
        Some(x) => x,
        None => { return None; },
    };
    let (o2, p3) = match scan_sep_octet(s, n, p2, false) {
        Some(x) => x,
        None => { return None; },
    };
    let (o3, p4) = match scan_sep_octet(s, n, p3, false) {
        Some(x) => x,
        None => { return None; },
    };
    let mut v: Vec<u8> = Vec::new();
    v.push(o0);
    v.push(o1);
    v.push(o2);
    v.push(o3);
    proof {
        assert(v@ =~= seq![o0, o1, o2, o3]);
    }
    Some((v, p4))
}

/// Parses the whole of `s` as a dotted quad.
pub fn parse_ipv4_text(s: &str) -> (r: Option<Vec<u8>>)
    ensures
        match r {
            Some(v) => parse_ipv4(s@) == Some(v@) && v@.len() == 4,
            None => parse_ipv4(s@) is None,
        },
{
    let n = s.unicode_len();
    match scan_ipv4_at(s, n, 0) {
        Some((v, p)) => if p == n {
            Some(v)
        } else {
            None
        },
        None => None,
    }
}

/// Dotted-quad text of four octets.
pub open spec fn ipv4_text(o: Seq<u8>) -> Seq<char>
    recommends
        o.len() == 4,
{
    dec_text(o[0] as int) + seq!['.'] + dec_text(o[1] as int) + seq!['.'] + dec_text(o[2] as int)
        + seq!['.'] + dec_text(o[3] as int)
}

/// Appends the dotted-quad text of `o`.
pub fn push_ipv4_text(o: &Vec<u8>, out: &mut Vec<char>)
    requires
        o@.len() == 4,
    ensures
        final(out)@ == old(out)@ + ipv4_text(o@),
{
    push_dec(o[0] as u32, out);
    out.push('.');
    push_dec(o[1] as u32, out);
    out.push('.');
    push_dec(o[2] as u32, out);
    out.push('.');
    push_dec(o[3] as u32, out);
    proof {
        assert(out@ =~= old(out)@ + ipv4_text(o@));
    }
}

/// Wrapping byte sum.
pub open spec fn wadd(a: u8, b: u8) -> u8 {
    ((a + b) % 256) as u8
}

/// Wrapping byte difference.
pub open spec fn wsub(a: u8, b: u8) -> u8 {
    ((a - b) % 256) as u8
}

/// The destination address: per-byte wrapping sum of `from` and `key`.
pub open spec fn v4_dest(from: Seq<u8>, key: Seq<u8>) -> Seq<u8> {
    Seq::new(from.len(), |i: int| wadd(from[i], key[i]))
}

/// The key: per-byte wrapping difference of `to` and `from`.
pub open spec fn v4_key(from: Seq<u8>, to: Seq<u8>) -> Seq<u8> {
    Seq::new(from.len(), |i: int| wsub(to[i], from[i]))
}

/// One byte of the inverse law: subtracting `f` undoes adding `f`, modulo 256.
pub proof fn lemma_wrap_byte_inverse(f: u8, k: u8)
    ensures
        wsub(wadd(f, k), f) == k,
{
    let s = f + k;
    if s < 256 {
        lemma_small_mod(s as nat, 256);
        assert(wadd(f, k) == s);
        lemma_small_mod(k as nat, 256);
    } else {
        lemma_mod_add_multiples_vanish(s - 256, 256);
        lemma_small_mod((s - 256) as nat, 256);
        assert(wadd(f, k) == s - 256);
        lemma_mod_add_multiples_vanish(k - 256, 256);
        lemma_small_mod(k as nat, 256);
    }
}

/// The two routes are algebraic inverses: if `dest` is the wrapping sum of
/// `from` and `key`, then the key route's wrapping difference of `dest` and
/// `from` recovers `key`, for every byte value, wrap-around included.
pub proof fn lemma_ipv4_transform_inverse(from: Seq<u8>, key: Seq<u8>)
    requires
        from.len() == 4,
        key.len() == 4,
    ensures
        v4_key(from, v4_dest(from, key)) == key,
{
    assert forall|i: int| 0 <= i < 4 implies v4_key(from, v4_dest(from, key))[i] == key[i] by {
        lemma_wrap_byte_inverse(from[i], key[i]);
    }
    assert(v4_key(from, v4_dest(from, key)) =~= key);
}

/// Per-byte wrapping sum, executable.
pub fn ipv4_wrapping_add(from: &Vec<u8>, key: &Vec<u8>) -> (r: Vec<u8>)
    requires
        from@.len() == 4,
        key@.len() == 4,
    ensures
        r@ == v4_dest(from@, key@),
{
    let mut r: Vec<u8> = Vec::new();
    let mut i: usize = 0;
    while i < 4
        invariant
            from@.len() == 4,
            key@.len() == 4,
            i <= 4,
            r@.len() == i,
            forall|j: int| 0 <= j < i ==> r@[j] == wadd(from@[j], key@[j]),
        decreases 4 - i,
    {
        let s: u16 = from[i] as u16 + key[i] as u16;
        r.push((s % 256) as u8);
        i += 1;
    }
    proof {
        assert(r@ =~= v4_dest(from@, key@));
    }
    r
}

/// Per-byte wrapping difference, executable.
pub fn ipv4_wrapping_sub(from: &Vec<u8>, to: &Vec<u8>) -> (r: Vec<u8>)
    requires
        from@.len() == 4,
        to@.len() == 4,
    ensures
        r@ == v4_key(from@, to@),
{
    let mut r: Vec<u8> = Vec::new();
    let mut i: usize = 0;
    while i < 4
        invariant
            from@.len() == 4,
            to@.len() == 4,
            i <= 4,
            r@.len() == i,
            forall|j: int| 0 <= j < i ==> r@[j] == wsub(to@[j], from@[j]),
        decreases 4 - i,
    {
        let d: u16 = to[i] as u16 + 256 - from[i] as u16;
        proof {
            lemma_mod_add_multiples_vanish(to@[i as int] - from@[i as int], 256);
        }
        r.push((d % 256) as u8);
        i += 1;
    }
    proof {
        assert(r@ =~= v4_key(from@, to@));
    }
    r
}

/// The destination route: both query values must parse as IPv4; on success
/// the body is the dotted quad of the per-byte wrapping sum.
pub fn ipv4_encryption_validation(from: Option<&String>, key: Option<&String>) -> (r: Reply)
    ensures
        match (from, key) {
            (Some(f), Some(k)) => match (parse_ipv4(f@), parse_ipv4(k@)) {
                (Some(fo), Some(ko)) => reply_is(r, 200, ipv4_text(v4_dest(fo, ko))),
                _ => reply_is(r, 400, "Error retrieving IP address(es) from query parameters"@),
            },
            _ => reply_is(r, 400, "Error retrieving query parameters"@),
        },
{
    let (f, k) = match (from, key) {
        (Some(f), Some(k)) => (f, k),
        _ => {
            return Reply {
                status: 400,
                location: None,
                body: "Error retrieving query parameters".to_owned(),
            };
        },
    };
    let fo = parse_ipv4_text(f.as_str());
    let ko = parse_ipv4_text(k.as_str());
    match (fo, ko) {
        (Some(fo), Some(ko)) => {
            let dest = ipv4_wrapping_add(&fo, &ko);
            let mut cs: Vec<char> = Vec::new();
            push_ipv4_text(&dest, &mut cs);
            Reply { status: 200, location: None, body: chars_to_string(cs) }
        },
        _ => Reply {
            status: 400,
            location: None,
            body: "Error retrieving IP address(es) from query parameters".to_owned(),
        },
    }
}

/// The key-recovery route: both query values must parse as IPv4; on success
/// the body is the dotted quad of the per-byte wrapping difference.
pub fn ipv4_encryption_reverser(from: Option<&String>, to: Option<&String>) -> (r: Reply)
    ensures
        match (from, to) {
            (Some(f), Some(t)) => match (parse_ipv4(f@), parse_ipv4(t@)) {
                (Some(fo), Some(to_o)) => reply_is(r, 200, ipv4_text(v4_key(fo, to_o))),
                _ => reply_is(
                    r,
                    400,
                    "One or more query parameter not representable as IP v6 address"@,
                ),
            },
            _ => reply_is(r, 400, "Error retrieving query parameters"@),
        },
{
    let (f, t) = match (from, to) {
        (Some(f), Some(t)) => (f, t),
        _ => {
            return Reply {
                status: 400,
                location: None,
                body: "Error retrieving query parameters".to_owned(),
            };
        },
    };
    let fo = parse_ipv4_text(f.as_str());
    let to_o = parse_ipv4_text(t.as_str());
    match (fo, to_o) {
        (Some(fo), Some(to_o)) => {
            let keyv = ipv4_wrapping_sub(&fo, &to_o);
            let mut cs: Vec<char> = Vec::new();
            push_ipv4_text(&keyv, &mut cs);
            Reply { status: 200, location: None, body: chars_to_string(cs) }
        },
        _ => Reply {
            status: 400,
            location: None,
            body: "One or more query parameter not representable as IP v6 address".to_owned(),
        },
    }
}

} // verus!
