//! Parsing textual IPv4 and IPv6 address literals into their binary form.
//!
//! The grammar is the usual one: an IPv4 literal is four decimal octets
//! (1 to 3 digits, no leading zero, at most 255) separated by dots; an IPv6
//! literal is hexadecimal groups of 1 to 4 digits separated by colons, with
//! at most one `::` eliding one or more zero groups, and optionally an
//! embedded IPv4 literal in place of the last two groups. No valid literal
//! is longer than 45 bytes, so longer inputs are rejected outright.

use vstd::prelude::*;

verus! {

/// True for an ASCII decimal digit.
pub open spec fn is_digit(c: u8) -> bool {
    48 <= c <= 57
}

/// True for an ASCII hexadecimal digit of either case.
pub open spec fn is_hex(c: u8) -> bool {
    is_digit(c) || (97 <= c <= 102) || (65 <= c <= 70)
}

/// Numeric value of a hexadecimal digit.
pub open spec fn hex_val(c: u8) -> int
    recommends
        is_hex(c),
{
    if is_digit(c) {
        c - 48
    } else if 97 <= c <= 102 {
        c - 87
    } else {
        c - 55
    }
}

/// Longest decimal octet starting at `i`: its value and the position after
/// it. One to three digits, no leading zero, at most 255.
pub open spec fn spec_octet(b: Seq<u8>, i: int) -> Option<(u8, int)> {
    if !(0 <= i < b.len() && is_digit(b[i])) {
        None
    } else if b[i] == 48 {
        Some((0u8, i + 1))
    } else {
        let v1 = b[i] - 48;
        if i + 1 < b.len() && is_digit(b[i + 1]) {
            let v2 = v1 * 10 + (b[i + 1] - 48);
            if i + 2 < b.len() && is_digit(b[i + 2]) {
                let v3 = v2 * 10 + (b[i + 2] - 48);
                if v3 <= 255 {
                    Some(((v3) as u8, i + 3))
                } else {
                    None
                }
            } else {
                Some(((v2) as u8, i + 2))
            }
        } else {
            Some(((v1) as u8, i + 1))
        }
    }
}

/// A dot followed by a decimal octet.
pub open spec fn spec_dot_octet(b: Seq<u8>, i: int) -> Option<(u8, int)> {
    if 0 <= i < b.len() && b[i] == 46 {
        spec_octet(b, i + 1)
    } else {
        None
    }
}

/// A complete IPv4 literal covering exactly `[i, end)`: four octets
/// separated by dots, as four bytes.
pub open spec fn spec_v4_at(b: Seq<u8>, i: int, end: int) -> Option<Seq<u8>> {
    match spec_octet(b, i) {
        None => None,
        Some((o0, i1)) => match spec_dot_octet(b, i1) {
            None => None,
            Some((o1, i2)) => match spec_dot_octet(b, i2) {
                None => None,
                Some((o2, i3)) => match spec_dot_octet(b, i3) {
                    None => None,
                    Some((o3, i4)) => if i4 == end {
                        Some(seq![o0, o1, o2, o3])
                    } else {
                        None
                    },
                },
            },
        },
    }
}

/// Longest hexadecimal group starting at `i`: its value and the position
/// after it. One to four digits.
pub open spec fn spec_hexgroup(b: Seq<u8>, i: int) -> Option<(u16, int)> {
    if !(0 <= i < b.len() && is_hex(b[i])) {
        None
    } else {
        let n1 = hex_val(b[i]);
        if i + 1 < b.len() && is_hex(b[i + 1]) {
            let n2 = n1 * 16 + hex_val(b[i + 1]);
            if i + 2 < b.len() && is_hex(b[i + 2]) {
                let n3 = n2 * 16 + hex_val(b[i + 2]);
                if i + 3 < b.len() && is_hex(b[i + 3]) {
                    Some(((n3 * 16 + hex_val(b[i + 3])) as u16, i + 4))
                } else {
                    Some((n3 as u16, i + 3))
                }
            } else {
                Some((n2 as u16, i + 2))
            }
        } else {
            Some((n1 as u16, i + 1))
        }
    }
}

/// Hexadecimal groups separated by single colons covering exactly
/// `[i, end)`, as two bytes per group, big-endian.
pub open spec fn spec_groups_to(b: Seq<u8>, i: int, end: int) -> Option<Seq<u8>>
    decreases end - i,
{
    match spec_hexgroup(b, i) {
        None => None,
        Some((g, j)) => {
            if j == end {
                Some(seq![(g / 256) as u8, (g % 256) as u8])
            } else if i < j < end && b[j] == 58 {
                match spec_groups_to(b, j + 1, end) {
                    None => None,
                    Some(t) => Some(seq![(g / 256) as u8, (g % 256) as u8] + t),
                }
            } else {
                None
            }
        },
    }
}

/// Like `spec_groups_to`, but the groups may end with an embedded IPv4
/// literal standing for the last two groups.
pub open spec fn spec_tail_groups(b: Seq<u8>, i: int, end: int) -> Option<Seq<u8>>
    decreases end - i,
{
    if spec_v4_at(b, i, end) is Some {
        spec_v4_at(b, i, end)
    } else {
        match spec_hexgroup(b, i) {
            None => None,
            Some((g, j)) => {
                if j == end {
                    Some(seq![(g / 256) as u8, (g % 256) as u8])
                } else if i < j < end && b[j] == 58 {
                    match spec_tail_groups(b, j + 1, end) {
                        None => None,
                        Some(t) => Some(seq![(g / 256) as u8, (g % 256) as u8] + t),
                    }
                } else {
                    None
                }
            },
        }
    }
}

/// Position of the first `::` at or after `i`, if any.
pub open spec fn spec_dcolon(b: Seq<u8>, i: int) -> Option<int>
    decreases b.len() - i,
{
    if !(0 <= i) || i + 2 > b.len() {
        None
    } else if b[i] == 58 && b[i + 1] == 58 {
        Some(i)
    } else {
        spec_dcolon(b, i + 1)
    }
}

/// `n` zero bytes.
pub open spec fn zero_bytes(n: nat) -> Seq<u8> {
    Seq::new(n, |i: int| 0u8)
}

/// A complete IPv6 literal: either eight colon-separated groups (the last
/// two possibly an embedded IPv4 literal), or two group lists around one
/// `::` that stands for the elided zero groups, at least one.
pub open spec fn spec_v6(b: Seq<u8>) -> Option<Seq<u8>> {
    match spec_dcolon(b, 0) {
        None => match spec_tail_groups(b, 0, b.len() as int) {
            None => None,
            Some(v) => if v.len() == 16 {
                Some(v)
            } else {
                None
            },
        },
        Some(p) => {
            let left: Option<Seq<u8>> = if p == 0 {
                Some(Seq::empty())
            } else {
                spec_groups_to(b, 0, p)
            };
            let right: Option<Seq<u8>> = if p + 2 == b.len() {
                Some(Seq::empty())
            } else {
                spec_tail_groups(b, p + 2, b.len() as int)
            };
            match left {
                None => None,
                Some(l) => match right {
                    None => None,
                    Some(r) => if l.len() + r.len() <= 14 {
                        Some(l + zero_bytes((16 - l.len() - r.len()) as nat) + r)
                    } else {
                        None
                    },
                },
            }
        },
    }
}

/// A textual address literal as its binary form: four bytes for IPv4,
/// sixteen for IPv6, `None` when the text is neither.
pub open spec fn spec_parse_ip(b: Seq<u8>) -> Option<Seq<u8>> {
    if b.len() > 45 {
        None
    } else if spec_v4_at(b, 0, b.len() as int) is Some {
        spec_v4_at(b, 0, b.len() as int)
    } else {
        spec_v6(b)
    }
}

fn digit(c: u8) -> (r: bool)
    ensures
        r == is_digit(c),
{
    48 <= c && c <= 57
}

fn hexd(c: u8) -> (r: bool)
    ensures
        r == is_hex(c),
{
    (48 <= c && c <= 57) || (97 <= c && c <= 102) || (65 <= c && c <= 70)
}

fn hexv(c: u8) -> (r: u8)
    requires
        is_hex(c),
    ensures
        r == hex_val(c),
{
    if 48 <= c && c <= 57 {
        c - 48
    } else if 97 <= c && c <= 102 {
        c - 87
    } else {
        c - 55
    }
}

fn octet_at(b: &[u8], i: usize) -> (r: Option<(u8, usize)>)
    requires
        i <= b@.len(),
    ensures
        r matches Some(p) ==> spec_octet(b@, i as int) == Some((p.0, p.1 as int)) && i < p.1
            <= b@.len(),
        r is None ==> spec_octet(b@, i as int) is None,
{
    if !(i < b.len() && digit(b[i])) {
        return None;
    }
    if b[i] == 48 {
        return Some((0u8, i + 1));
    }
    let v1: u32 = (b[i] - 48) as u32;
    if i + 1 < b.len() && digit(b[i + 1]) {
        let v2: u32 = v1 * 10 + (b[i + 1] - 48) as u32;
        if i + 2 < b.len() && digit(b[i + 2]) {
            let v3: u32 = v2 * 10 + (b[i + 2] - 48) as u32;
            if v3 <= 255 {
                Some((v3 as u8, i + 3))
            } else {
                None
            }
        } else {
            Some((v2 as u8, i + 2))
        }
    } else {
        Some((v1 as u8, i + 1))
    }
}

fn dot_octet_at(b: &[u8], i: usize) -> (r: Option<(u8, usize)>)
    requires
        i <= b@.len(),
    ensures
        r matches Some(p) ==> spec_dot_octet(b@, i as int) == Some((p.0, p.1 as int)) && i < p.1
            <= b@.len(),
        r is None ==> spec_dot_octet(b@, i as int) is None,
{
    if i < b.len() && b[i] == 46 {
        octet_at(b, i + 1)
    } else {
        None
    }
}

fn v4_at(b: &[u8], i: usize, end: usize) -> (r: Option<Vec<u8>>)
    requires
        i <= b@.len(),
        end <= b@.len(),
    ensures
        r matches Some(v) ==> spec_v4_at(b@, i as int, end as int) == Some(v@),
        r is None ==> spec_v4_at(b@, i as int, end as int) is None,
{
    match octet_at(b, i) {
        None => None,
        Some((o0, i1)) => match dot_octet_at(b, i1) {
            None => None,
            Some((o1, i2)) => match dot_octet_at(b, i2) {
                None => None,
                Some((o2, i3)) => match dot_octet_at(b, i3) {
                    None => None,
                    Some((o3, i4)) => {
                        if i4 == end {
                            let v = vec![o0, o1, o2, o3];
                            proof {
                                assert(v@ =~= seq![o0, o1, o2, o3]);
                            }
                            Some(v)
                        } else {
                            None
                        }
                    },
                },
            },
        },
    }
}

fn hexgroup_at(b: &[u8], i: usize) -> (r: Option<(u16, usize)>)
    requires
        i <= b@.len(),
    ensures
        r matches Some(p) ==> spec_hexgroup(b@, i as int) == Some((p.0, p.1 as int)) && i < p.1
            <= b@.len(),
        r is None ==> spec_hexgroup(b@, i as int) is None,
{
    if !(i < b.len() && hexd(b[i])) {
        return None;
    }
    let n1: u32 = hexv(b[i]) as u32;
    if i + 1 < b.len() && hexd(b[i + 1]) {
        let n2: u32 = n1 * 16 + hexv(b[i + 1]) as u32;
        if i + 2 < b.len() && hexd(b[i + 2]) {
            let n3: u32 = n2 * 16 + hexv(b[i + 2]) as u32;
            if i + 3 < b.len() && hexd(b[i + 3]) {
                Some(((n3 * 16 + hexv(b[i + 3]) as u32) as u16, i + 4))
            } else {
                Some((n3 as u16, i + 3))
            }
        } else {
            Some((n2 as u16, i + 2))
        }
    } else {
        Some((n1 as u16, i + 1))
    }
}

/// The two big-endian bytes of a 16-bit group value.
fn group_bytes(g: u16) -> (r: Vec<u8>)
    ensures
        r@ =~= seq![(g / 256) as u8, (g % 256) as u8],
{
    let v = vec![(g / 256) as u8, (g % 256) as u8];
    proof {
        assert(v@ =~= seq![(g / 256) as u8, (g % 256) as u8]);
    }
    v
}

fn groups_to(b: &[u8], i: usize, end: usize) -> (r: Option<Vec<u8>>)
    requires
        i <= b@.len(),
        end <= b@.len(),
    ensures
        r matches Some(v) ==> spec_groups_to(b@, i as int, end as int) == Some(v@),
        r is None ==> spec_groups_to(b@, i as int, end as int) is None,
    decreases end - i,
{
    match hexgroup_at(b, i) {
        None => None,
        Some((g, j)) => {
            if j == end {
                Some(group_bytes(g))
            } else if j < end && b[j] == 58 {
                match groups_to(b, j + 1, end) {
                    None => None,
                    Some(t) => {
                        let mut v = group_bytes(g);
                        let mut t = t;
                        v.append(&mut t);
                        Some(v)
                    },
                }
            } else {
                None
            }
        },
    }
}

fn tail_groups(b: &[u8], i: usize, end: usize) -> (r: Option<Vec<u8>>)
    requires
        i <= b@.len(),
        end <= b@.len(),
    ensures
        r matches Some(v) ==> spec_tail_groups(b@, i as int, end as int) == Some(v@),
        r is None ==> spec_tail_groups(b@, i as int, end as int) is None,
    decreases end - i,
{
    match v4_at(b, i, end) {
        Some(v) => {
            return Some(v);
        },
        None => {},
    }
    match hexgroup_at(b, i) {
        None => None,
        Some((g, j)) => {
            if j == end {
                Some(group_bytes(g))
            } else if j < end && b[j] == 58 {
                match tail_groups(b, j + 1, end) {
                    None => None,
                    Some(t) => {
                        let mut v = group_bytes(g);
                        let mut t = t;
                        v.append(&mut t);
                        Some(v)
                    },
                }
            } else {
                None
            }
        },
    }
}

fn dcolon_at(b: &[u8], i: usize) -> (r: Option<usize>)
    requires
        i <= b@.len(),
    ensures
        r matches Some(p) ==> spec_dcolon(b@, i as int) == Some(p as int) && i <= p && p + 2
            <= b@.len(),
        r is None ==> spec_dcolon(b@, i as int) is None,
    decreases b@.len() - i,
{
    if b.len() < 2 || i > b.len() - 2 {
        None
    } else if b[i] == 58 && b[i + 1] == 58 {
        Some(i)
    } else {
        dcolon_at(b, i + 1)
    }
}

/// Parses a textual address literal into its binary form: four bytes for an
/// IPv4 literal, sixteen for an IPv6 literal, `None` for anything else.
pub fn parse_ip(b: &[u8]) -> (r: Option<Vec<u8>>)
    ensures
        r matches Some(v) ==> spec_parse_ip(b@) == Some(v@) && (v@.len() == 4 || v@.len() == 16),
        r is None ==> spec_parse_ip(b@) is None,
{
    if b.len() > 45 {
        return None;
    }
    match v4_at(b, 0, b.len()) {
        Some(v) => {
            return Some(v);
        },
        None => {},
    }
    match dcolon_at(b, 0) {
        None => {
            match tail_groups(b, 0, b.len()) {
                None => None,
                Some(v) => {
                    if v.len() == 16 {
                        Some(v)
                    } else {
                        None
                    }
                },
            }
        },
        Some(p) => {
            let left: Option<Vec<u8>> = if p == 0 {
                Some(Vec::new())
            } else {
                groups_to(b, 0, p)
            };
            let l = match left {
                None => {
                    return None;
                },
                Some(l) => l,
            };
            let right: Option<Vec<u8>> = if p + 2 == b.len() {
                Some(Vec::new())
            } else {
                tail_groups(b, p + 2, b.len())
            };
            let rp = match right {
                None => {
                    return None;
                },
                Some(rp) => rp,
            };
            if l.len() > 14 || rp.len() > 14 || l.len() + rp.len() > 14 {
                return None;
            }
            let zeros: usize = 16 - l.len() - rp.len();
            let mut out = l;
            let ghost lv = out@;
            let mut k: usize = 0;
            while k < zeros
                invariant
                    0 <= k <= zeros,
                    out@ == lv + zero_bytes(k as nat),
                decreases zeros - k,
            {
                out.push(0u8);
                proof {
                    assert(out@ =~= lv + zero_bytes((k + 1) as nat));
                }
                k = k + 1;
            }
            let ghost rv = rp@;
            let mut rp = rp;
            out.append(&mut rp);
            proof {
                assert(out@ =~= lv + zero_bytes(zeros as nat) + rv);
            }
            Some(out)
        },
    }
}

} // verus!
