use crate::numbers::{all_digits, dec_val, digit_val, is_digit, parse_digits_u64};
use crate::split::{spec_split, split_str};
use vstd::prelude::*;

verus! {

/// A host address: IPv4 as four octets, or IPv6 as eight 16-bit groups with
/// a numeric scope identifier (zero when the input names none).
#[derive(Debug, PartialEq, Eq, Structural, Clone, Copy)]
pub enum HostAddress {
    V4 { octet0: u8, octet1: u8, octet2: u8, octet3: u8 },
    V6 {
        group0: u16,
        group1: u16,
        group2: u16,
        group3: u16,
        group4: u16,
        group5: u16,
        group6: u16,
        group7: u16,
        scope: u32,
    },
}

/// A listening endpoint: a host address and a TCP port.
#[derive(Debug, PartialEq, Eq, Structural, Clone, Copy)]
pub struct SocketAddress {
    pub host: HostAddress,
    pub port: u16,
}

/// An address octet: digits only, no leading zero, value at most 255.
pub open spec fn is_octet(s: Seq<char>) -> bool {
    s.len() > 0 && all_digits(s) && (s.len() > 1 ==> s[0] != '0') && dec_val(s) <= 255
}

/// A port: digits only (leading zeros allowed), value at most 65535.
pub open spec fn is_port(s: Seq<char>) -> bool {
    s.len() > 0 && all_digits(s) && dec_val(s) <= 65535
}

/// A scope identifier: digits only, value at most the 32-bit maximum.
pub open spec fn is_scope(s: Seq<char>) -> bool {
    s.len() > 0 && all_digits(s) && dec_val(s) <= 0xffffffff
}

/// A hexadecimal digit, either case.
pub open spec fn is_hex_digit(c: char) -> bool {
    is_digit(c) || 97 <= c as int <= 102 || 65 <= c as int <= 70
}

/// Numeric value of a hexadecimal digit.
pub open spec fn hex_digit_val(c: char) -> nat
    recommends
        is_hex_digit(c),
{
    if is_digit(c) {
        digit_val(c)
    } else if 97 <= c as int {
        (c as int - 87) as nat
    } else {
        (c as int - 55) as nat
    }
}

pub open spec fn all_hex_digits(s: Seq<char>) -> bool {
    forall|i: int| 0 <= i < s.len() ==> is_hex_digit(#[trigger] s[i])
}

/// Value of a hexadecimal digit string, most significant digit first.
pub open spec fn hex_val(s: Seq<char>) -> nat
    decreases s.len(),
{
    if s.len() == 0 {
        0
    } else {
        hex_val(s.drop_last()) * 16 + hex_digit_val(s.last())
    }
}

/// An IPv6 group: one to four hexadecimal digits.
pub open spec fn is_hex_group(s: Seq<char>) -> bool {
    1 <= s.len() <= 4 && all_hex_digits(s)
}

pub open spec fn pow16(n: nat) -> nat
    decreases n,
{
    if n == 0 {
        1
    } else {
        16 * pow16((n - 1) as nat)
    }
}

/// A hexadecimal string's value stays under sixteen to the power of its
/// length; in particular four digits encode at most 0xffff.
pub proof fn lemma_hex_val_bound(s: Seq<char>)
    requires
        all_hex_digits(s),
    ensures
        hex_val(s) < pow16(s.len()),
    decreases s.len(),
{
    if s.len() == 0 {
    } else {
        assert(forall|i: int|
            0 <= i < s.len() - 1 ==> is_hex_digit(#[trigger] s.drop_last()[i])) by {
            assert(forall|i: int|
                0 <= i < s.len() - 1 ==> s.drop_last()[i] == #[trigger] s[i]);
        }
        lemma_hex_val_bound(s.drop_last());
        assert(hex_digit_val(s.last()) <= 15);
    }
}

/// The IPv4 dotted quad: four octets separated by dots.
pub open spec fn ipv4_of(s: Seq<char>) -> Option<HostAddress> {
    let h = spec_split(s, '.');
    if h.len() == 4 && is_octet(h[0]) && is_octet(h[1]) && is_octet(h[2]) && is_octet(h[3]) {
        Some(
            HostAddress::V4 {
                octet0: dec_val(h[0]) as u8,
                octet1: dec_val(h[1]) as u8,
                octet2: dec_val(h[2]) as u8,
                octet3: dec_val(h[3]) as u8,
            },
        )
    } else {
        None
    }
}

/// The two 16-bit groups an embedded IPv4 address contributes.
pub open spec fn v4_group_hi(h: HostAddress) -> u16
    recommends
        h is V4,
{
    (h->octet0 * 256 + h->octet1) as u16
}

pub open spec fn v4_group_lo(h: HostAddress) -> u16
    recommends
        h is V4,
{
    (h->octet2 * 256 + h->octet3) as u16
}

/// The groups denoted by a run of pieces that must all be hexadecimal.
pub open spec fn hex_groups_of(pieces: Seq<Seq<char>>) -> Option<Seq<u16>>
    decreases pieces.len(),
{
    if pieces.len() == 0 {
        Some(Seq::<u16>::empty())
    } else if is_hex_group(pieces[0]) {
        match hex_groups_of(pieces.drop_first()) {
            Some(rest) => Some(seq![hex_val(pieces[0]) as u16] + rest),
            None => None,
        }
    } else {
        None
    }
}

/// The groups denoted by a run of pieces whose last piece may instead be an
/// embedded IPv4 quad, contributing two groups.
pub open spec fn tail_groups_of(pieces: Seq<Seq<char>>) -> Option<Seq<u16>>
    decreases pieces.len(),
{
    if pieces.len() == 0 {
        Some(Seq::<u16>::empty())
    } else if pieces.len() == 1 {
        if is_hex_group(pieces[0]) {
            Some(seq![hex_val(pieces[0]) as u16])
        } else {
            match ipv4_of(pieces[0]) {
                Some(h) => Some(seq![v4_group_hi(h), v4_group_lo(h)]),
                None => None,
            }
        }
    } else if is_hex_group(pieces[0]) {
        match tail_groups_of(pieces.drop_first()) {
            Some(rest) => Some(seq![hex_val(pieces[0]) as u16] + rest),
            None => None,
        }
    } else {
        None
    }
}

/// How many pieces are empty.
pub open spec fn count_empty(pieces: Seq<Seq<char>>) -> nat
    decreases pieces.len(),
{
    if pieces.len() == 0 {
        0
    } else {
        count_empty(pieces.drop_last()) + if pieces.last().len() == 0 {
            1nat
        } else {
            0nat
        }
    }
}

/// Index of the first empty piece.
pub open spec fn first_empty(pieces: Seq<Seq<char>>) -> int
    decreases pieces.len(),
{
    if pieces.len() == 0 {
        0
    } else if pieces[0].len() == 0 {
        0
    } else {
        1 + first_empty(pieces.drop_first())
    }
}

/// The first empty piece is where the empties begin.
pub proof fn lemma_first_empty_at(pieces: Seq<Seq<char>>, j: int)
    requires
        0 <= j < pieces.len(),
        pieces[j].len() == 0,
        forall|k: int| 0 <= k < j ==> #[trigger] pieces[k].len() != 0,
    ensures
        first_empty(pieces) == j,
    decreases j,
{
    if j == 0 {
    } else {
        assert(forall|k: int|
            0 <= k < j - 1 ==> #[trigger] pieces.drop_first()[k].len() != 0) by {
            assert(forall|k: int|
                0 <= k < j - 1 ==> pieces.drop_first()[k] == #[trigger] pieces[k + 1]);
        }
        lemma_first_empty_at(pieces.drop_first(), j - 1);
    }
}

/// Eight zero groups.
pub open spec fn zero_groups(n: nat) -> Seq<u16> {
    Seq::new(n, |i: int| 0u16)
}

/// Joins the groups before and after a `::` compression, filling the middle
/// with zero groups; the compression must stand for at least one group.
pub open spec fn join_compressed(oh: Option<Seq<u16>>, ot: Option<Seq<u16>>) -> Option<Seq<u16>> {
    match (oh, ot) {
        (Some(h), Some(t)) => if h.len() + t.len() <= 7 {
            Some(h + zero_groups((8 - h.len() - t.len()) as nat) + t)
        } else {
            None
        },
        _ => None,
    }
}

/// The IPv6 group grammar over the text between the brackets (without any
/// scope suffix): colon-separated hexadecimal groups, one optional `::`
/// compression, and an optional embedded IPv4 quad as the final piece.
pub open spec fn v6_groups_of(s: Seq<char>) -> Option<Seq<u16>> {
    let p = spec_split(s, ':');
    let n = p.len() as int;
    if count_empty(p) == 0 {
        match tail_groups_of(p) {
            Some(g) => if g.len() == 8 {
                Some(g)
            } else {
                None
            },
            None => None,
        }
    } else if n == 3 && p[0].len() == 0 && p[1].len() == 0 && p[2].len() == 0 {
        Some(zero_groups(8))
    } else if n >= 3 && p[0].len() == 0 && p[1].len() == 0 && count_empty(p) == 2 {
        join_compressed(Some(Seq::<u16>::empty()), tail_groups_of(p.skip(2)))
    } else if n >= 3 && p[n - 1].len() == 0 && p[n - 2].len() == 0 && count_empty(p) == 2 {
        join_compressed(hex_groups_of(p.take(n - 2)), Some(Seq::<u16>::empty()))
    } else if count_empty(p) == 1 && 0 < first_empty(p) < n - 1 {
        join_compressed(
            hex_groups_of(p.take(first_empty(p))),
            tail_groups_of(p.skip(first_empty(p) + 1)),
        )
    } else {
        None
    }
}

/// The bracketed host: IPv6 groups with an optional `%` scope suffix.
pub open spec fn host_v6_of(inner: Seq<char>) -> Option<HostAddress> {
    let pct = spec_split(inner, '%');
    if pct.len() == 1 {
        make_v6(v6_groups_of(pct[0]), 0)
    } else if pct.len() == 2 && is_scope(pct[1]) {
        make_v6(v6_groups_of(pct[0]), dec_val(pct[1]) as u32)
    } else {
        None
    }
}

pub open spec fn make_v6(og: Option<Seq<u16>>, scope: u32) -> Option<HostAddress> {
    match og {
        Some(g) => Some(
            HostAddress::V6 {
                group0: g[0],
                group1: g[1],
                group2: g[2],
                group3: g[3],
                group4: g[4],
                group5: g[5],
                group6: g[6],
                group7: g[7],
                scope,
            },
        ),
        None => None,
    }
}

/// The `host:port` grammar: a dotted-quad IPv4 host and a decimal port, or a
/// bracketed IPv6 host `[groups]` (optionally with a `%scope` suffix)
/// followed by a colon and a decimal port. Anything else — a missing port, a
/// malformed host, an out-of-range value — is rejected.
pub open spec fn socket_addr_of(s: Seq<char>) -> Option<SocketAddress> {
    if s.len() > 0 && s[0] == '[' {
        let b = spec_split(s, ']');
        if b.len() == 2 && b[0].len() >= 1 && b[1].len() >= 1 && b[1][0] == ':' && is_port(
            b[1].drop_first(),
        ) {
            match host_v6_of(b[0].drop_first()) {
                Some(h) => Some(
                    SocketAddress { host: h, port: dec_val(b[1].drop_first()) as u16 },
                ),
                None => None,
            }
        } else {
            None
        }
    } else {
        let parts = spec_split(s, ':');
        if parts.len() == 2 && is_port(parts[1]) {
            match ipv4_of(parts[0]) {
                Some(h) => Some(SocketAddress { host: h, port: dec_val(parts[1]) as u16 }),
                None => None,
            }
        } else {
            None
        }
    }
}



/// Parses one address octet.
fn parse_octet(t: &str) -> (r: Option<u8>)
    ensures
        r is Some <==> is_octet(t@),
        r matches Some(v) ==> v == dec_val(t@),
{
    match parse_digits_u64(t) {
        None => None,
        Some(v) => {
            if v > 255 {
                None
            } else if t.unicode_len() > 1 && t.get_char(0) == '0' {
                None
            } else {
                Some(v as u8)
            }
        },
    }
}

/// Parses an IPv4 dotted quad.
fn parse_ipv4(s: &str) -> (r: Option<HostAddress>)
    ensures
        r == ipv4_of(s@),
{
    let h = split_str(s, '.');
    proof {
        assert(h.deep_view().len() == h@.len());
    }
    if h.len() != 4 {
        return None;
    }
    proof {
        assert(h[0]@ == h.deep_view()[0]);
        assert(h[1]@ == h.deep_view()[1]);
        assert(h[2]@ == h.deep_view()[2]);
        assert(h[3]@ == h.deep_view()[3]);
    }
    let o0 = match parse_octet(h[0].as_str()) {
        Some(v) => v,
        None => {
            return None;
        },
    };
    let o1 = match parse_octet(h[1].as_str()) {
        Some(v) => v,
        None => {
            return None;
        },
    };
    let o2 = match parse_octet(h[2].as_str()) {
        Some(v) => v,
        None => {
            return None;
        },
    };
    let o3 = match parse_octet(h[3].as_str()) {
        Some(v) => v,
        None => {
            return None;
        },
    };
    Some(HostAddress::V4 { octet0: o0, octet1: o1, octet2: o2, octet3: o3 })
}

/// Parses one IPv6 group of one to four hexadecimal digits.
fn parse_hex_group(t: &str) -> (r: Option<u16>)
    ensures
        r is Some <==> is_hex_group(t@),
        r matches Some(v) ==> v == hex_val(t@),
{
    let n = t.unicode_len();
    if n < 1 || n > 4 {
        return None;
    }
    let mut acc: u32 = 0;
    let mut i: usize = 0;
    while i < n
        invariant
            0 <= i <= n,
            n == t@.len(),
            n <= 4,
            all_hex_digits(t@.subrange(0, i as int)),
            acc == hex_val(t@.subrange(0, i as int)),
            acc <= 0xffff,
        decreases n - i,
    {
        let c = t.get_char(i);
        let cv = c as u32;
        let d: u32 = if 48 <= cv && cv <= 57 {
            cv - 48
        } else if 97 <= cv && cv <= 102 {
            cv - 87
        } else if 65 <= cv && cv <= 70 {
            cv - 55
        } else {
            assert(!is_hex_digit(t@[i as int]));
            return None;
        };
        proof {
            assert(t@.subrange(0, i + 1).drop_last() =~= t@.subrange(0, i as int));
            assert(is_hex_digit(t@[i as int]));
            assert(d == hex_digit_val(t@[i as int]));
            assert(all_hex_digits(t@.subrange(0, i + 1)));
            lemma_hex_val_bound(t@.subrange(0, i as int));
            assert(pow16(0) == 1);
            assert(pow16(1) == 16);
            assert(pow16(2) == 256);
            assert(pow16(3) == 4096);
            assert(acc < 4096);
        }
        acc = acc * 16 + d;
        i = i + 1;
    }
    proof {
        assert(t@.subrange(0, n as int) =~= t@);
    }
    Some(acc as u16)
}

/// Parses pieces `lo..hi` as a run of hexadecimal groups.
fn parse_hex_groups_range(pieces: &Vec<String>, lo: usize, hi: usize) -> (r: Option<Vec<u16>>)
    requires
        lo <= hi <= pieces@.len(),
    ensures
        r is Some <==> hex_groups_of(pieces.deep_view().subrange(lo as int, hi as int)) is Some,
        r matches Some(v) ==> hex_groups_of(pieces.deep_view().subrange(lo as int, hi as int))
            == Some(v@),
{
    let ghost dv = pieces.deep_view();
    let mut acc: Vec<u16> = Vec::new();
    let mut i: usize = lo;
    while i < hi
        invariant
            lo <= i <= hi <= pieces@.len(),
            dv == pieces.deep_view(),
            dv.len() == pieces@.len(),
            match hex_groups_of(dv.subrange(i as int, hi as int)) {
                Some(rest) => hex_groups_of(dv.subrange(lo as int, hi as int)) == Some(
                    acc@ + rest,
                ),
                None => hex_groups_of(dv.subrange(lo as int, hi as int)) is None,
            },
        decreases hi - i,
    {
        let ghost sub = dv.subrange(i as int, hi as int);
        proof {
            assert(sub.len() > 0);
            assert(sub[0] == dv[i as int]);
            assert(sub.drop_first() =~= dv.subrange(i + 1, hi as int));
            assert(pieces[i as int]@ == dv[i as int]);
        }
        match parse_hex_group(pieces[i].as_str()) {
            None => {
                return None;
            },
            Some(g) => {
                proof {
                    match hex_groups_of(dv.subrange(i + 1, hi as int)) {
                        Some(rest2) => {
                            assert(acc@ + (seq![g] + rest2) =~= acc@.push(g) + rest2);
                        },
                        None => {},
                    }
                }
                acc.push(g);
            },
        }
        i = i + 1;
    }
    proof {
        assert(dv.subrange(hi as int, hi as int) =~= Seq::<Seq<char>>::empty());
        assert(acc@ + Seq::<u16>::empty() =~= acc@);
    }
    Some(acc)
}

/// Parses pieces `lo..hi` as hexadecimal groups whose last piece may be an
/// embedded IPv4 quad.
fn parse_tail_groups_range(pieces: &Vec<String>, lo: usize, hi: usize) -> (r: Option<Vec<u16>>)
    requires
        lo <= hi <= pieces@.len(),
    ensures
        r is Some <==> tail_groups_of(pieces.deep_view().subrange(lo as int, hi as int)) is Some,
        r matches Some(v) ==> tail_groups_of(pieces.deep_view().subrange(lo as int, hi as int))
            == Some(v@),
{
    let ghost dv = pieces.deep_view();
    let mut acc: Vec<u16> = Vec::new();
    let mut i: usize = lo;
    while i < hi
        invariant
            lo <= i <= hi <= pieces@.len(),
            dv == pieces.deep_view(),
            dv.len() == pieces@.len(),
            match tail_groups_of(dv.subrange(i as int, hi as int)) {
                Some(rest) => tail_groups_of(dv.subrange(lo as int, hi as int)) == Some(
                    acc@ + rest,
                ),
                None => tail_groups_of(dv.subrange(lo as int, hi as int)) is None,
            },
        decreases hi - i,
    {
        let ghost sub = dv.subrange(i as int, hi as int);
        proof {
            assert(sub.len() > 0);
            assert(sub[0] == dv[i as int]);
            assert(sub.drop_first() =~= dv.subrange(i + 1, hi as int));
            assert(pieces[i as int]@ == dv[i as int]);
        }
        if i + 1 == hi {
            match parse_hex_group(pieces[i].as_str()) {
                Some(g) => {
                    proof {
                        assert(acc@ + seq![g] =~= acc@.push(g));
                    }
                    acc.push(g);
                },
                None => match parse_ipv4(pieces[i].as_str()) {
                    Some(h) => {
                        let (a, b, c, d) = match h {
                            HostAddress::V4 { octet0, octet1, octet2, octet3 } => (
                                octet0,
                                octet1,
                                octet2,
                                octet3,
                            ),
                            HostAddress::V6 { .. } => {
                                proof {
                                    assert(false);
                                }
                                (0, 0, 0, 0)
                            },
                        };
                        let hi_g: u16 = (a as u16) * 256 + (b as u16);
                        let lo_g: u16 = (c as u16) * 256 + (d as u16);
                        proof {
                            assert(hi_g == v4_group_hi(h));
                            assert(lo_g == v4_group_lo(h));
                            assert(acc@ + seq![hi_g, lo_g] =~= acc@.push(hi_g).push(lo_g));
                        }
                        acc.push(hi_g);
                        acc.push(lo_g);
                    },
                    None => {
                        return None;
                    },
                },
            }
        } else {
            match parse_hex_group(pieces[i].as_str()) {
                None => {
                    return None;
                },
                Some(g) => {
                    proof {
                        match tail_groups_of(dv.subrange(i + 1, hi as int)) {
                            Some(rest2) => {
                                assert(acc@ + (seq![g] + rest2) =~= acc@.push(g) + rest2);
                            },
                            None => {},
                        }
                    }
                    acc.push(g);
                },
            }
        }
        i = i + 1;
    }
    proof {
        assert(dv.subrange(hi as int, hi as int) =~= Seq::<Seq<char>>::empty());
        assert(acc@ + Seq::<u16>::empty() =~= acc@);
    }
    Some(acc)
}



fn push_zeros(v: &mut Vec<u16>, k: usize)
    ensures
        final(v)@ == old(v)@ + zero_groups(k as nat),
{
    let mut z: usize = 0;
    while z < k
        invariant
            z <= k,
            v@ == old(v)@ + zero_groups(z as nat),
        decreases k - z,
    {
        proof {
            assert(old(v)@ + zero_groups((z + 1) as nat) =~= (old(v)@ + zero_groups(
                z as nat,
            )).push(0u16));
        }
        v.push(0);
        z = z + 1;
    }
}

fn append_groups(v: &mut Vec<u16>, t: &Vec<u16>)
    ensures
        final(v)@ == old(v)@ + t@,
{
    let mut j: usize = 0;
    while j < t.len()
        invariant
            j <= t@.len(),
            v@ == old(v)@ + t@.take(j as int),
        decreases t@.len() - j,
    {
        proof {
            assert(old(v)@ + t@.take(j + 1) =~= (old(v)@ + t@.take(j as int)).push(t@[j as int]));
        }
        v.push(t[j]);
        j = j + 1;
    }
    proof {
        assert(t@.take(t@.len() as int) =~= t@);
        assert(old(v)@ + t@.take(t@.len() as int) =~= old(v)@ + t@);
    }
}

/// Parses the IPv6 group text (between the brackets, without any scope
/// suffix) into its eight groups.
fn parse_v6_groups(t: &str) -> (r: Option<Vec<u16>>)
    ensures
        r is Some <==> v6_groups_of(t@) is Some,
        r matches Some(v) ==> v6_groups_of(t@) == Some(v@) && v@.len() == 8,
{
    let p = split_str(t, ':');
    let ghost dv = p.deep_view();
    let n = p.len();
    proof {
        assert(dv.len() == p@.len());
    }
    let mut cnt: usize = 0;
    let mut first: usize = n;
    let mut i: usize = 0;
    while i < n
        invariant
            0 <= i <= n,
            n == p@.len(),
            dv == p.deep_view(),
            dv.len() == n,
            cnt == count_empty(dv.take(i as int)),
            cnt <= i,
            first <= n,
            cnt == 0 ==> first == n,
            cnt == 0 ==> (forall|k: int| 0 <= k < i ==> #[trigger] dv[k].len() != 0),
            cnt > 0 ==> (first < i && dv[first as int].len() == 0 && (forall|k: int|
                0 <= k < first ==> #[trigger] dv[k].len() != 0)),
        decreases n - i,
    {
        proof {
            assert(dv.take(i + 1).drop_last() =~= dv.take(i as int));
            assert(dv.take(i + 1).last() == dv[i as int]);
            assert(p[i as int]@ == dv[i as int]);
        }
        if p[i].as_str().is_empty() {
            if cnt == 0 {
                first = i;
            }
            cnt = cnt + 1;
        }
        i = i + 1;
    }
    proof {
        assert(dv.take(n as int) =~= dv);
        if cnt > 0 {
            lemma_first_empty_at(dv, first as int);
        }
    }
    let e0 = p[0].as_str().is_empty();
    let e1 = if n >= 2 {
        p[1].as_str().is_empty()
    } else {
        false
    };
    let e2 = if n >= 3 {
        p[2].as_str().is_empty()
    } else {
        false
    };
    let elast = p[n - 1].as_str().is_empty();
    let elast2 = if n >= 2 {
        p[n - 2].as_str().is_empty()
    } else {
        false
    };
    proof {
        assert(p[0 as int]@ == dv[0]);
        if n >= 2 {
            assert(p[1 as int]@ == dv[1]);
            assert(p[n - 2 as int]@ == dv[n - 2]);
        }
        if n >= 3 {
            assert(p[2 as int]@ == dv[2]);
        }
        assert(p[n - 1 as int]@ == dv[n - 1]);
    }
    if cnt == 0 {
        let g = match parse_tail_groups_range(&p, 0, n) {
            Some(v) => v,
            None => {
                proof {
                    assert(dv.subrange(0, n as int) =~= dv);
                }
                return None;
            },
        };
        proof {
            assert(dv.subrange(0, n as int) =~= dv);
        }
        if g.len() == 8 {
            Some(g)
        } else {
            None
        }
    } else if n == 3 && e0 && e1 && e2 {
        let mut out: Vec<u16> = Vec::new();
        push_zeros(&mut out, 8);
        proof {
            assert(Seq::<u16>::empty() + zero_groups(8) =~= zero_groups(8));
        }
        Some(out)
    } else if n >= 3 && e0 && e1 && cnt == 2 {
        proof {
            assert(dv.skip(2) =~= dv.subrange(2, n as int));
        }
        let tvec = match parse_tail_groups_range(&p, 2, n) {
            Some(v) => v,
            None => {
                return None;
            },
        };
        if tvec.len() > 7 {
            return None;
        }
        let mut out: Vec<u16> = Vec::new();
        push_zeros(&mut out, 8 - tvec.len());
        append_groups(&mut out, &tvec);
        proof {
            assert(Seq::<u16>::empty() + zero_groups((8 - tvec@.len()) as nat) + tvec@ =~= (
            Seq::<u16>::empty() + zero_groups((8 - tvec@.len()) as nat)) + tvec@);
            assert(out@ =~= Seq::<u16>::empty() + zero_groups((8 - tvec@.len()) as nat) + tvec@);
        }
        Some(out)
    } else if n >= 3 && elast && elast2 && cnt == 2 {
        proof {
            assert(dv.take(n - 2) =~= dv.subrange(0, n - 2));
        }
        let hvec = match parse_hex_groups_range(&p, 0, n - 2) {
            Some(v) => v,
            None => {
                return None;
            },
        };
        if hvec.len() > 7 {
            return None;
        }
        let ghost hseq = hvec@;
        let mut out = hvec;
        let need = 8 - out.len();
        push_zeros(&mut out, need);
        proof {
            assert(out@ =~= hseq + zero_groups((8 - hseq.len()) as nat) + Seq::<u16>::empty());
        }
        Some(out)
    } else if cnt == 1 && 0 < first && first < n - 1 {
        proof {
            lemma_first_empty_at(dv, first as int);
            assert(dv.take(first as int) =~= dv.subrange(0, first as int));
            assert(dv.skip(first + 1) =~= dv.subrange(first + 1, n as int));
        }
        let hvec = match parse_hex_groups_range(&p, 0, first) {
            Some(v) => v,
            None => {
                return None;
            },
        };
        let tvec = match parse_tail_groups_range(&p, first + 1, n) {
            Some(v) => v,
            None => {
                return None;
            },
        };
        if hvec.len() > 7 {
            return None;
        }
        if tvec.len() > 7 - hvec.len() {
            return None;
        }
        let ghost hseq = hvec@;
        let mut out = hvec;
        let need = 8 - out.len() - tvec.len();
        push_zeros(&mut out, need);
        append_groups(&mut out, &tvec);
        proof {
            assert(out@ =~= hseq + zero_groups((8 - hseq.len() - tvec@.len()) as nat) + tvec@);
        }
        Some(out)
    } else {
        None
    }
}

/// Parses a `host:port` socket address: an IPv4 dotted quad, or a bracketed
/// IPv6 host with optional numeric `%scope`, each followed by a decimal
/// port.
pub fn parse_socket_addr(s: &str) -> (r: Option<SocketAddress>)
    ensures
        r == socket_addr_of(s@),
{
    let n = s.unicode_len();
    if n > 0 && s.get_char(0) == '[' {
        let b = split_str(s, ']');
        let ghost bdv = b.deep_view();
        proof {
            assert(bdv.len() == b@.len());
        }
        if b.len() != 2 {
            return None;
        }
        proof {
            assert(b[0 as int]@ == bdv[0]);
            assert(b[1 as int]@ == bdv[1]);
        }
        let head = b[0].as_str();
        let tailp = b[1].as_str();
        let hn = head.unicode_len();
        let tn = tailp.unicode_len();
        if hn < 1 || tn < 1 {
            return None;
        }
        if tailp.get_char(0) != ':' {
            return None;
        }
        let port_str = tailp.substring_char(1, tn);
        proof {
            assert(port_str@ =~= bdv[1].drop_first());
        }
        let port = match parse_digits_u64(port_str) {
            Some(v) if v <= 65535 => v as u16,
            _ => {
                return None;
            },
        };
        let inner = head.substring_char(1, hn);
        proof {
            assert(inner@ =~= bdv[0].drop_first());
        }
        let pct = split_str(inner, '%');
        let ghost pdv = pct.deep_view();
        proof {
            assert(pdv.len() == pct@.len());
        }
        let scope: u32;
        if pct.len() == 1 {
            scope = 0;
        } else if pct.len() == 2 {
            proof {
                assert(pct[1 as int]@ == pdv[1]);
            }
            scope = match parse_digits_u64(pct[1].as_str()) {
                Some(v) if v <= 0xffffffff => v as u32,
                _ => {
                    return None;
                },
            };
        } else {
            return None;
        }
        proof {
            assert(pct[0 as int]@ == pdv[0]);
        }
        let groups = match parse_v6_groups(pct[0].as_str()) {
            Some(g) => g,
            None => {
                return None;
            },
        };
        let host = HostAddress::V6 {
            group0: groups[0],
            group1: groups[1],
            group2: groups[2],
            group3: groups[3],
            group4: groups[4],
            group5: groups[5],
            group6: groups[6],
            group7: groups[7],
            scope,
        };
        Some(SocketAddress { host, port })
    } else {
        let parts = split_str(s, ':');
        proof {
            assert(parts.deep_view().len() == parts@.len());
        }
        if parts.len() != 2 {
            return None;
        }
        proof {
            assert(parts[0 as int]@ == parts.deep_view()[0]);
            assert(parts[1 as int]@ == parts.deep_view()[1]);
        }
        let port = match parse_digits_u64(parts[1].as_str()) {
            Some(v) if v <= 65535 => v as u16,
            _ => {
                return None;
            },
        };
        let host = match parse_ipv4(parts[0].as_str()) {
            Some(h) => h,
            None => {
                return None;
            },
        };
        Some(SocketAddress { host, port })
    }
}

} // verus!
