//! IP addresses: a plain model of IPv4 and IPv6 addresses, their textual
//! forms, the local-versus-public classification, and the choice of a
//! trustworthy client address from the peer and the proxy headers.
use vstd::prelude::*;

use crate::strutil::all_digits;
use crate::strutil::digits_val;
use crate::strutil::find_char;
use crate::strutil::first_index;
use crate::strutil::lemma_first_index;
use crate::strutil::lemma_first_index_unique;
use crate::strutil::parse_digits;
use crate::strutil::split;
use crate::strutil::split_spec;
use crate::strutil::trim;
use crate::strutil::trim_spec;
use crate::strutil::views_of;

verus! {

/// An IP address: four octets, or eight 16-bit groups.
#[derive(Debug, Clone, Copy, PartialEq, Eq, Structural)]
pub enum IpAddr {
    V4(u8, u8, u8, u8),
    V6(u16, u16, u16, u16, u16, u16, u16, u16),
}

/// The local (non-routable or reserved) addresses: private ranges,
/// loopback, link-local, broadcast and unspecified for IPv4; unique-local,
/// non-global multicast, loopback, unspecified, link-local, site-local and
/// documentation ranges for IPv6.
pub open spec fn is_local_spec(ip: IpAddr) -> bool {
    match ip {
        IpAddr::V4(a, b, c, d) => a == 10 || (a == 192 && b == 168) || (a == 172 && b & 0xf0
            == 0x10) || a == 127 || (a == 169 && b == 254) || (a == 255 && b == 255 && c == 255
            && d == 255) || (a == 0 && b == 0 && c == 0 && d == 0),
        IpAddr::V6(s0, s1, s2, s3, s4, s5, s6, s7) => if s0 & 0xfe00 == 0xfc00 {
            true
        } else if s0 & 0xff00 == 0xff00 {
            s0 & 0x000f != 14
        } else if s0 == 0 && s1 == 0 && s2 == 0 && s3 == 0 && s4 == 0 && s5 == 0 && s6 == 0 && (
        s7 == 0 || s7 == 1) {
            true
        } else if s0 & 0xffc0 == 0xfe80 || s0 & 0xffc0 == 0xfec0 {
            true
        } else {
            s0 == 0x2001 && s1 == 0xdb8
        },
    }
}

pub open spec fn is_public_spec(ip: IpAddr) -> bool {
    !is_local_spec(ip)
}

/// Whether an address lies in a local range.
pub fn is_local(ip: &IpAddr) -> (r: bool)
    ensures
        r == is_local_spec(*ip),
{
    match *ip {
        IpAddr::V4(a, b, c, d) => a == 10 || (a == 192 && b == 168) || (a == 172 && b & 0xf0
            == 0x10) || a == 127 || (a == 169 && b == 254) || (a == 255 && b == 255 && c == 255
            && d == 255) || (a == 0 && b == 0 && c == 0 && d == 0),
        IpAddr::V6(s0, s1, s2, s3, s4, s5, s6, s7) => {
            if s0 & 0xfe00 == 0xfc00 {
                true
            } else if s0 & 0xff00 == 0xff00 {
                s0 & 0x000f != 14
            } else if s0 == 0 && s1 == 0 && s2 == 0 && s3 == 0 && s4 == 0 && s5 == 0 && s6 == 0 && (
            s7 == 0 || s7 == 1) {
                true
            } else if s0 & 0xffc0 == 0xfe80 || s0 & 0xffc0 == 0xfec0 {
                true
            } else {
                s0 == 0x2001 && s1 == 0xdb8
            }
        },
    }
}

/// Whether an address lies outside every local range.
pub fn is_public_ip(ip: &IpAddr) -> (r: bool)
    ensures
        r == is_public_spec(*ip),
{
    !is_local(ip)
}

/// Local and public split the addresses: every address is exactly one of
/// the two.
pub proof fn lemma_local_public_partition(ip: IpAddr)
    ensures
        is_local_spec(ip) <==> !is_public_spec(ip),
{
}

/// A well-formed dotted-quad octet: one to three digits, no leading zero,
/// value at most 255.
pub open spec fn octet_ok(p: Seq<char>) -> bool {
    1 <= p.len() <= 3 && all_digits(p) && digits_val(p) <= 255 && (p.len() == 1 || p[0] != '0')
}

/// The address denoted by a dotted-quad numeral, if well formed.
pub open spec fn ipv4_spec(s: Seq<char>) -> Option<IpAddr> {
    let parts = split_spec(s, '.');
    if parts.len() == 4 && octet_ok(parts[0]) && octet_ok(parts[1]) && octet_ok(parts[2])
        && octet_ok(parts[3]) {
        Some(
            IpAddr::V4(
                digits_val(parts[0]) as u8,
                digits_val(parts[1]) as u8,
                digits_val(parts[2]) as u8,
                digits_val(parts[3]) as u8,
            ),
        )
    } else {
        None
    }
}

/// Parse one dotted-quad octet.
fn parse_octet(p: &[char]) -> (r: Option<u8>)
    ensures
        r is Some <==> octet_ok(p@),
        r is Some ==> r->0 == digits_val(p@),
{
    if p.len() == 0 || p.len() > 3 {
        return None;
    }
    if p.len() > 1 && p[0] == '0' {
        return None;
    }
    match parse_digits(p, 3) {
        Some(v) => {
            proof {
                crate::strutil::lemma_digits_val_small(p@);
            }
            if v <= 255 {
                Some(v as u8)
            } else {
                None
            }
        },
        None => None,
    }
}

/// Parse a dotted-quad IPv4 numeral.
pub fn parse_ipv4(s: &[char]) -> (r: Option<IpAddr>)
    ensures
        r == ipv4_spec(s@),
{
    let parts = split(s, '.');
    proof {
        assert(views_of(parts@) == split_spec(s@, '.'));
    }
    if parts.len() != 4 {
        return None;
    }
    proof {
        assert(parts@[0]@ == split_spec(s@, '.')[0]);
        assert(parts@[1]@ == split_spec(s@, '.')[1]);
        assert(parts@[2]@ == split_spec(s@, '.')[2]);
        assert(parts@[3]@ == split_spec(s@, '.')[3]);
    }
    let a = match parse_octet(parts[0].as_slice()) {
        Some(v) => v,
        None => {
            return None;
        },
    };
    let b = match parse_octet(parts[1].as_slice()) {
        Some(v) => v,
        None => {
            return None;
        },
    };
    let c = match parse_octet(parts[2].as_slice()) {
        Some(v) => v,
        None => {
            return None;
        },
    };
    let d = match parse_octet(parts[3].as_slice()) {
        Some(v) => v,
        None => {
            return None;
        },
    };
    Some(IpAddr::V4(a, b, c, d))
}

/// Hexadecimal digit test, upper or lower case.
pub open spec fn is_hex(c: char) -> bool {
    ('0' <= c && c <= '9') || ('a' <= c && c <= 'f') || ('A' <= c && c <= 'F')
}

pub open spec fn hex_digit_val(c: char) -> int {
    if '0' <= c && c <= '9' {
        c as int - '0' as int
    } else if 'a' <= c && c <= 'f' {
        c as int - 'a' as int + 10
    } else {
        c as int - 'A' as int + 10
    }
}

pub open spec fn all_hex(s: Seq<char>) -> bool {
    forall|j: int| 0 <= j < s.len() ==> is_hex(s[j])
}

/// Value of a run of hexadecimal digits, most significant first.
pub open spec fn hex_val(s: Seq<char>) -> int
    decreases s.len(),
{
    if s.len() == 0 {
        0
    } else {
        hex_val(s.subrange(0, s.len() - 1)) * 16 + hex_digit_val(s[s.len() - 1])
    }
}

/// A well-formed colon group: one to four hexadecimal digits.
pub open spec fn hex_group_ok(p: Seq<char>) -> bool {
    1 <= p.len() <= 4 && all_hex(p)
}

proof fn lemma_hex_val_small(s: Seq<char>)
    requires
        all_hex(s),
        s.len() <= 4,
    ensures
        0 <= hex_val(s) <= 0xffff,
    decreases s.len(),
{
    reveal_with_fuel(pow16, 5);
    lemma_hex_val_small_n(s, 4);
}

proof fn lemma_hex_val_small_n(s: Seq<char>, n: nat)
    requires
        all_hex(s),
        s.len() <= n,
        n <= 4,
    ensures
        0 <= hex_val(s),
        hex_val(s) < pow16(n),
    decreases s.len(),
{
    reveal_with_fuel(pow16, 5);
    if s.len() == 0 {
        lemma_pow16_pos(n);
    } else {
        let pre = s.subrange(0, s.len() - 1);
        assert(all_hex(pre));
        lemma_hex_val_small_n(pre, (n - 1) as nat);
        assert(hex_val(pre) <= pow16((n - 1) as nat) - 1);
        assert(hex_val(pre) * 16 <= (pow16((n - 1) as nat) - 1) * 16) by (nonlinear_arith)
            requires
                hex_val(pre) <= pow16((n - 1) as nat) - 1,
        ;
    }
}

spec fn pow16(n: nat) -> int
    decreases n,
{
    if n == 0 {
        1
    } else {
        16 * pow16((n - 1) as nat)
    }
}

proof fn lemma_pow16_pos(n: nat)
    ensures
        pow16(n) >= 1,
    decreases n,
{
    if n > 0 {
        lemma_pow16_pos((n - 1) as nat);
    }
}

/// Parse one colon group.
fn parse_hex_group(p: &[char]) -> (r: Option<u16>)
    ensures
        r is Some <==> hex_group_ok(p@),
        r is Some ==> r->0 == hex_val(p@),
{
    if p.len() == 0 || p.len() > 4 {
        return None;
    }
    let mut v: u32 = 0;
    let mut i: usize = 0;
    while i < p.len()
        invariant
            i <= p@.len(),
            p@.len() <= 4,
            forall|j: int| 0 <= j < i ==> is_hex(p@[j]),
            v == hex_val(p@.subrange(0, i as int)),
            v <= 0xffff,
        decreases p@.len() - i,
    {
        let c = p[i];
        let d: u32 = if c >= '0' && c <= '9' {
            c as u32 - 48
        } else if c >= 'a' && c <= 'f' {
            c as u32 - 97 + 10
        } else if c >= 'A' && c <= 'F' {
            c as u32 - 65 + 10
        } else {
            return None;
        };
        proof {
            assert(p@.subrange(0, i as int) =~= p@.subrange(0, i + 1).subrange(0, i as int));
            lemma_hex_val_small(p@.subrange(0, i as int));
        }
        v = v * 16 + d;
        i = i + 1;
        proof {
            lemma_hex_val_small(p@.subrange(0, i as int));
        }
    }
    proof {
        assert(p@.subrange(0, p@.len() as int) =~= p@);
    }
    Some(v as u16)
}

/// The group values of colon-separated parts, each a plain hex group.
pub open spec fn plain_groups(parts: Seq<Seq<char>>) -> Option<Seq<int>>
    decreases parts.len(),
{
    if parts.len() == 0 {
        Some(Seq::<int>::empty())
    } else {
        match plain_groups(parts.drop_last()) {
            Some(g) => if hex_group_ok(parts.last()) {
                Some(g.push(hex_val(parts.last())))
            } else {
                None
            },
            None => None,
        }
    }
}

/// The group values of colon-separated parts where the last part may be a
/// dotted quad, standing for two groups.
pub open spec fn tail_groups(parts: Seq<Seq<char>>) -> Option<Seq<int>> {
    if parts.len() == 0 {
        Some(Seq::<int>::empty())
    } else if first_index(parts.last(), '.') < parts.last().len() {
        match (plain_groups(parts.drop_last()), ipv4_spec(parts.last())) {
            (Some(g), Some(ip)) => match ip {
                IpAddr::V4(a, b, c, d) => Some(
                    g.push(a as int * 256 + b as int).push(c as int * 256 + d as int),
                ),
                IpAddr::V6(s0, s1, s2, s3, s4, s5, s6, s7) => None,
            },
            _ => None,
        }
    } else {
        plain_groups(parts)
    }
}

/// Index of the first `::`, or the length when there is none.
pub open spec fn dcolon_index(s: Seq<char>) -> int
    decreases s.len(),
{
    if s.len() < 2 {
        s.len() as int
    } else if s[0] == ':' && s[1] == ':' {
        0
    } else {
        1 + dcolon_index(s.subrange(1, s.len() as int))
    }
}

proof fn lemma_dcolon_index(s: Seq<char>)
    ensures
        0 <= dcolon_index(s) <= s.len(),
        dcolon_index(s) < s.len() ==> dcolon_index(s) + 1 < s.len() && s[dcolon_index(s)] == ':'
            && s[dcolon_index(s) + 1] == ':',
        forall|j: int|
            0 <= j < dcolon_index(s) && j + 1 < s.len() ==> !(#[trigger] s[j] == ':' && s[j + 1]
                == ':'),
    decreases s.len(),
{
    if s.len() < 2 {
    } else if s[0] == ':' && s[1] == ':' {
    } else {
        let sub = s.subrange(1, s.len() as int);
        lemma_dcolon_index(sub);
        assert forall|j: int|
            0 <= j < dcolon_index(s) && j + 1 < s.len() implies !(#[trigger] s[j] == ':' && s[j
            + 1] == ':') by {
            if j > 0 {
                assert(s[j] == sub[j - 1]);
                assert(s[j + 1] == sub[j]);
            }
        }
        if dcolon_index(s) < s.len() {
            assert(s[dcolon_index(s)] == sub[dcolon_index(s) - 1]);
            assert(s[dcolon_index(s) + 1] == sub[dcolon_index(s)]);
        }
    }
}

/// The groups of a colon-hex numeral: with a `::` the left and right parts
/// join over a run of zero groups; without one there must be exactly eight.
pub open spec fn ipv6_groups(s: Seq<char>) -> Option<Seq<int>> {
    let d = dcolon_index(s);
    if d < s.len() {
        let left = s.subrange(0, d);
        let right = s.subrange(d + 2, s.len() as int);
        let lg = if left.len() == 0 {
            Some(Seq::<int>::empty())
        } else {
            plain_groups(split_spec(left, ':'))
        };
        let rg = if right.len() == 0 {
            Some(Seq::<int>::empty())
        } else {
            tail_groups(split_spec(right, ':'))
        };
        match (lg, rg) {
            (Some(l), Some(r)) => if l.len() + r.len() <= 7 {
                Some(l + zero_groups((8 - l.len() - r.len()) as nat) + r)
            } else {
                None
            },
            _ => None,
        }
    } else {
        match tail_groups(split_spec(s, ':')) {
            Some(g) => if g.len() == 8 {
                Some(g)
            } else {
                None
            },
            None => None,
        }
    }
}

pub open spec fn zero_groups(n: nat) -> Seq<int> {
    Seq::<int>::new(n, |i: int| 0)
}

/// The address denoted by a colon-hex numeral, if well formed.
pub open spec fn ipv6_spec(s: Seq<char>) -> Option<IpAddr> {
    match ipv6_groups(s) {
        Some(g) => Some(
            IpAddr::V6(
                g[0] as u16,
                g[1] as u16,
                g[2] as u16,
                g[3] as u16,
                g[4] as u16,
                g[5] as u16,
                g[6] as u16,
                g[7] as u16,
            ),
        ),
        None => None,
    }
}

/// The address denoted by a string: a dotted quad, or a colon-hex numeral.
pub open spec fn parse_ip_spec(s: Seq<char>) -> Option<IpAddr> {
    if ipv4_spec(s) is Some {
        ipv4_spec(s)
    } else {
        ipv6_spec(s)
    }
}

/// Parse the plain groups of a list of parts.
fn parse_plain_groups(parts: &[Vec<char>]) -> (r: Option<Vec<u16>>)
    ensures
        r is Some <==> plain_groups(views_of(parts@)) is Some,
        r is Some ==> r->0@.map_values(|g: u16| g as int) == plain_groups(views_of(parts@))->0,
{
    let mut out: Vec<u16> = Vec::new();
    let mut i: usize = 0;
    proof {
        assert(views_of(parts@).subrange(0, 0) =~= Seq::<Seq<char>>::empty());
        assert(out@.map_values(|g: u16| g as int) =~= Seq::<int>::empty());
    }
    while i < parts.len()
        invariant
            i <= parts@.len(),
            plain_groups(views_of(parts@).subrange(0, i as int)) is Some,
            out@.map_values(|g: u16| g as int) == plain_groups(
                views_of(parts@).subrange(0, i as int),
            )->0,
        decreases parts@.len() - i,
    {
        let g = match parse_hex_group(parts[i].as_slice()) {
            Some(g) => g,
            None => {
                proof {
                    lemma_plain_groups_prefix_fail(views_of(parts@), i as int);
                }
                return None;
            },
        };
        out.push(g);
        i = i + 1;
        proof {
            let vs = views_of(parts@);
            let cur = vs.subrange(0, i as int);
            assert(cur.drop_last() =~= vs.subrange(0, i - 1));
            assert(cur.last() == vs[i - 1]);
            assert(out@.map_values(|g2: u16| g2 as int) =~= plain_groups(cur)->0);
        }
    }
    proof {
        assert(views_of(parts@).subrange(0, parts@.len() as int) =~= views_of(parts@));
    }
    Some(out)
}

/// A failing prefix makes the whole list fail.
proof fn lemma_plain_groups_prefix_fail(vs: Seq<Seq<char>>, i: int)
    requires
        0 <= i < vs.len(),
        !hex_group_ok(vs[i]),
    ensures
        plain_groups(vs) is None,
    decreases vs.len(),
{
    if vs.len() > 0 {
        if i == vs.len() - 1 {
            assert(vs.last() == vs[i]);
        } else {
            assert(vs.drop_last()[i] == vs[i]);
            lemma_plain_groups_prefix_fail(vs.drop_last(), i);
        }
    }
}

/// Parse the tail parts, allowing a trailing dotted quad.
fn parse_tail_groups(parts: &[Vec<char>]) -> (r: Option<Vec<u16>>)
    requires
        parts@.len() >= 1,
    ensures
        r is Some <==> tail_groups(views_of(parts@)) is Some,
        r is Some ==> r->0@.map_values(|g: u16| g as int) == tail_groups(views_of(parts@))->0,
{
    let n = parts.len();
    let last = parts[n - 1].as_slice();
    let dot = find_char(last, 0, '.');
    proof {
        lemma_first_index(last@, '.');
        if dot < last@.len() {
            lemma_first_index_unique(last@, '.', dot as int);
        } else {
            lemma_first_index_unique(last@, '.', last@.len() as int);
        }
        assert(views_of(parts@).last() == parts@[parts@.len() - 1]@);
    }
    if dot < last.len() {
        let front = match parse_plain_groups(&parts[0..n - 1]) {
            Some(f) => f,
            None => {
                proof {
                    assert(views_of(parts@.subrange(0, parts@.len() - 1)) =~= views_of(
                        parts@,
                    ).drop_last());
                }
                return None;
            },
        };
        proof {
            assert(views_of(parts@.subrange(0, parts@.len() - 1)) =~= views_of(parts@).drop_last());
        }
        match parse_ipv4(last) {
            Some(ip) => match ip {
                IpAddr::V4(a, b, c, d) => {
                    let mut out = front;
                    out.push(a as u16 * 256 + b as u16);
                    out.push(c as u16 * 256 + d as u16);
                    proof {
                        assert(out@.map_values(|g: u16| g as int) =~= tail_groups(
                            views_of(parts@),
                        )->0);
                    }
                    Some(out)
                },
                IpAddr::V6(s0, s1, s2, s3, s4, s5, s6, s7) => None,
            },
            None => None,
        }
    } else {
        parse_plain_groups(parts)
    }
}

/// Parse a colon-hex IPv6 numeral.
pub fn parse_ipv6(s: &[char]) -> (r: Option<IpAddr>)
    ensures
        r == ipv6_spec(s@),
{
    let mut d: usize = 0;
    let mut found = false;
    if s.len() >= 2 {
        while d < s.len() - 1 && !(s[d] == ':' && s[d + 1] == ':')
            invariant
                s@.len() >= 2,
                d <= s@.len() - 1,
                forall|j: int|
                    0 <= j < d && j + 1 < s@.len() ==> !(#[trigger] s@[j] == ':' && s@[j + 1]
                        == ':'),
            decreases s@.len() - d,
        {
            d = d + 1;
        }
        found = d < s.len() - 1;
    }
    proof {
        lemma_dcolon_index(s@);
        lemma_dcolon_unique(s@, d as int, found);
    }
    if found {
        let left = &s[0..d];
        let right = &s[d + 2..s.len()];
        let lg: Vec<u16> = if left.len() == 0 {
            Vec::new()
        } else {
            let lparts = split(left, ':');
            match parse_plain_groups(lparts.as_slice()) {
                Some(g) => g,
                None => {
                    return None;
                },
            }
        };
        let rg: Vec<u16> = if right.len() == 0 {
            Vec::new()
        } else {
            let rparts = split(right, ':');
            match parse_tail_groups(rparts.as_slice()) {
                Some(g) => g,
                None => {
                    return None;
                },
            }
        };
        if lg.len() > 7 {
            return None;
        }
        if rg.len() > 7 - lg.len() {
            return None;
        }
        let mut groups: Vec<u16> = Vec::new();
        let mut i: usize = 0;
        while i < lg.len()
            invariant
                i <= lg@.len(),
                groups@ == lg@.subrange(0, i as int),
            decreases lg@.len() - i,
        {
            groups.push(lg[i]);
            i = i + 1;
            proof {
                assert(groups@ =~= lg@.subrange(0, i as int));
            }
        }
        let zeros = 8 - lg.len() - rg.len();
        let mut z: usize = 0;
        while z < zeros
            invariant
                z <= zeros,
                zeros == 8 - lg@.len() - rg@.len(),
                lg@.len() + rg@.len() <= 7,
                groups@.len() == lg@.len() + z,
                groups@.subrange(0, lg@.len() as int) == lg@,
                forall|k: int| lg@.len() <= k < groups@.len() ==> groups@[k] == 0,
            decreases zeros - z,
        {
            groups.push(0);
            z = z + 1;
            proof {
                assert(groups@.subrange(0, lg@.len() as int) =~= lg@);
            }
        }
        let mut j: usize = 0;
        while j < rg.len()
            invariant
                j <= rg@.len(),
                groups@.len() == lg@.len() + (8 - lg@.len() - rg@.len()) + j,
                lg@.len() + rg@.len() <= 7,
                groups@.subrange(0, lg@.len() as int) == lg@,
                forall|k: int|
                    lg@.len() <= k < groups@.len() - j ==> groups@[k] == 0,
                groups@.subrange(groups@.len() - j, groups@.len() as int)
                    == rg@.subrange(0, j as int),
            decreases rg@.len() - j,
        {
            groups.push(rg[j]);
            j = j + 1;
            proof {
                assert(groups@.subrange(0, lg@.len() as int) =~= lg@);
                assert(groups@.subrange(groups@.len() - j, groups@.len() as int) =~= rg@.subrange(
                    0,
                    j as int,
                ));
            }
        }
        proof {
            lemma_groups_assembled(groups@, lg@, rg@, s@, d as int);
            let gm = groups@.map_values(|x: u16| x as int);
            let lm = lg@.map_values(|x: u16| x as int);
            let rm = rg@.map_values(|x: u16| x as int);
            if lg@.len() == 0 {
                assert(lm =~= Seq::<int>::empty());
            }
            if rg@.len() == 0 {
                assert(rm =~= Seq::<int>::empty());
            }
            assert(ipv6_groups(s@) == Some(gm));
            assert(groups@.len() == 8);
            assert forall|k: int| 0 <= k < 8 implies (gm[k] as u16) == groups@[k] by {
                assert(gm[k] == groups@[k] as int);
            }
        }
        Some(IpAddr::V6(
            groups[0],
            groups[1],
            groups[2],
            groups[3],
            groups[4],
            groups[5],
            groups[6],
            groups[7],
        ))
    } else {
        let parts = split(s, ':');
        let g = match parse_tail_groups(parts.as_slice()) {
            Some(g) => g,
            None => {
                return None;
            },
        };
        if g.len() != 8 {
            return None;
        }
        proof {
            let gm = g@.map_values(|x: u16| x as int);
            assert(gm.len() == 8);
            assert(ipv6_groups(s@) == Some(gm));
            assert forall|k: int| 0 <= k < 8 implies (gm[k] as u16) == g@[k] by {
                assert(gm[k] == g@[k] as int);
            }
        }
        Some(IpAddr::V6(g[0], g[1], g[2], g[3], g[4], g[5], g[6], g[7]))
    }
}

/// The scanned double-colon position agrees with the defined one.
proof fn lemma_dcolon_unique(s: Seq<char>, d: int, found: bool)
    requires
        found ==> 0 <= d && d + 1 < s.len() && s[d] == ':' && s[d + 1] == ':' && forall|j: int|
            0 <= j < d && j + 1 < s.len() ==> !(#[trigger] s[j] == ':' && s[j + 1] == ':'),
        !found ==> forall|j: int|
            0 <= j && j + 1 < s.len() ==> !(#[trigger] s[j] == ':' && s[j + 1] == ':'),
    ensures
        found ==> dcolon_index(s) == d,
        !found ==> dcolon_index(s) == s.len(),
{
    lemma_dcolon_index(s);
    let di = dcolon_index(s);
    if found {
        if di < d {
            assert(s[di] == ':' && s[di + 1] == ':');
        } else if di > d {
            assert(!(s[d] == ':' && s[d + 1] == ':'));
        }
    } else {
        if di < s.len() {
            assert(!(s[di] == ':' && s[di + 1] == ':'));
        }
    }
}

/// The assembled group vector is the defined joining of left groups, a zero
/// run, and right groups.
proof fn lemma_groups_assembled(gs: Seq<u16>, lg: Seq<u16>, rg: Seq<u16>, s: Seq<char>, d: int)
    requires
        lg.len() + rg.len() <= 7,
        gs.len() == 8,
        gs.subrange(0, lg.len() as int) == lg,
        forall|k: int| lg.len() <= k < 8 - rg.len() ==> gs[k] == 0,
        gs.subrange(8 - rg.len(), 8) == rg.subrange(0, rg.len() as int),
    ensures
        gs.map_values(|x: u16| x as int) =~= lg.map_values(|x: u16| x as int) + zero_groups(
            (8 - lg.len() - rg.len()) as nat,
        ) + rg.map_values(|x: u16| x as int),
{
    assert(rg.subrange(0, rg.len() as int) =~= rg);
    let target = lg.map_values(|x: u16| x as int) + zero_groups((8 - lg.len() - rg.len()) as nat)
        + rg.map_values(|x: u16| x as int);
    assert forall|k: int| 0 <= k < 8 implies gs.map_values(|x: u16| x as int)[k] == target[k] by {
        if k < lg.len() {
            assert(gs[k] == gs.subrange(0, lg.len() as int)[k]);
        } else if k < 8 - rg.len() {
        } else {
            assert(gs[k] == gs.subrange(8 - rg.len(), 8)[k - (8 - rg.len())]);
            assert(gs.subrange(8 - rg.len(), 8)[k - (8 - rg.len())] == rg[k - (8 - rg.len())]);
        }
    }
}

/// Parse an IP address given as characters: a dotted quad or colon-hex.
pub fn parse_ip_chars(s: &[char]) -> (r: Option<IpAddr>)
    ensures
        r == parse_ip_spec(s@),
{
    match parse_ipv4(s) {
        Some(ip) => Some(ip),
        None => parse_ipv6(s),
    }
}

/// Parse an IP address from a string.
pub fn parse_ip(s: &str) -> (r: Option<IpAddr>)
    ensures
        r == parse_ip_spec(s@),
{
    let cs = crate::strutil::chars_of(s);
    parse_ip_chars(cs.as_slice())
}

/// The public addresses written in one header value: comma-separated
/// entries, trimmed, those that parse and are public, in order.
pub open spec fn publics_of_parts(parts: Seq<Seq<char>>) -> Seq<IpAddr>
    decreases parts.len(),
{
    if parts.len() == 0 {
        Seq::<IpAddr>::empty()
    } else {
        let head = match parse_ip_spec(trim_spec(parts[0])) {
            Some(ip) => if is_public_spec(ip) {
                seq![ip]
            } else {
                Seq::<IpAddr>::empty()
            },
            None => Seq::<IpAddr>::empty(),
        };
        head + publics_of_parts(parts.subrange(1, parts.len() as int))
    }
}

pub open spec fn value_publics(v: Seq<char>) -> Seq<IpAddr> {
    publics_of_parts(split_spec(v, ','))
}

/// The public addresses written in a list of header values, in order.
pub open spec fn header_publics(vals: Seq<Seq<char>>) -> Seq<IpAddr>
    decreases vals.len(),
{
    if vals.len() == 0 {
        Seq::<IpAddr>::empty()
    } else {
        value_publics(vals[0]) + header_publics(vals.subrange(1, vals.len() as int))
    }
}

/// The client address of a request: the peer when it is public; else the
/// first public address of the `CF-Connecting-IP` values; else the first
/// public address of the `X-Forwarded-For` values; else the peer, even
/// local; with no peer at all, nothing.
pub open spec fn client_ip_spec(
    peer: Option<IpAddr>,
    cf: Seq<Seq<char>>,
    xff: Seq<Seq<char>>,
) -> Option<IpAddr> {
    if peer is Some && is_public_spec(peer->0) {
        peer
    } else if header_publics(cf).len() > 0 {
        Some(header_publics(cf)[0])
    } else if header_publics(xff).len() > 0 {
        Some(header_publics(xff)[0])
    } else {
        peer
    }
}

/// The resolved client address of one request.
#[derive(Debug, Clone, Copy, PartialEq, Eq, Structural)]
pub struct ClientIP(pub IpAddr);

impl ClientIP {
    /// The address itself.
    pub fn ip(&self) -> (r: IpAddr)
        ensures
            r == self.0,
    {
        self.0
    }

    /// Choose the client address from the peer address and the proxy
    /// header values, most trusted first.
    pub fn from_request(
        peer: Option<IpAddr>,
        cf: &Vec<String>,
        xff: &Vec<String>,
    ) -> (r: Option<ClientIP>)
        ensures
            r is Some <==> client_ip_spec(
                peer,
                crate::strutil::str_views(cf@),
                crate::strutil::str_views(xff@),
            ) is Some,
            r is Some ==> (r->0).0 == client_ip_spec(
                peer,
                crate::strutil::str_views(cf@),
                crate::strutil::str_views(xff@),
            )->0,
    {
        match peer {
            Some(p) => {
                if is_public_ip(&p) {
                    return Some(ClientIP(p));
                }
            },
            None => {},
        }
        match first_public_of_values(cf) {
            Some(ip) => {
                return Some(ClientIP(ip));
            },
            None => {},
        }
        match first_public_of_values(xff) {
            Some(ip) => {
                return Some(ClientIP(ip));
            },
            None => {},
        }
        match peer {
            Some(p) => Some(ClientIP(p)),
            None => None,
        }
    }
}

/// The first public address among a list of header values.
fn first_public_of_values(vals: &Vec<String>) -> (r: Option<IpAddr>)
    ensures
        r is Some <==> header_publics(crate::strutil::str_views(vals@)).len() > 0,
        r is Some ==> r->0 == header_publics(crate::strutil::str_views(vals@))[0],
{
    let ghost whole = crate::strutil::str_views(vals@);
    let mut i: usize = 0;
    proof {
        assert(whole.subrange(0, whole.len() as int) =~= whole);
    }
    while i < vals.len()
        invariant
            i <= vals@.len(),
            whole == crate::strutil::str_views(vals@),
            header_publics(whole) == header_publics(
                whole.subrange(i as int, whole.len() as int),
            ),
        decreases vals@.len() - i,
    {
        let cs = crate::strutil::chars_of(vals[i].as_str());
        let parts = split(cs.as_slice(), ',');
        let ghost sparts = split_spec(whole[i as int], ',');
        let ghost tail_vals = whole.subrange(i + 1, whole.len() as int);
        proof {
            let suffix = whole.subrange(i as int, whole.len() as int);
            assert(suffix[0] == whole[i as int]);
            assert(suffix.subrange(1, suffix.len() as int) =~= tail_vals);
            assert(header_publics(suffix) == value_publics(whole[i as int]) + header_publics(
                tail_vals,
            ));
            assert(sparts.subrange(0, sparts.len() as int) =~= sparts);
        }
        let mut j: usize = 0;
        proof {
            assert(header_publics(whole) == publics_of_parts(sparts) + header_publics(tail_vals));
        }
        while j < parts.len()
            invariant
                j <= parts@.len(),
                i < vals@.len(),
                whole == crate::strutil::str_views(vals@),
                tail_vals == whole.subrange(i + 1, whole.len() as int),
                views_of(parts@) == sparts,
                header_publics(whole) == publics_of_parts(
                    sparts.subrange(j as int, sparts.len() as int),
                ) + header_publics(tail_vals),
            decreases parts@.len() - j,
        {
            let part = trim(parts[j].as_slice());
            let ghost suffix_parts = sparts.subrange(j as int, sparts.len() as int);
            proof {
                assert(suffix_parts[0] == sparts[j as int]);
                assert(parts@[j as int]@ == sparts[j as int]);
                assert(suffix_parts.subrange(1, suffix_parts.len() as int) =~= sparts.subrange(
                    j + 1,
                    sparts.len() as int,
                ));
            }
            match parse_ip_chars(part.as_slice()) {
                Some(ip) => {
                    if is_public_ip(&ip) {
                        proof {
                            assert(publics_of_parts(suffix_parts) == seq![ip]
                                + publics_of_parts(
                                sparts.subrange(j + 1, sparts.len() as int),
                            ));
                            assert(header_publics(whole)[0] == ip);
                        }
                        return Some(ip);
                    }
                },
                None => {},
            }
            j = j + 1;
        }
        i = i + 1;
        proof {
            assert(sparts.subrange(sparts.len() as int, sparts.len() as int) =~= Seq::<
                Seq<char>,
            >::empty());
            assert(publics_of_parts(Seq::<Seq<char>>::empty()) + header_publics(tail_vals)
                =~= header_publics(tail_vals));
            assert(header_publics(whole) == header_publics(
                whole.subrange(i as int, whole.len() as int),
            ));
        }
    }
    proof {
        assert(whole.subrange(vals@.len() as int, whole.len() as int) =~= Seq::<Seq<char>>::empty());
    }
    None
}

} // verus!
