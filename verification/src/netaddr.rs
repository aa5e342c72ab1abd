use crate::invite::{ipv4_addr_spec, parse_ipv4_addr_chars, port_at, port_spec};
use crate::text::{all_digits, digits_value, is_ascii_digit, is_digit, parse_decimal};
use vstd::prelude::*;

verus! {

// ---------------------------------------------------------------------------
// IPv6 addresses in text, as the standard library's address parser reads them
// ---------------------------------------------------------------------------

pub open spec fn is_hex_char(c: char) -> bool {
    let u = c as u32;
    (48 <= u <= 57) || (97 <= u <= 102) || (65 <= u <= 70)
}

/// One to four hexadecimal digits.
pub open spec fn is_hex_group(p: Seq<char>) -> bool {
    1 <= p.len() <= 4 && forall|i: int| 0 <= i < p.len() ==> is_hex_char(#[trigger] p[i])
}

/// Reading `s` from the left: the pieces closed by a `:` so far and the piece being read.
pub open spec fn colon_state(s: Seq<char>) -> (Seq<Seq<char>>, Seq<char>)
    decreases s.len(),
{
    if s.len() == 0 {
        (seq![], seq![])
    } else {
        let (done, cur) = colon_state(s.drop_last());
        if s.last() == ':' {
            (done.push(cur), seq![])
        } else {
            (done, cur.push(s.last()))
        }
    }
}

/// The pieces of `s` between colons, empty ones kept.
pub open spec fn colon_pieces(s: Seq<char>) -> Seq<Seq<char>> {
    colon_state(s).0.push(colon_state(s).1)
}

pub open spec fn all_hex(ps: Seq<Seq<char>>) -> bool {
    forall|i: int| 0 <= i < ps.len() ==> is_hex_group(#[trigger] ps[i])
}

/// How many 16-bit groups a run of pieces fills: hexadecimal groups, of which the last may
/// instead be an IPv4 address filling two.
pub open spec fn run_width(ps: Seq<Seq<char>>) -> Option<nat> {
    if all_hex(ps) {
        Some(ps.len())
    } else if ps.len() > 0 && all_hex(ps.drop_last()) && ipv4_addr_spec(ps.last()) is Some {
        Some(ps.len() + 1)
    } else {
        None
    }
}

pub open spec fn is_double_colon_at(s: Seq<char>, i: int) -> bool {
    0 <= i && i + 1 < s.len() && s[i] == ':' && s[i + 1] == ':'
}

pub open spec fn first_double_colon(s: Seq<char>) -> Option<int> {
    if exists|i: int| is_double_colon_at(s, i) && forall|j: int| 0 <= j < i ==> !is_double_colon_at(s, j) {
        Some(choose|i: int| is_double_colon_at(s, i) && forall|j: int| 0 <= j < i ==> !is_double_colon_at(s, j))
    } else {
        None
    }
}

/// An IPv6 address as `Ipv6Addr::from_str` accepts it: eight groups, or fewer around one
/// `::` that stands for at least one zero group; an IPv4 address may end the address in
/// place of the last two groups, but not before the `::`.
pub open spec fn ipv6_text(s: Seq<char>) -> bool {
    match first_double_colon(s) {
        None => run_width(colon_pieces(s)) == Some(8nat),
        Some(k) => {
            let head = s.take(k);
            let tail = s.skip(k + 2);
            let hw: Option<nat> = if head.len() == 0 {
                Some(0nat)
            } else if all_hex(colon_pieces(head)) {
                Some(colon_pieces(head).len())
            } else {
                None
            };
            let tw: Option<nat> = if tail.len() == 0 {
                Some(0nat)
            } else {
                run_width(colon_pieces(tail))
            };
            match (hw, tw) {
                (Some(h), Some(t)) => h + t <= 7,
                _ => false,
            }
        },
    }
}

pub open spec fn pieces_view(v: Seq<Vec<char>>) -> Seq<Seq<char>> {
    v.map_values(|p: Vec<char>| p@)
}

fn colon_pieces_exec(s: &[char]) -> (r: Vec<Vec<char>>)
    ensures
        pieces_view(r@) == colon_pieces(s@),
{
    let mut done: Vec<Vec<char>> = Vec::new();
    let mut cur: Vec<char> = Vec::new();
    let mut i: usize = 0;
    while i < s.len()
        invariant
            i <= s.len(),
            (pieces_view(done@), cur@) == colon_state(s@.take(i as int)),
        decreases s.len() - i,
    {
        assert(s@.take(i + 1).drop_last() =~= s@.take(i as int));
        assert(s@.take(i + 1).last() == s@[i as int]);
        if s[i] == ':' {
            let piece = cur;
            cur = Vec::new();
            let ghost before = done@;
            done.push(piece);
            assert(pieces_view(done@) =~= pieces_view(before).push(piece@));
            assert(cur@ =~= seq![]);
        } else {
            cur.push(s[i]);
        }
        i += 1;
    }
    assert(s@.take(s.len() as int) =~= s@);
    let ghost before = done@;
    let last = cur;
    done.push(last);
    assert(pieces_view(done@) =~= pieces_view(before).push(last@));
    done
}

fn hex_char(c: char) -> (r: bool)
    ensures
        r == is_hex_char(c),
{
    let u = c as u32;
    (48 <= u && u <= 57) || (97 <= u && u <= 102) || (65 <= u && u <= 70)
}

fn hex_group(p: &Vec<char>) -> (r: bool)
    ensures
        r == is_hex_group(p@),
{
    if p.len() < 1 || p.len() > 4 {
        return false;
    }
    let mut i: usize = 0;
    while i < p.len()
        invariant
            i <= p.len(),
            forall|k: int| 0 <= k < i ==> is_hex_char(#[trigger] p@[k]),
        decreases p.len() - i,
    {
        if !hex_char(p[i]) {
            return false;
        }
        i += 1;
    }
    true
}

/// Whether the first `n` pieces are all hexadecimal groups.
fn all_hex_upto(ps: &Vec<Vec<char>>, n: usize) -> (r: bool)
    requires
        n <= ps.len(),
    ensures
        r == all_hex(pieces_view(ps@).take(n as int)),
{
    let ghost pv = pieces_view(ps@);
    let mut i: usize = 0;
    while i < n
        invariant
            i <= n <= ps.len(),
            pv == pieces_view(ps@),
            all_hex(pv.take(i as int)),
        decreases n - i,
    {
        assert(pv.take(n as int)[i as int] == ps@[i as int]@);
        if !hex_group(&ps[i]) {
            return false;
        }
        i += 1;
        assert(all_hex(pv.take(i as int))) by {
            assert forall|k: int| 0 <= k < i implies is_hex_group(#[trigger] pv.take(i as int)[k]) by {
                if k < i - 1 {
                    assert(pv.take(i as int)[k] == pv.take(i - 1)[k]);
                }
            }
        }
    }
    true
}

/// The run's pieces as counted by `run_width`: their number, and whether an IPv4 address
/// ends the run (filling one group more).
fn run_width_exec(ps: &Vec<Vec<char>>) -> (r: Option<(usize, bool)>)
    ensures
        match r {
            Some((n, v4)) => n == ps.len() && run_width(pieces_view(ps@)) == Some(
                (n + if v4 {
                    1nat
                } else {
                    0nat
                }) as nat,
            ),
            None => run_width(pieces_view(ps@)) is None,
        },
{
    let ghost pv = pieces_view(ps@);
    let n = ps.len();
    assert(pv.len() == n);
    assert(pv.take(n as int) =~= pv);
    if all_hex_upto(ps, n) {
        return Some((n, false));
    }
    if n == 0 {
        return None;
    }
    assert(pv.take(n - 1) =~= pv.drop_last());
    if !all_hex_upto(ps, n - 1) {
        return None;
    }
    assert(pv.last() == ps@[n - 1]@);
    match parse_ipv4_addr_chars(ps[n - 1].as_slice()) {
        Some(_) => Some((n, true)),
        None => None,
    }
}

fn first_double_colon_exec(s: &[char]) -> (r: Option<usize>)
    ensures
        match r {
            Some(k) => first_double_colon(s@) == Some(k as int) && k + 1 < s.len(),
            None => first_double_colon(s@) is None,
        },
{
    if s.len() < 2 {
        return None;
    }
    let mut i: usize = 0;
    while i < s.len() - 1
        invariant
            s.len() >= 2,
            forall|j: int| 0 <= j < i ==> !is_double_colon_at(s@, j),
        decreases s.len() - i,
    {
        if s[i] == ':' && s[i + 1] == ':' {
            assert(is_double_colon_at(s@, i as int));
            proof {
                let c = choose|c: int| is_double_colon_at(s@, c) && forall|j: int| 0 <= j < c ==> !is_double_colon_at(s@, j);
                if c < i {
                    assert(!is_double_colon_at(s@, c));
                }
                if c > i {
                    assert(!is_double_colon_at(s@, i as int));
                }
            }
            return Some(i);
        }
        i += 1;
    }
    assert forall|j: int| #![auto] is_double_colon_at(s@, j) implies j < i by {}
    None
}

/// Whether the text is an IPv6 address (see `ipv6_text`).
pub fn is_ipv6_addr(s: &[char]) -> (r: bool)
    ensures
        r == ipv6_text(s@),
{
    match first_double_colon_exec(s) {
        None => {
            let ps = colon_pieces_exec(s);
            match run_width_exec(&ps) {
                Some((n, v4)) => (n == 8 && !v4) || (n == 7 && v4),
                None => false,
            }
        },
        Some(k) => {
            let head = crate::text::sub_chars(s, 0, k);
            let tail = crate::text::sub_chars(s, k + 2, s.len());
            assert(head@ =~= s@.take(k as int));
            assert(tail@ =~= s@.skip(k + 2));
            let hw: Option<usize> = if head.len() == 0 {
                Some(0)
            } else {
                let hp = colon_pieces_exec(head.as_slice());
                assert(pieces_view(hp@).take(hp.len() as int) =~= pieces_view(hp@));
                if all_hex_upto(&hp, hp.len()) {
                    Some(hp.len())
                } else {
                    None
                }
            };
            let tw: Option<usize> = if tail.len() == 0 {
                Some(0)
            } else {
                let tp = colon_pieces_exec(tail.as_slice());
                match run_width_exec(&tp) {
                    Some((n, v4)) => {
                        if n > 7 {
                            None
                        } else if v4 {
                            Some(n + 1)
                        } else {
                            Some(n)
                        }
                    },
                    None => None,
                }
            };
            match (hw, tw) {
                (Some(h), Some(t)) => h <= 7 && t <= 7 - h,
                (Some(h), None) => {
                    proof {
                        let tv = colon_pieces(s@.skip(k + 2));
                        assert(tail.len() > 0 ==> (run_width(tv) is None || run_width(tv).unwrap() > 7));
                    }
                    false
                },
                _ => false,
            }
        },
    }
}

/// Only zeros among the digits: the unspecified address `::`.
pub open spec fn only_zero_digits(s: Seq<char>) -> bool {
    forall|i: int| 0 <= i < s.len() ==> (#[trigger] s[i] == '0' || s[i] == ':' || s[i] == '.')
}

fn only_zero_digits_exec(s: &[char]) -> (r: bool)
    ensures
        r == only_zero_digits(s@),
{
    let mut i: usize = 0;
    while i < s.len()
        invariant
            i <= s.len(),
            forall|k: int| 0 <= k < i ==> (#[trigger] s@[k] == '0' || s@[k] == ':' || s@[k] == '.'),
        decreases s.len() - i,
    {
        if !(s[i] == '0' || s[i] == ':' || s[i] == '.') {
            return false;
        }
        i += 1;
    }
    true
}

pub open spec fn is_first_of(s: Seq<char>, c: char, i: int) -> bool {
    0 <= i < s.len() && s[i] == c && forall|j: int| 0 <= j < i ==> s[j] != c
}

pub open spec fn first_of(s: Seq<char>, c: char) -> Option<int> {
    if exists|i: int| is_first_of(s, c, i) {
        Some(choose|i: int| is_first_of(s, c, i))
    } else {
        None
    }
}

fn first_of_exec(s: &[char], c: char) -> (r: Option<usize>)
    ensures
        match r {
            Some(i) => first_of(s@, c) == Some(i as int) && i < s.len(),
            None => first_of(s@, c) is None,
        },
{
    let mut i: usize = 0;
    while i < s.len()
        invariant
            i <= s.len(),
            forall|j: int| 0 <= j < i ==> s@[j] != c,
        decreases s.len() - i,
    {
        if s[i] == c {
            assert(is_first_of(s@, c, i as int));
            proof {
                let k = choose|k: int| is_first_of(s@, c, k);
                if k < i {
                    assert(s@[k] != c);
                }
                if k > i {
                    assert(s@[i as int] != c);
                }
            }
            return Some(i);
        }
        i += 1;
    }
    None
}

/// A zone index after `%`: decimal digits naming a `u32`.
pub open spec fn scope_spec(t: Seq<char>) -> bool {
    t.len() > 0 && all_digits(t) && digits_value(t) <= 0xFFFF_FFFF
}

fn scope_ok(t: &[char]) -> (r: bool)
    ensures
        r == scope_spec(t@),
{
    if t.len() == 0 || !is_digit(t[0]) {
        proof {
            if t.len() > 0 {
                assert(!is_ascii_digit(t@[0]));
            }
        }
        return false;
    }
    let r = parse_decimal(t, 0xFFFF_FFFF);
    assert(t@[0] != '+');
    r.is_some()
}

/// `SocketAddrV6::from_str`: `[address]:port`, an optional `%zone` after the address. Gives
/// whether the address is the unspecified one, and the port.
pub open spec fn socket_v6(s: Seq<char>) -> Option<(bool, u16)> {
    if s.len() == 0 || s[0] != '[' {
        None
    } else {
        match first_of(s, ']') {
            None => None,
            Some(c) => {
                let inner = s.subrange(1, c);
                let rest = s.skip(c + 1);
                if rest.len() == 0 || rest[0] != ':' {
                    None
                } else {
                    match port_spec(rest.skip(1)) {
                        None => None,
                        Some(port) => {
                            let addr = match first_of(inner, '%') {
                                Some(p) => inner.take(p),
                                None => inner,
                            };
                            let zone_ok = match first_of(inner, '%') {
                                Some(p) => scope_spec(inner.skip(p + 1)),
                                None => true,
                            };
                            if ipv6_text(addr) && zone_ok {
                                Some((only_zero_digits(addr), port))
                            } else {
                                None
                            }
                        },
                    }
                }
            },
        }
    }
}

pub fn parse_socket_v6(s: &[char]) -> (r: Option<(bool, u16)>)
    ensures
        r == socket_v6(s@),
{
    if s.len() == 0 || s[0] != '[' {
        return None;
    }
    let c = match first_of_exec(s, ']') {
        Some(c) => c,
        None => return None,
    };
    assert(c > 0);
    let inner = crate::text::sub_chars(s, 1, c);
    let rest = crate::text::sub_chars(s, c + 1, s.len());
    assert(rest@ =~= s@.skip(c + 1));
    if rest.len() == 0 || rest[0] != ':' {
        return None;
    }
    let port = match port_at(rest.as_slice(), 1) {
        Some(p) => p,
        None => return None,
    };
    let (addr, zone_ok) = match first_of_exec(inner.as_slice(), '%') {
        Some(p) => {
            let a = crate::text::sub_chars(inner.as_slice(), 0, p);
            let z = crate::text::sub_chars(inner.as_slice(), p + 1, inner.len());
            assert(a@ =~= inner@.take(p as int));
            assert(z@ =~= inner@.skip(p + 1));
            (a, scope_ok(z.as_slice()))
        },
        None => (crate::text::sub_chars(inner.as_slice(), 0, inner.len()), true),
    };
    proof {
        if first_of(inner@, '%') is None {
            assert(addr@ =~= inner@);
        }
    }
    if is_ipv6_addr(addr.as_slice()) && zone_ok {
        Some((only_zero_digits_exec(addr.as_slice()), port))
    } else {
        None
    }
}

} // verus!
