//! The grammar of IPv4 and IPv6 address literals, and their recognition.
use vstd::prelude::*;

use crate::text::{fields, is_dec_digit, is_hex_digit, number_at, split_fields, value_of};

verus! {

/// A decimal octet: one to three digits, no leading zero, at most 255.
pub open spec fn is_octet(t: Seq<char>) -> bool {
    &&& 1 <= t.len() <= 3
    &&& forall|i: int| 0 <= i < t.len() ==> is_dec_digit(#[trigger] t[i])
    &&& t.len() > 1 ==> t[0] != '0'
    &&& value_of(t, 10) <= 255
}

/// A group of an IPv6 literal: one to four hexadecimal digits.
pub open spec fn is_group(t: Seq<char>) -> bool {
    &&& 1 <= t.len() <= 4
    &&& forall|i: int| 0 <= i < t.len() ==> is_hex_digit(#[trigger] t[i])
}

/// The octets of a dotted-quad IPv4 literal, if `s` is one.
pub open spec fn ipv4_of(s: Seq<char>) -> Option<Seq<u8>> {
    let f = fields(s, '.');
    if f.len() == 4 && forall|i: int| 0 <= i < 4 ==> is_octet(#[trigger] f[i]) {
        Some(Seq::new(4, |i: int| value_of(f[i], 10) as u8))
    } else {
        None
    }
}

pub open spec fn all_groups(f: Seq<Seq<char>>) -> bool {
    forall|i: int| 0 <= i < f.len() ==> is_group(#[trigger] f[i])
}

pub open spec fn group_values(f: Seq<Seq<char>>) -> Seq<u16> {
    Seq::new(f.len(), |i: int| value_of(f[i], 16) as u16)
}

/// The two 16-bit segments that four octets make.
pub open spec fn octet_pairs(o: Seq<u8>) -> Seq<u16> {
    seq![(o[0] * 256 + o[1]) as u16, (o[2] * 256 + o[3]) as u16]
}

/// The segments written by colon-separated pieces: hexadecimal groups, of which
/// the last may instead be a dotted quad standing for two segments.
pub open spec fn segments_of(f: Seq<Seq<char>>) -> Option<Seq<u16>> {
    if f.len() == 0 {
        Some(Seq::<u16>::empty())
    } else if !all_groups(f.drop_last()) {
        None
    } else if is_group(f.last()) {
        Some(group_values(f))
    } else if ipv4_of(f.last()) is Some {
        Some(group_values(f.drop_last()) + octet_pairs(ipv4_of(f.last())->0))
    } else {
        None
    }
}

/// The first position at or after `i` where `::` starts.
pub open spec fn double_colon_from(s: Seq<char>, i: int) -> Option<int>
    decreases s.len() - i,
{
    if i < 0 || i + 1 >= s.len() {
        None
    } else if s[i] == ':' && s[i + 1] == ':' {
        Some(i)
    } else {
        double_colon_from(s, i + 1)
    }
}

/// The colon-separated pieces of `s`, with none for empty text.
pub open spec fn pieces(s: Seq<char>) -> Seq<Seq<char>> {
    if s.len() == 0 {
        Seq::empty()
    } else {
        fields(s, ':')
    }
}

/// The eight segments of an IPv6 literal, if `s` is one: eight groups, or
/// groups around a single `::` that stands for at least one zero segment.
pub open spec fn ipv6_of(s: Seq<char>) -> Option<Seq<u16>> {
    match double_colon_from(s, 0) {
        None => match segments_of(fields(s, ':')) {
            Some(g) => if g.len() == 8 {
                Some(g)
            } else {
                None
            },
            None => None,
        },
        Some(p) => {
            let head = pieces(s.take(p));
            let tail = segments_of(pieces(s.skip(p + 2)));
            if all_groups(head) && tail is Some && head.len() + tail->0.len() <= 7 {
                Some(
                    group_values(head) + Seq::new(
                        (8 - head.len() - tail->0.len()) as nat,
                        |i: int| 0u16,
                    ) + tail->0,
                )
            } else {
                None
            }
        },
    }
}


fn octet_at(s: &Vec<char>, a: usize, b: usize) -> (r: Option<u8>)
    requires
        a <= b <= s@.len(),
    ensures
        is_octet(s@.subrange(a as int, b as int)) <==> r is Some,
        r is Some ==> r->0 as nat == value_of(s@.subrange(a as int, b as int), 10),
{
    let ghost t = s@.subrange(a as int, b as int);
    if b == a || b - a > 3 {
        return None;
    }
    let mut i: usize = a;
    while i < b
        invariant
            a <= i <= b <= s@.len(),
            t == s@.subrange(a as int, b as int),
            forall|j: int| a <= j < i ==> is_dec_digit(#[trigger] s@[j]),
        decreases b - i,
    {
        let u = s[i] as u32;
        if u < 48 || u > 57 {
            assert(t[i - a] == s@[i as int]);
            return None;
        }
        i += 1;
    }
    assert forall|j: int| 0 <= j < t.len() implies is_dec_digit(#[trigger] t[j]) by {
        assert(t[j] == s@[a + j]);
    }
    if b - a > 1 && s[a] == '0' {
        assert(t[0] == s@[a as int]);
        return None;
    }
    let v = number_at(s, a, b, 10);
    if v > 255 {
        None
    } else {
        Some(v as u8)
    }
}

fn group_at(s: &Vec<char>, a: usize, b: usize) -> (r: Option<u16>)
    requires
        a <= b <= s@.len(),
    ensures
        is_group(s@.subrange(a as int, b as int)) <==> r is Some,
        r is Some ==> r->0 as nat == value_of(s@.subrange(a as int, b as int), 16),
{
    let ghost t = s@.subrange(a as int, b as int);
    if b == a || b - a > 4 {
        return None;
    }
    let mut i: usize = a;
    while i < b
        invariant
            a <= i <= b <= s@.len(),
            t == s@.subrange(a as int, b as int),
            forall|j: int| a <= j < i ==> is_hex_digit(#[trigger] s@[j]),
        decreases b - i,
    {
        let u = s[i] as u32;
        if !((48 <= u && u <= 57) || (97 <= u && u <= 102) || (65 <= u && u <= 70)) {
            assert(t[i - a] == s@[i as int]);
            return None;
        }
        i += 1;
    }
    assert forall|j: int| 0 <= j < t.len() implies is_hex_digit(#[trigger] t[j]) by {
        assert(t[j] == s@[a + j]);
    }
    let v = number_at(s, a, b, 16);
    Some(v as u16)
}

/// The octets of the dotted-quad literal `s[lo..hi]`, if it is one.
pub(crate) fn ipv4_at(s: &Vec<char>, lo: usize, hi: usize) -> (r: Option<[u8; 4]>)
    requires
        lo <= hi <= s@.len(),
    ensures
        ipv4_of(s@.subrange(lo as int, hi as int)) is Some <==> r is Some,
        r is Some ==> r->0@ == ipv4_of(s@.subrange(lo as int, hi as int))->0,
{
    let ghost f = fields(s@.subrange(lo as int, hi as int), '.');
    let parts = split_fields(s, lo, hi, '.');
    if parts.len() != 4 {
        return None;
    }
    let mut vals: Vec<u8> = Vec::new();
    let mut k: usize = 0;
    while k < 4
        invariant
            k <= 4,
            f == fields(s@.subrange(lo as int, hi as int), '.'),
            parts@.len() == 4,
            f.len() == 4,
            hi <= s@.len(),
            forall|j: int|
                0 <= j < 4 ==> {
                    &&& lo <= (#[trigger] parts@[j]).0 <= parts@[j].1 <= hi
                    &&& f[j] == s@.subrange(parts@[j].0 as int, parts@[j].1 as int)
                },
            vals@.len() == k,
            forall|j: int| 0 <= j < k ==> is_octet(#[trigger] f[j]),
            forall|j: int| 0 <= j < k ==> #[trigger] vals@[j] == value_of(f[j], 10) as u8,
        decreases 4 - k,
    {
        let (a, b) = parts[k];
        match octet_at(s, a, b) {
            Some(v) => vals.push(v),
            None => {
                assert(!is_octet(f[k as int]));
                assert(!(forall|i: int| 0 <= i < 4 ==> is_octet(#[trigger] f[i])));
                return None;
            },
        }
        k += 1;
    }
    let out = [vals[0], vals[1], vals[2], vals[3]];
    assert(out@ =~= ipv4_of(s@.subrange(lo as int, hi as int))->0);
    Some(out)
}

/// The segments that the pieces `parts` of `s` write (see `segments_of`).
fn segments_at(s: &Vec<char>, parts: &Vec<(usize, usize)>, Ghost(f): Ghost<Seq<Seq<char>>>) -> (r:
    Option<Vec<u16>>)
    requires
        parts@.len() == f.len(),
        forall|j: int|
            0 <= j < f.len() ==> {
                &&& (#[trigger] parts@[j]).0 <= parts@[j].1 <= s@.len()
                &&& f[j] == s@.subrange(parts@[j].0 as int, parts@[j].1 as int)
            },
    ensures
        segments_of(f) is Some <==> r is Some,
        r is Some ==> r->0@ == segments_of(f)->0,
{
    let n = parts.len();
    if n == 0 {
        return Some(Vec::new());
    }
    let mut vals: Vec<u16> = Vec::new();
    let mut k: usize = 0;
    while k + 1 < n
        invariant
            n == parts@.len() == f.len(),
            n >= 1,
            k + 1 <= n,
            forall|j: int|
                0 <= j < f.len() ==> {
                    &&& (#[trigger] parts@[j]).0 <= parts@[j].1 <= s@.len()
                    &&& f[j] == s@.subrange(parts@[j].0 as int, parts@[j].1 as int)
                },
            vals@.len() == k,
            forall|j: int| 0 <= j < k ==> is_group(#[trigger] f[j]),
            forall|j: int| 0 <= j < k ==> #[trigger] vals@[j] == value_of(f[j], 16) as u16,
        decreases n - k,
    {
        let (a, b) = parts[k];
        match group_at(s, a, b) {
            Some(v) => vals.push(v),
            None => {
                assert(f.drop_last()[k as int] == f[k as int]);
                return None;
            },
        }
        k += 1;
    }
    assert(all_groups(f.drop_last()));
    let (a, b) = parts[n - 1];
    match group_at(s, a, b) {
        Some(v) => {
            vals.push(v);
            assert(vals@ =~= group_values(f));
            Some(vals)
        },
        None => match ipv4_at(s, a, b) {
            Some(o) => {
                let hi_seg: u16 = (o[0] as u16) * 256 + (o[1] as u16);
                let lo_seg: u16 = (o[2] as u16) * 256 + (o[3] as u16);
                let ghost front = vals@;
                assert(front =~= group_values(f.drop_last()));
                vals.push(hi_seg);
                vals.push(lo_seg);
                assert(vals@ =~= group_values(f.drop_last()) + octet_pairs(o@));
                Some(vals)
            },
            None => None,
        },
    }
}

/// The pieces of `s[lo..hi]` between colons, with none for empty text.
fn pieces_at(s: &Vec<char>, lo: usize, hi: usize) -> (r: Vec<(usize, usize)>)
    requires
        lo <= hi <= s@.len(),
    ensures
        r@.len() == pieces(s@.subrange(lo as int, hi as int)).len(),
        forall|k: int|
            0 <= k < r@.len() ==> {
                &&& lo <= (#[trigger] r@[k]).0 <= r@[k].1 <= hi
                &&& pieces(s@.subrange(lo as int, hi as int))[k] == s@.subrange(
                    r@[k].0 as int,
                    r@[k].1 as int,
                )
            },
{
    if lo == hi {
        Vec::new()
    } else {
        split_fields(s, lo, hi, ':')
    }
}

/// The eight segments of the IPv6 literal `s`, if it is one.
pub(crate) fn ipv6_in(s: &Vec<char>) -> (r: Option<[u16; 8]>)
    ensures
        ipv6_of(s@) is Some <==> r is Some,
        r is Some ==> r->0@ == ipv6_of(s@)->0,
{
    let n = s.len();
    let mut i: usize = 0;
    while i < n && n - i > 1 && !(s[i] == ':' && s[i + 1] == ':')
        invariant
            n == s@.len(),
            i <= n,
            double_colon_from(s@, 0) == double_colon_from(s@, i as int),
        decreases n - i,
    {
        i += 1;
    }
    let found: Option<usize> = if i < n && n - i > 1 {
        Some(i)
    } else {
        None
    };
    let vals: Vec<u16> = match found {
        None => {
            let parts = split_fields(s, 0, n, ':');
            assert(s@.subrange(0, n as int) =~= s@);
            match segments_at(s, &parts, Ghost(fields(s@, ':'))) {
                Some(g) => {
                    if g.len() != 8 {
                        return None;
                    }
                    g
                },
                None => {
                    return None;
                },
            }
        },
        Some(p) => {
            assert(double_colon_from(s@, 0) == Some(p as int));
            let head = pieces_at(s, 0, p);
            let tail = pieces_at(s, p + 2, n);
            assert(s@.subrange(0, p as int) =~= s@.take(p as int));
            assert(s@.subrange(p + 2, n as int) =~= s@.skip(p + 2));
            let ghost hf = pieces(s@.take(p as int));
            let ghost tf = pieces(s@.skip(p + 2));
            let mut front: Vec<u16> = Vec::new();
            let mut k: usize = 0;
            while k < head.len()
                invariant
                    head@.len() == hf.len(),
                    hf == pieces(s@.take(p as int)),
                    double_colon_from(s@, 0) == Some(p as int),
                    forall|j: int|
                        0 <= j < hf.len() ==> {
                            &&& (#[trigger] head@[j]).0 <= head@[j].1 <= p
                            &&& hf[j] == s@.subrange(head@[j].0 as int, head@[j].1 as int)
                        },
                    p < n == s@.len(),
                    k <= head@.len(),
                    front@.len() == k,
                    forall|j: int| 0 <= j < k ==> is_group(#[trigger] hf[j]),
                    forall|j: int| 0 <= j < k ==> #[trigger] front@[j] == value_of(hf[j], 16) as u16,
                decreases head@.len() - k,
            {
                let (a, b) = head[k];
                match group_at(s, a, b) {
                    Some(v) => front.push(v),
                    None => {
                        assert(!is_group(hf[k as int]));
                        assert(!all_groups(hf));
                        return None;
                    },
                }
                k += 1;
            }
            assert(front@ =~= group_values(hf));
            let back = match segments_at(s, &tail, Ghost(tf)) {
                Some(g) => g,
                None => {
                    return None;
                },
            };
            if front.len() > 7 || back.len() > 7 - front.len() {
                return None;
            }
            let zeros = 8 - front.len() - back.len();
            let mut out = front;
            let mut z: usize = 0;
            while z < zeros
                invariant
                    out@ == group_values(hf) + Seq::new(z as nat, |i: int| 0u16),
                    z <= zeros,
                decreases zeros - z,
            {
                out.push(0);
                z += 1;
                assert(out@ =~= group_values(hf) + Seq::new(z as nat, |i: int| 0u16));
            }
            let mut t: usize = 0;
            while t < back.len()
                invariant
                    out@ == group_values(hf) + Seq::new(zeros as nat, |i: int| 0u16) + back@.take(
                        t as int,
                    ),
                    t <= back@.len(),
                decreases back@.len() - t,
            {
                out.push(back[t]);
                t += 1;
                assert(out@ =~= group_values(hf) + Seq::new(zeros as nat, |i: int| 0u16)
                    + back@.take(t as int));
            }
            assert(back@.take(back@.len() as int) =~= back@);
            out
        },
    };
    assert(vals@.len() == 8);
    let out = [vals[0], vals[1], vals[2], vals[3], vals[4], vals[5], vals[6], vals[7]];
    assert(out@ =~= vals@);
    Some(out)
}

} // verus!
