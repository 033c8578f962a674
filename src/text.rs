//! Character-level helpers: digits, numbers, fields, and building strings.
use vstd::prelude::*;
use vstd::string::*;

verus! {

pub open spec fn is_dec_digit(c: char) -> bool {
    48 <= c as u32 <= 57
}

pub open spec fn is_hex_digit(c: char) -> bool {
    is_dec_digit(c) || (97 <= c as u32 <= 102) || (65 <= c as u32 <= 70)
}

/// A digit of the given base (10 or 16).
pub open spec fn is_digit_in(c: char, base: nat) -> bool {
    if base == 16 {
        is_hex_digit(c)
    } else {
        is_dec_digit(c)
    }
}

pub open spec fn digit_value(c: char) -> nat {
    if is_dec_digit(c) {
        (c as u32 - 48) as nat
    } else if 97 <= c as u32 <= 102 {
        (c as u32 - 87) as nat
    } else if 65 <= c as u32 <= 70 {
        (c as u32 - 55) as nat
    } else {
        0
    }
}

/// The number that the digits `t` write in the given base, most significant first.
pub open spec fn value_of(t: Seq<char>, base: nat) -> nat
    decreases t.len(),
{
    if t.len() == 0 {
        0
    } else {
        value_of(t.drop_last(), base) * base + digit_value(t.last())
    }
}

/// The pieces of `s` between occurrences of `sep`; always at least one piece.
pub open spec fn fields(s: Seq<char>, sep: char) -> Seq<Seq<char>>
    decreases s.len(),
{
    if s.len() == 0 {
        seq![Seq::<char>::empty()]
    } else {
        let f = fields(s.drop_last(), sep);
        if s.last() == sep {
            f.push(Seq::<char>::empty())
        } else {
            f.update(f.len() - 1, f.last().push(s.last()))
        }
    }
}

/// The pieces `f` put back together, with `sep` between neighbours.
pub open spec fn joined(f: Seq<Seq<char>>, sep: char) -> Seq<char>
    decreases f.len(),
{
    if f.len() <= 1 {
        if f.len() == 0 {
            Seq::empty()
        } else {
            f[0]
        }
    } else {
        joined(f.drop_last(), sep) + seq![sep] + f.last()
    }
}

/// Splitting at a separator loses nothing: the pieces joined again are the text.
pub proof fn lemma_fields_joined(s: Seq<char>, sep: char)
    ensures
        fields(s, sep).len() >= 1,
        joined(fields(s, sep), sep) == s,
    decreases s.len(),
{
    if s.len() == 0 {
        assert(joined(fields(s, sep), sep) =~= s);
    } else {
        let p = s.drop_last();
        lemma_fields_joined(p, sep);
        let f = fields(p, sep);
        let g = fields(s, sep);
        if s.last() == sep {
            assert(g.drop_last() =~= f);
            assert(joined(g, sep) =~= s);
        } else if f.len() == 1 {
            assert(g.len() == 1);
            assert(g[0] == f[0].push(s.last()));
            assert(joined(g, sep) == g[0]);
            assert(joined(f, sep) == f[0]);
            assert(s =~= p.push(s.last()));
        } else {
            assert(g.len() == f.len());
            assert(g.drop_last() =~= f.drop_last());
            assert(g.last() == f.last().push(s.last()));
            assert(joined(f, sep) == joined(f.drop_last(), sep) + seq![sep] + f.last());
            assert(joined(g, sep) == joined(f.drop_last(), sep) + seq![sep] + g.last());
            assert(joined(g, sep) =~= joined(f, sep).push(s.last()));
            assert(s =~= p.push(s.last()));
        }
    }
}

proof fn lemma_digit_char_of_digit(c: char)
    requires
        is_dec_digit(c),
    ensures
        digit_char(digit_value(c)) == c,
{
    let u = c as u32;
    if u == 48 {
        assert(c == '0');
    } else if u == 49 {
        assert(c == '1');
    } else if u == 50 {
        assert(c == '2');
    } else if u == 51 {
        assert(c == '3');
    } else if u == 52 {
        assert(c == '4');
    } else if u == 53 {
        assert(c == '5');
    } else if u == 54 {
        assert(c == '6');
    } else if u == 55 {
        assert(c == '7');
    } else if u == 56 {
        assert(c == '8');
    } else {
        assert(c == '9');
    }
}

proof fn lemma_value_positive(d: Seq<char>)
    requires
        d.len() >= 1,
        forall|i: int| 0 <= i < d.len() ==> is_dec_digit(#[trigger] d[i]),
        d[0] != '0',
    ensures
        value_of(d, 10) >= 1,
    decreases d.len(),
{
    if d.len() > 1 {
        assert(d.drop_last()[0] == d[0]);
        assert forall|i: int| 0 <= i < d.drop_last().len() implies is_dec_digit(
            #[trigger] d.drop_last()[i],
        ) by {
            assert(d.drop_last()[i] == d[i]);
        }
        lemma_value_positive(d.drop_last());
    } else {
        assert(d.drop_last().len() == 0);
        assert(value_of(d.drop_last(), 10) == 0);
        lemma_digit_char_of_digit(d[0]);
        assert(d.last() == d[0]);
    }
}

/// Decimal digits without a leading zero are the text of their value.
pub proof fn lemma_decimal_text(d: Seq<char>)
    requires
        d.len() >= 1,
        forall|i: int| 0 <= i < d.len() ==> is_dec_digit(#[trigger] d[i]),
        d.len() > 1 ==> d[0] != '0',
    ensures
        num_text(value_of(d, 10), 10) == d,
    decreases d.len(),
{
    lemma_digit_char_of_digit(d.last());
    if d.len() == 1 {
        assert(d.drop_last().len() == 0);
        assert(value_of(d.drop_last(), 10) == 0);
        assert(value_of(d, 10) == digit_value(d.last()));
        assert(d.last() == d[0]);
        assert(num_text(value_of(d, 10), 10) =~= d);
    } else {
        let p = d.drop_last();
        assert forall|i: int| 0 <= i < p.len() implies is_dec_digit(#[trigger] p[i]) by {
            assert(p[i] == d[i]);
        }
        assert(p[0] == d[0]);
        lemma_decimal_text(p);
        lemma_value_positive(p);
        let v = value_of(d, 10);
        assert(v == value_of(p, 10) * 10 + digit_value(d.last()));
        assert(v / 10 == value_of(p, 10));
        assert(v % 10 == digit_value(d.last()));
        assert(num_text(v, 10) =~= d);
    }
}

/// The lowercase digit for `d` (below 16).
pub open spec fn digit_char(d: nat) -> char {
    seq!['0', '1', '2', '3', '4', '5', '6', '7', '8', '9', 'a', 'b', 'c', 'd', 'e', 'f'][d as int]
}

/// The digits of `n` in the given base, with no leading zero.
pub open spec fn num_text(n: nat, base: nat) -> Seq<char>
    decreases n,
{
    if n < base || !(base == 10 || base == 16) {
        seq![digit_char(n)]
    } else if base == 16 {
        num_text(n / 16, 16).push(digit_char(n % 16))
    } else {
        num_text(n / 10, 10).push(digit_char(n % 10))
    }
}

/// The characters of `s`, one by one.
pub fn chars_of(s: &str) -> (r: Vec<char>)
    ensures
        r@ == s@,
{
    let n = s.unicode_len();
    let mut v: Vec<char> = Vec::new();
    let mut i: usize = 0;
    while i < n
        invariant
            n == s@.len(),
            i <= n,
            v@ == s@.subrange(0, i as int),
        decreases n - i,
    {
        v.push(s.get_char(i));
        i += 1;
        assert(v@ =~= s@.subrange(0, i as int));
    }
    assert(v@ =~= s@);
    v
}

/// Relies on String::push: the character is appended at the end.
#[verifier::external_body]
pub(crate) fn push_char(s: &mut String, c: char)
    ensures
        final(s)@ == old(s)@.push(c),
{
    s.push(c);
}

/// The string of the characters `v[a..b]`.
pub fn string_of(v: &Vec<char>, a: usize, b: usize) -> (r: String)
    requires
        a <= b <= v@.len(),
    ensures
        r@ == v@.subrange(a as int, b as int),
{
    let mut r = String::new();
    let mut i: usize = a;
    while i < b
        invariant
            a <= i <= b <= v@.len(),
            r@ == v@.subrange(a as int, i as int),
        decreases b - i,
    {
        push_char(&mut r, v[i]);
        i += 1;
        assert(r@ =~= v@.subrange(a as int, i as int));
    }
    r
}

fn digit_char_of(d: u32) -> (r: char)
    requires
        d < 16,
    ensures
        r == digit_char(d as nat),
{
    match d {
        0 => '0',
        1 => '1',
        2 => '2',
        3 => '3',
        4 => '4',
        5 => '5',
        6 => '6',
        7 => '7',
        8 => '8',
        9 => '9',
        10 => 'a',
        11 => 'b',
        12 => 'c',
        13 => 'd',
        14 => 'e',
        _ => 'f',
    }
}

/// Appends the digits of `n` in base 10 or 16.
pub fn push_num(s: &mut String, n: u32, base: u32)
    requires
        base == 10 || base == 16,
    ensures
        final(s)@ == old(s)@ + num_text(n as nat, base as nat),
    decreases n,
{
    if n >= base {
        push_num(s, n / base, base);
    }
    push_char(s, digit_char_of(n % base));
    assert(final(s)@ =~= old(s)@ + num_text(n as nat, base as nat));
}

fn digit_of(c: char) -> (r: u32)
    requires
        is_hex_digit(c),
    ensures
        r as nat == digit_value(c),
        r < 16,
        is_dec_digit(c) ==> r < 10,
{
    let u = c as u32;
    if u <= 57 {
        u - 48
    } else if u >= 97 {
        u - 87
    } else {
        u - 55
    }
}

/// The value of the digits `s[a..b]`, at most four of them, in base 10 or 16.
pub fn number_at(s: &Vec<char>, a: usize, b: usize, base: u32) -> (r: u32)
    requires
        a <= b <= s@.len(),
        b - a <= 4,
        base == 10 || base == 16,
        forall|i: int| a <= i < b ==> is_digit_in(#[trigger] s@[i], base as nat),
    ensures
        r as nat == value_of(s@.subrange(a as int, b as int), base as nat),
        r < 65536,
{
    let mut v: u32 = 0;
    let mut p: u32 = 1;
    let mut i: usize = a;
    while i < b
        invariant
            a <= i <= b <= s@.len(),
            b - a <= 4,
            base == 10 || base == 16,
            forall|j: int| a <= j < b ==> is_digit_in(#[trigger] s@[j], base as nat),
            v as nat == value_of(s@.subrange(a as int, i as int), base as nat),
            v < p,
            p as int <= pow_bound(i - a, base as nat),
        decreases b - i,
    {
        let d = digit_of(s[i]);
        assert(d < base) by {
            assert(is_digit_in(s@[i as int], base as nat));
        }
        assert(pow_bound((i + 1 - a) as int, base as nat) == pow_bound(i - a, base as nat) * base);
        assert(v * base + d < p * base) by (nonlinear_arith)
            requires
                v < p,
                d < base,
        ;
        assert(p as int * base <= 65536) by (nonlinear_arith)
            requires
                p as int <= pow_bound(i - a, base as nat),
                pow_bound((i + 1 - a) as int, base as nat) == pow_bound(i - a, base as nat) * base,
                pow_bound((i + 1 - a) as int, base as nat) <= 65536,
        ;
        assert(s@.subrange(a as int, i + 1).drop_last() =~= s@.subrange(a as int, i as int));
        v = v * base + d;
        p = p * base;
        i += 1;
    }
    v
}

/// `base` to the power `k`, for `k` at most four.
pub open spec fn pow_bound(k: int, base: nat) -> int {
    if k <= 0 {
        1
    } else if k == 1 {
        base as int
    } else if k == 2 {
        (base * base) as int
    } else if k == 3 {
        (base * base * base) as int
    } else {
        (base * base * base * base) as int
    }
}

/// The pieces of `s[lo..hi]` between occurrences of `sep`, as index ranges into `s`.
pub fn split_fields(s: &Vec<char>, lo: usize, hi: usize, sep: char) -> (r: Vec<(usize, usize)>)
    requires
        lo <= hi <= s@.len(),
    ensures
        r@.len() == fields(s@.subrange(lo as int, hi as int), sep).len(),
        forall|k: int|
            0 <= k < r@.len() ==> {
                &&& lo <= (#[trigger] r@[k]).0 <= r@[k].1 <= hi
                &&& fields(s@.subrange(lo as int, hi as int), sep)[k] == s@.subrange(
                    r@[k].0 as int,
                    r@[k].1 as int,
                )
            },
{
    let mut out: Vec<(usize, usize)> = Vec::new();
    let mut start: usize = lo;
    let mut i: usize = lo;
    while i < hi
        invariant
            lo <= start <= i <= hi <= s@.len(),
            out@.len() + 1 == fields(s@.subrange(lo as int, i as int), sep).len(),
            forall|k: int|
                0 <= k < out@.len() ==> {
                    &&& lo <= (#[trigger] out@[k]).0 <= out@[k].1 <= start
                    &&& fields(s@.subrange(lo as int, i as int), sep)[k] == s@.subrange(
                        out@[k].0 as int,
                        out@[k].1 as int,
                    )
                },
            fields(s@.subrange(lo as int, i as int), sep).last() == s@.subrange(
                start as int,
                i as int,
            ),
        decreases hi - i,
    {
        let ghost prev = fields(s@.subrange(lo as int, i as int), sep);
        assert(s@.subrange(lo as int, i + 1).drop_last() =~= s@.subrange(lo as int, i as int));
        if s[i] == sep {
            out.push((start, i));
            start = i + 1;
            assert(s@.subrange(start as int, i + 1) =~= Seq::<char>::empty());
        } else {
            assert(s@.subrange(start as int, i + 1) =~= s@.subrange(start as int, i as int).push(
                s@[i as int],
            ));
        }
        i += 1;
        assert forall|k: int| 0 <= k < out@.len() implies fields(
            s@.subrange(lo as int, i as int),
            sep,
        )[k] == s@.subrange(#[trigger] out@[k].0 as int, out@[k].1 as int) by {
            if k < prev.len() - 1 {
            }
        }
    }
    out.push((start, hi));
    out
}

} // verus!
