//! Character-level building blocks: digits, decimal numbers, splitting on a
//! separator and substring search, with their executable counterparts.

use vstd::prelude::*;
use vstd::string::*;

verus! {

pub open spec fn is_digit(c: char) -> bool {
    '0' <= c && c <= '9'
}

pub open spec fn all_digits(t: Seq<char>) -> bool {
    forall|i: int| 0 <= i < t.len() ==> #[trigger] is_digit(t[i])
}

pub open spec fn digit_value(c: char) -> int {
    (c as int) - ('0' as int)
}

/// The value of a run of decimal digits, most significant first.
pub open spec fn num_of(t: Seq<char>) -> int
    decreases t.len(),
{
    if t.len() == 0 {
        0
    } else {
        num_of(t.drop_last()) * 10 + digit_value(t.last())
    }
}

pub open spec fn pow10(n: nat) -> int
    decreases n,
{
    if n == 0 {
        1
    } else {
        10 * pow10((n - 1) as nat)
    }
}

pub proof fn lemma_num_of_bounds(t: Seq<char>)
    requires
        all_digits(t),
    ensures
        0 <= num_of(t) < pow10(t.len()),
    decreases t.len(),
{
    if t.len() > 0 {
        assert(is_digit(t[t.len() - 1]));
        lemma_num_of_bounds(t.drop_last());
    }
}

/// A run of digits holds only digits in each of its parts.
pub proof fn lemma_digits_within(t: Seq<char>, a: int, b: int, c: int, d: int)
    requires
        0 <= a <= c <= d <= b <= t.len(),
        all_digits(t.subrange(a, b)),
    ensures
        all_digits(t.subrange(c, d)),
{
    assert forall|i: int| 0 <= i < d - c implies #[trigger] is_digit(t.subrange(c, d)[i]) by {
        assert(t.subrange(c, d)[i] == t.subrange(a, b)[c - a + i]);
    }
}

/// The characters of `s`, in order.
pub fn chars_of(s: &str) -> (r: Vec<char>)
    ensures
        r@ == s@,
{
    let n = s.unicode_len();
    let mut r: Vec<char> = Vec::new();
    let mut i: usize = 0;
    while i < n
        invariant
            n == s@.len(),
            i <= n,
            r@ == s@.subrange(0, i as int),
        decreases n - i,
    {
        r.push(s.get_char(i));
        i = i + 1;
        assert(r@ =~= s@.subrange(0, i as int));
    }
    assert(r@ =~= s@);
    r
}

/// The decimal value of the digits `cs[a..b]`, at most four of them.
pub fn read_number(cs: &Vec<char>, a: usize, b: usize) -> (r: i32)
    requires
        a <= b <= cs@.len(),
        b - a <= 4,
        all_digits(cs@.subrange(a as int, b as int)),
    ensures
        r == num_of(cs@.subrange(a as int, b as int)),
{
    let mut acc: i32 = 0;
    let mut i: usize = a;
    while i < b
        invariant
            a <= i <= b <= cs@.len(),
            b - a <= 4,
            all_digits(cs@.subrange(a as int, b as int)),
            acc == num_of(cs@.subrange(a as int, i as int)),
        decreases b - i,
    {
        let ghost prefix = cs@.subrange(a as int, i as int + 1);
        assert(prefix.drop_last() =~= cs@.subrange(a as int, i as int));
        assert(cs@.subrange(a as int, b as int)[i - a] == cs@[i as int]);
        assert(is_digit(cs@.subrange(a as int, b as int)[i - a]));
        proof {
            lemma_num_of_bounds(cs@.subrange(a as int, i as int));
            assert(pow10((i - a) as nat) <= 1000) by {
                reveal_with_fuel(pow10, 4);
            }
        }
        let d = (cs[i] as u32 - '0' as u32) as i32;
        acc = acc * 10 + d;
        i = i + 1;
    }
    acc
}

/// The pieces of `s` between occurrences of `sep`, as `str::split` yields
/// them: an empty input gives one empty piece, and two adjacent separators
/// give an empty piece between them.
pub open spec fn split_on(s: Seq<char>, sep: char) -> Seq<Seq<char>>
    decreases s.len(),
{
    if s.len() == 0 {
        seq![Seq::empty()]
    } else {
        let rest = split_on(s.drop_last(), sep);
        if s.last() == sep {
            rest.push(Seq::empty())
        } else {
            rest.update(rest.len() - 1, rest.last().push(s.last()))
        }
    }
}

/// Every span lies inside `cs`.
pub open spec fn spans_within(cs: Seq<char>, sp: Seq<(usize, usize)>) -> bool {
    forall|k: int| 0 <= k < sp.len() ==> #[trigger] sp[k].0 <= sp[k].1 && sp[k].1 <= cs.len()
}

/// The text that each span covers.
pub open spec fn pieces(cs: Seq<char>, sp: Seq<(usize, usize)>) -> Seq<Seq<char>> {
    Seq::new(sp.len(), |k: int| cs.subrange(sp[k].0 as int, sp[k].1 as int))
}

/// The spans of the pieces of `cs` between occurrences of `sep`.
pub fn split_spans(cs: &Vec<char>, sep: char) -> (r: Vec<(usize, usize)>)
    ensures
        spans_within(cs@, r@),
        pieces(cs@, r@) == split_on(cs@, sep),
{
    let n = cs.len();
    let mut r: Vec<(usize, usize)> = Vec::new();
    let mut start: usize = 0;
    let mut i: usize = 0;
    assert(cs@.subrange(0, 0) =~= Seq::<char>::empty());
    assert(pieces(cs@, r@).push(cs@.subrange(0, 0)) =~= seq![Seq::<char>::empty()]);
    while i < n
        invariant
            n == cs@.len(),
            start <= i <= n,
            spans_within(cs@, r@),
            split_on(cs@.subrange(0, i as int), sep) == pieces(cs@, r@).push(
                cs@.subrange(start as int, i as int),
            ),
        decreases n - i,
    {
        let ghost before = pieces(cs@, r@);
        let ghost s1 = cs@.subrange(0, i as int + 1);
        assert(s1.drop_last() =~= cs@.subrange(0, i as int));
        assert(s1.last() == cs@[i as int]);
        if cs[i] == sep {
            r.push((start, i));
            assert(pieces(cs@, r@) =~= before.push(cs@.subrange(start as int, i as int)));
            start = i + 1;
            assert(cs@.subrange(start as int, start as int) =~= Seq::<char>::empty());
        } else {
            assert(cs@.subrange(start as int, i as int).push(cs@[i as int]) =~= cs@.subrange(
                start as int,
                i as int + 1,
            ));
            assert(before.push(cs@.subrange(start as int, i as int)).update(
                before.len() as int,
                cs@.subrange(start as int, i as int + 1),
            ) =~= before.push(cs@.subrange(start as int, i as int + 1)));
        }
        i = i + 1;
    }
    let ghost before = pieces(cs@, r@);
    r.push((start, n));
    assert(pieces(cs@, r@) =~= before.push(cs@.subrange(start as int, n as int)));
    assert(cs@.subrange(0, n as int) =~= cs@);
    r
}

/// `t` holds `lit` from position `a` on.
pub open spec fn holds_at(t: Seq<char>, a: int, lit: Seq<char>) -> bool {
    a + lit.len() <= t.len() && t.subrange(a, a + lit.len()) == lit
}

/// Whether `t` holds `lit` from position `a` on.
pub fn has_at(t: &Vec<char>, a: usize, lit: &str) -> (r: bool)
    requires
        a <= t@.len(),
    ensures
        r == holds_at(t@, a as int, lit@),
{
    let n = lit.unicode_len();
    if n > t.len() - a {
        return false;
    }
    let mut i: usize = 0;
    while i < n
        invariant
            n == lit@.len(),
            a + n <= t@.len() <= usize::MAX,
            i <= n,
            t@.subrange(a as int, a + i) == lit@.subrange(0, i as int),
        decreases n - i,
    {
        if t[a + i] != lit.get_char(i) {
            assert(t@.subrange(a as int, a + n)[i as int] != lit@[i as int]);
            return false;
        }
        assert(t@.subrange(a as int, a + i + 1) =~= lit@.subrange(0, i + 1));
        i = i + 1;
    }
    assert(lit@.subrange(0, n as int) =~= lit@);
    true
}

/// Whether `cs[a..b]` holds decimal digits only.
pub fn digits_between(cs: &Vec<char>, a: usize, b: usize) -> (r: bool)
    requires
        a <= b <= cs@.len(),
    ensures
        r == all_digits(cs@.subrange(a as int, b as int)),
{
    let mut i: usize = a;
    while i < b
        invariant
            a <= i <= b <= cs@.len(),
            all_digits(cs@.subrange(a as int, i as int)),
        decreases b - i,
    {
        if !('0' <= cs[i] && cs[i] <= '9') {
            assert(!is_digit(cs@.subrange(a as int, b as int)[i - a]));
            return false;
        }
        assert forall|j: int| 0 <= j < i + 1 - a implies #[trigger] is_digit(
            cs@.subrange(a as int, i + 1)[j],
        ) by {
            if j < i - a {
                assert(cs@.subrange(a as int, i + 1)[j] == cs@.subrange(a as int, i as int)[j]);
            }
        }
        i = i + 1;
    }
    true
}

/// Whether `c` is a decimal digit.
pub fn digit(c: char) -> (r: bool)
    ensures
        r == is_digit(c),
{
    '0' <= c && c <= '9'
}

/// Whether `cs` holds exactly the text `lit`.
pub fn is_literal(cs: &Vec<char>, lit: &str) -> (r: bool)
    ensures
        r == (cs@ == lit@),
{
    let n = lit.unicode_len();
    if cs.len() != n {
        return false;
    }
    let r = has_at(cs, 0, lit);
    assert(cs@.subrange(0, n as int) =~= cs@);
    r
}

/// The text of each string.
pub open spec fn views(v: Seq<String>) -> Seq<Seq<char>> {
    v.map_values(|x: String| x@)
}

/// The pieces of `s` between occurrences of `sep`.
pub fn split_text(s: &str, sep: char) -> (r: Vec<String>)
    ensures
        views(r@) == split_on(s@, sep),
{
    let cs = chars_of(s);
    let sp = split_spans(&cs, sep);
    let mut r: Vec<String> = Vec::new();
    let mut k: usize = 0;
    while k < sp.len()
        invariant
            cs@ == s@,
            spans_within(cs@, sp@),
            k <= sp@.len(),
            views(r@) == pieces(cs@, sp@).take(k as int),
        decreases sp@.len() - k,
    {
        let (a, b) = sp[k];
        assert(sp@[k as int].0 <= sp@[k as int].1 && sp@[k as int].1 <= cs@.len());
        let piece = String::from_str(s.substring_char(a, b));
        assert(piece@ == cs@.subrange(a as int, b as int));
        let ghost old_r = r@;
        r.push(piece);
        assert(views(r@) =~= views(old_r).push(cs@.subrange(a as int, b as int)));
        assert(views(r@) =~= pieces(cs@, sp@).take(k + 1));
        k = k + 1;
    }
    assert(pieces(cs@, sp@).take(sp@.len() as int) =~= pieces(cs@, sp@));
    r
}

} // verus!
