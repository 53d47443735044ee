//! Exact decimal numbers, read from and written as plain decimal literals.

use vstd::prelude::*;
use crate::text::{chars_of, string_of};

verus! {

/// A decimal number in the abstract: whether it is negative, its whole digits and
/// its fractional digits.
pub type DecimalView = (bool, Seq<char>, Seq<char>);

pub open spec fn is_digit(c: char) -> bool {
    '0' <= c && c <= '9'
}

pub open spec fn all_digits(s: Seq<char>) -> bool {
    forall|i: int| 0 <= i < s.len() ==> is_digit(#[trigger] s[i])
}

/// `s` without its leading zeros.
pub open spec fn strip_leading_zeros(s: Seq<char>) -> Seq<char>
    decreases s.len(),
{
    if s.len() > 0 && s[0] == '0' {
        strip_leading_zeros(s.drop_first())
    } else {
        s
    }
}

/// `s` without its trailing zeros.
pub open spec fn strip_trailing_zeros(s: Seq<char>) -> Seq<char>
    decreases s.len(),
{
    if s.len() > 0 && s.last() == '0' {
        strip_trailing_zeros(s.drop_last())
    } else {
        s
    }
}

/// Whether `b` holds its one decimal point at `p`, with only digits around it.
pub open spec fn point_at(b: Seq<char>, p: int) -> bool {
    0 <= p < b.len() && b[p] == '.' && all_digits(b.take(p)) && all_digits(b.skip(p + 1))
}

/// The whole and fractional digits of an unsigned literal: digits, or digits, a
/// point and digits, with at least one digit in all.
pub open spec fn body_parts(b: Seq<char>) -> Option<(Seq<char>, Seq<char>)> {
    if all_digits(b) {
        if b.len() > 0 {
            Some((b, Seq::empty()))
        } else {
            None
        }
    } else if exists|p: int| point_at(b, p) {
        let p = choose|p: int| point_at(b, p);
        if b.len() > 1 {
            Some((b.take(p), b.skip(p + 1)))
        } else {
            None
        }
    } else {
        None
    }
}

/// The canonical form of a number: whole digits without leading zeros (`0` when
/// none are left), fractional digits without trailing zeros, and zero never negative.
pub open spec fn canonical(negative: bool, whole: Seq<char>, frac: Seq<char>) -> (
    bool,
    Seq<char>,
    Seq<char>,
) {
    let w = strip_leading_zeros(whole);
    let f = strip_trailing_zeros(frac);
    let w = if w.len() == 0 {
        seq!['0']
    } else {
        w
    };
    (negative && !(w == seq!['0'] && f.len() == 0), w, f)
}

/// The number that the literal `s` denotes, if it is one: an optional sign
/// (`+` or `-`), then an unsigned literal. Only plain decimal literals are read:
/// no exponent, no surrounding white space, no `inf` or `NaN`.
pub open spec fn decimal_of(s: Seq<char>) -> Option<(bool, Seq<char>, Seq<char>)> {
    let signed = s.len() > 0 && (s[0] == '-' || s[0] == '+');
    let b = if signed {
        s.drop_first()
    } else {
        s
    };
    match body_parts(b) {
        Some(parts) => Some(canonical(s.len() > 0 && s[0] == '-', parts.0, parts.1)),
        None => None,
    }
}

/// The shortest literal of a canonical number.
pub open spec fn decimal_text(d: (bool, Seq<char>, Seq<char>)) -> Seq<char> {
    (if d.0 {
        seq!['-']
    } else {
        Seq::empty()
    }) + d.1 + (if d.2.len() > 0 {
        seq!['.'] + d.2
    } else {
        Seq::empty()
    })
}

/// The canonical zero.
pub open spec fn zero_view() -> (bool, Seq<char>, Seq<char>) {
    (false, seq!['0'], Seq::empty())
}

/// A decimal number held exactly, as its sign and its digits in canonical form.
#[derive(Debug)]
pub struct Decimal {
    negative: bool,
    whole: Vec<char>,
    frac: Vec<char>,
}

impl View for Decimal {
    type V = (bool, Seq<char>, Seq<char>);

    closed spec fn view(&self) -> (bool, Seq<char>, Seq<char>) {
        (self.negative, self.whole@, self.frac@)
    }
}

proof fn lemma_point_unique(b: Seq<char>, p: int, q: int)
    requires
        point_at(b, p),
        point_at(b, q),
    ensures
        p == q,
{
    if q < p {
        assert(b.skip(q + 1)[p - q - 1] == b[p]);
    } else if p < q {
        assert(b.skip(p + 1)[q - p - 1] == b[q]);
    }
}

fn strip_leading(v: &Vec<char>) -> (r: Vec<char>)
    ensures
        r@ == strip_leading_zeros(v@),
{
    let mut i: usize = 0;
    assert(v@.skip(0) =~= v@);
    while i < v.len() && v[i] == '0'
        invariant
            i <= v.len(),
            strip_leading_zeros(v@) == strip_leading_zeros(v@.skip(i as int)),
        decreases v.len() - i,
    {
        assert(v@.skip(i as int).drop_first() =~= v@.skip(i + 1));
        i += 1;
    }
    let mut r: Vec<char> = Vec::new();
    let start = i;
    while i < v.len()
        invariant
            start <= i <= v.len(),
            r@ == v@.subrange(start as int, i as int),
        decreases v.len() - i,
    {
        r.push(v[i]);
        i += 1;
    }
    assert(r@ =~= v@.skip(start as int));
    r
}

fn strip_trailing(v: &Vec<char>) -> (r: Vec<char>)
    ensures
        r@ == strip_trailing_zeros(v@),
{
    let mut j: usize = v.len();
    assert(v@.take(j as int) =~= v@);
    while j > 0 && v[j - 1] == '0'
        invariant
            j <= v.len(),
            strip_trailing_zeros(v@) == strip_trailing_zeros(v@.take(j as int)),
        decreases j,
    {
        assert(v@.take(j as int).drop_last() =~= v@.take(j - 1));
        j -= 1;
    }
    let mut r: Vec<char> = Vec::new();
    let mut i: usize = 0;
    while i < j
        invariant
            i <= j <= v.len(),
            r@ == v@.take(i as int),
        decreases j - i,
    {
        r.push(v[i]);
        assert(v@.take(i + 1) =~= v@.take(i as int).push(v@[i as int]));
        i += 1;
    }
    r
}

impl Decimal {
    /// The number zero.
    pub fn zero() -> (r: Decimal)
        ensures
            r@ == zero_view(),
    {
        Decimal { negative: false, whole: vec!['0'], frac: Vec::new() }
    }

    /// Reads a plain decimal literal (sign, digits, at most one point; no
    /// exponent); `None` where `s` is not one.
    pub fn parse(s: &str) -> (r: Option<Decimal>)
        ensures
            match r {
                Some(d) => decimal_of(s@) == Some(d@),
                None => decimal_of(s@) is None,
            },
    {
        let cs = chars_of(s);
        let n = cs.len();
        let mut i: usize = 0;
        let mut minus = false;
        if n > 0 && (cs[0] == '-' || cs[0] == '+') {
            minus = cs[0] == '-';
            i = 1;
        }
        let start = i;
        let ghost b = cs@.skip(start as int);
        assert(b =~= if s@.len() > 0 && (s@[0] == '-' || s@[0] == '+') {
            s@.drop_first()
        } else {
            s@
        });
        let mut whole: Vec<char> = Vec::new();
        let mut frac: Vec<char> = Vec::new();
        let mut seen_point = false;
        let mut point: usize = 0;
        while i < n
            invariant
                n == cs@.len(),
                start <= i <= n,
                start <= 1,
                b == cs@.skip(start as int),
                cs@ == s@,
                minus == (s@.len() > 0 && s@[0] == '-'),
                b == (if s@.len() > 0 && (s@[0] == '-' || s@[0] == '+') {
                    s@.drop_first()
                } else {
                    s@
                }),
                !seen_point ==> whole@ == cs@.subrange(start as int, i as int) && frac@.len()
                    == 0,
                seen_point ==> start <= point < i && cs@[point as int] == '.' && whole@
                    == cs@.subrange(start as int, point as int) && frac@ == cs@.subrange(
                    point + 1,
                    i as int,
                ),
                all_digits(whole@),
                all_digits(frac@),
            decreases n - i,
        {
            let c = cs[i];
            if '0' <= c && c <= '9' {
                if seen_point {
                    frac.push(c);
                } else {
                    whole.push(c);
                }
            } else if c == '.' && !seen_point {
                seen_point = true;
                point = i;
            } else {
                proof {
                    let k = i - start;
                    assert(b[k] == c);
                    assert(!is_digit(b[k]));
                    assert(!all_digits(b));
                    assert forall|p: int| !point_at(b, p) by {
                        if point_at(b, p) {
                        if k < p {
                            assert(b.take(p)[k] == c);
                        } else if k > p {
                            assert(b.skip(p + 1)[k - p - 1] == c);
                        } else {
                            let q = point - start;
                            assert(b[q] == '.');
                            if q < p {
                                assert(b.take(p)[q] == b[q]);
                            } else {
                                assert(q != p);
                                assert(b.skip(p + 1)[q - p - 1] == b[q]);
                            }
                        }
                        }
                    }
                    assert(body_parts(b) is None);
                    assert(decimal_of(s@) is None);
                }
                return None;
            }
            i += 1;
        }
        proof {
            if !seen_point {
                assert(whole@ =~= b);
            } else {
                let q = point - start;
                assert(b.take(q) =~= whole@);
                assert(b.skip(q + 1) =~= frac@);
                assert(point_at(b, q));
                assert(!is_digit(b[q]));
                let p = choose|p: int| point_at(b, p);
                lemma_point_unique(b, p, q);
                assert(b.len() == whole@.len() + frac@.len() + 1);
            }
        }
        if whole.len() == 0 && frac.len() == 0 {
            assert(body_parts(b) is None);
            assert(decimal_of(s@) is None);
            return None;
        }
        let w = strip_leading(&whole);
        let f = strip_trailing(&frac);
        let w = if w.len() == 0 {
            vec!['0']
        } else {
            w
        };
        let is_zero = w.len() == 1 && w[0] == '0' && f.len() == 0;
        proof {
            if w@.len() == 1 && w@[0] == '0' {
                assert(w@ =~= seq!['0']);
            }
        }
        Some(Decimal { negative: minus && !is_zero, whole: w, frac: f })
    }

    /// Writes the number as its shortest literal: a `-` for a negative number,
    /// the whole digits, then a point and the fractional digits if there are any.
    pub fn to_text(&self) -> (r: String)
        ensures
            r@ == decimal_text(self@),
    {
        let mut out: Vec<char> = Vec::new();
        if self.negative {
            out.push('-');
        }
        let mut i: usize = 0;
        let ghost head = out@;
        while i < self.whole.len()
            invariant
                i <= self.whole@.len(),
                out@ == head + self.whole@.take(i as int),
            decreases self.whole.len() - i,
        {
            out.push(self.whole[i]);
            assert(self.whole@.take(i + 1) =~= self.whole@.take(i as int).push(self.whole@[i as int]));
            i += 1;
        }
        assert(self.whole@.take(i as int) =~= self.whole@);
        let ghost mid = out@;
        if self.frac.len() > 0 {
            out.push('.');
            let mut j: usize = 0;
            while j < self.frac.len()
                invariant
                    j <= self.frac@.len(),
                    out@ == mid + seq!['.'] + self.frac@.take(j as int),
                decreases self.frac.len() - j,
            {
                out.push(self.frac[j]);
                assert(self.frac@.take(j + 1) =~= self.frac@.take(j as int).push(self.frac@[j as int]));
                j += 1;
            }
            assert(self.frac@.take(j as int) =~= self.frac@);
        }
        let r = string_of(&out);
        assert(r@ =~= decimal_text(self@));
        r
    }
}

} // verus!
