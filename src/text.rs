//! Text helpers over character sequences.
use vstd::prelude::*;
use vstd::std_specs::iter::IteratorSpec;
use crate::parser::string_of;

verus! {

/// `needle` occurs as a contiguous part of `hay`.
pub open spec fn is_infix(needle: Seq<char>, hay: Seq<char>) -> bool {
    exists|i: int|
        0 <= i && i + needle.len() <= hay.len() && #[trigger] hay.subrange(i, i + needle.len())
            == needle
}

pub open spec fn digit_char(d: nat) -> char {
    if d == 0 { '0' } else if d == 1 { '1' } else if d == 2 { '2' } else if d == 3 { '3' }
    else if d == 4 { '4' } else if d == 5 { '5' } else if d == 6 { '6' } else if d == 7 { '7' }
    else if d == 8 { '8' } else { '9' }
}

/// Decimal digits of a natural number, most significant first.
pub open spec fn nat_decimal(n: nat) -> Seq<char>
    decreases n,
{
    if n < 10 {
        seq![digit_char(n)]
    } else {
        nat_decimal(n / 10).push(digit_char(n % 10))
    }
}

/// Decimal text of an integer, with a leading `-` when negative.
pub open spec fn int_decimal(n: int) -> Seq<char> {
    if n < 0 {
        seq!['-'] + nat_decimal((-n) as nat)
    } else {
        nat_decimal(n as nat)
    }
}

/// The characters of a string.
pub(crate) fn chars_of(s: &str) -> (r: Vec<char>)
    ensures
        r@ == s@,
{
    broadcast use vstd::string::group_string_axioms;

    let mut it = s.chars();
    let mut r: Vec<char> = Vec::new();
    loop
        invariant
            r@ + it.remaining() == s@,
            it.decrease() is Some,
        ensures
            r@ == s@,
        decreases it.decrease()->0,
    {
        let ghost before = it.remaining();
        match it.next() {
            Some(c) => {
                r.push(c);
                assert(r@ + it.remaining() =~= s@) by {
                    assert(before =~= seq![c] + before.drop_first());
                }
            },
            None => {
                assert(r@ =~= s@);
                break;
            },
        }
    }
    r
}

/// Whether `needle` occurs in `hay` at position `i`.
fn matches_at(hay: &Vec<char>, needle: &Vec<char>, i: usize) -> (r: bool)
    requires
        i + needle@.len() <= hay@.len(),
    ensures
        r == (hay@.subrange(i as int, i + needle@.len()) == needle@),
{
    let m = needle.len();
    let len = hay.len();
    let mut j: usize = 0;
    while j < m
        invariant
            m == needle@.len(),
            len == hay@.len(),
            i + m <= len,
            j <= m,
            forall|k: int| 0 <= k < j ==> hay@[i + k] == needle@[k],
        decreases m - j,
    {
        if hay[i + j] != needle[j] {
            assert(hay@.subrange(i as int, i + m)[j as int] != needle@[j as int]);
            return false;
        }
        j = j + 1;
    }
    assert(hay@.subrange(i as int, i + m) =~= needle@);
    true
}

/// Whether `needle` occurs as a contiguous part of `hay`.
pub fn contains_text(hay: &str, needle: &str) -> (r: bool)
    ensures
        r == is_infix(needle@, hay@),
{
    let h = chars_of(hay);
    let nd = chars_of(needle);
    let n = h.len();
    let m = nd.len();
    if m > n {
        return false;
    }
    let mut i: usize = 0;
    loop
        invariant
            n == h@.len(),
            m == nd@.len(),
            h@ == hay@,
            nd@ == needle@,
            m <= n,
            i <= n - m,
            forall|k: int| 0 <= k < i ==> #[trigger] h@.subrange(k, k + m) != nd@,
        decreases n - m - i,
    {
        if matches_at(&h, &nd, i) {
            assert(h@.subrange(i as int, i + m) == nd@);
            return true;
        }
        if i == n - m {
            assert forall|k: int| 0 <= k && k + m <= n implies #[trigger] h@.subrange(k, k + m)
                != nd@ by {
                if k < i {
                } else {
                    assert(k == i);
                }
            }
            return false;
        }
        i = i + 1;
    }
}

/// The character of a decimal digit.
fn digit(d: u128) -> (r: char)
    requires
        d < 10,
    ensures
        r == digit_char(d as nat),
{
    if d == 0 { '0' } else if d == 1 { '1' } else if d == 2 { '2' } else if d == 3 { '3' }
    else if d == 4 { '4' } else if d == 5 { '5' } else if d == 6 { '6' } else if d == 7 { '7' }
    else if d == 8 { '8' } else { '9' }
}

/// The decimal digits of a natural number.
fn digits_of(n: u128) -> (r: Vec<char>)
    ensures
        r@ == nat_decimal(n as nat),
{
    let mut m = n;
    let mut tail: Vec<char> = Vec::new();
    assert(nat_decimal(n as nat) =~= nat_decimal(m as nat) + tail@);
    while m >= 10
        invariant
            nat_decimal(n as nat) == nat_decimal(m as nat) + tail@,
        decreases m,
    {
        let d = digit(m % 10);
        let ghost before = tail@;
        tail.insert(0, d);
        assert(tail@ =~= seq![d] + before);
        assert(nat_decimal(m as nat) == nat_decimal((m / 10) as nat).push(digit_char((m % 10) as nat)));
        assert(nat_decimal(m as nat) + before =~= nat_decimal((m / 10) as nat) + tail@);
        m = m / 10;
    }
    let ghost before = tail@;
    tail.insert(0, digit(m));
    assert(tail@ =~= nat_decimal(m as nat) + before);
    tail
}

/// The decimal text of `n`, with a leading `-` when negative.
pub(crate) fn decimal_text(n: i128) -> (r: String)
    ensures
        r@ == int_decimal(n as int),
{
    let magnitude: u128 = if n < 0 { (0 - (n + 1)) as u128 + 1 } else { n as u128 };
    let digits = digits_of(magnitude);
    let text = string_of(&digits, 0, digits.len());
    assert(digits@.subrange(0, digits@.len() as int) =~= digits@);
    if n < 0 {
        proof {
            reveal_strlit("-");
            assert("-"@ =~= seq!['-']);
            assert(magnitude as int == -(n as int));
        }
        join2("-", text.as_str())
    } else {
        text
    }
}

/// The concatenation of two strings.
pub fn join2(a: &str, b: &str) -> (r: String)
    ensures
        r@ == a@ + b@,
{
    let mut s = String::from_str(a);
    s.append(b);
    s
}

} // verus!
