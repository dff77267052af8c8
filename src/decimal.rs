//! Canonical decimal text for unsigned integers: the digits of a number
//! without sign or leading zeros, and a reader that accepts exactly that form.

use vstd::prelude::*;

verus! {

pub open spec fn is_digit(c: char) -> bool {
    c == '0' || c == '1' || c == '2' || c == '3' || c == '4' || c == '5' || c == '6' || c == '7'
        || c == '8' || c == '9'
}

pub open spec fn digit_value(c: char) -> nat {
    if c == '1' {
        1
    } else if c == '2' {
        2
    } else if c == '3' {
        3
    } else if c == '4' {
        4
    } else if c == '5' {
        5
    } else if c == '6' {
        6
    } else if c == '7' {
        7
    } else if c == '8' {
        8
    } else if c == '9' {
        9
    } else {
        0
    }
}

pub open spec fn digit_char(d: nat) -> char {
    if d == 1 {
        '1'
    } else if d == 2 {
        '2'
    } else if d == 3 {
        '3'
    } else if d == 4 {
        '4'
    } else if d == 5 {
        '5'
    } else if d == 6 {
        '6'
    } else if d == 7 {
        '7'
    } else if d == 8 {
        '8'
    } else if d == 9 {
        '9'
    } else {
        '0'
    }
}

/// The decimal digits of `n`, most significant first, with no leading zero.
pub open spec fn dec(n: nat) -> Seq<char>
    decreases n,
{
    if n < 10 {
        seq![digit_char(n)]
    } else {
        dec(n / 10).push(digit_char(n % 10))
    }
}

/// The number that a run of digits denotes.
pub open spec fn digits_value(r: Seq<char>) -> nat
    decreases r.len(),
{
    if r.len() == 0 {
        0
    } else {
        digits_value(r.drop_last()) * 10 + digit_value(r.last())
    }
}

pub open spec fn all_digits(r: Seq<char>) -> bool {
    forall|i: int| 0 <= i < r.len() ==> is_digit(#[trigger] r[i])
}

/// A non-empty run of digits that does not start with a superfluous zero.
pub open spec fn canonical_digits(r: Seq<char>) -> bool {
    r.len() >= 1 && all_digits(r) && (r[0] == '0' ==> r.len() == 1)
}

/// `dec(n)` stands in `s` at `start` and is not followed by another digit.
pub open spec fn decimal_at(s: Seq<char>, start: int, n: nat) -> bool {
    let end = start + dec(n).len();
    0 <= start && end <= s.len() && s.subrange(start, end) == dec(n) && (end == s.len()
        || !is_digit(s[end]))
}

pub proof fn lemma_dec_shape(n: nat)
    ensures
        canonical_digits(dec(n)),
        digits_value(dec(n)) == n,
    decreases n,
{
    if n < 10 {
        let r = dec(n);
        assert(r == seq![digit_char(n)]);
        assert(r.drop_last() =~= Seq::<char>::empty());
        assert(digit_value(digit_char(n)) == n);
        assert(is_digit(r[0]));
        assert(digits_value(r) == digits_value(r.drop_last()) * 10 + digit_value(r.last()));
    } else {
        lemma_dec_shape(n / 10);
        let d = dec(n / 10);
        let r = dec(n);
        assert(r.drop_last() =~= d);
        assert(digit_value(digit_char(n % 10)) == n % 10);
        assert(n == (n / 10) * 10 + n % 10);
        assert(r.last() == digit_char(n % 10));
        assert(digits_value(r) == digits_value(r.drop_last()) * 10 + digit_value(r.last()));
        assert forall|i: int| 0 <= i < r.len() implies is_digit(#[trigger] r[i]) by {
            if i < d.len() {
                assert(r[i] == d[i]);
            }
        }
        assert(r[0] == d[0]);
        if d[0] == '0' {
            assert(d.drop_last() =~= Seq::<char>::empty());
            assert(digits_value(d) == digits_value(d.drop_last()) * 10 + digit_value(d.last()));
        }
    }
}

pub proof fn lemma_canonical_value_positive(r: Seq<char>)
    requires
        canonical_digits(r),
        r[0] != '0',
    ensures
        digits_value(r) >= 1,
    decreases r.len(),
{
    if r.len() > 1 {
        let p = r.drop_last();
        assert(p[0] == r[0]);
        assert forall|i: int| 0 <= i < p.len() implies is_digit(#[trigger] p[i]) by {
            assert(p[i] == r[i]);
        }
        lemma_canonical_value_positive(p);
    }
}

pub proof fn lemma_canonical_is_dec(r: Seq<char>)
    requires
        canonical_digits(r),
    ensures
        dec(digits_value(r)) == r,
    decreases r.len(),
{
    if r.len() == 1 {
        assert(r.drop_last().len() == 0);
        assert(is_digit(r[0]));
        assert(digits_value(r) == digits_value(r.drop_last()) * 10 + digit_value(r.last()));
        assert(digits_value(r) == digit_value(r[0]));
        assert(digit_char(digit_value(r[0])) == r[0]);
        assert(dec(digits_value(r)) =~= r);
    } else {
        let p = r.drop_last();
        assert(p[0] == r[0]);
        assert forall|i: int| 0 <= i < p.len() implies is_digit(#[trigger] p[i]) by {
            assert(p[i] == r[i]);
        }
        lemma_canonical_is_dec(p);
        lemma_canonical_value_positive(p);
        assert(is_digit(r[r.len() - 1]));
        let v = digits_value(r);
        let d = digit_value(r.last());
        assert(v == digits_value(p) * 10 + d);
        assert(v / 10 == digits_value(p) && v % 10 == d) by (nonlinear_arith)
            requires
                v == digits_value(p) * 10 + d,
                d < 10,
        ;
        assert(dec(v) =~= r);
    }
}

/// Two numbers that both stand at the same place of a text are equal.
pub proof fn lemma_decimal_at_unique(s: Seq<char>, start: int, n: nat, m: nat)
    requires
        decimal_at(s, start, n),
        decimal_at(s, start, m),
    ensures
        n == m,
{
    lemma_dec_shape(n);
    lemma_dec_shape(m);
    let a = dec(n);
    let b = dec(m);
    if a.len() < b.len() {
        assert(s[start + a.len()] == b[a.len() as int]);
    } else if b.len() < a.len() {
        assert(s[start + b.len()] == a[b.len() as int]);
    } else {
        assert(a =~= b);
    }
}

fn digit_str(d: u128) -> (s: &'static str)
    requires
        d < 10,
    ensures
        s@ == seq![digit_char(d as nat)],
{
    proof {
        reveal_strlit("0");
        reveal_strlit("1");
        reveal_strlit("2");
        reveal_strlit("3");
        reveal_strlit("4");
        reveal_strlit("5");
        reveal_strlit("6");
        reveal_strlit("7");
        reveal_strlit("8");
        reveal_strlit("9");
    }
    if d == 0 {
        "0"
    } else if d == 1 {
        "1"
    } else if d == 2 {
        "2"
    } else if d == 3 {
        "3"
    } else if d == 4 {
        "4"
    } else if d == 5 {
        "5"
    } else if d == 6 {
        "6"
    } else if d == 7 {
        "7"
    } else if d == 8 {
        "8"
    } else {
        "9"
    }
}

fn char_is_digit(c: char) -> (r: bool)
    ensures
        r == is_digit(c),
{
    c == '0' || c == '1' || c == '2' || c == '3' || c == '4' || c == '5' || c == '6' || c == '7'
        || c == '8' || c == '9'
}

fn char_digit_value(c: char) -> (r: u128)
    ensures
        r == digit_value(c),
{
    if c == '1' {
        1
    } else if c == '2' {
        2
    } else if c == '3' {
        3
    } else if c == '4' {
        4
    } else if c == '5' {
        5
    } else if c == '6' {
        6
    } else if c == '7' {
        7
    } else if c == '8' {
        8
    } else if c == '9' {
        9
    } else {
        0
    }
}

/// Appends the decimal digits of `n` to `out`.
pub fn write_decimal(out: &mut String, n: u128)
    ensures
        final(out)@ == old(out)@ + dec(n as nat),
    decreases n,
{
    if n >= 10 {
        write_decimal(out, n / 10);
    }
    out.append(digit_str(n % 10));
    proof {
        if n >= 10 {
            assert(dec(n as nat) == dec((n / 10) as nat).push(digit_char((n % 10) as nat)));
        }
    }
    assert(final(out)@ =~= old(out)@ + dec(n as nat));
}

/// Reads the number written in canonical decimal form at `start` of `s`,
/// if it is at most `max`; gives it with the position after its last digit.
pub fn read_decimal(s: &str, start: usize, max: u128) -> (r: Option<(u128, usize)>)
    requires
        start <= s@.len(),
    ensures
        match r {
            Some((v, end)) => v <= max && decimal_at(s@, start as int, v as nat) && end == start
                + dec(v as nat).len(),
            None => forall|n: nat| n <= max ==> !decimal_at(s@, start as int, n),
        },
{
    let len = s.unicode_len();
    let mut i: usize = start;
    let mut acc: u128 = 0;
    let mut over = false;
    while i < len && char_is_digit(s.get_char(i))
        invariant
            start <= i <= len,
            len == s@.len(),
            all_digits(s@.subrange(start as int, i as int)),
            !over ==> acc == digits_value(s@.subrange(start as int, i as int)) && acc <= max,
            over ==> digits_value(s@.subrange(start as int, i as int)) > max,
        decreases len - i,
    {
        let c = s.get_char(i);
        let d = char_digit_value(c);
        let ghost prev = s@.subrange(start as int, i as int);
        let ghost next = s@.subrange(start as int, i + 1);
        assert(next.drop_last() =~= prev);
        assert(next.last() == c);
        if !over {
            if d > max || acc > (max - d) / 10 {
                over = true;
                assert(acc * 10 + d > max) by (nonlinear_arith)
                    requires
                        d > max || acc > (max - d) / 10,
                        d < 10,
                ;
            } else {
                assert(acc * 10 + d <= max) by (nonlinear_arith)
                    requires
                        acc <= (max - d) / 10,
                        d <= max,
                ;
                acc = acc * 10 + d;
            }
        }
        assert forall|k: int| 0 <= k < next.len() implies is_digit(#[trigger] next[k]) by {
            if k < prev.len() {
                assert(next[k] == prev[k]);
            }
        }
        i = i + 1;
    }
    let ghost run = s@.subrange(start as int, i as int);
    proof {
        assert forall|n: nat| decimal_at(s@, start as int, n) implies dec(n) == run by {
            lemma_dec_shape(n);
            let e = start + dec(n).len();
            if e < i {
                assert(run[e - start] == s@[e]);
            } else if e > i {
                assert(s@.subrange(start as int, e)[i - start] == s@[i as int]);
            }
        }
    }
    if i == start {
        assert forall|n: nat| n <= max implies !decimal_at(s@, start as int, n) by {
            lemma_dec_shape(n);
        }
        return None;
    }
    if i > start + 1 && s.get_char(start) == '0' {
        assert(run[0] == '0');
        assert forall|n: nat| n <= max implies !decimal_at(s@, start as int, n) by {
            lemma_dec_shape(n);
        }
        return None;
    }
    if over {
        assert forall|n: nat| n <= max implies !decimal_at(s@, start as int, n) by {
            lemma_dec_shape(n);
        }
        return None;
    }
    proof {
        assert(run[0] == s@[start as int]);
        lemma_canonical_is_dec(run);
    }
    Some((acc, i))
}

} // verus!
