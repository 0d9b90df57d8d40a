//! Verified helpers over strings, seen as sequences of characters.
//!
//! Every contract in this crate speaks of a string through its view, a
//! `Seq<char>`. The functions here are the few primitives the rest of the
//! crate builds on: comparison, prefix tests, slicing, substitution and the
//! decimal rendering of integers.

use vstd::prelude::*;
use vstd::std_specs::iter::IteratorSpec;
use vstd::string::*;

verus! {

/// `String::push` appends exactly one character.
pub assume_specification[ String::push ](s: &mut String, c: char)
    ensures
        final(s)@ == old(s)@.push(c),
;

/// The character that writes the decimal digit `d`.
pub open spec fn digit_char(d: int) -> char {
    if d == 0 {
        '0'
    } else if d == 1 {
        '1'
    } else if d == 2 {
        '2'
    } else if d == 3 {
        '3'
    } else if d == 4 {
        '4'
    } else if d == 5 {
        '5'
    } else if d == 6 {
        '6'
    } else if d == 7 {
        '7'
    } else if d == 8 {
        '8'
    } else {
        '9'
    }
}

/// The decimal numeral of `n`, most significant digit first, without
/// leading zeros (`0` is written `"0"`).
pub open spec fn decimal_digits(n: nat) -> Seq<char>
    decreases n,
{
    if n < 10 {
        seq![digit_char(n as int)]
    } else {
        decimal_digits(n / 10).push(digit_char((n % 10) as int))
    }
}

/// `s` with every occurrence of `from` replaced by `to`, scanning from the
/// left and never matching inside text that an earlier match consumed. An
/// empty `from` matches nowhere.
pub open spec fn replaced(s: Seq<char>, from: Seq<char>, to: Seq<char>) -> Seq<char>
    decreases s.len(),
{
    if from.len() == 0 || s.len() < from.len() {
        s
    } else if from.is_prefix_of(s) {
        to + replaced(s.skip(from.len() as int), from, to)
    } else {
        seq![s[0]] + replaced(s.skip(1), from, to)
    }
}

/// The view of an optional string.
pub open spec fn opt_view(value: Option<&str>) -> Option<Seq<char>> {
    match value {
        Some(v) => Some(v@),
        None => None,
    }
}

/// The characters of `s`, in order.
pub fn chars_of(s: &str) -> (v: Vec<char>)
    ensures
        v@ == s@,
{
    let mut it = s.chars();
    let mut v: Vec<char> = Vec::new();
    loop
        invariant
            v.len() <= s@.len(),
            it.remaining() == s@.skip(v.len() as int),
            v@ == s@.take(v.len() as int),
        decreases s@.len() - v.len(),
    {
        match it.next() {
            None => {
                assert(s@.take(v.len() as int) == s@);
                return v;
            },
            Some(c) => {
                assert(s@.take(v.len() + 1) == s@.take(v.len() as int).push(s@[v.len() as int]));
                v.push(c);
            },
        }
    }
}

/// The number of characters in `s`.
pub fn char_len(s: &str) -> (n: usize)
    ensures
        n == s@.len(),
{
    s.unicode_len()
}

/// Whether two strings hold the same characters.
pub fn str_eq(a: &str, b: &str) -> (r: bool)
    ensures
        r == (a@ == b@),
{
    let mut x = a.chars();
    let mut y = b.chars();
    let ghost mut k: int = 0;
    loop
        invariant
            0 <= k <= a@.len(),
            k <= b@.len(),
            x.remaining() == a@.skip(k),
            y.remaining() == b@.skip(k),
            a@.take(k) == b@.take(k),
        decreases a@.len() - k,
    {
        match x.next() {
            None => {
                match y.next() {
                    None => {
                        assert(a@.take(k) == a@);
                        assert(b@.take(k) == b@);
                        return true;
                    },
                    Some(_) => {
                        return false;
                    },
                }
            },
            Some(xc) => {
                match y.next() {
                    None => {
                        return false;
                    },
                    Some(yc) => {
                        if xc != yc {
                            return false;
                        }
                        proof {
                            assert(a@.take(k + 1) == a@.take(k).push(a@[k]));
                            assert(b@.take(k + 1) == b@.take(k).push(b@[k]));
                            k = k + 1;
                        }
                    },
                }
            },
        }
    }
}

/// Whether `prefix` is a prefix of `s`.
pub fn starts_with(s: &str, prefix: &str) -> (r: bool)
    ensures
        r == prefix@.is_prefix_of(s@),
{
    let mut a = s.chars();
    let mut b = prefix.chars();
    let ghost mut k: int = 0;
    loop
        invariant
            0 <= k <= s@.len(),
            k <= prefix@.len(),
            a.remaining() == s@.skip(k),
            b.remaining() == prefix@.skip(k),
            s@.take(k) == prefix@.take(k),
        decreases prefix@.len() - k,
    {
        match b.next() {
            None => {
                assert(prefix@.take(k) == prefix@);
                return true;
            },
            Some(pc) => {
                match a.next() {
                    None => {
                        return false;
                    },
                    Some(sc) => {
                        if sc != pc {
                            return false;
                        }
                        proof {
                            assert(s@.take(k + 1) == s@.take(k).push(s@[k]));
                            assert(prefix@.take(k + 1) == prefix@.take(k).push(prefix@[k]));
                            k = k + 1;
                        }
                    },
                }
            },
        }
    }
}

/// What is left of `s` after its first `n` characters; empty when `s` has
/// no more than `n`.
pub fn skip_chars(s: &str, n: usize) -> (r: String)
    ensures
        r@ == if n <= s@.len() {
            s@.skip(n as int)
        } else {
            Seq::<char>::empty()
        },
{
    let v = chars_of(s);
    let mut out = String::new();
    if n > v.len() {
        return out;
    }
    let mut i: usize = n;
    while i < v.len()
        invariant
            v@ == s@,
            n <= i <= v.len(),
            out@ == s@.subrange(n as int, i as int),
        decreases v.len() - i,
    {
        out.push(v[i]);
        assert(s@.subrange(n as int, i + 1) == s@.subrange(n as int, i as int).push(s@[i as int]));
        i = i + 1;
    }
    assert(s@.subrange(n as int, i as int) == s@.skip(n as int));
    out
}

/// `a` followed by `b`.
pub fn joined(a: &str, b: &str) -> (r: String)
    ensures
        r@ == a@ + b@,
{
    let mut out = String::new();
    out.append(a);
    out.append(b);
    assert(Seq::<char>::empty() + a@ == a@);
    out
}

/// An owned copy of `s`.
pub fn owned(s: &str) -> (r: String)
    ensures
        r@ == s@,
{
    let mut out = String::new();
    out.append(s);
    assert(Seq::<char>::empty() + s@ == s@);
    out
}

fn digit_of(d: u64) -> (c: char)
    requires
        d < 10,
    ensures
        c == digit_char(d as int),
{
    if d == 0 {
        '0'
    } else if d == 1 {
        '1'
    } else if d == 2 {
        '2'
    } else if d == 3 {
        '3'
    } else if d == 4 {
        '4'
    } else if d == 5 {
        '5'
    } else if d == 6 {
        '6'
    } else if d == 7 {
        '7'
    } else if d == 8 {
        '8'
    } else {
        '9'
    }
}

/// Appends the decimal numeral of `n` to `out`.
pub fn push_decimal(out: &mut String, n: u64)
    ensures
        final(out)@ == old(out)@ + decimal_digits(n as nat),
    decreases n,
{
    if n >= 10 {
        push_decimal(out, n / 10);
    }
    out.push(digit_of(n % 10));
    proof {
        if n < 10 {
            assert(old(out)@.push(digit_char(n as int)) == old(out)@ + seq![digit_char(n as int)]);
        } else {
            assert((old(out)@ + decimal_digits((n / 10) as nat)).push(
                digit_char((n % 10) as int),
            ) == old(out)@ + decimal_digits((n / 10) as nat).push(digit_char((n % 10) as int)));
        }
    }
}

/// The decimal numeral of `n`.
pub fn decimal_string(n: u64) -> (r: String)
    ensures
        r@ == decimal_digits(n as nat),
{
    let mut out = String::new();
    push_decimal(&mut out, n);
    assert(Seq::<char>::empty() + decimal_digits(n as nat) == decimal_digits(n as nat));
    out
}

/// Whether `pat` occurs in `s` starting at index `at`.
fn occurs_at(s: &Vec<char>, at: usize, pat: &Vec<char>) -> (r: bool)
    requires
        at <= s.len(),
    ensures
        r == pat@.is_prefix_of(s@.skip(at as int)),
{
    if pat.len() > s.len() - at {
        return false;
    }
    let mut j: usize = 0;
    while j < pat.len()
        invariant
            at + pat.len() <= s.len(),
            0 <= j <= pat.len(),
            forall|i: int| 0 <= i < j ==> pat@[i] == s@[at + i],
        decreases pat.len() - j,
    {
        if pat[j] != s[at + j] {
            assert(s@.skip(at as int).subrange(0, pat@.len() as int)[j as int] == s@[at + j]);
            return false;
        }
        j = j + 1;
    }
    assert(pat@ =~= s@.skip(at as int).subrange(0, pat@.len() as int));
    true
}

/// `s` with every occurrence of `from` replaced by `to`, as [`replaced`]
/// defines it.
pub fn replace_all(s: &str, from: &str, to: &str) -> (r: String)
    ensures
        r@ == replaced(s@, from@, to@),
{
    let sv = chars_of(s);
    let fv = chars_of(from);
    let mut out = String::new();
    let mut i: usize = 0;
    assert(s@.skip(0) == s@);
    assert(Seq::<char>::empty() + replaced(s@, from@, to@) == replaced(s@, from@, to@));
    while i < sv.len()
        invariant
            sv@ == s@,
            fv@ == from@,
            0 <= i <= sv.len(),
            out@ + replaced(s@.skip(i as int), from@, to@) == replaced(s@, from@, to@),
        decreases sv.len() - i,
    {
        let ghost rest = s@.skip(i as int);
        let ghost before = out@;
        if fv.len() > 0 && occurs_at(&sv, i, &fv) {
            out.append(to);
            proof {
                let tail = replaced(rest.skip(from@.len() as int), from@, to@);
                assert(rest.skip(from@.len() as int) == s@.skip(i + from@.len()));
                assert((before + to@) + tail =~= before + (to@ + tail));
            }
            i = i + fv.len();
        } else {
            out.push(sv[i]);
            proof {
                let tail = replaced(rest.skip(1), from@, to@);
                assert(rest.skip(1) == s@.skip(i + 1));
                assert(rest[0] == s@[i as int]);
                if from@.len() == 0 || rest.len() < from@.len() {
                    assert(rest == seq![rest[0]] + rest.skip(1));
                    lemma_replaced_without_match(rest.skip(1), from@, to@);
                }
                assert(before.push(rest[0]) + tail =~= before + (seq![rest[0]] + tail));
            }
            i = i + 1;
        }
    }
    assert(s@.skip(i as int) == Seq::<char>::empty());
    assert(out@ + Seq::<char>::empty() == out@);
    out
}

/// Where `from` is empty or longer than `s`, nothing is replaced.
proof fn lemma_replaced_without_match(s: Seq<char>, from: Seq<char>, to: Seq<char>)
    requires
        from.len() == 0 || s.len() + 1 < from.len(),
    ensures
        replaced(s, from, to) == s,
{
}

} // verus!
