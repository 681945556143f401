//! Executable helpers for moving between `&str`, `Vec<char>` and `String`.

use vstd::prelude::*;
use vstd::string::StrSliceExecFns;
use vstd::string::StringExecFns;

verus! {

/// Relies on String::push: appends exactly the given character.
#[verifier::external_body]
fn push_char(s: &mut String, c: char)
    ensures
        final(s)@ == old(s)@.push(c),
{
    s.push(c);
}

/// Collects the characters of a string slice into a vector.
pub fn to_chars(text: &str) -> (v: Vec<char>)
    ensures
        v@ == text@,
{
    let n: usize = text.unicode_len();
    let mut v: Vec<char> = Vec::new();
    let mut i: usize = 0;
    while i < n
        invariant
            i <= n,
            n == text@.len(),
            v@ == text@.take(i as int),
        decreases n - i,
    {
        let c = text.get_char(i);
        v.push(c);
        proof {
            assert(text@.take(i + 1 as int) =~= text@.take(i as int).push(text@[i as int]));
        }
        i = i + 1;
    }
    proof {
        assert(text@.take(n as int) =~= text@);
    }
    v
}

/// Collects a vector of characters into an owned string.
pub fn chars_to_string(v: &Vec<char>) -> (s: String)
    ensures
        s@ == v@,
{
    let mut s = String::new();
    let mut i: usize = 0;
    while i < v.len()
        invariant
            i <= v@.len(),
            s@ == v@.take(i as int),
        decreases v@.len() - i,
    {
        push_char(&mut s, v[i]);
        proof {
            assert(v@.take(i + 1 as int) =~= v@.take(i as int).push(v@[i as int]));
        }
        i = i + 1;
    }
    proof {
        assert(v@.take(v@.len() as int) =~= v@);
    }
    s
}

/// The character for one decimal digit.
pub open spec fn digit_char(d: nat) -> char {
    ((48 + d) as u32) as char
}

/// The decimal digits of a natural number, most significant first, with
/// no leading zeroes (zero itself is "0").
pub open spec fn decimal_digits(n: nat) -> Seq<char>
    decreases n,
{
    if n < 10 {
        seq![digit_char(n)]
    } else {
        decimal_digits(n / 10).push(digit_char(n % 10))
    }
}

/// The decimal form of a signed number: a minus sign before the digits of
/// its magnitude when it is negative.
pub open spec fn decimal_int(n: int) -> Seq<char> {
    if n < 0 {
        seq!['-'] + decimal_digits((-n) as nat)
    } else {
        decimal_digits(n as nat)
    }
}

/// The character for one decimal digit.
fn digit_char_exec(d: u32) -> (r: char)
    requires
        d < 10,
    ensures
        r == digit_char(d as nat),
{
    match d {
        0 => '0',
        1 => '1',
        2 => '2',
        3 => '3',
        4 => '4',
        5 => '5',
        6 => '6',
        7 => '7',
        8 => '8',
        _ => '9',
    }
}

/// Append the decimal digits of `n` to the vector.
fn push_decimal(n: u32, out: &mut Vec<char>)
    ensures
        final(out)@ == old(out)@ + decimal_digits(n as nat),
    decreases n,
{
    if n < 10 {
        out.push(digit_char_exec(n));
        proof {
            assert(final(out)@ =~= old(out)@ + decimal_digits(n as nat));
        }
    } else {
        push_decimal(n / 10, out);
        out.push(digit_char_exec(n % 10));
        proof {
            assert(final(out)@ =~= old(out)@ + decimal_digits(n as nat));
        }
    }
}

/// The decimal form of a signed number as a string.
pub fn i32_to_string(n: i32) -> (r: String)
    ensures
        r@ == decimal_int(n as int),
{
    let mut digits: Vec<char> = Vec::new();
    if n >= 0 {
        push_decimal(n as u32, &mut digits);
    } else {
        digits.push('-');
        let magnitude: u32 = (-(n as i64)) as u32;
        proof {
            assert(magnitude as nat == (-(n as int)) as nat);
        }
        push_decimal(magnitude, &mut digits);
        proof {
            assert(digits@ =~= seq!['-'] + decimal_digits((-(n as int)) as nat));
        }
    }
    chars_to_string(&digits)
}

/// How much of the text lies at or after position `i`.
pub open spec fn text_remaining(text: Seq<char>, i: int) -> int {
    if i <= text.len() {
        text.len() - i
    } else {
        0
    }
}

/// The first position at or after `i` where the pattern occurs in the
/// text, if any.
pub open spec fn find_from(text: Seq<char>, pat: Seq<char>, i: int) -> Option<int>
    decreases text_remaining(text, i),
{
    if i < 0 || i + pat.len() > text.len() {
        None
    } else if pat.len() == 0 {
        Some(i)
    } else if text.subrange(i, i + pat.len()) == pat {
        Some(i)
    } else {
        find_from(text, pat, i + 1)
    }
}

/// The first position where the pattern occurs in the text, if any.
pub open spec fn find_first(text: Seq<char>, pat: Seq<char>) -> Option<int> {
    find_from(text, pat, 0)
}

/// Find the first occurrence of `pat` in `text`, scanning left to right.
pub fn find_first_exec(text: &Vec<char>, pat: &Vec<char>) -> (r: Option<usize>)
    ensures
        match r {
            Some(p) => find_first(text@, pat@) == Some(p as int) && p + pat@.len() <= text@.len(),
            None => find_first(text@, pat@) is None,
        },
{
    let tlen = text.len();
    let plen = pat.len();
    if plen > tlen {
        return None;
    }
    if plen == 0 {
        return Some(0);
    }
    let mut p: usize = 0;
    while p <= tlen - plen
        invariant
            tlen == text@.len(),
            plen == pat@.len(),
            0 < plen <= tlen,
            p <= tlen - plen + 1,
            find_first(text@, pat@) == find_from(text@, pat@, p as int),
        decreases tlen - plen + 1 - p,
    {
        if crate::grading::match_at_exec(text, p, pat) {
            return Some(p);
        }
        proof {
            assert(text@.subrange(p as int, p + pat@.len()) != pat@);
        }
        p = p + 1;
    }
    None
}

/// Character-for-character equality of two vectors.
pub fn eq_chars(a: &Vec<char>, b: &Vec<char>) -> (r: bool)
    ensures
        r == (a@ == b@),
{
    if a.len() != b.len() {
        return false;
    }
    let mut i: usize = 0;
    while i < a.len()
        invariant
            i <= a@.len(),
            a@.len() == b@.len(),
            forall|m: int| 0 <= m < i ==> a@[m] == b@[m],
        decreases a@.len() - i,
    {
        if a[i] != b[i] {
            return false;
        }
        i = i + 1;
    }
    proof {
        assert(a@ =~= b@);
    }
    true
}

/// Character-for-character equality of two string slices.
pub fn eq_str(a: &str, b: &str) -> (r: bool)
    ensures
        r == (a@ == b@),
{
    let va = to_chars(a);
    let vb = to_chars(b);
    eq_chars(&va, &vb)
}

/// The characters of `v` from `from` (inclusive) to `to` (exclusive).
pub fn sub_chars(v: &Vec<char>, from: usize, to: usize) -> (r: Vec<char>)
    requires
        from <= to <= v@.len(),
    ensures
        r@ == v@.subrange(from as int, to as int),
{
    let mut r: Vec<char> = Vec::new();
    let mut i: usize = from;
    proof {
        assert(v@.subrange(from as int, from as int) =~= Seq::<char>::empty());
    }
    while i < to
        invariant
            from <= i <= to <= v@.len(),
            r@ == v@.subrange(from as int, i as int),
        decreases to - i,
    {
        r.push(v[i]);
        proof {
            assert(v@.subrange(from as int, i + 1 as int) =~= v@.subrange(
                from as int,
                i as int,
            ).push(v@[i as int]));
        }
        i = i + 1;
    }
    r
}

/// Copies a string slice into an owned string.
pub fn str_to_string(text: &str) -> (s: String)
    ensures
        s@ == text@,
{
    String::from_str(text)
}

} // verus!
