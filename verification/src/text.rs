//! Small operations on text that the rest of the crate builds on.
use vstd::prelude::*;

verus! {

/// Appending one character to a `String` extends its characters by it.
pub assume_specification[ String::push ](s: &mut String, ch: char)
    ensures
        final(s)@ == old(s)@.push(ch),
;

/// The characters of `s`, in order.
pub fn chars_of(s: &str) -> (v: Vec<char>)
    ensures
        v@ == s@,
{
    let n = s.unicode_len();
    let mut v: Vec<char> = Vec::new();
    let mut i: usize = 0;
    while i < n
        invariant
            n == s@.len(),
            i <= n,
            v@ == s@.take(i as int),
        decreases n - i,
    {
        let c = s.get_char(i);
        v.push(c);
        i = i + 1;
        assert(v@ =~= s@.take(i as int));
    }
    assert(s@.take(n as int) =~= s@);
    v
}

/// A `String` made of the characters `v`.
pub fn string_from_chars(v: &[char]) -> (s: String)
    ensures
        s@ == v@,
{
    let mut s = String::new();
    let mut i: usize = 0;
    while i < v.len()
        invariant
            i <= v@.len(),
            s@ == v@.take(i as int),
        decreases v@.len() - i,
    {
        s.push(v[i]);
        i = i + 1;
        assert(s@ =~= v@.take(i as int));
    }
    assert(v@.take(v@.len() as int) =~= v@);
    s
}

/// The character of the decimal digit `d`.
pub open spec fn digit_char(d: nat) -> char
    recommends
        d < 10,
{
    (48 + d) as char
}

/// The decimal numeral of `n`, without leading zeros.
pub open spec fn decimal(n: nat) -> Seq<char>
    decreases n,
{
    if n < 10 {
        seq![digit_char(n)]
    } else {
        decimal(n / 10).push(digit_char(n % 10))
    }
}

fn digit(d: u8) -> (c: char)
    requires
        d < 10,
    ensures
        c == digit_char(d as nat),
{
    (48u8 + d) as char
}

/// Appends the decimal numeral of `v` to `out`.
pub fn push_decimal(out: &mut String, v: u8)
    ensures
        final(out)@ == old(out)@ + decimal(v as nat),
{
    if v >= 100 {
        out.push(digit(v / 100));
        out.push(digit((v / 10) % 10));
        out.push(digit(v % 10));
        proof {
            let q = (v / 10) as nat;
            assert(decimal(v as nat) == decimal(q).push(digit_char((v % 10) as nat)));
            assert(decimal(q) == decimal(q / 10).push(digit_char(q % 10)));
            assert(q / 10 == v / 100);
            assert(decimal(q / 10) == seq![digit_char((v / 100) as nat)]);
            assert(decimal(v as nat) =~= seq![
                digit_char((v / 100) as nat),
                digit_char(((v / 10) % 10) as nat),
                digit_char((v % 10) as nat),
            ]);
        }
    } else if v >= 10 {
        out.push(digit(v / 10));
        out.push(digit(v % 10));
        proof {
            let q = (v / 10) as nat;
            assert(decimal(v as nat) == decimal(q).push(digit_char((v % 10) as nat)));
            assert(decimal(q) == seq![digit_char(q)]);
            assert(decimal(v as nat) =~= seq![digit_char(q), digit_char((v % 10) as nat)]);
        }
    } else {
        out.push(digit(v));
    }
}

/// Whether `s` ends with `suffix`.
pub open spec fn ends_with(s: Seq<char>, suffix: Seq<char>) -> bool {
    suffix.len() <= s.len() && s.subrange(s.len() - suffix.len(), s.len() as int) == suffix
}

/// Whether the characters `s` end with `suffix`.
pub fn has_suffix(s: &[char], suffix: &str) -> (r: bool)
    ensures
        r == ends_with(s@, suffix@),
{
    let n = suffix.unicode_len();
    if n > s.len() {
        return false;
    }
    let start = s.len() - n;
    let mut i: usize = 0;
    while i < n
        invariant
            n == suffix@.len(),
            n <= s@.len(),
            start == s@.len() - n,
            start + n == s.len(),
            i <= n,
            forall|j: int| 0 <= j < i ==> s@[start + j] == suffix@[j],
        decreases n - i,
    {
        if s[start + i] != suffix.get_char(i) {
            assert(s@.subrange(start as int, s@.len() as int)[i as int] != suffix@[i as int]);
            return false;
        }
        i = i + 1;
    }
    assert(s@.subrange(start as int, s@.len() as int) =~= suffix@);
    true
}

} // verus!
