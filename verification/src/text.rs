use vstd::prelude::*;
use vstd::string::*;

verus! {

/// Appends one character to a string: calls std's `String::push`, which
/// documents that it appends the given `char` to the end of the string.
#[verifier::external_body]
pub(crate) fn push_char(s: &mut String, c: char)
    ensures
        final(s)@ == old(s)@.push(c),
{
    s.push(c);
}

/// The character of a digit in base 16 (upper case), `0..16`.
pub open spec fn digit_char(d: int) -> char {
    if d == 0 { '0' }
    else if d == 1 { '1' }
    else if d == 2 { '2' }
    else if d == 3 { '3' }
    else if d == 4 { '4' }
    else if d == 5 { '5' }
    else if d == 6 { '6' }
    else if d == 7 { '7' }
    else if d == 8 { '8' }
    else if d == 9 { '9' }
    else if d == 10 { 'A' }
    else if d == 11 { 'B' }
    else if d == 12 { 'C' }
    else if d == 13 { 'D' }
    else if d == 14 { 'E' }
    else { 'F' }
}

/// Decimal text of a natural number, without leading zeros.
pub open spec fn spec_decimal(n: nat) -> Seq<char>
    decreases n,
{
    if n < 10 {
        seq![digit_char(n as int)]
    } else {
        spec_decimal(n / 10).push(digit_char((n % 10) as int))
    }
}

/// Upper-case hexadecimal text of a natural number, without leading zeros.
pub open spec fn spec_hex(n: nat) -> Seq<char>
    decreases n,
{
    if n < 16 {
        seq![digit_char(n as int)]
    } else {
        spec_hex(n / 16).push(digit_char((n % 16) as int))
    }
}

/// Decimal text of an integer, with a leading `-` when it is negative.
pub open spec fn spec_int_text(i: int) -> Seq<char> {
    if i < 0 {
        seq!['-'] + spec_decimal((-i) as nat)
    } else {
        spec_decimal(i as nat)
    }
}

fn digit_of(d: u128) -> (c: char)
    requires
        d < 16,
    ensures
        c == digit_char(d as int),
{
    if d == 0 { '0' }
    else if d == 1 { '1' }
    else if d == 2 { '2' }
    else if d == 3 { '3' }
    else if d == 4 { '4' }
    else if d == 5 { '5' }
    else if d == 6 { '6' }
    else if d == 7 { '7' }
    else if d == 8 { '8' }
    else if d == 9 { '9' }
    else if d == 10 { 'A' }
    else if d == 11 { 'B' }
    else if d == 12 { 'C' }
    else if d == 13 { 'D' }
    else if d == 14 { 'E' }
    else { 'F' }
}

/// Appends the decimal text of `n`.
pub fn push_decimal(s: &mut String, n: u128)
    ensures
        final(s)@ == old(s)@ + spec_decimal(n as nat),
    decreases n,
{
    if n >= 10 {
        push_decimal(s, n / 10);
    }
    push_char(s, digit_of(n % 10));
    proof {
        if n < 10 {
            assert(old(s)@ + seq![digit_char(n as int)] =~= old(s)@.push(digit_char(n as int)));
        } else {
            assert(old(s)@ + spec_decimal((n / 10) as nat).push(digit_char((n % 10) as int))
                =~= (old(s)@ + spec_decimal((n / 10) as nat)).push(digit_char((n % 10) as int)));
        }
    }
}

/// Appends the upper-case hexadecimal text of `n`.
pub fn push_hex(s: &mut String, n: u128)
    ensures
        final(s)@ == old(s)@ + spec_hex(n as nat),
    decreases n,
{
    if n >= 16 {
        push_hex(s, n / 16);
    }
    push_char(s, digit_of(n % 16));
    proof {
        if n < 16 {
            assert(old(s)@ + seq![digit_char(n as int)] =~= old(s)@.push(digit_char(n as int)));
        } else {
            assert(old(s)@ + spec_hex((n / 16) as nat).push(digit_char((n % 16) as int))
                =~= (old(s)@ + spec_hex((n / 16) as nat)).push(digit_char((n % 16) as int)));
        }
    }
}

/// Appends the decimal text of a signed integer.
pub fn push_int(s: &mut String, v: i128)
    ensures
        final(s)@ == old(s)@ + spec_int_text(v as int),
{
    if v < 0 {
        push_char(s, '-');
        let mag: u128 = ((-(v + 1)) as u128) + 1;
        push_decimal(s, mag);
        assert(old(s)@.push('-') + spec_decimal(mag as nat) =~= old(s)@ + (seq!['-']
            + spec_decimal(mag as nat)));
    } else {
        push_decimal(s, v as u128);
    }
}

/// A string made of the given characters.
pub fn chars_to_string(v: &Vec<char>) -> (r: String)
    ensures
        r@ == v@,
{
    let mut r = String::new();
    let mut i: usize = 0;
    while i < v.len()
        invariant
            i <= v.len(),
            r@ == v@.take(i as int),
        decreases v.len() - i,
    {
        push_char(&mut r, v[i]);
        assert(v@.take(i as int).push(v@[i as int]) =~= v@.take(i + 1));
        i = i + 1;
    }
    assert(v@.take(v.len() as int) =~= v@);
    r
}

/// Whether a string holds exactly the given characters.
pub fn str_eq_chars(s: &str, v: &[char]) -> (r: bool)
    ensures
        r == (s@ == v@),
{
    let n = s.unicode_len();
    if n != v.len() {
        return false;
    }
    let mut i: usize = 0;
    while i < n
        invariant
            n == s@.len(),
            n == v@.len(),
            i <= n,
            forall|j: int| 0 <= j < i ==> s@[j] == v@[j],
        decreases n - i,
    {
        if s.get_char(i) != v[i] {
            return false;
        }
        i = i + 1;
    }
    assert(s@ =~= v@);
    true
}

/// The characters of a string.
pub fn str_chars(s: &str) -> (v: Vec<char>)
    ensures
        v@ == s@,
{
    let n = s.unicode_len();
    let mut v: Vec<char> = Vec::new();
    let mut i: usize = 0;
    while i < n
        invariant
            n == s@.len(),
            i <= n,
            v@ == s@.take(i as int),
        decreases n - i,
    {
        v.push(s.get_char(i));
        assert(s@.take(i as int).push(s@[i as int]) =~= s@.take(i + 1));
        i = i + 1;
    }
    assert(s@.take(n as int) =~= s@);
    v
}

} // verus!
