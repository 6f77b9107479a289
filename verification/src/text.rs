//! Character-level helpers: equality of string slices, decimal numerals.

use vstd::prelude::*;
use vstd::string::*;

verus! {

/// Compares two string slices character by character.
pub fn str_equal(a: &str, b: &str) -> (r: bool)
    ensures
        r == (a@ == b@),
{
    let n: usize = a.unicode_len();
    let m: usize = b.unicode_len();
    if n != m {
        return false;
    }
    let mut i: usize = 0;
    while i < n
        invariant
            n == a@.len(),
            m == b@.len(),
            n == m,
            i <= n,
            forall|k: int| 0 <= k < i ==> a@[k] == b@[k],
        decreases n - i,
    {
        if a.get_char(i) != b.get_char(i) {
            return false;
        }
        i += 1;
    }
    assert(a@ =~= b@);
    true
}

/// The character of a decimal digit.
pub open spec fn digit_char(d: nat) -> char {
    if d == 0 { '0' }
    else if d == 1 { '1' }
    else if d == 2 { '2' }
    else if d == 3 { '3' }
    else if d == 4 { '4' }
    else if d == 5 { '5' }
    else if d == 6 { '6' }
    else if d == 7 { '7' }
    else if d == 8 { '8' }
    else { '9' }
}

/// Whether a character is one of the ten decimal digits.
pub open spec fn is_digit_char(c: char) -> bool {
    '0' <= c && c <= '9'
}

/// The decimal numeral of a natural number, without leading zeros.
pub open spec fn nat_text(n: nat) -> Seq<char>
    decreases n,
{
    if n < 10 {
        seq![digit_char(n)]
    } else {
        nat_text(n / 10).push(digit_char(n % 10))
    }
}

/// The decimal numeral of an integer, with a leading `-` when it is negative.
pub open spec fn int_text(n: int) -> Seq<char> {
    if n < 0 {
        seq!['-'] + nat_text((-n) as nat)
    } else {
        nat_text(n as nat)
    }
}

/// A numeral padded with zeros on the left to at least `width` characters.
pub open spec fn zero_padded(n: nat, width: nat) -> Seq<char> {
    let t = nat_text(n);
    if t.len() >= width {
        t
    } else {
        Seq::new((width - t.len()) as nat, |i: int| '0') + t
    }
}

/// Appends one character to a `String` by std's `String::push`; the claim is
/// that the text grows by exactly that character at its end.
#[verifier::external_body]
pub(crate) fn push_char(s: &mut String, c: char)
    ensures
        final(s)@ == old(s)@.push(c),
{
    s.push(c);
}

fn digit(d: u64) -> (c: char)
    requires
        d < 10,
    ensures
        c == digit_char(d as nat),
{
    match d {
        0 => '0',
        1 => '1',
        2 => '2',
        3 => '3',
        4 => '4',
        5 => '5',
        6 => '6',
        7 => '7',
        8 => '8',
        _ => '9',
    }
}

/// Appends the decimal numeral of `n`.
pub fn push_nat(s: &mut String, n: u64)
    ensures
        final(s)@ == old(s)@ + nat_text(n as nat),
    decreases n,
{
    if n >= 10 {
        push_nat(s, n / 10);
    }
    push_char(s, digit(n % 10));
}

/// Appends the decimal numeral of `n`, as `Display` writes an `i64`.
pub fn push_int(s: &mut String, n: i64)
    ensures
        final(s)@ == old(s)@ + int_text(n as int),
{
    if n < 0 {
        push_char(s, '-');
        let mag: u64 = (0i128 - (n as i128)) as u64;
        push_nat(s, mag);
        assert(final(s)@ =~= old(s)@ + int_text(n as int));
    } else {
        push_nat(s, n as u64);
    }
}

/// Every numeral has at least one character, two once the number reaches ten.
pub proof fn lemma_nat_text_len(n: nat)
    ensures
        nat_text(n).len() >= 1,
        n >= 10 ==> nat_text(n).len() >= 2,
    decreases n,
{
    if n >= 10 {
        lemma_nat_text_len(n / 10);
    }
}

/// A numeral is made of digits only.
pub proof fn lemma_nat_text_digits(n: nat)
    ensures
        forall|i: int| 0 <= i < nat_text(n).len() ==> is_digit_char(#[trigger] nat_text(n)[i]),
    decreases n,
{
    if n >= 10 {
        lemma_nat_text_digits(n / 10);
        let t = nat_text(n / 10);
        assert forall|i: int| 0 <= i < nat_text(n).len() implies is_digit_char(
            #[trigger] nat_text(n)[i],
        ) by {
            if i < t.len() {
                assert(nat_text(n)[i] == t[i]);
            } else {
                assert(nat_text(n)[i] == digit_char(n % 10));
            }
        }
    }
}

/// Distinct natural numbers have distinct numerals.
pub proof fn lemma_nat_text_injective(a: nat, b: nat)
    ensures
        nat_text(a) == nat_text(b) ==> a == b,
    decreases a,
{
    if nat_text(a) == nat_text(b) {
        lemma_nat_text_len(a);
        lemma_nat_text_len(b);
        if a < 10 && b < 10 {
            assert(nat_text(a)[0] == digit_char(a));
            assert(nat_text(b)[0] == digit_char(b));
        } else if a >= 10 && b >= 10 {
            let ta = nat_text(a);
            let tb = nat_text(b);
            assert(ta.drop_last() =~= nat_text(a / 10));
            assert(tb.drop_last() =~= nat_text(b / 10));
            lemma_nat_text_injective(a / 10, b / 10);
            assert(ta.last() == digit_char(a % 10));
            assert(tb.last() == digit_char(b % 10));
        }
    }
}

/// Distinct integers have distinct numerals.
pub proof fn lemma_int_text_injective(a: int, b: int)
    ensures
        int_text(a) == int_text(b) ==> a == b,
{
    if int_text(a) == int_text(b) {
        if a < 0 && b < 0 {
            let ta = nat_text((-a) as nat);
            let tb = nat_text((-b) as nat);
            let s = int_text(a);
            assert(s.subrange(1, s.len() as int) =~= ta);
            assert(s.subrange(1, s.len() as int) =~= tb);
            lemma_nat_text_injective((-a) as nat, (-b) as nat);
        } else if a >= 0 && b >= 0 {
            lemma_nat_text_injective(a as nat, b as nat);
        } else if a < 0 {
            lemma_nat_text_digits(b as nat);
            lemma_nat_text_len(b as nat);
            assert(int_text(a)[0] == '-');
            assert(is_digit_char(nat_text(b as nat)[0]));
        } else {
            lemma_nat_text_digits(a as nat);
            lemma_nat_text_len(a as nat);
            assert(int_text(b)[0] == '-');
            assert(is_digit_char(nat_text(a as nat)[0]));
        }
    }
}

} // verus!
