use vstd::prelude::*;
use vstd::string::*;

verus! {

/// An ASCII lowercase letter.
pub open spec fn is_lower_char(c: char) -> bool {
    'a' <= c && c <= 'z'
}

/// An ASCII uppercase letter.
pub open spec fn is_upper_char(c: char) -> bool {
    'A' <= c && c <= 'Z'
}

/// An ASCII decimal digit.
pub open spec fn is_digit_char(c: char) -> bool {
    '0' <= c && c <= '9'
}

/// The ASCII lowercase counterpart of a character: uppercase letters
/// move down by the case distance, everything else is unchanged.
pub open spec fn lower_char(c: char) -> char {
    if is_upper_char(c) {
        (((c as u32) + 32) as u8) as char
    } else {
        c
    }
}

/// The digit character for a value below ten.
pub open spec fn digit_char_of(d: int) -> char {
    ((d + 48) as u8) as char
}

/// The decimal digits of a number, most significant first.
pub open spec fn dec_digits(n: nat) -> Seq<char>
    decreases n,
{
    if n < 10 {
        seq![digit_char_of(n as int)]
    } else {
        dec_digits(n / 10).push(digit_char_of((n % 10) as int))
    }
}

/// Relies on std's String::push: appends the given character to the
/// end of the string.
#[verifier::external_body]
pub(crate) fn push_char(s: &mut String, c: char)
    ensures
        final(s)@ == old(s)@.push(c),
{
    s.push(c);
}

/// Lowercase one character, as an executable counterpart of `lower_char`.
pub fn to_lower_char(c: char) -> (r: char)
    ensures
        r == lower_char(c),
{
    let u = c as u32;
    if 65 <= u && u <= 90 {
        ((u + 32) as u8) as char
    } else {
        c
    }
}

/// Decide `is_lower_char` executably.
pub fn check_lower_char(c: char) -> (r: bool)
    ensures
        r == is_lower_char(c),
{
    let u = c as u32;
    97 <= u && u <= 122
}

/// Decide `is_upper_char` executably.
pub fn check_upper_char(c: char) -> (r: bool)
    ensures
        r == is_upper_char(c),
{
    let u = c as u32;
    65 <= u && u <= 90
}

/// Decide `is_digit_char` executably.
pub fn check_digit_char(c: char) -> (r: bool)
    ensures
        r == is_digit_char(c),
{
    let u = c as u32;
    48 <= u && u <= 57
}

/// Append the decimal digits of `n` to `out`.
pub fn push_decimal(out: &mut String, n: u64)
    ensures
        final(out)@ == old(out)@ + dec_digits(n as nat),
    decreases n,
{
    if n < 10 {
        push_char(out, ((n as u8) + 48) as char);
        assert(old(out)@.push(digit_char_of(n as int)) =~= old(out)@ + dec_digits(
            n as nat,
        ));
    } else {
        push_decimal(out, n / 10);
        push_char(out, ((n % 10) as u8 + 48) as char);
        assert((old(out)@ + dec_digits((n / 10) as nat)).push(
            digit_char_of((n % 10) as int),
        ) =~= old(out)@ + dec_digits(n as nat));
    }
}

/// A number of ten or more has at least two digits; every number has
/// at least one.
pub proof fn lemma_dec_digits_len(n: nat)
    ensures
        dec_digits(n).len() >= 1,
        n >= 10 ==> dec_digits(n).len() >= 2,
        n < 10 ==> dec_digits(n).len() == 1,
    decreases n,
{
    if n >= 10 {
        lemma_dec_digits_len(n / 10);
    }
}

/// The leading digit of a positive number is never the zero digit.
pub proof fn lemma_dec_digits_leading(n: nat)
    requires
        n >= 1,
    ensures
        dec_digits(n).len() >= 1 && dec_digits(n)[0] != '0',
    decreases n,
{
    if n < 10 {
        assert(dec_digits(n)[0] == digit_char_of(n as int));
        assert(digit_char_of(n as int) != '0');
    } else {
        lemma_dec_digits_leading(n / 10);
        lemma_dec_digits_len(n / 10);
        assert(dec_digits(n)[0] == dec_digits(n / 10)[0]);
    }
}

/// Distinct numbers have distinct decimal digit sequences.
pub proof fn lemma_dec_digits_injective(m: nat, n: nat)
    requires
        m != n,
    ensures
        dec_digits(m) != dec_digits(n),
    decreases m + n,
{
    lemma_dec_digits_len(m);
    lemma_dec_digits_len(n);
    if m < 10 && n < 10 {
        assert(dec_digits(m)[0] == digit_char_of(m as int));
        assert(dec_digits(n)[0] == digit_char_of(n as int));
        assert(digit_char_of(m as int) != digit_char_of(n as int));
    } else if m < 10 {
        assert(dec_digits(m).len() != dec_digits(n).len());
    } else if n < 10 {
        assert(dec_digits(m).len() != dec_digits(n).len());
    } else {
        if m / 10 == n / 10 {
            assert(m % 10 != n % 10);
            assert(dec_digits(m).last() == digit_char_of((m % 10) as int));
            assert(dec_digits(n).last() == digit_char_of((n % 10) as int));
            assert(digit_char_of((m % 10) as int) != digit_char_of((n % 10) as int));
        } else {
            lemma_dec_digits_injective(m / 10, n / 10);
            if dec_digits(m) == dec_digits(n) {
                assert(dec_digits(m).drop_last() =~= dec_digits(m / 10));
                assert(dec_digits(n).drop_last() =~= dec_digits(n / 10));
            }
        }
    }
}

} // verus!
