//! Character- and string-level building blocks shared by the text modules,
//! each stated over the `Seq<char>` view of a string.

use vstd::prelude::*;

verus! {

/// `true` for the characters with the Unicode `White_Space` property, the set
/// that `char::is_whitespace` (and therefore `str::trim`) strips.
pub open spec fn is_white_space(c: char) -> bool {
    let v = c as u32;
    ||| 0x09 <= v <= 0x0D
    ||| v == 0x20
    ||| v == 0x85
    ||| v == 0xA0
    ||| v == 0x1680
    ||| 0x2000 <= v <= 0x200A
    ||| v == 0x2028
    ||| v == 0x2029
    ||| v == 0x202F
    ||| v == 0x205F
    ||| v == 0x3000
}

/// `s` without its leading white space.
pub open spec fn trim_start(s: Seq<char>) -> Seq<char>
    decreases s.len(),
{
    if s.len() > 0 && is_white_space(s[0]) {
        trim_start(s.drop_first())
    } else {
        s
    }
}

/// `s` without its trailing white space.
pub open spec fn trim_end(s: Seq<char>) -> Seq<char>
    decreases s.len(),
{
    if s.len() > 0 && is_white_space(s.last()) {
        trim_end(s.drop_last())
    } else {
        s
    }
}

/// `s` without leading and trailing white space.
pub open spec fn trimmed(s: Seq<char>) -> Seq<char> {
    trim_end(trim_start(s))
}

/// `needle` occurs as a contiguous run inside `hay`.
pub open spec fn has_substring(hay: Seq<char>, needle: Seq<char>) -> bool {
    exists|i: int| 0 <= i && i + needle.len() <= hay.len() && #[trigger] hay.subrange(i, i + needle.len()) == needle
}

/// The characters that `char::to_uppercase` yields for a non-ASCII `c`
/// (Unicode's full uppercase mapping, one to three characters).
pub uninterp spec fn char_upper(c: char) -> Seq<char>;

/// The uppercase mapping of a character: the usual ASCII mapping for an
/// ASCII character, Unicode's mapping (named [`char_upper`]) otherwise.
pub open spec fn upper_char(c: char) -> Seq<char> {
    if (c as u32) < 0x80 {
        seq![ascii_upper(c)]
    } else {
        char_upper(c)
    }
}

/// The uppercase mapping of a text: each character mapped, the results
/// concatenated.
pub open spec fn upper_text(s: Seq<char>) -> Seq<char>
    decreases s.len(),
{
    if s.len() == 0 {
        Seq::empty()
    } else {
        upper_text(s.drop_last()) + upper_char(s.last())
    }
}

/// Appends `c` to `s` (`String::push`).
#[verifier::external_body]
pub(crate) fn push_char(s: &mut String, c: char)
    ensures
        final(s)@ == old(s)@.push(c),
{
    s.push(c);
}

/// Removes the last character of `s`, if any (`String::pop`).
#[verifier::external_body]
pub(crate) fn pop_char(s: &mut String) -> (r: Option<char>)
    ensures
        old(s)@.len() == 0 ==> r is None && final(s)@ == old(s)@,
        old(s)@.len() > 0 ==> r == Some(old(s)@.last()) && final(s)@ == old(s)@.drop_last(),
{
    s.pop()
}

/// Calls `str::trim`, which returns the sub-slice of `s` with leading and
/// trailing `White_Space` characters removed.
#[verifier::external_body]
pub(crate) fn trim_str(s: &str) -> (r: &str)
    ensures
        r@ == trimmed(s@),
{
    s.trim()
}

/// Calls `str::contains` with a string pattern: `true` exactly when `needle`
/// occurs inside `hay` (the empty needle occurs everywhere).
#[verifier::external_body]
pub(crate) fn str_contains(hay: &str, needle: &str) -> (r: bool)
    ensures
        r == has_substring(hay@, needle@),
{
    hay.contains(needle)
}

/// Collects the iterator that `char::to_uppercase` returns for `c`. For an
/// ASCII character std documents the usual mapping (`a`..=`z` become
/// `A`..=`Z`, every other ASCII character maps to itself); for any other
/// character the result is Unicode's uppercase mapping, named `char_upper`.
#[verifier::external_body]
pub(crate) fn char_to_upper(c: char) -> (r: Vec<char>)
    ensures
        (c as u32) < 0x80 ==> r@ == seq![ascii_upper(c)],
        (c as u32) >= 0x80 ==> r@ == char_upper(c),
{
    c.to_uppercase().collect()
}

/// Calls `str::to_uppercase`, which maps every character of `s` as
/// `char::to_uppercase` does and concatenates the results.
#[verifier::external_body]
pub(crate) fn str_to_upper(s: &str) -> (r: String)
    ensures
        r@ == upper_text(s@),
{
    s.to_uppercase()
}

/// ASCII uppercase of a character: `a`..=`z` shift to `A`..=`Z`, everything
/// else is unchanged.
pub open spec fn ascii_upper(c: char) -> char {
    if 'a' <= c && c <= 'z' {
        ((c as u32) - 32) as char
    } else {
        c
    }
}

/// The ASCII decimal digits.
pub const DIGITS: [char; 10] = ['0', '1', '2', '3', '4', '5', '6', '7', '8', '9'];

/// The ASCII digit of `d` (0-9).
pub open spec fn digit_char(d: int) -> char {
    DIGITS[d]
}

/// The decimal digits of `v`, most significant first, without leading zeros.
pub open spec fn decimal(v: nat) -> Seq<char>
    decreases v,
{
    if v < 10 {
        seq![digit_char(v as int)]
    } else {
        decimal(v / 10).push(digit_char((v % 10) as int))
    }
}

/// The decimal digits of `v`, padded with a leading zero to at least two
/// digits.
pub open spec fn two_digits(v: nat) -> Seq<char> {
    if v < 10 { seq!['0', digit_char(v as int)] } else { decimal(v) }
}

/// Appends the decimal digits of `v`.
pub fn push_decimal(s: &mut String, v: u64)
    ensures
        final(s)@ == old(s)@ + decimal(v as nat),
    decreases v,
{
    if v >= 10 {
        push_decimal(s, v / 10);
    }
    let c = DIGITS[(v % 10) as usize];
    push_char(s, c);
    proof {
        assert(c == digit_char((v % 10) as int));
        if v >= 10 {
            assert(decimal(v as nat) == decimal((v / 10) as nat).push(digit_char((v % 10) as int)));
        }
    }
}

/// Appends `v` with at least two digits.
pub fn push_two_digits(s: &mut String, v: u64)
    ensures
        final(s)@ == old(s)@ + two_digits(v as nat),
{
    let ghost start = s@;
    if v < 10 {
        push_char(s, '0');
    }
    push_decimal(s, v);
    proof {
        if v < 10 {
            assert(decimal(v as nat) == seq![digit_char(v as int)]);
            assert(s@ =~= start + two_digits(v as nat));
        }
    }
}

} // verus!
