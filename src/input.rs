//! Turning one line of input into a guess: surrounding white space is
//! dropped, and what is left must be a decimal number that fits a `u32`.

use vstd::prelude::*;

verus! {

/// Whether a character beyond ASCII has Unicode's `White_Space` property,
/// as `char::is_whitespace` reports it.
pub uninterp spec fn white_space_beyond_ascii(c: char) -> bool;

/// Unicode white space: within ASCII these are the space and the controls
/// from tab to carriage return.
pub open spec fn is_white_space(c: char) -> bool {
    if (c as u32) < 0x80 {
        c == ' ' || ('\t' <= c && c <= '\r')
    } else {
        white_space_beyond_ascii(c)
    }
}

/// `s` without its leading white space.
pub open spec fn trim_start(s: Seq<char>) -> Seq<char>
    decreases s.len(),
{
    if s.len() > 0 && is_white_space(s[0]) {
        trim_start(s.drop_first())
    } else {
        s
    }
}

/// `s` without its trailing white space.
pub open spec fn trim_end(s: Seq<char>) -> Seq<char>
    decreases s.len(),
{
    if s.len() > 0 && is_white_space(s.last()) {
        trim_end(s.drop_last())
    } else {
        s
    }
}

/// `s` without white space at either end.
pub open spec fn trimmed(s: Seq<char>) -> Seq<char> {
    trim_end(trim_start(s))
}

pub open spec fn is_digit(c: char) -> bool {
    '0' <= c && c <= '9'
}

pub open spec fn all_digits(s: Seq<char>) -> bool {
    forall|i: int| 0 <= i < s.len() ==> is_digit(#[trigger] s[i])
}

/// The number that a string of decimal digits denotes.
pub open spec fn digits_value(s: Seq<char>) -> nat
    decreases s.len(),
{
    if s.len() == 0 {
        0
    } else {
        digits_value(s.drop_last()) * 10 + ((s.last() as int) - ('0' as int)) as nat
    }
}

/// The digits of an unsigned number: a single leading `+` is allowed.
pub open spec fn unsigned_digits(s: Seq<char>) -> Seq<char> {
    if s.len() > 0 && s[0] == '+' {
        s.drop_first()
    } else {
        s
    }
}

/// The `u32` that `s` spells in decimal, if any: an optional `+`, then at
/// least one digit, and a value no larger than `u32::MAX`.
pub open spec fn decimal_u32(s: Seq<char>) -> Option<u32> {
    let d = unsigned_digits(s);
    if d.len() > 0 && all_digits(d) && digits_value(d) <= u32::MAX {
        Some(digits_value(d) as u32)
    } else {
        None
    }
}

/// The guess that a line of input holds, if it holds one.
pub open spec fn guess_of(line: Seq<char>) -> Option<u32> {
    decimal_u32(trimmed(line))
}

/// Relies on `str::trim`: the slice with leading and trailing white space
/// (Unicode `White_Space`) removed.
#[verifier::external_body]
fn trim(s: &str) -> (r: &str)
    ensures
        r@ == trimmed(s@),
        r@.len() > 0 && (r@[0] as u32) >= 0x80 ==> !white_space_beyond_ascii(r@[0]),
        r@.len() > 0 && (r@.last() as u32) >= 0x80 ==> !white_space_beyond_ascii(r@.last()),
{
    s.trim()
}

/// Relies on `<u32 as FromStr>::from_str`: an optional `+` followed by
/// decimal digits, the value within range; anything else is an error.
#[verifier::external_body]
fn parse_decimal(s: &str) -> (r: Option<u32>)
    ensures
        r == decimal_u32(s@),
{
    s.parse::<u32>().ok()
}

/// Reads a guess from a line of input; `None` when the line, once trimmed,
/// is not a number that fits a `u32`.
pub fn parse_guess(line: &str) -> (r: Option<u32>)
    ensures
        r == guess_of(line@),
{
    parse_decimal(trim(line))
}

/// Whether every character of `s` is white space.
pub open spec fn all_white_space(s: Seq<char>) -> bool {
    forall|i: int| 0 <= i < s.len() ==> is_white_space(#[trigger] s[i])
}

proof fn lemma_trim_start_skips_white(p: Seq<char>, x: Seq<char>)
    requires
        all_white_space(p),
    ensures
        trim_start(p + x) == trim_start(x),
    decreases p.len(),
{
    if p.len() == 0 {
        assert(p + x =~= x);
    } else {
        assert((p + x)[0] == p[0]);
        assert((p + x).drop_first() =~= p.drop_first() + x);
        lemma_trim_start_skips_white(p.drop_first(), x);
    }
}

proof fn lemma_trim_end_skips_white(x: Seq<char>, p: Seq<char>)
    requires
        all_white_space(p),
    ensures
        trim_end(x + p) == trim_end(x),
    decreases p.len(),
{
    if p.len() == 0 {
        assert(x + p =~= x);
    } else {
        assert((x + p).last() == p.last());
        assert((x + p).drop_last() =~= x + p.drop_last());
        lemma_trim_end_skips_white(x, p.drop_last());
    }
}

proof fn lemma_trim_start_append(s: Seq<char>, p: Seq<char>)
    ensures
        trim_start(s + p) == if trim_start(s).len() > 0 {
            trim_start(s) + p
        } else {
            trim_start(p)
        },
    decreases s.len(),
{
    if s.len() == 0 {
        assert(s + p =~= p);
    } else {
        assert((s + p)[0] == s[0]);
        if is_white_space(s[0]) {
            assert((s + p).drop_first() =~= s.drop_first() + p);
            lemma_trim_start_append(s.drop_first(), p);
        }
    }
}

/// White space around a line never changes the guess read from it: padding
/// is trimmed away, whatever the line holds.
pub proof fn lemma_padding_ignored(left: Seq<char>, s: Seq<char>, right: Seq<char>)
    requires
        all_white_space(left),
        all_white_space(right),
    ensures
        trimmed(left + s + right) == trimmed(s),
        guess_of(left + s + right) == guess_of(s),
{
    assert(left + s + right =~= left + (s + right));
    lemma_trim_start_skips_white(left, s + right);
    lemma_trim_start_append(s, right);
    if trim_start(s).len() > 0 {
        lemma_trim_end_skips_white(trim_start(s), right);
    } else {
        lemma_trim_start_skips_white(right, Seq::empty());
        assert(right + Seq::<char>::empty() =~= right);
    }
}

} // verus!
