//! Small verified helpers on text: comparison, decimal numbers, and the
//! class of text that can be written into a manifest without quoting
//! surprises.

use vstd::prelude::*;

verus! {

/// `String::push` appends one character.
pub assume_specification[ String::push ](s: &mut String, c: char)
    ensures
        final(s)@ == old(s)@.push(c),
;

/// The decimal digit for `d`, for `d` below ten.
pub open spec fn digit(d: nat) -> char {
    if d == 0 {
        '0'
    } else if d == 1 {
        '1'
    } else if d == 2 {
        '2'
    } else if d == 3 {
        '3'
    } else if d == 4 {
        '4'
    } else if d == 5 {
        '5'
    } else if d == 6 {
        '6'
    } else if d == 7 {
        '7'
    } else if d == 8 {
        '8'
    } else {
        '9'
    }
}

/// `n` written in base ten, without sign and without leading zeros.
pub open spec fn decimal(n: nat) -> Seq<char>
    decreases n,
{
    if n < 10 {
        seq![digit(n)]
    } else {
        decimal(n / 10).push(digit(n % 10))
    }
}

/// A character that is no control character, no apostrophe and no
/// backslash.
pub open spec fn is_plain_char(c: char) -> bool {
    ' ' <= c && c != '\'' && c != '\\'
}

/// Text that a manifest takes as it stands, as a key or as a string value:
/// plain characters only, and no double quote in front.
pub open spec fn is_plain(s: Seq<char>) -> bool {
    &&& forall|i: int| 0 <= i < s.len() ==> is_plain_char(#[trigger] s[i])
    &&& s.len() > 0 ==> s[0] != '"'
}

fn digit_char(d: u64) -> (c: char)
    requires
        d < 10,
    ensures
        c == digit(d as nat),
{
    if d == 0 {
        '0'
    } else if d == 1 {
        '1'
    } else if d == 2 {
        '2'
    } else if d == 3 {
        '3'
    } else if d == 4 {
        '4'
    } else if d == 5 {
        '5'
    } else if d == 6 {
        '6'
    } else if d == 7 {
        '7'
    } else if d == 8 {
        '8'
    } else {
        '9'
    }
}

/// Appends `n` in base ten to `out`.
pub fn push_decimal(out: &mut String, n: u64)
    ensures
        final(out)@ == old(out)@ + decimal(n as nat),
    decreases n,
{
    if n >= 10 {
        push_decimal(out, n / 10);
    }
    out.push(digit_char(n % 10));
}

/// Whether two texts hold the same characters.
pub fn texts_equal(a: &str, b: &str) -> (r: bool)
    ensures
        r == (a@ == b@),
{
    let x = a.to_owned();
    let y = b.to_owned();
    x == y
}

/// Whether `s` is plain text.
pub fn is_plain_text(s: &str) -> (r: bool)
    ensures
        r == is_plain(s@),
{
    let n = s.unicode_len();
    let mut i: usize = 0;
    while i < n
        invariant
            n == s@.len(),
            i <= n,
            forall|j: int| 0 <= j < i ==> is_plain_char(#[trigger] s@[j]),
            i > 0 ==> s@[0] != '"',
        decreases n - i,
    {
        let c = s.get_char(i);
        if c < ' ' || c == '\'' || c == '\\' {
            return false;
        }
        if i == 0 && c == '"' {
            return false;
        }
        i += 1;
    }
    true
}

} // verus!
