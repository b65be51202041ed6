//! The normalization utility: the deterministic transform from a raw
//! field value to a syntactically valid symbolic name. The first
//! character is mapped to ASCII upper case and every remaining character
//! to ASCII lower case; characters outside the ASCII letters pass through
//! unchanged.

use vstd::prelude::*;

verus! {

/// `c` mapped to ASCII upper case; non-letters pass through.
pub open spec fn to_ascii_upper(c: char) -> char {
    if 'a' <= c && c <= 'z' {
        (c as int - 32) as char
    } else {
        c
    }
}

/// `c` mapped to ASCII lower case; non-letters pass through.
pub open spec fn to_ascii_lower(c: char) -> char {
    if 'A' <= c && c <= 'Z' {
        (c as int + 32) as char
    } else {
        c
    }
}

/// The normalized (title-case) form of a raw field value: first character
/// upper case, the rest lower case.
pub open spec fn normalized(s: Seq<char>) -> Seq<char> {
    if s.len() == 0 {
        s
    } else {
        seq![to_ascii_upper(s[0])] + s.skip(1).map_values(|c: char| to_ascii_lower(c))
    }
}

/// `s` with every character mapped to ASCII lower case.
pub open spec fn lowered(s: Seq<char>) -> Seq<char> {
    s.map_values(|c: char| to_ascii_lower(c))
}

/// Maps one character to ASCII upper case.
pub fn upper_char(c: char) -> (r: char)
    ensures
        r == to_ascii_upper(c),
{
    if 'a' <= c && c <= 'z' {
        ((c as u8) - 32) as char
    } else {
        c
    }
}

/// Maps one character to ASCII lower case.
pub fn lower_char(c: char) -> (r: char)
    ensures
        r == to_ascii_lower(c),
{
    if 'A' <= c && c <= 'Z' {
        ((c as u8) + 32) as char
    } else {
        c
    }
}

/// Rewrites `string` into its normalized form: ASCII upper case for the
/// first character, ASCII lower case for every remaining one.
pub fn ascii_formatter(string: &mut Vec<char>)
    ensures
        final(string)@ == normalized(old(string)@),
{
    let mut out: Vec<char> = Vec::new();
    let mut i: usize = 0;
    while i < string.len()
        invariant
            i <= string@.len(),
            string@ == old(string)@,
            out@.len() == i,
            forall|j: int|
                0 <= j < i ==> out@[j] == (if j == 0 {
                    to_ascii_upper(string@[0])
                } else {
                    to_ascii_lower(string@[j])
                }),
        decreases string@.len() - i,
    {
        let c = string[i];
        if i == 0 {
            out.push(upper_char(c));
        } else {
            out.push(lower_char(c));
        }
        i = i + 1;
    }
    proof {
        assert(out@ =~= normalized(string@));
    }
    *string = out;
}

/// `value` with every character mapped to ASCII lower case, as a fresh
/// buffer.
pub fn lowered_chars(value: &[char]) -> (r: Vec<char>)
    ensures
        r@ == lowered(value@),
{
    let mut buf: Vec<char> = Vec::new();
    let mut i: usize = 0;
    while i < value.len()
        invariant
            i <= value@.len(),
            buf@.len() == i,
            forall|j: int| 0 <= j < i ==> buf@[j] == to_ascii_lower(value@[j]),
        decreases value@.len() - i,
    {
        buf.push(lower_char(value[i]));
        i = i + 1;
    }
    proof {
        assert(buf@ =~= lowered(value@));
    }
    buf
}

/// The normalized form of `value`, as a fresh buffer.
pub fn normalized_chars(value: &[char]) -> (r: Vec<char>)
    ensures
        r@ == normalized(value@),
{
    let mut buf: Vec<char> = Vec::new();
    let mut i: usize = 0;
    while i < value.len()
        invariant
            i <= value@.len(),
            buf@.len() == i,
            forall|j: int|
                0 <= j < i ==> buf@[j] == (if j == 0 {
                    to_ascii_upper(value@[0])
                } else {
                    to_ascii_lower(value@[j])
                }),
        decreases value@.len() - i,
    {
        let c = value[i];
        if i == 0 {
            buf.push(upper_char(c));
        } else {
            buf.push(lower_char(c));
        }
        i = i + 1;
    }
    proof {
        assert(buf@ =~= normalized(value@));
    }
    buf
}

} // verus!
