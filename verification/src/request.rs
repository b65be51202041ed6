//! The generation-request parser: a small fixed grammar describing what
//! to generate.
//!
//! ```text
//! request    := enum_form | match_form
//! enum_form  := "enum" IDENT ":" side
//! match_form := "match" subject ":" side ("=>" side)?
//! subject    := "&self" | IDENT
//! side       := IDENT | STRING_LITERAL
//! ```
//!
//! A side written as a bare identifier refers to a key symbolically; one
//! written as a string literal asks for the key's raw values. Malformed
//! input is reported with the character position of the offending token,
//! and a word that names no key of the registry is reported apart from a
//! syntax error.

use vstd::prelude::*;

use vstd::slice::{slice_subrange, slice_to_vec};

use crate::errors::GenerationError;
use crate::schema::TableKey;
use crate::text::{append_str, chars_eq_str};

verus! {

/// A whitespace character of the directive language.
pub open spec fn is_ws_char(c: char) -> bool {
    c == ' ' || c == '\t' || c == '\n' || c == '\r'
}

/// A character that may appear in a directive word.
pub open spec fn is_word_char(c: char) -> bool {
    ('a' <= c && c <= 'z') || ('A' <= c && c <= 'Z') || ('0' <= c && c <= '9') || c == '_'
}

/// The first position at or after `i` holding a non-whitespace
/// character, or the end of the input.
pub open spec fn skip_ws(s: Seq<char>, i: int) -> int
    decreases s.len() - i when 0 <= i <= s.len()
{
    if i < s.len() && is_ws_char(s[i]) {
        skip_ws(s, i + 1)
    } else {
        i
    }
}

/// The end of the word starting at `i`.
pub open spec fn word_end(s: Seq<char>, i: int) -> int
    decreases s.len() - i when 0 <= i <= s.len()
{
    if i < s.len() && is_word_char(s[i]) {
        word_end(s, i + 1)
    } else {
        i
    }
}

/// The position of the closing quote of a string literal whose body
/// starts at `i`, or the end of the input if none closes it.
pub open spec fn quote_end(s: Seq<char>, i: int) -> int
    decreases s.len() - i when 0 <= i <= s.len()
{
    if i < s.len() && s[i] != '"' {
        quote_end(s, i + 1)
    } else {
        i
    }
}

/// Advances past whitespace.
fn skip_ws_from(s: &[char], i: usize) -> (r: usize)
    requires
        i <= s@.len(),
    ensures
        r as int == skip_ws(s@, i as int),
        i <= r <= s@.len(),
{
    let mut j = i;
    while j < s.len() && (s[j] == ' ' || s[j] == '\t' || s[j] == '\n' || s[j] == '\r')
        invariant
            i <= j <= s@.len(),
            skip_ws(s@, i as int) == skip_ws(s@, j as int),
        decreases s@.len() - j,
    {
        j = j + 1;
    }
    j
}

/// Advances past word characters.
fn word_end_from(s: &[char], i: usize) -> (r: usize)
    requires
        i <= s@.len(),
    ensures
        r as int == word_end(s@, i as int),
        i <= r <= s@.len(),
{
    let mut j = i;
    while j < s.len() && (('a' <= s[j] && s[j] <= 'z') || ('A' <= s[j] && s[j] <= 'Z') || ('0'
        <= s[j] && s[j] <= '9') || s[j] == '_')
        invariant
            i <= j <= s@.len(),
            word_end(s@, i as int) == word_end(s@, j as int),
        decreases s@.len() - j,
    {
        j = j + 1;
    }
    j
}

/// Advances to the closing quote.
fn quote_end_from(s: &[char], i: usize) -> (r: usize)
    requires
        i <= s@.len(),
    ensures
        r as int == quote_end(s@, i as int),
        i <= r <= s@.len(),
{
    let mut j = i;
    while j < s.len() && s[j] != '"'
        invariant
            i <= j <= s@.len(),
            quote_end(s@, i as int) == quote_end(s@, j as int),
        decreases s@.len() - j,
    {
        j = j + 1;
    }
    j
}

/// A parsed generation request: either an enumeration over a key, or a
/// match construct between two sides. A side's flag is `true` when the
/// side was written as a string literal.
#[derive(Debug)]
pub struct GenerationInput<K> {
    pub enumeration: Option<Vec<char>>,
    pub match_against: Option<Vec<char>>,
    pub lhs: (K, bool),
    pub rhs: Option<(K, bool)>,
}

/// The mathematical shape of a parsed generation request.
pub ghost struct GenerationInputV<K> {
    pub enumeration: Option<Seq<char>>,
    pub match_against: Option<Seq<char>>,
    pub lhs: (K, bool),
    pub rhs: Option<(K, bool)>,
}

impl<K> View for GenerationInput<K> {
    type V = GenerationInputV<K>;

    open spec fn view(&self) -> GenerationInputV<K> {
        GenerationInputV {
            enumeration: match self.enumeration {
                Some(v) => Some(v@),
                None => None,
            },
            match_against: match self.match_against {
                Some(v) => Some(v@),
                None => None,
            },
            lhs: self.lhs,
            rhs: self.rhs,
        }
    }
}

/// One side of a request, read at position `p`: the key it names, its
/// literal flag, and the position after the side.
pub open spec fn spec_side<K: TableKey>(s: Seq<char>, p: int) -> Result<
    ((K, bool), int),
    GenerationError,
> {
    if p < s.len() && s[p] == '"' {
        let e = quote_end(s, p + 1);
        if e >= s.len() {
            Err(GenerationError::Syntax { at: p as usize })
        } else {
            match K::spec_canonical(s.subrange(p + 1, e)) {
                Some(k) => Ok(((k, true), e + 1)),
                None => Err(GenerationError::UnrecognizedKey { at: p as usize }),
            }
        }
    } else {
        let e = word_end(s, p);
        if e == p {
            Err(GenerationError::Syntax { at: p as usize })
        } else {
            match K::spec_canonical(s.subrange(p, e)) {
                Some(k) => Ok(((k, false), e)),
                None => Err(GenerationError::UnrecognizedKey { at: p as usize }),
            }
        }
    }
}

/// The enumeration form, read after the `enum` keyword ending at `q`.
pub open spec fn spec_parse_enum<K: TableKey>(s: Seq<char>, q: int) -> Result<
    GenerationInputV<K>,
    GenerationError,
> {
    let p1 = skip_ws(s, q);
    let e1 = word_end(s, p1);
    if e1 == p1 {
        Err(GenerationError::Syntax { at: p1 as usize })
    } else {
        let name = s.subrange(p1, e1);
        let p2 = skip_ws(s, e1);
        if !(p2 < s.len() && s[p2] == ':') {
            Err(GenerationError::Syntax { at: p2 as usize })
        } else {
            let p3 = skip_ws(s, p2 + 1);
            match spec_side::<K>(s, p3) {
                Err(e) => Err(e),
                Ok((lhs, n)) => {
                    let p4 = skip_ws(s, n);
                    if p4 < s.len() {
                        Err(GenerationError::Syntax { at: p4 as usize })
                    } else {
                        Ok(
                            GenerationInputV {
                                enumeration: Some(name),
                                match_against: None,
                                lhs: lhs,
                                rhs: None,
                            },
                        )
                    }
                },
            }
        }
    }
}

/// The tail of the match form after its subject, which ends at `q`.
pub open spec fn spec_parse_match_tail<K: TableKey>(
    s: Seq<char>,
    q: int,
    subject: Seq<char>,
) -> Result<GenerationInputV<K>, GenerationError> {
    let p3 = skip_ws(s, q);
    if !(p3 < s.len() && s[p3] == ':') {
        Err(GenerationError::Syntax { at: p3 as usize })
    } else {
        let p4 = skip_ws(s, p3 + 1);
        match spec_side::<K>(s, p4) {
            Err(e) => Err(e),
            Ok((lhs, n1)) => {
                let p5 = skip_ws(s, n1);
                if p5 >= s.len() {
                    Ok(
                        GenerationInputV {
                            enumeration: None,
                            match_against: Some(subject),
                            lhs: lhs,
                            rhs: None,
                        },
                    )
                } else if p5 < s.len() && s[p5] == '=' && p5 + 1 < s.len() && s[p5 + 1] == '>' {
                    let p6 = skip_ws(s, p5 + 2);
                    match spec_side::<K>(s, p6) {
                        Err(e) => Err(e),
                        Ok((rhs, n2)) => {
                            let p7 = skip_ws(s, n2);
                            if p7 < s.len() {
                                Err(GenerationError::Syntax { at: p7 as usize })
                            } else {
                                Ok(
                                    GenerationInputV {
                                        enumeration: None,
                                        match_against: Some(subject),
                                        lhs: lhs,
                                        rhs: Some(rhs),
                                    },
                                )
                            }
                        },
                    }
                } else {
                    Err(GenerationError::Syntax { at: p5 as usize })
                }
            },
        }
    }
}

/// The match form, read after the `match` keyword ending at `q`.
pub open spec fn spec_parse_match<K: TableKey>(s: Seq<char>, q: int) -> Result<
    GenerationInputV<K>,
    GenerationError,
> {
    let p1 = skip_ws(s, q);
    if p1 < s.len() && s[p1] == '&' {
        let p2 = skip_ws(s, p1 + 1);
        let e2 = word_end(s, p2);
        if e2 > p2 && s.subrange(p2, e2) == "self"@ {
            spec_parse_match_tail::<K>(s, e2, "&self"@)
        } else {
            Err(GenerationError::Syntax { at: p2 as usize })
        }
    } else {
        let e1 = word_end(s, p1);
        if e1 == p1 {
            Err(GenerationError::Syntax { at: p1 as usize })
        } else {
            spec_parse_match_tail::<K>(s, e1, s.subrange(p1, e1))
        }
    }
}

/// A whole generation request.
pub open spec fn spec_parse<K: TableKey>(s: Seq<char>) -> Result<
    GenerationInputV<K>,
    GenerationError,
> {
    let p0 = skip_ws(s, 0);
    let e0 = word_end(s, p0);
    if e0 == p0 {
        Err(GenerationError::Syntax { at: p0 as usize })
    } else if s.subrange(p0, e0) == "enum"@ {
        spec_parse_enum::<K>(s, e0)
    } else if s.subrange(p0, e0) == "match"@ {
        spec_parse_match::<K>(s, e0)
    } else {
        Err(GenerationError::Syntax { at: p0 as usize })
    }
}

/// Reads one side of a request at position `p`.
fn parse_side<K: TableKey>(s: &[char], p: usize) -> (r: Result<((K, bool), usize), GenerationError>)
    requires
        p <= s@.len(),
    ensures
        match r {
            Ok(v) => spec_side::<K>(s@, p as int) == Ok::<((K, bool), int), GenerationError>(
                (v.0, v.1 as int),
            ) && v.1 <= s@.len(),
            Err(e) => spec_side::<K>(s@, p as int) == Err::<((K, bool), int), GenerationError>(e),
        },
{
    if p < s.len() && s[p] == '"' {
        let e = quote_end_from(s, p + 1);
        if e >= s.len() {
            Err(GenerationError::Syntax { at: p })
        } else {
            let content = slice_subrange(s, p + 1, e);
            match K::from_canonical_name(content) {
                Some(k) => Ok(((k, true), e + 1)),
                None => Err(GenerationError::UnrecognizedKey { at: p }),
            }
        }
    } else {
        let e = word_end_from(s, p);
        if e == p {
            Err(GenerationError::Syntax { at: p })
        } else {
            let content = slice_subrange(s, p, e);
            match K::from_canonical_name(content) {
                Some(k) => Ok(((k, false), e)),
                None => Err(GenerationError::UnrecognizedKey { at: p }),
            }
        }
    }
}

impl<K: TableKey> GenerationInput<K> {
    /// Parses a generation request, reporting the position of the first
    /// offending token on a grammar violation and distinguishing an
    /// unrecognized key name from a syntax error.
    pub fn parse(input: &[char]) -> (r: Result<GenerationInput<K>, GenerationError>)
        ensures
            match r {
                Ok(g) => spec_parse::<K>(input@) == Ok::<GenerationInputV<K>, GenerationError>(g@),
                Err(e) => spec_parse::<K>(input@) == Err::<GenerationInputV<K>, GenerationError>(
                    e,
                ),
            },
    {
        let s = input;
        let p0 = skip_ws_from(s, 0);
        let e0 = word_end_from(s, p0);
        if e0 == p0 {
            return Err(GenerationError::Syntax { at: p0 });
        }
        let keyword = slice_subrange(s, p0, e0);
        if chars_eq_str(keyword, "enum") {
            // enumeration form: IDENT ":" side
            let p1 = skip_ws_from(s, e0);
            let e1 = word_end_from(s, p1);
            if e1 == p1 {
                return Err(GenerationError::Syntax { at: p1 });
            }
            let name = slice_to_vec(slice_subrange(s, p1, e1));
            let p2 = skip_ws_from(s, e1);
            if !(p2 < s.len() && s[p2] == ':') {
                return Err(GenerationError::Syntax { at: p2 });
            }
            let p3 = skip_ws_from(s, p2 + 1);
            match parse_side::<K>(s, p3) {
                Err(e) => Err(e),
                Ok(lhs) => {
                    let p4 = skip_ws_from(s, lhs.1);
                    if p4 < s.len() {
                        Err(GenerationError::Syntax { at: p4 })
                    } else {
                        Ok(
                            GenerationInput {
                                enumeration: Some(name),
                                match_against: None,
                                lhs: lhs.0,
                                rhs: None,
                            },
                        )
                    }
                },
            }
        } else if chars_eq_str(keyword, "match") {
            // match form: subject ":" side ("=>" side)?
            let p1 = skip_ws_from(s, e0);
            let subject: Vec<char>;
            let after_subject: usize;
            if p1 < s.len() && s[p1] == '&' {
                let p2 = skip_ws_from(s, p1 + 1);
                let e2 = word_end_from(s, p2);
                if !(e2 > p2 && chars_eq_str(slice_subrange(s, p2, e2), "self")) {
                    return Err(GenerationError::Syntax { at: p2 });
                }
                let mut subj: Vec<char> = Vec::new();
                append_str(&mut subj, "&self");
                subject = subj;
                after_subject = e2;
            } else {
                let e1 = word_end_from(s, p1);
                if e1 == p1 {
                    return Err(GenerationError::Syntax { at: p1 });
                }
                subject = slice_to_vec(slice_subrange(s, p1, e1));
                after_subject = e1;
            }
            let p3 = skip_ws_from(s, after_subject);
            if !(p3 < s.len() && s[p3] == ':') {
                return Err(GenerationError::Syntax { at: p3 });
            }
            let p4 = skip_ws_from(s, p3 + 1);
            let lhs = match parse_side::<K>(s, p4) {
                Err(e) => {
                    return Err(e);
                },
                Ok(v) => v,
            };
            let p5 = skip_ws_from(s, lhs.1);
            if p5 >= s.len() {
                return Ok(
                    GenerationInput {
                        enumeration: None,
                        match_against: Some(subject),
                        lhs: lhs.0,
                        rhs: None,
                    },
                );
            }
            if p5 < s.len() && s[p5] == '=' && p5 + 1 < s.len() && s[p5 + 1] == '>' {
                let p6 = skip_ws_from(s, p5 + 2);
                let rhs = match parse_side::<K>(s, p6) {
                    Err(e) => {
                        return Err(e);
                    },
                    Ok(v) => v,
                };
                let p7 = skip_ws_from(s, rhs.1);
                if p7 < s.len() {
                    Err(GenerationError::Syntax { at: p7 })
                } else {
                    Ok(
                        GenerationInput {
                            enumeration: None,
                            match_against: Some(subject),
                            lhs: lhs.0,
                            rhs: Some(rhs.0),
                        },
                    )
                }
            } else {
                Err(GenerationError::Syntax { at: p5 })
            }
        } else {
            Err(GenerationError::Syntax { at: p0 })
        }
    }
}

} // verus!
