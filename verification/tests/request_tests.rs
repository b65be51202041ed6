use iso::country::CountryIdentifierKey;
use iso::errors::GenerationError;
use iso::language::LanguageTableEntryKey;
use iso::request::GenerationInput;

fn chars(s: &str) -> Vec<char> {
    s.chars().collect()
}

fn text(v: &[char]) -> String {
    v.iter().collect()
}

#[test]
fn parses_an_enumeration_request() {
    let g = GenerationInput::<CountryIdentifierKey>::parse(&chars(
        "enum Iso3166_1_alpha_2: iso3166_1_alpha_2",
    ))
    .unwrap();
    assert_eq!(text(g.enumeration.as_ref().unwrap()), "Iso3166_1_alpha_2");
    assert!(g.match_against.is_none());
    assert_eq!(g.lhs, (CountryIdentifierKey::Alpha2, false));
    assert!(g.rhs.is_none());
}

#[test]
fn parses_a_match_on_self_with_a_literal_right_side() {
    let g = GenerationInput::<CountryIdentifierKey>::parse(&chars(
        "match &self: iso3166_1_alpha_2 => \"name\"",
    ))
    .unwrap();
    assert!(g.enumeration.is_none());
    assert_eq!(text(g.match_against.as_ref().unwrap()), "&self");
    assert_eq!(g.lhs, (CountryIdentifierKey::Alpha2, false));
    assert_eq!(g.rhs, Some((CountryIdentifierKey::Name, true)));
}

#[test]
fn parses_a_match_on_a_named_subject() {
    let g = GenerationInput::<LanguageTableEntryKey>::parse(&chars(
        "match code: \"iso639_1\" => iso639_2b",
    ))
    .unwrap();
    assert_eq!(text(g.match_against.as_ref().unwrap()), "code");
    assert_eq!(g.lhs, (LanguageTableEntryKey::Iso639_1, true));
    assert_eq!(g.rhs, Some((LanguageTableEntryKey::Iso639_2b, false)));
}

#[test]
fn parses_a_unary_match() {
    let g = GenerationInput::<LanguageTableEntryKey>::parse(&chars("match x: \"name\"")).unwrap();
    assert_eq!(text(g.match_against.as_ref().unwrap()), "x");
    assert_eq!(g.lhs, (LanguageTableEntryKey::Name, true));
    assert!(g.rhs.is_none());
}

#[test]
fn accepts_spread_out_whitespace() {
    let g = GenerationInput::<CountryIdentifierKey>::parse(&chars(
        "  match\n& self :\t\"iso3166_1_numeric\"  =>  iso3166_1_alpha_2 \n",
    ))
    .unwrap();
    assert_eq!(text(g.match_against.as_ref().unwrap()), "&self");
    assert_eq!(g.lhs, (CountryIdentifierKey::Numeric, true));
    assert_eq!(g.rhs, Some((CountryIdentifierKey::Alpha2, false)));
}

#[test]
fn rejects_a_missing_keyword_with_its_position() {
    let r = GenerationInput::<CountryIdentifierKey>::parse(&chars("  : name"));
    assert_eq!(r.unwrap_err(), GenerationError::Syntax { at: 2 });
}

#[test]
fn rejects_an_unknown_leading_word() {
    let r = GenerationInput::<CountryIdentifierKey>::parse(&chars("table x: name"));
    assert_eq!(r.unwrap_err(), GenerationError::Syntax { at: 0 });
}

#[test]
fn rejects_a_missing_colon() {
    let r = GenerationInput::<CountryIdentifierKey>::parse(&chars("enum X name"));
    assert_eq!(r.unwrap_err(), GenerationError::Syntax { at: 7 });
}

#[test]
fn distinguishes_an_unrecognized_key_from_a_syntax_error() {
    let r = GenerationInput::<CountryIdentifierKey>::parse(&chars("enum X: alpha_9"));
    assert_eq!(r.unwrap_err(), GenerationError::UnrecognizedKey { at: 8 });
}

#[test]
fn rejects_an_unterminated_string_literal() {
    let r = GenerationInput::<CountryIdentifierKey>::parse(&chars("match s: \"name"));
    assert_eq!(r.unwrap_err(), GenerationError::Syntax { at: 9 });
}

#[test]
fn rejects_trailing_input_after_a_request() {
    let r = GenerationInput::<CountryIdentifierKey>::parse(&chars("enum X: name name"));
    assert_eq!(r.unwrap_err(), GenerationError::Syntax { at: 13 });
}

#[test]
fn parses_a_literal_side_in_an_enumeration_request() {
    let g = GenerationInput::<CountryIdentifierKey>::parse(&chars("enum X: \"name\"")).unwrap();
    assert_eq!(text(g.enumeration.as_ref().unwrap()), "X");
    assert_eq!(g.lhs, (CountryIdentifierKey::Name, true));
    assert!(g.rhs.is_none());
}

#[test]
fn rejects_an_empty_request() {
    let r = GenerationInput::<LanguageTableEntryKey>::parse(&chars("   "));
    assert_eq!(r.unwrap_err(), GenerationError::Syntax { at: 3 });
}

#[test]
fn rejects_a_malformed_arrow() {
    let r = GenerationInput::<CountryIdentifierKey>::parse(&chars("match s: name = name"));
    assert_eq!(r.unwrap_err(), GenerationError::Syntax { at: 14 });
}
