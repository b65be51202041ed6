use iso::country::country_identifiers_from_table;
use iso::errors::GenerationError;
use iso::language::language_identifiers_from_table;

fn chars(s: &str) -> Vec<char> {
    s.chars().collect()
}

fn text(v: &[char]) -> String {
    v.iter().collect()
}

const COUNTRIES: &str = "[{\"name\":\"United States of America\",\"alpha_2\":\"US\",\"alpha_3\":\"USA\",\"country_code\":\"840\"},{\"name\":\"Canada\",\"alpha_2\":\"CA\",\"alpha_3\":\"CAN\",\"country_code\":\"124\"}]";

const LANGUAGES: &str = "Id\tPart2B\tPart2T\tPart1\tScope\tType\tRef_Name\neng\teng\teng\ten\tI\tL\tEnglish\nace\t\t\t\tI\tL\tAchinese\n";

fn country(directive: &str) -> Result<String, GenerationError> {
    country_identifiers_from_table(&chars(COUNTRIES), &chars(directive)).map(|v| text(&v))
}

fn language(directive: &str) -> Result<String, GenerationError> {
    language_identifiers_from_table(&chars(LANGUAGES), &chars(directive)).map(|v| text(&v))
}

#[test]
fn emits_a_country_enumeration() {
    assert_eq!(
        country("enum Iso3166_1_alpha_2: iso3166_1_alpha_2").unwrap(),
        "/// Enumeration over all possible ISO 3166-1 alpha-2 codes\n#[derive(Debug, Hash, Copy, Clone, Eq, PartialEq)]\npub enum Iso3166_1_alpha_2 {\n    Us,\n    Ca,\n}\n"
    );
}

#[test]
fn emits_an_alpha3_country_enumeration() {
    assert_eq!(
        country("enum Iso3166_1_alpha_3: iso3166_1_alpha_3").unwrap(),
        "/// Enumeration over all possible ISO 3166-1 alpha-3 codes\n#[derive(Debug, Hash, Copy, Clone, Eq, PartialEq)]\npub enum Iso3166_1_alpha_3 {\n    Usa,\n    Can,\n}\n"
    );
}

#[test]
fn emits_a_total_name_accessor_match() {
    assert_eq!(
        country("match &self: iso3166_1_alpha_2 => \"name\"").unwrap(),
        "match &self {\n    Iso3166_1_alpha_2::Us => \"United States of America\",\n    Iso3166_1_alpha_2::Ca => \"Canada\",\n}\n"
    );
}

#[test]
fn emits_numeric_literals_for_the_numeric_key() {
    assert_eq!(
        country("match &self: iso3166_1_alpha_2 => \"iso3166_1_numeric\"").unwrap(),
        "match &self {\n    Iso3166_1_alpha_2::Us => 840,\n    Iso3166_1_alpha_2::Ca => 124,\n}\n"
    );
}

#[test]
fn emits_a_partial_parse_match_with_a_fallback_arm() {
    assert_eq!(
        country("match s: \"iso3166_1_alpha_2\" => iso3166_1_alpha_2").unwrap(),
        "match s {\n    \"US\" => Some(Iso3166_1_alpha_2::Us),\n    \"CA\" => Some(Iso3166_1_alpha_2::Ca),\n    _ => None,\n}\n"
    );
}

#[test]
fn emits_a_numeric_parse_match_with_a_fallback_arm() {
    assert_eq!(
        country("match c: \"iso3166_1_numeric\" => iso3166_1_alpha_2").unwrap(),
        "match c {\n    840 => Some(Iso3166_1_alpha_2::Us),\n    124 => Some(Iso3166_1_alpha_2::Ca),\n    _ => None,\n}\n"
    );
}

#[test]
fn emits_a_total_country_conversion_without_options() {
    assert_eq!(
        country("match c: iso3166_1_alpha_3 => iso3166_1_alpha_2").unwrap(),
        "match c {\n    Iso3166_1_alpha_3::Usa => Iso3166_1_alpha_2::Us,\n    Iso3166_1_alpha_3::Can => Iso3166_1_alpha_2::Ca,\n}\n"
    );
}

#[test]
fn emits_bare_literal_rows_for_a_unary_request() {
    assert_eq!(
        country("match x: \"iso3166_1_alpha_2\"").unwrap(),
        "match x {\n    \"US\",\n    \"CA\",\n}\n"
    );
}

#[test]
fn emits_bare_identifier_rows_for_a_unary_request() {
    assert_eq!(
        country("match x: iso3166_1_alpha_2").unwrap(),
        "match x {\n    Us,\n    Ca,\n}\n"
    );
}

#[test]
fn normalizes_names_used_as_bare_identifiers() {
    assert_eq!(
        language("match x: name").unwrap(),
        "match x {\n    English,\n    Achinese,\n}\n"
    );
}

#[test]
fn emits_a_639_1_enumeration_from_present_columns_only() {
    assert_eq!(
        language("enum Iso639_1: iso639_1").unwrap(),
        "/// Enumeration over all possible ISO 639-1 codes\n#[derive(Debug, Hash, Copy, Clone, Eq, PartialEq)]\npub enum Iso639_1 {\n    En,\n}\n"
    );
}

#[test]
fn skips_a_record_whose_left_value_is_empty() {
    let data = "[{\"name\":\"Nowhere\",\"alpha_2\":\"\",\"alpha_3\":\"NWH\",\"country_code\":\"1\"},{\"name\":\"Canada\",\"alpha_2\":\"CA\",\"alpha_3\":\"CAN\",\"country_code\":\"124\"}]";
    let out = country_identifiers_from_table(
        &chars(data),
        &chars("enum Iso3166_1_alpha_2: iso3166_1_alpha_2"),
    )
    .unwrap();
    assert_eq!(
        text(&out),
        "/// Enumeration over all possible ISO 3166-1 alpha-2 codes\n#[derive(Debug, Hash, Copy, Clone, Eq, PartialEq)]\npub enum Iso3166_1_alpha_2 {\n    Ca,\n}\n"
    );
}

#[test]
fn rejects_an_enumeration_over_a_key_without_a_standard() {
    assert_eq!(
        language("enum Names: name").unwrap_err(),
        GenerationError::NoStandardDesignation
    );
}

#[test]
fn rejects_a_country_enumeration_over_the_name_key() {
    assert_eq!(country("enum Names: name").unwrap_err(), GenerationError::NoStandardDesignation);
}

#[test]
fn rejects_an_enumeration_over_the_numeric_key() {
    assert_eq!(
        country("enum Numbers: iso3166_1_numeric").unwrap_err(),
        GenerationError::KeyNotIdentifier
    );
}

#[test]
fn rejects_a_lone_use_of_the_numeric_key() {
    assert_eq!(
        country("match x: \"iso3166_1_numeric\"").unwrap_err(),
        GenerationError::KeyCannotStandAlone
    );
}

#[test]
fn accepts_a_literal_side_in_an_enumeration_request() {
    assert_eq!(
        country("enum Iso3166_1_alpha_2: \"iso3166_1_alpha_2\"").unwrap(),
        country("enum Iso3166_1_alpha_2: iso3166_1_alpha_2").unwrap()
    );
}

#[test]
fn emits_an_empty_literal_for_a_present_empty_right_value() {
    let data = "[{\"name\":\"Nowhere\",\"alpha_2\":\"NW\",\"alpha_3\":\"\",\"country_code\":\"1\"}]";
    let out = country_identifiers_from_table(
        &chars(data),
        &chars("match &self: iso3166_1_alpha_2 => \"iso3166_1_alpha_3\""),
    )
    .unwrap();
    assert_eq!(text(&out), "match &self {\n    Iso3166_1_alpha_2::Nw => \"\",\n}\n");
}

#[test]
fn rejects_a_symbolic_use_of_the_name_key() {
    assert_eq!(
        language("match c: name => \"iso639_3\"").unwrap_err(),
        GenerationError::KeyNotIdentifier
    );
}

#[test]
fn emits_a_language_enumeration_skipping_absent_columns() {
    assert_eq!(
        language("enum Iso639_2b: iso639_2b").unwrap(),
        "/// Enumeration over all possible ISO 639-2b codes\n#[derive(Debug, Hash, Copy, Clone, Eq, PartialEq)]\npub enum Iso639_2b {\n    Eng,\n}\n"
    );
}

#[test]
fn emits_a_full_639_3_enumeration() {
    assert_eq!(
        language("enum Iso639_3: iso639_3").unwrap(),
        "/// Enumeration over all possible ISO 639-3 codes\n#[derive(Debug, Hash, Copy, Clone, Eq, PartialEq)]\npub enum Iso639_3 {\n    Eng,\n    Ace,\n}\n"
    );
}

#[test]
fn emits_a_partial_language_conversion_with_per_record_absence() {
    assert_eq!(
        language("match c: iso639_3 => iso639_2b").unwrap(),
        "match c {\n    Iso639_3::Eng => Some(Iso639_2b::Eng),\n    Iso639_3::Ace => None,\n}\n"
    );
}

#[test]
fn emits_a_language_parse_match_with_a_fallback_arm() {
    assert_eq!(
        language("match s: \"iso639_1\" => iso639_1").unwrap(),
        "match s {\n    \"en\" => Some(Iso639_1::En),\n    _ => None,\n}\n"
    );
}

#[test]
fn skips_records_without_the_left_key_entirely() {
    assert_eq!(
        language("match &self: iso639_1 => \"name\"").unwrap(),
        "match &self {\n    Iso639_1::En => \"English\",\n}\n"
    );
}

#[test]
fn escapes_quotes_and_backslashes_in_literals() {
    let data = "[{\"name\":\"A \\\"B\\\" \\\\ C\",\"alpha_2\":\"AB\",\"alpha_3\":\"ABC\",\"country_code\":\"5\"}]";
    let out = country_identifiers_from_table(
        &chars(data),
        &chars("match &self: iso3166_1_alpha_2 => \"name\""),
    )
    .unwrap();
    assert_eq!(
        text(&out),
        "match &self {\n    Iso3166_1_alpha_2::Ab => \"A \\\"B\\\" \\\\ C\",\n}\n"
    );
}

#[test]
fn rejects_a_numeric_value_that_is_not_a_u16_numeral() {
    let data = "[{\"name\":\"X\",\"alpha_2\":\"XX\",\"alpha_3\":\"XXX\",\"country_code\":\"70000\"}]";
    let r = country_identifiers_from_table(
        &chars(data),
        &chars("match &self: iso3166_1_alpha_2 => \"iso3166_1_numeric\""),
    );
    assert_eq!(r.unwrap_err(), GenerationError::BadNumeric);
}

#[test]
fn normalizes_numerals_with_leading_zeros() {
    let data = "[{\"name\":\"X\",\"alpha_2\":\"XX\",\"alpha_3\":\"XXX\",\"country_code\":\"0840\"}]";
    let out = country_identifiers_from_table(
        &chars(data),
        &chars("match &self: iso3166_1_alpha_2 => \"iso3166_1_numeric\""),
    )
    .unwrap();
    assert_eq!(text(&out), "match &self {\n    Iso3166_1_alpha_2::Xx => 840,\n}\n");
}

#[test]
fn surfaces_dataset_errors_through_the_country_run() {
    let r = country_identifiers_from_table(&chars("nonsense"), &chars("enum X: iso3166_1_alpha_2"));
    assert_eq!(r.unwrap_err(), GenerationError::DatasetJson);
}

#[test]
fn surfaces_short_lines_through_the_language_run() {
    let r = language_identifiers_from_table(&chars("h\nbad\n"), &chars("enum X: iso639_3"));
    assert_eq!(r.unwrap_err(), GenerationError::ShortLine { line: 0 });
}

#[test]
fn surfaces_directive_errors_through_the_run() {
    let r = country_identifiers_from_table(&chars(COUNTRIES), &chars("enum X: alpha_9"));
    assert_eq!(r.unwrap_err(), GenerationError::UnrecognizedKey { at: 8 });
}

#[test]
fn generation_is_deterministic() {
    let once = country("enum Iso3166_1_alpha_2: iso3166_1_alpha_2").unwrap();
    let twice = country("enum Iso3166_1_alpha_2: iso3166_1_alpha_2").unwrap();
    assert_eq!(once, twice);
    let lang_once = language("match c: iso639_3 => iso639_2b").unwrap();
    let lang_twice = language("match c: iso639_3 => iso639_2b").unwrap();
    assert_eq!(lang_once, lang_twice);
}
