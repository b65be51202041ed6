use iso::country::{parse_country_codes, CountryIdentifierKey};
use iso::errors::GenerationError;
use iso::language::{parse_language_table, LanguageTableEntryKey};

fn chars(s: &str) -> Vec<char> {
    s.chars().collect()
}

fn text(v: &[char]) -> String {
    v.iter().collect()
}

const COUNTRIES: &str = "[{\"name\":\"United States of America\",\"alpha_2\":\"US\",\"alpha_3\":\"USA\",\"country_code\":\"840\"},{\"name\":\"Canada\",\"alpha_2\":\"CA\",\"alpha_3\":\"CAN\",\"country_code\":\"124\"}]";

const LANGUAGES: &str = "Id\tPart2B\tPart2T\tPart1\tScope\tType\tRef_Name\neng\teng\teng\ten\tI\tL\tEnglish\nace\t\t\t\tI\tL\tAchinese\n";

#[test]
fn country_dataset_yields_one_record_per_row() {
    let recs = parse_country_codes(&chars(COUNTRIES)).unwrap();
    assert_eq!(recs.len(), 2);
    let us = &recs[0];
    assert_eq!(text(&us.field(&CountryIdentifierKey::Name).unwrap()), "United States of America");
    assert_eq!(text(&us.field(&CountryIdentifierKey::Alpha2).unwrap()), "US");
    assert_eq!(text(&us.field(&CountryIdentifierKey::Alpha3).unwrap()), "USA");
    assert_eq!(text(&us.field(&CountryIdentifierKey::Numeric).unwrap()), "840");
    let ca = &recs[1];
    assert_eq!(text(&ca.field(&CountryIdentifierKey::Alpha2).unwrap()), "CA");
}

#[test]
fn country_dataset_rejects_malformed_json() {
    let r = parse_country_codes(&chars("[{\"name\":\"X\""));
    assert_eq!(r.unwrap_err(), GenerationError::DatasetJson);
}

#[test]
fn country_dataset_rejects_a_row_missing_a_field() {
    let r = parse_country_codes(&chars("[{\"name\":\"X\",\"alpha_2\":\"XX\",\"alpha_3\":\"XXX\"}]"));
    assert_eq!(r.unwrap_err(), GenerationError::DatasetJson);
}

#[test]
fn country_dataset_accepts_an_empty_array() {
    let recs = parse_country_codes(&chars("[]")).unwrap();
    assert_eq!(recs.len(), 0);
}

#[test]
fn language_table_skips_the_header_line() {
    let recs = parse_language_table(&chars(LANGUAGES)).unwrap();
    assert_eq!(recs.len(), 2);
    assert_eq!(text(&recs[0].field(&LanguageTableEntryKey::Iso639_3).unwrap()), "eng");
    assert_eq!(text(&recs[0].field(&LanguageTableEntryKey::Name).unwrap()), "English");
}

#[test]
fn language_table_binds_optional_columns_only_at_their_valid_lengths() {
    let recs = parse_language_table(&chars(LANGUAGES)).unwrap();
    let eng = &recs[0];
    assert_eq!(text(&eng.field(&LanguageTableEntryKey::Iso639_2b).unwrap()), "eng");
    assert_eq!(text(&eng.field(&LanguageTableEntryKey::Iso639_2t).unwrap()), "eng");
    assert_eq!(text(&eng.field(&LanguageTableEntryKey::Iso639_1).unwrap()), "en");
    let ace = &recs[1];
    assert!(ace.field(&LanguageTableEntryKey::Iso639_2b).is_none());
    assert!(ace.field(&LanguageTableEntryKey::Iso639_2t).is_none());
    assert!(ace.field(&LanguageTableEntryKey::Iso639_1).is_none());
    assert_eq!(text(&ace.field(&LanguageTableEntryKey::Iso639_3).unwrap()), "ace");
}

#[test]
fn language_table_ignores_a_2b_column_of_the_wrong_length() {
    let table = "h\nxy\tzz\t\t\tI\tL\tShorty\n";
    let recs = parse_language_table(&chars(table)).unwrap();
    assert_eq!(recs.len(), 1);
    assert!(recs[0].field(&LanguageTableEntryKey::Iso639_2b).is_none());
}

#[test]
fn language_table_reports_a_short_line_by_its_data_index() {
    let table = "header\nabc\tdef\n";
    let r = parse_language_table(&chars(table));
    assert_eq!(r.unwrap_err(), GenerationError::ShortLine { line: 0 });
}

#[test]
fn language_table_reports_the_right_short_line() {
    let table =
        "Id\tPart2B\tPart2T\tPart1\tScope\tType\tRef_Name\neng\teng\teng\ten\tI\tL\tEnglish\nbad line\n";
    let r = parse_language_table(&chars(table));
    assert_eq!(r.unwrap_err(), GenerationError::ShortLine { line: 1 });
}

#[test]
fn language_table_accepts_an_empty_input() {
    let recs = parse_language_table(&chars("")).unwrap();
    assert_eq!(recs.len(), 0);
}

#[test]
fn language_table_accepts_a_header_only_table() {
    let recs = parse_language_table(&chars("Id\tPart2B\tPart2T\tPart1\tScope\tType\tRef_Name\n"))
        .unwrap();
    assert_eq!(recs.len(), 0);
}

#[test]
fn language_table_strips_carriage_returns() {
    let table = "h\r\neng\teng\teng\ten\tI\tL\tEnglish\r\n";
    let recs = parse_language_table(&chars(table)).unwrap();
    assert_eq!(recs.len(), 1);
    assert_eq!(text(&recs[0].field(&LanguageTableEntryKey::Name).unwrap()), "English");
}
