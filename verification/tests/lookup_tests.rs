use iso::country::{
    country_convert, country_from_numeric, country_numeric, parse_country_codes,
    CountryIdentifierKey, Error as CountryError,
};
use iso::language::{
    language_convert, parse_language_table, Error as LanguageError, LanguageTableEntryKey,
};
use iso::lookup::find_record;
use iso::schema::Record;

fn chars(s: &str) -> Vec<char> {
    s.chars().collect()
}

fn text(v: &[char]) -> String {
    v.iter().collect()
}

const COUNTRIES: &str = "[{\"name\":\"United States of America\",\"alpha_2\":\"US\",\"alpha_3\":\"USA\",\"country_code\":\"840\"},{\"name\":\"Canada\",\"alpha_2\":\"CA\",\"alpha_3\":\"CAN\",\"country_code\":\"124\"}]";

const LANGUAGES: &str = "Id\tPart2B\tPart2T\tPart1\tScope\tType\tRef_Name\neng\teng\teng\ten\tI\tL\tEnglish\nace\t\t\t\tI\tL\tAchinese\n";

fn country_records() -> Vec<Record<CountryIdentifierKey>> {
    parse_country_codes(&chars(COUNTRIES)).unwrap()
}

fn language_records() -> Vec<Record<LanguageTableEntryKey>> {
    parse_language_table(&chars(LANGUAGES)).unwrap()
}

#[test]
fn country_codes_round_trip_across_standards() {
    let recs = country_records();
    let alpha3 = country_convert(
        &recs,
        &CountryIdentifierKey::Alpha2,
        &chars("US"),
        &CountryIdentifierKey::Alpha3,
    )
    .unwrap();
    assert_eq!(text(&alpha3), "USA");
    let back = country_convert(
        &recs,
        &CountryIdentifierKey::Alpha3,
        &alpha3,
        &CountryIdentifierKey::Alpha2,
    )
    .unwrap();
    assert_eq!(text(&back), "US");
}

#[test]
fn country_codes_round_trip_through_the_numeric_standard() {
    let recs = country_records();
    let numeric = country_convert(
        &recs,
        &CountryIdentifierKey::Alpha2,
        &chars("US"),
        &CountryIdentifierKey::Numeric,
    )
    .unwrap();
    assert_eq!(text(&numeric), "840");
    let back = country_convert(
        &recs,
        &CountryIdentifierKey::Numeric,
        &numeric,
        &CountryIdentifierKey::Alpha2,
    )
    .unwrap();
    assert_eq!(text(&back), "US");
}

#[test]
fn every_country_code_converts_to_every_standard() {
    let recs = country_records();
    for code in ["US", "CA"] {
        for to in [
            CountryIdentifierKey::Alpha3,
            CountryIdentifierKey::Numeric,
            CountryIdentifierKey::Name,
        ] {
            assert!(country_convert(&recs, &CountryIdentifierKey::Alpha2, &chars(code), &to)
                .is_ok());
        }
    }
}

#[test]
fn an_unknown_country_code_is_invalid() {
    let recs = country_records();
    let r = country_convert(
        &recs,
        &CountryIdentifierKey::Alpha2,
        &chars("ZZ"),
        &CountryIdentifierKey::Alpha3,
    );
    assert_eq!(r.unwrap_err(), CountryError::InvalidCountryCode(chars("ZZ")));
}

#[test]
fn the_scenario_record_reads_back_whole() {
    let recs = country_records();
    let i = find_record(&recs, &CountryIdentifierKey::Alpha2, &chars("US")).unwrap();
    assert_eq!(
        text(&recs[i].field(&CountryIdentifierKey::Name).unwrap()),
        "United States of America"
    );
    assert_eq!(text(&recs[i].field(&CountryIdentifierKey::Alpha2).unwrap()), "US");
    assert_eq!(country_numeric(&recs, i), Some(840));
    assert_eq!(
        text(
            &country_convert(
                &recs,
                &CountryIdentifierKey::Alpha2,
                &chars("US"),
                &CountryIdentifierKey::Alpha3,
            )
            .unwrap()
        ),
        "USA"
    );
}

#[test]
fn numeric_lookup_compares_values_not_text() {
    let recs = country_records();
    assert_eq!(country_from_numeric(&recs, 840).unwrap(), 0);
    assert_eq!(country_from_numeric(&recs, 124).unwrap(), 1);
    let data = "[{\"name\":\"X\",\"alpha_2\":\"XX\",\"alpha_3\":\"XXX\",\"country_code\":\"0840\"}]";
    let padded = parse_country_codes(&chars(data)).unwrap();
    assert_eq!(country_from_numeric(&padded, 840).unwrap(), 0);
}

#[test]
fn an_unknown_numeric_value_is_invalid() {
    let recs = country_records();
    let r = country_from_numeric(&recs, 7);
    assert_eq!(r.unwrap_err(), CountryError::InvalidCountryCode(chars("7")));
}

#[test]
fn numeric_reading_fails_on_a_bad_numeral() {
    let data = "[{\"name\":\"X\",\"alpha_2\":\"XX\",\"alpha_3\":\"XXX\",\"country_code\":\"84x\"}]";
    let recs = parse_country_codes(&chars(data)).unwrap();
    assert_eq!(country_numeric(&recs, 0), None);
}

#[test]
fn english_converts_under_every_present_standard() {
    let recs = language_records();
    for to in [
        LanguageTableEntryKey::Iso639_2b,
        LanguageTableEntryKey::Iso639_2t,
        LanguageTableEntryKey::Iso639_3,
    ] {
        let out = language_convert(&recs, &LanguageTableEntryKey::Iso639_1, &chars("en"), &to)
            .unwrap();
        assert_eq!(text(&out), "eng");
    }
}

#[test]
fn a_language_without_a_2b_code_has_no_corresponding_code() {
    let recs = language_records();
    let r = language_convert(
        &recs,
        &LanguageTableEntryKey::Iso639_3,
        &chars("ace"),
        &LanguageTableEntryKey::Iso639_2b,
    );
    assert_eq!(
        r.unwrap_err(),
        LanguageError::NoCorrespondingLanguageCode(chars("ace"))
    );
}

#[test]
fn an_unknown_language_code_is_invalid() {
    let recs = language_records();
    let r = language_convert(
        &recs,
        &LanguageTableEntryKey::Iso639_1,
        &chars("xx"),
        &LanguageTableEntryKey::Iso639_3,
    );
    assert_eq!(r.unwrap_err(), LanguageError::InvalidLanguageCode(chars("xx")));
}

#[test]
fn parsing_a_code_finds_the_record_that_formats_it() {
    let recs = language_records();
    for (key, code) in [
        (LanguageTableEntryKey::Iso639_3, "eng"),
        (LanguageTableEntryKey::Iso639_2b, "eng"),
        (LanguageTableEntryKey::Iso639_1, "en"),
    ] {
        let i = find_record(&recs, &key, &chars(code)).unwrap();
        assert_eq!(text(&recs[i].field(&key).unwrap()), code);
    }
    assert!(find_record(&recs, &LanguageTableEntryKey::Iso639_1, &chars("zz")).is_none());
}

#[test]
fn error_messages_name_the_offending_code() {
    let c = CountryError::InvalidCountryCode(chars("ZZ"));
    assert_eq!(text(&c.message()), "`ZZ` is an invalid country code");
    let l = LanguageError::InvalidLanguageCode(chars("q!"));
    assert_eq!(text(&l.message()), "`q!` is an invalid language code");
    let n = LanguageError::NoCorrespondingLanguageCode(chars("ace"));
    assert_eq!(text(&n.message()), "`ace` has no corresponding language code");
}
