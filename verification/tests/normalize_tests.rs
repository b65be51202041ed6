use iso::normalize::{ascii_formatter, lowered_chars, normalized_chars};

fn chars(s: &str) -> Vec<char> {
    s.chars().collect()
}

fn text(v: &[char]) -> String {
    v.iter().collect()
}

#[test]
fn formatter_title_cases_a_language_code() {
    let mut s = chars("ENG");
    ascii_formatter(&mut s);
    assert_eq!(text(&s), "Eng");
}

#[test]
fn formatter_upper_cases_a_country_code_head() {
    let mut s = chars("us");
    ascii_formatter(&mut s);
    assert_eq!(text(&s), "Us");
}

#[test]
fn formatter_leaves_an_empty_value_empty() {
    let mut s = chars("");
    ascii_formatter(&mut s);
    assert_eq!(text(&s), "");
}

#[test]
fn formatter_passes_non_ascii_through() {
    let mut s = chars("üBC");
    ascii_formatter(&mut s);
    assert_eq!(text(&s), "übc");
}

#[test]
fn formatter_lower_cases_the_remainder_only() {
    let mut s = chars("uNiTeD");
    ascii_formatter(&mut s);
    assert_eq!(text(&s), "United");
}

#[test]
fn normalized_chars_matches_formatter() {
    let out = normalized_chars(&chars("CAN"));
    assert_eq!(text(&out), "Can");
}

#[test]
fn lowered_chars_lower_cases_every_ascii_letter() {
    let out = lowered_chars(&chars("Iso3166_1_Alpha_2"));
    assert_eq!(text(&out), "iso3166_1_alpha_2");
}
