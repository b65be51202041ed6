//! The country side of the generator: the ISO 3166-1 key registry, the
//! country record shape, the dataset loader, and the value-level lookup
//! layer with its proofs.

use vstd::prelude::*;

use vstd::slice::slice_to_vec;

use crate::emit::{generate, spec_generate};
use crate::errors::GenerationError;
use crate::lookup::{
    distinct_column, lemma_find_characterization, lemma_find_self, find_record, spec_convert_value,
    spec_find,
};
use crate::normalize::{lowered, lowered_chars};
use crate::request::{spec_parse, GenerationInput};
use crate::schema::{clone_chars, field_value, records_view, Record, TableKey};
use crate::text::{
    append_chars, append_str, chars_eq_str, dec_numeral, dec_value, is_u16_numeral, parse_u16,
    u16_numeral,
};

verus! {

/// A list of all possible errors encountered while working with the
/// country code lookups.
#[non_exhaustive]
#[derive(Debug, Clone, PartialEq, Eq)]
pub enum Error {
    /// An error returned when the provided country code is invalid.
    InvalidCountryCode(Vec<char>),
}

impl Error {
    /// A human-readable description of the error.
    pub fn message(&self) -> (r: Vec<char>)
        ensures
            match self {
                Error::InvalidCountryCode(c) => r@ == "`"@ + c@
                    + "` is an invalid country code"@,
            },
    {
        let mut out: Vec<char> = Vec::new();
        match self {
            Error::InvalidCountryCode(c) => {
                append_str(&mut out, "`");
                append_chars(&mut out, c.as_slice());
                append_str(&mut out, "` is an invalid country code");
            },
        }
        out
    }
}

/// An abstraction over a country code providing ways to extract
/// information; the enumerations the generator emits implement it.
pub trait Country {
    /// Returns the country's name.
    fn name(&self) -> &'static str;

    /// Returns the country's ISO 3166-1 numeric code.
    fn numeric(&self) -> u16;

    /// Returns the country's code as a string in the underlying format.
    fn code(&self) -> &'static str;
}

/// The closed registry of country record fields.
#[derive(Debug, Clone, Copy, Hash, PartialEq, Eq, Structural)]
pub enum CountryIdentifierKey {
    Alpha2,
    Alpha3,
    Numeric,
    Name,
}

impl CountryIdentifierKey {
    /// The formal ISO designation of the standard this key belongs to,
    /// if it has one; the bare name field has none.
    pub fn as_standard_code(&self) -> (r: Option<&'static str>)
        ensures
            match r {
                Some(s) => self.spec_standard_code() == Some(s@),
                None => self.spec_standard_code() is None,
            },
    {
        match self {
            CountryIdentifierKey::Alpha2 => Some("3166-1 alpha-2"),
            CountryIdentifierKey::Alpha3 => Some("3166-1 alpha-3"),
            CountryIdentifierKey::Numeric => Some("3166-1 numeric"),
            CountryIdentifierKey::Name => None,
        }
    }
}

impl TableKey for CountryIdentifierKey {
    open spec fn spec_canonical(name: Seq<char>) -> Option<Self> {
        if lowered(name) == "iso3166_1_alpha_2"@ {
            Some(CountryIdentifierKey::Alpha2)
        } else if lowered(name) == "iso3166_1_alpha_3"@ {
            Some(CountryIdentifierKey::Alpha3)
        } else if lowered(name) == "iso3166_1_numeric"@ {
            Some(CountryIdentifierKey::Numeric)
        } else if lowered(name) == "name"@ {
            Some(CountryIdentifierKey::Name)
        } else {
            None
        }
    }

    fn from_canonical_name(name: &[char]) -> (r: Option<Self>) {
        let low = lowered_chars(name);
        if chars_eq_str(low.as_slice(), "iso3166_1_alpha_2") {
            Some(CountryIdentifierKey::Alpha2)
        } else if chars_eq_str(low.as_slice(), "iso3166_1_alpha_3") {
            Some(CountryIdentifierKey::Alpha3)
        } else if chars_eq_str(low.as_slice(), "iso3166_1_numeric") {
            Some(CountryIdentifierKey::Numeric)
        } else if chars_eq_str(low.as_slice(), "name") {
            Some(CountryIdentifierKey::Name)
        } else {
            None
        }
    }

    open spec fn spec_standard_code(self) -> Option<Seq<char>> {
        match self {
            CountryIdentifierKey::Alpha2 => Some("3166-1 alpha-2"@),
            CountryIdentifierKey::Alpha3 => Some("3166-1 alpha-3"@),
            CountryIdentifierKey::Numeric => Some("3166-1 numeric"@),
            CountryIdentifierKey::Name => None,
        }
    }

    fn standard_code(&self) -> (r: Option<&'static str>) {
        self.as_standard_code()
    }

    open spec fn spec_variant_path(self) -> Option<Seq<char>> {
        match self {
            CountryIdentifierKey::Alpha2 => Some("Iso3166_1_alpha_2"@),
            CountryIdentifierKey::Alpha3 => Some("Iso3166_1_alpha_3"@),
            CountryIdentifierKey::Numeric => None,
            CountryIdentifierKey::Name => None,
        }
    }

    fn variant_path(&self) -> (r: Option<&'static str>) {
        match self {
            CountryIdentifierKey::Alpha2 => Some("Iso3166_1_alpha_2"),
            CountryIdentifierKey::Alpha3 => Some("Iso3166_1_alpha_3"),
            CountryIdentifierKey::Numeric => None,
            CountryIdentifierKey::Name => None,
        }
    }

    open spec fn spec_may_be_absent(self) -> bool {
        false
    }

    fn may_be_absent(&self) -> (r: bool) {
        false
    }

    open spec fn spec_lone_usable(self) -> bool {
        self.spec_variant_path() is Some
    }

    fn lone_usable(&self) -> (r: bool) {
        match self {
            CountryIdentifierKey::Alpha2 => true,
            CountryIdentifierKey::Alpha3 => true,
            CountryIdentifierKey::Numeric => false,
            CountryIdentifierKey::Name => false,
        }
    }

    open spec fn spec_numeric_literal(self) -> bool {
        self == CountryIdentifierKey::Numeric
    }

    fn numeric_literal(&self) -> (r: bool) {
        match self {
            CountryIdentifierKey::Numeric => true,
            _ => false,
        }
    }

    fn key_eq(&self, other: &Self) -> (r: bool) {
        *self == *other
    }
}

/// One row of the country dataset: the four fields every country record
/// carries.
pub struct CountryRecord {
    pub name: Vec<char>,
    pub alpha_2: Vec<char>,
    pub alpha_3: Vec<char>,
    pub country_code: Vec<char>,
}

/// The mathematical shape of a country row.
pub ghost struct CountryRecordV {
    pub name: Seq<char>,
    pub alpha_2: Seq<char>,
    pub alpha_3: Seq<char>,
    pub country_code: Seq<char>,
}

impl View for CountryRecord {
    type V = CountryRecordV;

    open spec fn view(&self) -> CountryRecordV {
        CountryRecordV {
            name: self.name@,
            alpha_2: self.alpha_2@,
            alpha_3: self.alpha_3@,
            country_code: self.country_code@,
        }
    }
}

/// The views of a sequence of country rows.
pub open spec fn country_rows_view(rs: Seq<CountryRecord>) -> Seq<CountryRecordV> {
    rs.map_values(|r: CountryRecord| r@)
}

/// What the country dataset text parses to: the rows of the JSON array,
/// in order, or nothing when the text is not such an array or a row
/// lacks one of the four fields.
pub uninterp spec fn country_dataset_of(text: Seq<char>) -> Option<Seq<CountryRecordV>>;

/// Relies on serde_json::from_str: parses the dataset text as a JSON
/// array of objects, each carrying the four country fields as strings,
/// and hands the rows back in array order; yields nothing on malformed
/// JSON or on an object lacking one of the fields.
#[verifier::external_body]
fn parse_country_json(text: &[char]) -> (r: Option<Vec<CountryRecord>>)
    ensures
        match r {
            Some(v) => country_dataset_of(text@) == Some(country_rows_view(v@)),
            None => country_dataset_of(text@) is None,
        },
{
    let s: String = text.iter().collect();
    let rows: Vec<std::collections::HashMap<String, String>> = serde_json::from_str(&s).ok()?;
    let mut out: Vec<CountryRecord> = Vec::new();
    for mut row in rows {
        out.push(CountryRecord {
            name: row.remove("name")?.chars().collect(),
            alpha_2: row.remove("alpha_2")?.chars().collect(),
            alpha_3: row.remove("alpha_3")?.chars().collect(),
            country_code: row.remove("country_code")?.chars().collect(),
        });
    }
    Some(out)
}

/// The record a country row contributes, keyed by the registry.
pub open spec fn country_record_fields(c: CountryRecordV) -> Seq<
    (CountryIdentifierKey, Seq<char>),
> {
    seq![
        (CountryIdentifierKey::Name, c.name),
        (CountryIdentifierKey::Alpha2, c.alpha_2),
        (CountryIdentifierKey::Alpha3, c.alpha_3),
        (CountryIdentifierKey::Numeric, c.country_code),
    ]
}

impl CountryRecord {
    /// This row as a record of the registry.
    pub fn to_record(&self) -> (r: Record<CountryIdentifierKey>)
        ensures
            r@ == country_record_fields(self@),
    {
        let mut fields: Vec<(CountryIdentifierKey, Vec<char>)> = Vec::new();
        fields.push((CountryIdentifierKey::Name, clone_chars(&self.name)));
        fields.push((CountryIdentifierKey::Alpha2, clone_chars(&self.alpha_2)));
        fields.push((CountryIdentifierKey::Alpha3, clone_chars(&self.alpha_3)));
        fields.push((CountryIdentifierKey::Numeric, clone_chars(&self.country_code)));
        let r = Record { fields };
        proof {
            assert(r@ =~= country_record_fields(self@));
        }
        r
    }
}

/// Parses the country dataset: a JSON array of objects whose `name`,
/// `alpha_2`, `alpha_3` and `country_code` fields are all present and
/// hold strings; every row becomes one record with all four fields.
pub fn parse_country_codes(dataset: &[char]) -> (r: Result<
    Vec<Record<CountryIdentifierKey>>,
    GenerationError,
>)
    ensures
        match r {
            Ok(recs) => country_dataset_of(dataset@) is Some && records_view(recs@)
                == country_dataset_of(dataset@)->Some_0.map_values(
                |c: CountryRecordV| country_record_fields(c),
            ),
            Err(e) => e == GenerationError::DatasetJson && country_dataset_of(dataset@) is None,
        },
{
    match parse_country_json(dataset) {
        None => Err(GenerationError::DatasetJson),
        Some(rows) => {
            let ghost parsed = country_rows_view(rows@);
            let mut records: Vec<Record<CountryIdentifierKey>> = Vec::new();
            let n = rows.len();
            let mut i: usize = 0;
            while i < n
                invariant
                    i <= n,
                    n == rows@.len(),
                    parsed == country_rows_view(rows@),
                    parsed.len() == n,
                    records_view(records@) =~= parsed.take(i as int).map_values(
                        |c: CountryRecordV| country_record_fields(c),
                    ),
                decreases n - i,
            {
                let rec = rows[i].to_record();
                let ghost old_records = records@;
                records.push(rec);
                proof {
                    assert(parsed[i as int] == rows@[i as int]@);
                    assert(records_view(records@) =~= records_view(old_records).push(
                        country_record_fields(parsed[i as int]),
                    ));
                    assert(records_view(records@) =~= parsed.take(i + 1).map_values(
                        |c: CountryRecordV| country_record_fields(c),
                    ));
                }
                i = i + 1;
            }
            proof {
                assert(parsed.take(n as int) =~= parsed);
            }
            Ok(records)
        },
    }
}

/// Every record carries a value under every country key: the shape the
/// loader guarantees, since a country record always has all four
/// fields.
pub open spec fn country_wf(recs: Seq<Seq<(CountryIdentifierKey, Seq<char>)>>) -> bool {
    forall|i: int, k: CountryIdentifierKey|
        0 <= i < recs.len() ==> #[trigger] field_value(recs[i], k) is Some
}

/// The value each key takes on the record a country row contributes.
pub proof fn lemma_country_fields_value(c: CountryRecordV)
    ensures
        field_value(country_record_fields(c), CountryIdentifierKey::Name) == Some(c.name),
        field_value(country_record_fields(c), CountryIdentifierKey::Alpha2) == Some(c.alpha_2),
        field_value(country_record_fields(c), CountryIdentifierKey::Alpha3) == Some(c.alpha_3),
        field_value(country_record_fields(c), CountryIdentifierKey::Numeric) == Some(
            c.country_code,
        ),
{
    let f = country_record_fields(c);
    let f1 = f.drop_first();
    let f2 = f1.drop_first();
    let f3 = f2.drop_first();
    assert(f1 =~= seq![
        (CountryIdentifierKey::Alpha2, c.alpha_2),
        (CountryIdentifierKey::Alpha3, c.alpha_3),
        (CountryIdentifierKey::Numeric, c.country_code),
    ]);
    assert(f2 =~= seq![
        (CountryIdentifierKey::Alpha3, c.alpha_3),
        (CountryIdentifierKey::Numeric, c.country_code),
    ]);
    assert(f3 =~= seq![(CountryIdentifierKey::Numeric, c.country_code)]);
    assert(field_value(f, CountryIdentifierKey::Alpha2) == field_value(
        f1,
        CountryIdentifierKey::Alpha2,
    ));
    assert(field_value(f, CountryIdentifierKey::Alpha3) == field_value(
        f1,
        CountryIdentifierKey::Alpha3,
    ));
    assert(field_value(f1, CountryIdentifierKey::Alpha3) == field_value(
        f2,
        CountryIdentifierKey::Alpha3,
    ));
    assert(field_value(f, CountryIdentifierKey::Numeric) == field_value(
        f1,
        CountryIdentifierKey::Numeric,
    ));
    assert(field_value(f1, CountryIdentifierKey::Numeric) == field_value(
        f2,
        CountryIdentifierKey::Numeric,
    ));
    assert(field_value(f2, CountryIdentifierKey::Numeric) == field_value(
        f3,
        CountryIdentifierKey::Numeric,
    ));
    assert(field_value(f3, CountryIdentifierKey::Numeric) == Some(c.country_code));
}

/// What the loader hands out is well-formed.
pub proof fn lemma_country_records_wf(rows: Seq<CountryRecordV>)
    ensures
        country_wf(rows.map_values(|c: CountryRecordV| country_record_fields(c))),
{
    let recs = rows.map_values(|c: CountryRecordV| country_record_fields(c));
    assert forall|i: int, k: CountryIdentifierKey|
        0 <= i < recs.len() implies #[trigger] field_value(recs[i], k) is Some by {
        lemma_country_fields_value(rows[i]);
    }
}

/// Converts a country code of standard `from` into the value the same
/// record carries under `to`. The conversion is total over the codes of
/// the table: it fails exactly when no record carries `code` under
/// `from`, with the invalid code named in the error.
///
/// Codes are compared as stored text, character for character; to look
/// a numeric code up by its value, across leading zeros, use
/// [`country_from_numeric`].
pub fn country_convert(
    records: &Vec<Record<CountryIdentifierKey>>,
    from: &CountryIdentifierKey,
    code: &[char],
    to: &CountryIdentifierKey,
) -> (r: Result<Vec<char>, Error>)
    requires
        country_wf(records_view(records@)),
    ensures
        match spec_find(records_view(records@), *from, code@) {
            None => (r matches Err(Error::InvalidCountryCode(c)) && c@ == code@)
                && spec_convert_value(records_view(records@), *from, code@, *to) is None,
            Some(i) => r matches Ok(v) && spec_convert_value(
                records_view(records@),
                *from,
                code@,
                *to,
            ) == Some(v@),
        },
{
    match find_record(records, from, code) {
        None => Err(Error::InvalidCountryCode(slice_to_vec(code))),
        Some(i) => {
            match records[i].field(to) {
                Some(v) => Ok(v),
                None => {
                    proof {
                        assert(false);
                    }
                    Err(Error::InvalidCountryCode(slice_to_vec(code)))
                },
            }
        },
    }
}

/// The numeric code of the record at `i`, read from its stored text;
/// nothing when the text is not an unsigned 16-bit decimal numeral.
pub fn country_numeric(records: &Vec<Record<CountryIdentifierKey>>, i: usize) -> (r: Option<u16>)
    requires
        i < records@.len(),
    ensures
        match r {
            Some(n) => field_value(records_view(records@)[i as int], CountryIdentifierKey::Numeric)
                matches Some(v) && is_u16_numeral(v) && n as int == dec_value(v),
            None => !(field_value(records_view(records@)[i as int], CountryIdentifierKey::Numeric)
                matches Some(v) && is_u16_numeral(v)),
        },
{
    proof {
        assert(records_view(records@)[i as int] == records@[i as int]@);
    }
    match records[i].field(&CountryIdentifierKey::Numeric) {
        None => None,
        Some(v) => parse_u16(v.as_slice()),
    }
}

/// The numeric code a record carries, read as a value: the stored text
/// under the numeric key, when that text is an unsigned 16-bit decimal
/// numeral.
pub open spec fn numeric_value_of(rec: Seq<(CountryIdentifierKey, Seq<char>)>) -> Option<int> {
    match field_value(rec, CountryIdentifierKey::Numeric) {
        Some(v) => if is_u16_numeral(v) {
            Some(dec_value(v))
        } else {
            None
        },
        None => None,
    }
}

/// The index of the first record whose numeric code has the value `n`.
pub open spec fn spec_find_numeric(
    recs: Seq<Seq<(CountryIdentifierKey, Seq<char>)>>,
    n: int,
) -> Option<int>
    decreases recs.len(),
{
    if recs.len() == 0 {
        None
    } else if numeric_value_of(recs[0]) == Some(n) {
        Some(0)
    } else {
        match spec_find_numeric(recs.drop_first(), n) {
            None => None,
            Some(i) => Some(i + 1),
        }
    }
}

/// No two records carry numeric codes of the same value.
pub open spec fn distinct_numeric_column(recs: Seq<Seq<(CountryIdentifierKey, Seq<char>)>>) -> bool {
    forall|i: int, j: int|
        0 <= i < recs.len() && 0 <= j < recs.len() && i != j ==> !(#[trigger] numeric_value_of(
            recs[i],
        ) is Some && numeric_value_of(recs[i]) == #[trigger] numeric_value_of(recs[j]))
}

/// What a found numeric index means: the record at it carries the
/// value, and no earlier record does; when none is found, no record
/// carries the value.
pub proof fn lemma_find_numeric_characterization(
    recs: Seq<Seq<(CountryIdentifierKey, Seq<char>)>>,
    n: int,
)
    ensures
        match spec_find_numeric(recs, n) {
            Some(i) => 0 <= i < recs.len() && numeric_value_of(recs[i]) == Some(n) && forall|j: int|
                0 <= j < i ==> #[trigger] numeric_value_of(recs[j]) != Some(n),
            None => forall|j: int|
                0 <= j < recs.len() ==> #[trigger] numeric_value_of(recs[j]) != Some(n),
        },
    decreases recs.len(),
{
    if recs.len() > 0 {
        if numeric_value_of(recs[0]) != Some(n) {
            lemma_find_numeric_characterization(recs.drop_first(), n);
            assert(forall|j: int|
                1 <= j < recs.len() ==> #[trigger] recs[j] == recs.drop_first()[j - 1]);
        }
    }
}

/// Format then parse, by value: under numeric codes without repeated
/// values, looking a record's own numeric value up finds that record
/// again.
pub proof fn lemma_find_numeric_self(recs: Seq<Seq<(CountryIdentifierKey, Seq<char>)>>, i: int)
    requires
        distinct_numeric_column(recs),
        0 <= i < recs.len(),
        numeric_value_of(recs[i]) is Some,
    ensures
        spec_find_numeric(recs, numeric_value_of(recs[i])->Some_0) == Some(i),
    decreases recs.len(),
{
    if i == 0 {
    } else {
        assert(!(numeric_value_of(recs[0]) is Some && numeric_value_of(recs[0])
            == numeric_value_of(recs[i])));
        let rest = recs.drop_first();
        assert(forall|j: int| 0 <= j < rest.len() ==> #[trigger] rest[j] == recs[j + 1]);
        assert(distinct_numeric_column(rest)) by {
            assert(forall|a: int, b: int|
                0 <= a < rest.len() && 0 <= b < rest.len() && a != b ==> !(
                #[trigger] numeric_value_of(rest[a]) is Some && numeric_value_of(rest[a])
                    == #[trigger] numeric_value_of(rest[b])));
        }
        lemma_find_numeric_self(rest, i - 1);
    }
}

/// Looks a country up by the value of its numeric code, the way the
/// generated numeric match construct does: the stored text is read as
/// an unsigned 16-bit numeral and compared by value, so leading zeros
/// do not matter. An unknown value is an invalid code, named by its
/// decimal numeral.
pub fn country_from_numeric(records: &Vec<Record<CountryIdentifierKey>>, n: u16) -> (r: Result<
    usize,
    Error,
>)
    ensures
        match spec_find_numeric(records_view(records@), n as int) {
            Some(i) => r matches Ok(ix) && ix as int == i,
            None => r matches Err(Error::InvalidCountryCode(c)) && c@ == dec_numeral(n as int),
        },
{
    let ghost rv = records_view(records@);
    let m = records.len();
    let mut i: usize = 0;
    proof {
        assert(rv.skip(0) =~= rv);
    }
    while i < m
        invariant
            i <= m,
            m == records@.len(),
            rv == records_view(records@),
            rv.len() == m,
            match spec_find_numeric(rv.skip(i as int), n as int) {
                None => spec_find_numeric(rv, n as int) is None,
                Some(j) => spec_find_numeric(rv, n as int) == Some(j + i),
            },
        decreases m - i,
    {
        proof {
            assert(rv.skip(i as int)[0] == records@[i as int]@);
            assert(rv.skip(i as int).drop_first() =~= rv.skip(i + 1));
        }
        let hit = match records[i].field(&CountryIdentifierKey::Numeric) {
            Some(v) => match parse_u16(v.as_slice()) {
                Some(value) => value == n,
                None => false,
            },
            None => false,
        };
        if hit {
            return Ok(i);
        }
        i = i + 1;
    }
    proof {
        assert(rv.skip(m as int) =~= Seq::<Seq<(CountryIdentifierKey, Seq<char>)>>::empty());
    }
    Err(Error::InvalidCountryCode(u16_numeral(n)))
}

/// Round trip through the numeric standard, by value: converting a
/// country code to its numeric code and looking that value up finds the
/// record carrying the original code again, also where the stored
/// numeral has leading zeros — provided no two records share a numeric
/// value.
pub proof fn lemma_country_numeric_round_trip(
    recs: Seq<Seq<(CountryIdentifierKey, Seq<char>)>>,
    code: Seq<char>,
)
    requires
        distinct_numeric_column(recs),
        spec_find(recs, CountryIdentifierKey::Alpha2, code) is Some,
        numeric_value_of(recs[spec_find(recs, CountryIdentifierKey::Alpha2, code)->Some_0])
            is Some,
    ensures
        ({
            let i = spec_find(recs, CountryIdentifierKey::Alpha2, code)->Some_0;
            let n = numeric_value_of(recs[i])->Some_0;
            &&& spec_find_numeric(recs, n) == Some(i)
            &&& field_value(recs[i], CountryIdentifierKey::Alpha2) == Some(code)
        }),
{
    let i = spec_find(recs, CountryIdentifierKey::Alpha2, code)->Some_0;
    lemma_find_characterization(recs, CountryIdentifierKey::Alpha2, code);
    lemma_find_numeric_self(recs, i);
}

/// Totality: a code that occurs under one country standard converts to
/// a value under every country standard — no partial branch is ever
/// taken for country conversions.
pub proof fn lemma_country_totality(
    recs: Seq<Seq<(CountryIdentifierKey, Seq<char>)>>,
    from: CountryIdentifierKey,
    code: Seq<char>,
    to: CountryIdentifierKey,
)
    requires
        country_wf(recs),
        spec_find(recs, from, code) is Some,
    ensures
        spec_convert_value(recs, from, code, to) is Some,
{
    lemma_find_characterization(recs, from, code);
}

/// Round trip: converting a country code to another standard and back
/// yields the original code, provided neither column repeats a value.
pub proof fn lemma_country_round_trip(
    recs: Seq<Seq<(CountryIdentifierKey, Seq<char>)>>,
    from: CountryIdentifierKey,
    code: Seq<char>,
    to: CountryIdentifierKey,
)
    requires
        country_wf(recs),
        distinct_column(recs, from),
        distinct_column(recs, to),
        spec_find(recs, from, code) is Some,
    ensures
        spec_convert_value(recs, from, code, to) is Some,
        spec_convert_value(recs, to, spec_convert_value(recs, from, code, to)->Some_0, from)
            == Some(code),
{
    let i = spec_find(recs, from, code)->Some_0;
    lemma_find_characterization(recs, from, code);
    lemma_find_self(recs, to, i);
}

/// Parse/format inverse: looking up the code a record itself carries
/// finds that record again, provided the column repeats no value.
pub proof fn lemma_country_parse_format(
    recs: Seq<Seq<(CountryIdentifierKey, Seq<char>)>>,
    k: CountryIdentifierKey,
    i: int,
)
    requires
        distinct_column(recs, k),
        0 <= i < recs.len(),
        field_value(recs[i], k) is Some,
    ensures
        spec_find(recs, k, field_value(recs[i], k)->Some_0) == Some(i),
{
    lemma_find_self(recs, k, i);
}

/// What one country generation run emits, as a function of the dataset
/// text and the directive text alone.
pub open spec fn spec_country_generation(dataset: Seq<char>, directive: Seq<char>) -> Result<
    Seq<char>,
    GenerationError,
> {
    match country_dataset_of(dataset) {
        None => Err(GenerationError::DatasetJson),
        Some(rows) => match spec_parse::<CountryIdentifierKey>(directive) {
            Err(e) => Err(e),
            Ok(inp) => spec_generate(
                rows.map_values(|c: CountryRecordV| country_record_fields(c)),
                inp,
            ),
        },
    }
}

/// Runs one country generation: parses the dataset, parses the
/// directive, and emits the requested construct. The output is pinned
/// to a function of the two input texts, so two runs over the same
/// inputs produce identical text.
pub fn country_identifiers_from_table(dataset: &[char], directive: &[char]) -> (r: Result<
    Vec<char>,
    GenerationError,
>)
    ensures
        match r {
            Ok(out) => spec_country_generation(dataset@, directive@) == Ok::<
                Seq<char>,
                GenerationError,
            >(out@),
            Err(e) => spec_country_generation(dataset@, directive@) == Err::<
                Seq<char>,
                GenerationError,
            >(e),
        },
{
    let records = match parse_country_codes(dataset) {
        Err(e) => {
            return Err(e);
        },
        Ok(r) => r,
    };
    let input = match GenerationInput::<CountryIdentifierKey>::parse(directive) {
        Err(e) => {
            return Err(e);
        },
        Ok(g) => g,
    };
    generate(&records, &input)
}

} // verus!
