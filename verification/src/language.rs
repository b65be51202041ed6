//! The language side of the generator: the ISO 639 key registry, the
//! tab-separated table loader, and the value-level lookup layer with its
//! proofs.

use vstd::prelude::*;

use vstd::slice::slice_to_vec;

use crate::emit::{generate, spec_generate};
use crate::errors::GenerationError;
use crate::lookup::{find_record, lemma_find_characterization, spec_convert_value, spec_find};
use crate::normalize::{lowered, lowered_chars};
use crate::request::{spec_parse, GenerationInput};
use crate::schema::{
    clone_chars, field_value, lemma_field_value_append, records_view, Record, TableKey,
};
use crate::text::{
    append_chars, append_str, chars_eq_str, lines_of, spec_lines, split_chars, split_on, views_of,
};

verus! {

/// A list of all possible errors encountered while working with the
/// language code lookups.
#[non_exhaustive]
#[derive(Debug, Clone, PartialEq, Eq)]
pub enum Error {
    /// An error returned when the provided language code is invalid.
    InvalidLanguageCode(Vec<char>),
    /// An error returned when there is no corresponding language code in
    /// the target code set.
    NoCorrespondingLanguageCode(Vec<char>),
}

impl Error {
    /// A human-readable description of the error.
    pub fn message(&self) -> (r: Vec<char>)
        ensures
            match self {
                Error::InvalidLanguageCode(c) => r@ == "`"@ + c@
                    + "` is an invalid language code"@,
                Error::NoCorrespondingLanguageCode(c) => r@ == "`"@ + c@
                    + "` has no corresponding language code"@,
            },
    {
        let mut out: Vec<char> = Vec::new();
        match self {
            Error::InvalidLanguageCode(c) => {
                append_str(&mut out, "`");
                append_chars(&mut out, c.as_slice());
                append_str(&mut out, "` is an invalid language code");
            },
            Error::NoCorrespondingLanguageCode(c) => {
                append_str(&mut out, "`");
                append_chars(&mut out, c.as_slice());
                append_str(&mut out, "` has no corresponding language code");
            },
        }
        out
    }
}

/// An abstraction over a language code providing ways to extract
/// information; the enumerations the generator emits implement it.
pub trait Language {
    /// Returns the language's name.
    fn name(&self) -> &'static str;

    /// Returns the language's code as a string in the underlying format.
    fn code(&self) -> &'static str;
}

/// The closed registry of language record fields.
#[derive(Debug, Clone, Copy, Hash, PartialEq, Eq, Structural)]
pub enum LanguageTableEntryKey {
    Iso639_3,
    Iso639_2b,
    Iso639_2t,
    Iso639_1,
    Name,
}

impl LanguageTableEntryKey {
    /// The formal ISO designation of the standard this key belongs to,
    /// if it has one; the bare name field has none.
    pub fn as_standard_code(&self) -> (r: Option<&'static str>)
        ensures
            match r {
                Some(s) => self.spec_standard_code() == Some(s@),
                None => self.spec_standard_code() is None,
            },
    {
        match self {
            LanguageTableEntryKey::Iso639_3 => Some("639-3"),
            LanguageTableEntryKey::Iso639_2b => Some("639-2b"),
            LanguageTableEntryKey::Iso639_2t => Some("639-2t"),
            LanguageTableEntryKey::Iso639_1 => Some("639-1"),
            LanguageTableEntryKey::Name => None,
        }
    }
}

impl TableKey for LanguageTableEntryKey {
    open spec fn spec_canonical(name: Seq<char>) -> Option<Self> {
        if lowered(name) == "iso639_3"@ {
            Some(LanguageTableEntryKey::Iso639_3)
        } else if lowered(name) == "iso639_2b"@ {
            Some(LanguageTableEntryKey::Iso639_2b)
        } else if lowered(name) == "iso639_2t"@ {
            Some(LanguageTableEntryKey::Iso639_2t)
        } else if lowered(name) == "iso639_1"@ {
            Some(LanguageTableEntryKey::Iso639_1)
        } else if lowered(name) == "name"@ {
            Some(LanguageTableEntryKey::Name)
        } else {
            None
        }
    }

    fn from_canonical_name(name: &[char]) -> (r: Option<Self>) {
        let low = lowered_chars(name);
        if chars_eq_str(low.as_slice(), "iso639_3") {
            Some(LanguageTableEntryKey::Iso639_3)
        } else if chars_eq_str(low.as_slice(), "iso639_2b") {
            Some(LanguageTableEntryKey::Iso639_2b)
        } else if chars_eq_str(low.as_slice(), "iso639_2t") {
            Some(LanguageTableEntryKey::Iso639_2t)
        } else if chars_eq_str(low.as_slice(), "iso639_1") {
            Some(LanguageTableEntryKey::Iso639_1)
        } else if chars_eq_str(low.as_slice(), "name") {
            Some(LanguageTableEntryKey::Name)
        } else {
            None
        }
    }

    open spec fn spec_standard_code(self) -> Option<Seq<char>> {
        match self {
            LanguageTableEntryKey::Iso639_3 => Some("639-3"@),
            LanguageTableEntryKey::Iso639_2b => Some("639-2b"@),
            LanguageTableEntryKey::Iso639_2t => Some("639-2t"@),
            LanguageTableEntryKey::Iso639_1 => Some("639-1"@),
            LanguageTableEntryKey::Name => None,
        }
    }

    fn standard_code(&self) -> (r: Option<&'static str>) {
        self.as_standard_code()
    }

    open spec fn spec_variant_path(self) -> Option<Seq<char>> {
        match self {
            LanguageTableEntryKey::Iso639_3 => Some("Iso639_3"@),
            LanguageTableEntryKey::Iso639_2b => Some("Iso639_2b"@),
            LanguageTableEntryKey::Iso639_2t => Some("Iso639_2t"@),
            LanguageTableEntryKey::Iso639_1 => Some("Iso639_1"@),
            LanguageTableEntryKey::Name => None,
        }
    }

    fn variant_path(&self) -> (r: Option<&'static str>) {
        match self {
            LanguageTableEntryKey::Iso639_3 => Some("Iso639_3"),
            LanguageTableEntryKey::Iso639_2b => Some("Iso639_2b"),
            LanguageTableEntryKey::Iso639_2t => Some("Iso639_2t"),
            LanguageTableEntryKey::Iso639_1 => Some("Iso639_1"),
            LanguageTableEntryKey::Name => None,
        }
    }

    open spec fn spec_may_be_absent(self) -> bool {
        match self {
            LanguageTableEntryKey::Iso639_2b => true,
            LanguageTableEntryKey::Iso639_2t => true,
            LanguageTableEntryKey::Iso639_1 => true,
            _ => false,
        }
    }

    fn may_be_absent(&self) -> (r: bool) {
        match self {
            LanguageTableEntryKey::Iso639_2b => true,
            LanguageTableEntryKey::Iso639_2t => true,
            LanguageTableEntryKey::Iso639_1 => true,
            _ => false,
        }
    }

    open spec fn spec_lone_usable(self) -> bool {
        true
    }

    fn lone_usable(&self) -> (r: bool) {
        true
    }

    open spec fn spec_numeric_literal(self) -> bool {
        false
    }

    fn numeric_literal(&self) -> (r: bool) {
        false
    }

    fn key_eq(&self, other: &Self) -> (r: bool) {
        *self == *other
    }
}

/// The fields one data line of the language table contributes: the
/// ISO 639-3 code and the name always, the 639-2B and 639-2T codes only
/// when their columns hold exactly three characters, and the 639-1 code
/// only when its column holds exactly two.
pub open spec fn spec_language_fields(line: Seq<char>) -> Seq<(LanguageTableEntryKey, Seq<char>)> {
    let cols = split_on(line, '\t');
    seq![(LanguageTableEntryKey::Iso639_3, cols[0])] + (if cols[1].len() == 3 {
        seq![(LanguageTableEntryKey::Iso639_2b, cols[1])]
    } else {
        Seq::empty()
    }) + (if cols[2].len() == 3 {
        seq![(LanguageTableEntryKey::Iso639_2t, cols[2])]
    } else {
        Seq::empty()
    }) + (if cols[3].len() == 2 {
        seq![(LanguageTableEntryKey::Iso639_1, cols[3])]
    } else {
        Seq::empty()
    }) + seq![(LanguageTableEntryKey::Name, cols[6])]
}

/// The records of the data lines, in order; a line with fewer than
/// seven tab-separated columns is a fatal failure naming that line's
/// index among the data lines.
pub open spec fn spec_language_records(data: Seq<Seq<char>>, idx: int) -> Result<
    Seq<Seq<(LanguageTableEntryKey, Seq<char>)>>,
    GenerationError,
>
    decreases data.len(),
{
    if data.len() == 0 {
        Ok(Seq::empty())
    } else if split_on(data[0], '\t').len() < 7 {
        Err(GenerationError::ShortLine { line: idx as usize })
    } else {
        match spec_language_records(data.drop_first(), idx + 1) {
            Err(e) => Err(e),
            Ok(rest) => Ok(seq![spec_language_fields(data[0])] + rest),
        }
    }
}

/// What the language table parses to: the first line is a header and is
/// skipped, and every further line contributes one record.
pub open spec fn spec_language_table(s: Seq<char>) -> Result<
    Seq<Seq<(LanguageTableEntryKey, Seq<char>)>>,
    GenerationError,
> {
    let lines = spec_lines(s);
    if lines.len() == 0 {
        Ok(Seq::empty())
    } else {
        spec_language_records(lines.drop_first(), 0)
    }
}

/// Parses the tab-separated language table: skips the single header
/// line, splits every further line on the tab character, and builds one
/// record per line under the presence rules of the table. A line with
/// fewer than seven columns is a fatal failure; absence of the 639-2B,
/// 639-2T or 639-1 fields is a valid, expected state, not an error.
pub fn parse_language_table(table: &[char]) -> (r: Result<
    Vec<Record<LanguageTableEntryKey>>,
    GenerationError,
>)
    ensures
        match r {
            Ok(recs) => spec_language_table(table@) == Ok::<
                Seq<Seq<(LanguageTableEntryKey, Seq<char>)>>,
                GenerationError,
            >(records_view(recs@)),
            Err(e) => spec_language_table(table@) == Err::<
                Seq<Seq<(LanguageTableEntryKey, Seq<char>)>>,
                GenerationError,
            >(e),
        },
{
    let lines = lines_of(table);
    let mut records: Vec<Record<LanguageTableEntryKey>> = Vec::new();
    if lines.len() == 0 {
        proof {
            assert(records_view(records@) =~= Seq::<
                Seq<(LanguageTableEntryKey, Seq<char>)>,
            >::empty());
        }
        return Ok(records);
    }
    let ghost data = spec_lines(table@).drop_first();
    let n = lines.len();
    let mut i: usize = 1;
    proof {
        assert(data.skip(0) =~= data);
        assert forall|rest: Seq<Seq<(LanguageTableEntryKey, Seq<char>)>>|
            Seq::<Seq<(LanguageTableEntryKey, Seq<char>)>>::empty() + rest =~= rest by {};
    }
    while i < n
        invariant
            1 <= i <= n,
            n == lines@.len(),
            views_of(lines@) == spec_lines(table@),
            spec_lines(table@).len() == n,
            data == spec_lines(table@).drop_first(),
            data.len() == n - 1,
            spec_language_records(data, 0) == match spec_language_records(
                data.skip(i - 1),
                i - 1,
            ) {
                Ok(rest) => Ok::<Seq<Seq<(LanguageTableEntryKey, Seq<char>)>>, GenerationError>(
                    records_view(records@) + rest,
                ),
                Err(e) => Err::<Seq<Seq<(LanguageTableEntryKey, Seq<char>)>>, GenerationError>(e),
            },
        decreases n - i,
    {
        proof {
            assert(data.skip(i - 1)[0] == data[i - 1]);
            assert(data[i - 1] == spec_lines(table@)[i as int]);
            assert(views_of(lines@)[i as int] == lines@[i as int]@);
            assert(data.skip(i - 1).drop_first() =~= data.skip(i as int));
        }
        let cols = split_chars(lines[i].as_slice(), '\t');
        if cols.len() < 7 {
            return Err(GenerationError::ShortLine { line: i - 1 });
        }
        let mut fields: Vec<(LanguageTableEntryKey, Vec<char>)> = Vec::new();
        fields.push((LanguageTableEntryKey::Iso639_3, clone_chars(&cols[0])));
        if cols[1].len() == 3 {
            fields.push((LanguageTableEntryKey::Iso639_2b, clone_chars(&cols[1])));
        }
        if cols[2].len() == 3 {
            fields.push((LanguageTableEntryKey::Iso639_2t, clone_chars(&cols[2])));
        }
        if cols[3].len() == 2 {
            fields.push((LanguageTableEntryKey::Iso639_1, clone_chars(&cols[3])));
        }
        fields.push((LanguageTableEntryKey::Name, clone_chars(&cols[6])));
        let rec = Record { fields };
        proof {
            assert(views_of(cols@) == split_on(data[i - 1], '\t'));
            assert(views_of(cols@)[0] == cols@[0]@);
            assert(views_of(cols@)[1] == cols@[1]@);
            assert(views_of(cols@)[2] == cols@[2]@);
            assert(views_of(cols@)[3] == cols@[3]@);
            assert(views_of(cols@)[6] == cols@[6]@);
            assert(rec@ =~= spec_language_fields(data[i - 1]));
        }
        let ghost old_records = records@;
        records.push(rec);
        proof {
            assert(records_view(records@) =~= records_view(old_records).push(
                spec_language_fields(data[i - 1]),
            ));
            assert forall|rest: Seq<Seq<(LanguageTableEntryKey, Seq<char>)>>|
                records_view(old_records) + (seq![spec_language_fields(data[i - 1])] + rest)
                    =~= records_view(records@) + rest by {};
        }
        i = i + 1;
    }
    proof {
        assert(data.skip(n - 1) =~= Seq::<Seq<char>>::empty());
        assert(records_view(records@) + Seq::<Seq<(LanguageTableEntryKey, Seq<char>)>>::empty()
            =~= records_view(records@));
    }
    Ok(records)
}

/// The value each key takes on the record one data line contributes:
/// the ISO 639-3 code and the name are always bound, and each optional
/// standard is bound exactly when its column has the valid length.
pub proof fn lemma_language_fields_presence(line: Seq<char>)
    requires
        split_on(line, '\t').len() >= 7,
    ensures
        ({
            let cols = split_on(line, '\t');
            let f = spec_language_fields(line);
            &&& field_value(f, LanguageTableEntryKey::Iso639_3) == Some(cols[0])
            &&& field_value(f, LanguageTableEntryKey::Iso639_2b) == (if cols[1].len() == 3 {
                Some(cols[1])
            } else {
                None
            })
            &&& field_value(f, LanguageTableEntryKey::Iso639_2t) == (if cols[2].len() == 3 {
                Some(cols[2])
            } else {
                None
            })
            &&& field_value(f, LanguageTableEntryKey::Iso639_1) == (if cols[3].len() == 2 {
                Some(cols[3])
            } else {
                None
            })
            &&& field_value(f, LanguageTableEntryKey::Name) == Some(cols[6])
        }),
{
    let cols = split_on(line, '\t');
    let a = seq![(LanguageTableEntryKey::Iso639_3, cols[0])];
    let b = if cols[1].len() == 3 {
        seq![(LanguageTableEntryKey::Iso639_2b, cols[1])]
    } else {
        Seq::empty()
    };
    let cc = if cols[2].len() == 3 {
        seq![(LanguageTableEntryKey::Iso639_2t, cols[2])]
    } else {
        Seq::empty()
    };
    let d = if cols[3].len() == 2 {
        seq![(LanguageTableEntryKey::Iso639_1, cols[3])]
    } else {
        Seq::empty()
    };
    let e = seq![(LanguageTableEntryKey::Name, cols[6])];
    let f = spec_language_fields(line);
    assert(f == a + b + cc + d + e);
    let empty = Seq::<(LanguageTableEntryKey, Seq<char>)>::empty();
    assert(a.drop_first() =~= empty);
    assert(e.drop_first() =~= empty);
    if cols[1].len() == 3 {
        assert(b.drop_first() =~= empty);
    }
    if cols[2].len() == 3 {
        assert(cc.drop_first() =~= empty);
    }
    if cols[3].len() == 2 {
        assert(d.drop_first() =~= empty);
    }
    assert forall|k: LanguageTableEntryKey| #[trigger] field_value(f, k) == (match field_value(
        a,
        k,
    ) {
        Some(v) => Some(v),
        None => match field_value(b, k) {
            Some(v) => Some(v),
            None => match field_value(cc, k) {
                Some(v) => Some(v),
                None => match field_value(d, k) {
                    Some(v) => Some(v),
                    None => field_value(e, k),
                },
            },
        },
    }) by {
        lemma_field_value_append(a + b + cc + d, e, k);
        lemma_field_value_append(a + b + cc, d, k);
        lemma_field_value_append(a + b, cc, k);
        lemma_field_value_append(a, b, k);
    }
}

/// The records of a successfully parsed run of data lines correspond to
/// the lines one to one, in order, and every contributing line has at
/// least seven columns.
pub proof fn lemma_language_records_lines(data: Seq<Seq<char>>, idx: int)
    ensures
        match spec_language_records(data, idx) {
            Ok(recs) => recs.len() == data.len() && forall|i: int|
                0 <= i < data.len() ==> #[trigger] recs[i] == spec_language_fields(data[i])
                    && split_on(data[i], '\t').len() >= 7,
            Err(e) => true,
        },
    decreases data.len(),
{
    if data.len() > 0 && split_on(data[0], '\t').len() >= 7 {
        lemma_language_records_lines(data.drop_first(), idx + 1);
        if spec_language_records(data, idx) is Ok {
            let recs = spec_language_records(data, idx)->Ok_0;
            let rest = spec_language_records(data.drop_first(), idx + 1)->Ok_0;
            assert forall|i: int|
                0 <= i < data.len() implies #[trigger] recs[i] == spec_language_fields(data[i])
                && split_on(data[i], '\t').len() >= 7 by {
                if i > 0 {
                    assert(recs[i] == rest[i - 1]);
                    assert(data.drop_first()[i - 1] == data[i]);
                }
            }
        }
    }
}

/// Converts a language code of standard `from` into the value the first
/// record carrying it holds under `to`. An unknown code is an invalid
/// code; a known code whose record has no `to` value has no
/// corresponding language code — both errors name the offending code.
pub fn language_convert(
    records: &Vec<Record<LanguageTableEntryKey>>,
    from: &LanguageTableEntryKey,
    code: &[char],
    to: &LanguageTableEntryKey,
) -> (r: Result<Vec<char>, Error>)
    ensures
        match spec_find(records_view(records@), *from, code@) {
            None => r matches Err(Error::InvalidLanguageCode(c)) && c@ == code@,
            Some(i) => match field_value(records_view(records@)[i], *to) {
                Some(v) => r matches Ok(out) && out@ == v && spec_convert_value(
                    records_view(records@),
                    *from,
                    code@,
                    *to,
                ) == Some(v),
                None => r matches Err(Error::NoCorrespondingLanguageCode(c)) && c@ == code@,
            },
        },
{
    match find_record(records, from, code) {
        None => Err(Error::InvalidLanguageCode(slice_to_vec(code))),
        Some(i) => {
            match records[i].field(to) {
                Some(v) => Ok(v),
                None => Err(Error::NoCorrespondingLanguageCode(slice_to_vec(code))),
            }
        },
    }
}

/// Partiality correctness: a language code of standard `from` converts
/// to the 639-2B standard exactly when the data line contributing its
/// record held a three-character 2B column.
pub proof fn lemma_language_partiality(
    table: Seq<char>,
    from: LanguageTableEntryKey,
    code: Seq<char>,
)
    requires
        spec_language_table(table) is Ok,
        spec_find(spec_language_table(table)->Ok_0, from, code) is Some,
    ensures
        ({
            let recs = spec_language_table(table)->Ok_0;
            let i = spec_find(recs, from, code)->Some_0;
            let data = spec_lines(table).drop_first();
            &&& 0 <= i < data.len()
            &&& (spec_convert_value(recs, from, code, LanguageTableEntryKey::Iso639_2b) is Some
                <==> split_on(data[i], '\t')[1].len() == 3)
        }),
{
    let recs = spec_language_table(table)->Ok_0;
    let i = spec_find(recs, from, code)->Some_0;
    let data = spec_lines(table).drop_first();
    lemma_find_characterization(recs, from, code);
    if spec_lines(table).len() == 0 {
        assert(recs.len() == 0);
    }
    lemma_language_records_lines(data, 0);
    lemma_language_fields_presence(data[i]);
}

/// Skip rule: a data line whose 639-2B column is not exactly three
/// characters long contributes a record with no 639-2B binding at all —
/// absence, not an empty value.
pub proof fn lemma_language_skip_rule(line: Seq<char>)
    requires
        split_on(line, '\t').len() >= 7,
        split_on(line, '\t')[1].len() != 3,
    ensures
        field_value(spec_language_fields(line), LanguageTableEntryKey::Iso639_2b) is None,
{
    lemma_language_fields_presence(line);
}

/// Parse/format inverse: looking up the code a record itself carries
/// finds that record again, provided the column repeats no value.
pub proof fn lemma_language_parse_format(
    recs: Seq<Seq<(LanguageTableEntryKey, Seq<char>)>>,
    k: LanguageTableEntryKey,
    i: int,
)
    requires
        crate::lookup::distinct_column(recs, k),
        0 <= i < recs.len(),
        field_value(recs[i], k) is Some,
    ensures
        spec_find(recs, k, field_value(recs[i], k)->Some_0) == Some(i),
{
    crate::lookup::lemma_find_self(recs, k, i);
}

/// What one language generation run emits, as a function of the table
/// text and the directive text alone.
pub open spec fn spec_language_generation(table: Seq<char>, directive: Seq<char>) -> Result<
    Seq<char>,
    GenerationError,
> {
    match spec_language_table(table) {
        Err(e) => Err(e),
        Ok(recs) => match spec_parse::<LanguageTableEntryKey>(directive) {
            Err(e) => Err(e),
            Ok(inp) => spec_generate(recs, inp),
        },
    }
}

/// Runs one language generation: parses the table, parses the
/// directive, and emits the requested construct. The output is pinned
/// to a function of the two input texts, so two runs over the same
/// inputs produce identical text.
pub fn language_identifiers_from_table(table: &[char], directive: &[char]) -> (r: Result<
    Vec<char>,
    GenerationError,
>)
    ensures
        match r {
            Ok(out) => spec_language_generation(table@, directive@) == Ok::<
                Seq<char>,
                GenerationError,
            >(out@),
            Err(e) => spec_language_generation(table@, directive@) == Err::<
                Seq<char>,
                GenerationError,
            >(e),
        },
{
    let records = match parse_language_table(table) {
        Err(e) => {
            return Err(e);
        },
        Ok(r) => r,
    };
    let input = match GenerationInput::<LanguageTableEntryKey>::parse(directive) {
        Err(e) => {
            return Err(e);
        },
        Ok(g) => g,
    };
    generate(&records, &input)
}

} // verus!
