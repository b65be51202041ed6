//! The row-to-code emitter: given the parsed records, the key registry
//! metadata, and a parsed generation request, emits one code fragment per
//! record and assembles them into an enumeration declaration or a match
//! construct.
//!
//! An enumeration request is gated first: its key must carry a formal
//! standard designation, then name a variant space; the declaration then
//! carries a documentation line naming the designation, a derive header,
//! and one normalized unit variant per record with a usable (present and
//! non-empty) value under the key — the side's literal flag plays no
//! role there.
//!
//! In a match construct, a record contributes a row only when it offers
//! a usable value under the left key. A literal right side asks for the
//! stored value itself and needs only presence (an empty value is
//! emitted as an empty literal); a symbolic right side needs a usable
//! value. The construct is partial exactly when its right side is a
//! symbolic identifier reference and either side is written as a literal
//! or belongs to a key that may be absent from a record; the rows of a
//! partial construct wrap their outcome in `Some`/`None`, and when the
//! left side is a literal an unconditional `_ => None` fallback arm
//! closes the match.

use vstd::prelude::*;

use crate::errors::GenerationError;
use crate::normalize::{normalized, normalized_chars};
use crate::request::{GenerationInput, GenerationInputV};
use crate::schema::{field_available, field_value, records_view, Record, TableKey};
use crate::text::{
    append_chars, append_str, dec_numeral, dec_value, is_u16_numeral, parse_u16, u16_numeral,
};

verus! {

/// One character of a string literal, escaped: a backslash is written
/// before a quote or a backslash, and every other character stands as
/// itself.
pub open spec fn escaped_char(c: char) -> Seq<char> {
    if c == '"' || c == '\\' {
        seq!['\\', c]
    } else {
        seq![c]
    }
}

/// The body of a string literal holding `v`.
pub open spec fn escaped(v: Seq<char>) -> Seq<char>
    decreases v.len(),
{
    if v.len() == 0 {
        Seq::empty()
    } else {
        escaped(v.drop_last()) + escaped_char(v.last())
    }
}

/// The text of a string literal holding `v`.
pub open spec fn quoted(v: Seq<char>) -> Seq<char> {
    "\""@ + escaped(v) + "\""@
}

/// Writes the text of a string literal holding `v`.
pub fn quoted_chars(v: &[char]) -> (r: Vec<char>)
    ensures
        r@ == quoted(v@),
{
    let mut out: Vec<char> = Vec::new();
    append_str(&mut out, "\"");
    let mut i: usize = 0;
    while i < v.len()
        invariant
            i <= v@.len(),
            out@ == "\""@ + escaped(v@.take(i as int)),
        decreases v@.len() - i,
    {
        let c = v[i];
        if c == '"' || c == '\\' {
            out.push('\\');
            out.push(c);
        } else {
            out.push(c);
        }
        proof {
            assert(v@.take(i + 1).drop_last() =~= v@.take(i as int));
            assert(v@.take(i + 1).last() == v@[i as int]);
            assert(out@ =~= "\""@ + escaped(v@.take(i + 1)));
        }
        i = i + 1;
    }
    proof {
        assert(v@.take(v@.len() as int) =~= v@);
    }
    append_str(&mut out, "\"");
    out
}

/// The literal fragment a value under `k` produces: an unsigned 16-bit
/// decimal numeral for a numeric key, a quoted string otherwise.
pub open spec fn spec_literal<K: TableKey>(k: K, v: Seq<char>) -> Result<
    Seq<char>,
    GenerationError,
> {
    if k.spec_numeric_literal() {
        if is_u16_numeral(v) {
            Ok(dec_numeral(dec_value(v)))
        } else {
            Err(GenerationError::BadNumeric)
        }
    } else {
        Ok(quoted(v))
    }
}

/// Writes the literal fragment of a value under `k`.
pub fn render_literal<K: TableKey>(k: &K, v: &[char]) -> (r: Result<Vec<char>, GenerationError>)
    ensures
        match r {
            Ok(out) => spec_literal(*k, v@) == Ok::<Seq<char>, GenerationError>(out@),
            Err(e) => spec_literal(*k, v@) == Err::<Seq<char>, GenerationError>(e),
        },
{
    if k.numeric_literal() {
        match parse_u16(v) {
            Some(n) => Ok(u16_numeral(n)),
            None => Err(GenerationError::BadNumeric),
        }
    } else {
        Ok(quoted_chars(v))
    }
}

/// The symbolic fragment a value under `k` produces: the key's variant
/// space, a path separator, and the normalized value.
pub open spec fn spec_symbol<K: TableKey>(k: K, v: Seq<char>) -> Result<
    Seq<char>,
    GenerationError,
> {
    match k.spec_variant_path() {
        None => Err(GenerationError::KeyNotIdentifier),
        Some(path) => Ok(path + "::"@ + normalized(v)),
    }
}

/// Writes the symbolic fragment of a value under `k`.
pub fn render_symbol<K: TableKey>(k: &K, v: &[char]) -> (r: Result<Vec<char>, GenerationError>)
    ensures
        match r {
            Ok(out) => spec_symbol(*k, v@) == Ok::<Seq<char>, GenerationError>(out@),
            Err(e) => spec_symbol(*k, v@) == Err::<Seq<char>, GenerationError>(e),
        },
{
    match k.variant_path() {
        None => Err(GenerationError::KeyNotIdentifier),
        Some(path) => {
            let mut out: Vec<char> = Vec::new();
            append_str(&mut out, path);
            append_str(&mut out, "::");
            let norm = normalized_chars(v);
            append_chars(&mut out, norm.as_slice());
            Ok(out)
        },
    }
}

/// Whether a match construct from `lhs` to a symbolic right side over
/// `rk` is partial.
pub open spec fn spec_partial<K: TableKey>(lhs: (K, bool), rk: K) -> bool {
    lhs.1 || lhs.0.spec_may_be_absent() || rk.spec_may_be_absent()
}

/// The row one record contributes, given the usable left value `lv`.
pub open spec fn spec_row<K: TableKey>(
    rec: Seq<(K, Seq<char>)>,
    lhs: (K, bool),
    rhs: Option<(K, bool)>,
    lv: Seq<char>,
) -> Result<Seq<char>, GenerationError> {
    match rhs {
        None => {
            if !lhs.0.spec_lone_usable() {
                Err(GenerationError::KeyCannotStandAlone)
            } else if lhs.1 {
                spec_literal(lhs.0, lv)
            } else {
                Ok(normalized(lv))
            }
        },
        Some((rk, true)) => {
            let left = if lhs.1 {
                spec_literal(lhs.0, lv)
            } else {
                spec_symbol(lhs.0, lv)
            };
            match left {
                Err(e) => Err(e),
                Ok(l) => {
                    match field_value(rec, rk) {
                        None => Err(GenerationError::MissingRightValue),
                        Some(rv) => match spec_literal(rk, rv) {
                            Err(e) => Err(e),
                            Ok(rt) => Ok(l + " => "@ + rt),
                        },
                    }
                },
            }
        },
        Some((rk, false)) => {
            let left = if lhs.1 {
                spec_literal(lhs.0, lv)
            } else {
                spec_symbol(lhs.0, lv)
            };
            match left {
                Err(e) => Err(e),
                Ok(l) => {
                    if rk.spec_variant_path() is None {
                        Err(GenerationError::KeyNotIdentifier)
                    } else if spec_partial(lhs, rk) {
                        if field_available(rec, rk) {
                            match spec_symbol(rk, field_value(rec, rk)->Some_0) {
                                Err(e) => Err(e),
                                Ok(rt) => Ok(l + " => Some("@ + rt + ")"@),
                            }
                        } else {
                            Ok(l + " => None"@)
                        }
                    } else {
                        if field_available(rec, rk) {
                            match spec_symbol(rk, field_value(rec, rk)->Some_0) {
                                Err(e) => Err(e),
                                Ok(rt) => Ok(l + " => "@ + rt),
                            }
                        } else {
                            Err(GenerationError::MissingRightValue)
                        }
                    }
                },
            }
        },
    }
}

/// Writes the row one record contributes.
fn emit_row<K: TableKey>(
    rec: &Record<K>,
    lhs: (K, bool),
    rhs: Option<(K, bool)>,
    lv: &[char],
) -> (r: Result<Vec<char>, GenerationError>)
    ensures
        match r {
            Ok(out) => spec_row(rec@, lhs, rhs, lv@) == Ok::<Seq<char>, GenerationError>(out@),
            Err(e) => spec_row(rec@, lhs, rhs, lv@) == Err::<Seq<char>, GenerationError>(e),
        },
{
    match rhs {
        None => {
            if !lhs.0.lone_usable() {
                Err(GenerationError::KeyCannotStandAlone)
            } else if lhs.1 {
                render_literal(&lhs.0, lv)
            } else {
                Ok(normalized_chars(lv))
            }
        },
        Some((rk, true)) => {
            let left = if lhs.1 {
                render_literal(&lhs.0, lv)
            } else {
                render_symbol(&lhs.0, lv)
            };
            match left {
                Err(e) => Err(e),
                Ok(l) => {
                    match rec.field(&rk) {
                        None => Err(GenerationError::MissingRightValue),
                        Some(rv) => {
                            match render_literal(&rk, rv.as_slice()) {
                                Err(e) => Err(e),
                                Ok(rt) => {
                                    let mut out = l;
                                    append_str(&mut out, " => ");
                                    append_chars(&mut out, rt.as_slice());
                                    Ok(out)
                                },
                            }
                        },
                    }
                },
            }
        },
        Some((rk, false)) => {
            let left = if lhs.1 {
                render_literal(&lhs.0, lv)
            } else {
                render_symbol(&lhs.0, lv)
            };
            match left {
                Err(e) => Err(e),
                Ok(l) => {
                    if rk.variant_path().is_none() {
                        return Err(GenerationError::KeyNotIdentifier);
                    }
                    let partial = lhs.1 || lhs.0.may_be_absent() || rk.may_be_absent();
                    match rec.available_field(&rk) {
                        Some(rv) => {
                            match render_symbol(&rk, rv.as_slice()) {
                                Err(e) => Err(e),
                                Ok(rt) => {
                                    let mut out = l;
                                    if partial {
                                        append_str(&mut out, " => Some(");
                                        append_chars(&mut out, rt.as_slice());
                                        append_str(&mut out, ")");
                                    } else {
                                        append_str(&mut out, " => ");
                                        append_chars(&mut out, rt.as_slice());
                                    }
                                    Ok(out)
                                },
                            }
                        },
                        None => {
                            if partial {
                                let mut out = l;
                                append_str(&mut out, " => None");
                                Ok(out)
                            } else {
                                Err(GenerationError::MissingRightValue)
                            }
                        },
                    }
                },
            }
        },
    }
}

/// The rows the records contribute, in dataset order: a record without a
/// usable left value is skipped, and the first failing record's error is
/// the construct's error.
pub open spec fn spec_rows<K: TableKey>(
    recs: Seq<Seq<(K, Seq<char>)>>,
    lhs: (K, bool),
    rhs: Option<(K, bool)>,
) -> Result<Seq<Seq<char>>, GenerationError>
    decreases recs.len(),
{
    if recs.len() == 0 {
        Ok(Seq::empty())
    } else if !field_available(recs[0], lhs.0) {
        spec_rows(recs.drop_first(), lhs, rhs)
    } else {
        match spec_row(recs[0], lhs, rhs, field_value(recs[0], lhs.0)->Some_0) {
            Err(e) => Err(e),
            Ok(row) => match spec_rows(recs.drop_first(), lhs, rhs) {
                Err(e) => Err(e),
                Ok(rest) => Ok(seq![row] + rest),
            },
        }
    }
}

/// How many records offer a usable value under `k`.
pub open spec fn count_available<K: TableKey>(recs: Seq<Seq<(K, Seq<char>)>>, k: K) -> int
    decreases recs.len(),
{
    if recs.len() == 0 {
        0
    } else {
        (if field_available(recs[0], k) {
            1int
        } else {
            0int
        }) + count_available(recs.drop_first(), k)
    }
}

/// Skip rule: a record without a usable value under the left key
/// contributes no row at all — the rows of a successful construct are
/// in one-to-one correspondence with the records that offer one.
pub proof fn lemma_one_row_per_contributor<K: TableKey>(
    recs: Seq<Seq<(K, Seq<char>)>>,
    lhs: (K, bool),
    rhs: Option<(K, bool)>,
)
    ensures
        match spec_rows(recs, lhs, rhs) {
            Ok(rows) => rows.len() == count_available(recs, lhs.0),
            Err(e) => true,
        },
    decreases recs.len(),
{
    if recs.len() > 0 {
        lemma_one_row_per_contributor(recs.drop_first(), lhs, rhs);
    }
}

/// The body text of an assembled construct: each row indented, followed
/// by a comma and a line break.
pub open spec fn spec_body(rows: Seq<Seq<char>>) -> Seq<char>
    decreases rows.len(),
{
    if rows.len() == 0 {
        Seq::empty()
    } else {
        spec_body(rows.drop_last()) + "    "@ + rows.last() + ",\n"@
    }
}

/// Writes the body text of the construct the records contribute.
fn emit_body<K: TableKey>(
    records: &Vec<Record<K>>,
    lhs: (K, bool),
    rhs: Option<(K, bool)>,
) -> (r: Result<Vec<char>, GenerationError>)
    ensures
        match r {
            Ok(out) => {
                &&& spec_rows(records_view(records@), lhs, rhs) is Ok
                &&& out@ == spec_body(spec_rows(records_view(records@), lhs, rhs)->Ok_0)
            },
            Err(e) => spec_rows(records_view(records@), lhs, rhs) == Err::<
                Seq<Seq<char>>,
                GenerationError,
            >(e),
        },
{
    let ghost rv = records_view(records@);
    let mut out: Vec<char> = Vec::new();
    let ghost mut rows_acc: Seq<Seq<char>> = Seq::empty();
    let n = records.len();
    let mut i: usize = 0;
    proof {
        assert(rv.skip(0) =~= rv);
        assert forall|rest: Seq<Seq<char>>| Seq::<Seq<char>>::empty() + rest =~= rest by {};
    }
    while i < n
        invariant
            n == records@.len(),
            rv == records_view(records@),
            rv.len() == n,
            i <= n,
            out@ == spec_body(rows_acc),
            spec_rows(rv, lhs, rhs) == match spec_rows(rv.skip(i as int), lhs, rhs) {
                Ok(rest) => Ok::<Seq<Seq<char>>, GenerationError>(rows_acc + rest),
                Err(e) => Err::<Seq<Seq<char>>, GenerationError>(e),
            },
        decreases n - i,
    {
        proof {
            assert(rv.skip(i as int)[0] == records@[i as int]@);
            assert(rv.skip(i as int).drop_first() =~= rv.skip(i + 1));
        }
        match records[i].available_field(&lhs.0) {
            None => {
                proof {
                    assert(spec_rows(rv.skip(i as int), lhs, rhs) == spec_rows(
                        rv.skip(i + 1),
                        lhs,
                        rhs,
                    ));
                }
            },
            Some(lv) => {
                match emit_row(&records[i], lhs, rhs, lv.as_slice()) {
                    Err(e) => {
                        proof {
                            assert(spec_rows(rv.skip(i as int), lhs, rhs) == Err::<
                                Seq<Seq<char>>,
                                GenerationError,
                            >(e));
                        }
                        return Err(e);
                    },
                    Ok(row) => {
                        append_str(&mut out, "    ");
                        append_chars(&mut out, row.as_slice());
                        append_str(&mut out, ",\n");
                        proof {
                            let new_acc = rows_acc.push(row@);
                            assert(new_acc.drop_last() =~= rows_acc);
                            assert(out@ == spec_body(new_acc));
                            assert forall|rest: Seq<Seq<char>>|
                                rows_acc + (seq![row@] + rest) =~= new_acc + rest by {};
                            rows_acc = new_acc;
                        }
                    },
                }
            },
        }
        i = i + 1;
    }
    proof {
        assert(rv.skip(n as int) =~= Seq::<Seq<(K, Seq<char>)>>::empty());
        assert(spec_rows(rv.skip(n as int), lhs, rhs) == Ok::<Seq<Seq<char>>, GenerationError>(
            Seq::empty(),
        ));
        assert(rows_acc + Seq::<Seq<char>>::empty() =~= rows_acc);
    }
    Ok(out)
}

/// The variant names an enumeration over `k` declares: the normalized
/// form of each usable value, in dataset order.
pub open spec fn spec_variant_rows<K: TableKey>(
    recs: Seq<Seq<(K, Seq<char>)>>,
    k: K,
) -> Seq<Seq<char>>
    decreases recs.len(),
{
    if recs.len() == 0 {
        Seq::empty()
    } else if !field_available(recs[0], k) {
        spec_variant_rows(recs.drop_first(), k)
    } else {
        seq![normalized(field_value(recs[0], k)->Some_0)] + spec_variant_rows(
            recs.drop_first(),
            k,
        )
    }
}

/// Skip rule, enumeration side: the declared variants are in one-to-one
/// correspondence with the records that offer a usable value under the
/// discriminant key.
pub proof fn lemma_one_variant_per_contributor<K: TableKey>(recs: Seq<Seq<(K, Seq<char>)>>, k: K)
    ensures
        spec_variant_rows(recs, k).len() == count_available(recs, k),
    decreases recs.len(),
{
    if recs.len() > 0 {
        lemma_one_variant_per_contributor(recs.drop_first(), k);
    }
}

/// Writes the body of an enumeration declaration over `k`.
fn emit_variant_body<K: TableKey>(records: &Vec<Record<K>>, k: K) -> (r: Vec<char>)
    ensures
        r@ == spec_body(spec_variant_rows(records_view(records@), k)),
{
    let ghost rv = records_view(records@);
    let mut out: Vec<char> = Vec::new();
    let ghost mut rows_acc: Seq<Seq<char>> = Seq::empty();
    let n = records.len();
    let mut i: usize = 0;
    proof {
        assert(rv.skip(0) =~= rv);
        assert forall|rest: Seq<Seq<char>>| Seq::<Seq<char>>::empty() + rest =~= rest by {};
    }
    while i < n
        invariant
            n == records@.len(),
            rv == records_view(records@),
            rv.len() == n,
            i <= n,
            out@ == spec_body(rows_acc),
            spec_variant_rows(rv, k) == rows_acc + spec_variant_rows(rv.skip(i as int), k),
        decreases n - i,
    {
        proof {
            assert(rv.skip(i as int)[0] == records@[i as int]@);
            assert(rv.skip(i as int).drop_first() =~= rv.skip(i + 1));
        }
        match records[i].available_field(&k) {
            None => {
                proof {
                    assert(spec_variant_rows(rv.skip(i as int), k) == spec_variant_rows(
                        rv.skip(i + 1),
                        k,
                    ));
                }
            },
            Some(v) => {
                let row = normalized_chars(v.as_slice());
                append_str(&mut out, "    ");
                append_chars(&mut out, row.as_slice());
                append_str(&mut out, ",\n");
                proof {
                    let new_acc = rows_acc.push(row@);
                    assert(new_acc.drop_last() =~= rows_acc);
                    assert(out@ == spec_body(new_acc));
                    assert(rows_acc + (seq![row@] + spec_variant_rows(rv.skip(i + 1), k))
                        =~= new_acc + spec_variant_rows(rv.skip(i + 1), k));
                    rows_acc = new_acc;
                }
            },
        }
        i = i + 1;
    }
    proof {
        assert(rv.skip(n as int) =~= Seq::<Seq<(K, Seq<char>)>>::empty());
        assert(rows_acc + Seq::<Seq<char>>::empty() =~= rows_acc);
    }
    out
}

/// The enumeration an enumeration request declares: its key must carry
/// a standard designation, then name a variant space; the declaration
/// carries a documentation line naming the designation and a derive
/// header.
pub open spec fn spec_generate_enum<K: TableKey>(
    recs: Seq<Seq<(K, Seq<char>)>>,
    name: Seq<char>,
    k: K,
) -> Result<Seq<char>, GenerationError> {
    match k.spec_standard_code() {
        None => Err(GenerationError::NoStandardDesignation),
        Some(designation) => {
            if k.spec_variant_path() is None {
                Err(GenerationError::KeyNotIdentifier)
            } else {
                Ok(
                    "/// Enumeration over all possible ISO "@ + designation + " codes\n"@
                        + "#[derive(Debug, Hash, Copy, Clone, Eq, PartialEq)]\n"@ + "pub enum "@
                        + name + " {\n"@ + spec_body(spec_variant_rows(recs, k)) + "}\n"@,
                )
            }
        },
    }
}

/// The text of a match construct around the rows.
pub open spec fn spec_match_text<K: TableKey>(
    subject: Seq<char>,
    lhs: (K, bool),
    rhs: Option<(K, bool)>,
    rows: Seq<Seq<char>>,
) -> Seq<char> {
    let fallback = match rhs {
        Some((rk, is_lit)) => !is_lit && lhs.1,
        None => false,
    };
    if fallback {
        "match "@ + subject + " {\n"@ + spec_body(rows) + "    _ => None,\n"@ + "}\n"@
    } else {
        "match "@ + subject + " {\n"@ + spec_body(rows) + "}\n"@
    }
}

/// What one generation run emits for the given records and request.
pub open spec fn spec_generate<K: TableKey>(
    recs: Seq<Seq<(K, Seq<char>)>>,
    inp: GenerationInputV<K>,
) -> Result<Seq<char>, GenerationError> {
    match inp.enumeration {
        Some(name) => spec_generate_enum(recs, name, inp.lhs.0),
        None => match inp.match_against {
            Some(subject) => match spec_rows(recs, inp.lhs, inp.rhs) {
                Err(e) => Err(e),
                Ok(rows) => Ok(spec_match_text(subject, inp.lhs, inp.rhs, rows)),
            },
            None => Err(GenerationError::NotEnoughInformation),
        },
    }
}

/// Runs the emitter: one code fragment per contributing record, in
/// dataset order, assembled into an enumeration declaration or a match
/// construct. The output is a function of the records and the request
/// alone, so two runs over the same inputs emit identical text.
pub fn generate<K: TableKey>(
    records: &Vec<Record<K>>,
    input: &GenerationInput<K>,
) -> (r: Result<Vec<char>, GenerationError>)
    ensures
        match r {
            Ok(out) => spec_generate(records_view(records@), input@) == Ok::<
                Seq<char>,
                GenerationError,
            >(out@),
            Err(e) => spec_generate(records_view(records@), input@) == Err::<
                Seq<char>,
                GenerationError,
            >(e),
        },
{
    match &input.enumeration {
        Some(name) => {
            let designation = match input.lhs.0.standard_code() {
                None => {
                    return Err(GenerationError::NoStandardDesignation);
                },
                Some(d) => d,
            };
            if input.lhs.0.variant_path().is_none() {
                return Err(GenerationError::KeyNotIdentifier);
            }
            let body = emit_variant_body(records, input.lhs.0);
            let mut out: Vec<char> = Vec::new();
            append_str(&mut out, "/// Enumeration over all possible ISO ");
            append_str(&mut out, designation);
            append_str(&mut out, " codes\n");
            append_str(&mut out, "#[derive(Debug, Hash, Copy, Clone, Eq, PartialEq)]\n");
            append_str(&mut out, "pub enum ");
            append_chars(&mut out, name.as_slice());
            append_str(&mut out, " {\n");
            append_chars(&mut out, body.as_slice());
            append_str(&mut out, "}\n");
            Ok(out)
        },
        None => match &input.match_against {
            Some(subject) => {
                let body = match emit_body(records, input.lhs, input.rhs) {
                    Err(e) => {
                        return Err(e);
                    },
                    Ok(b) => b,
                };
                let fallback = match input.rhs {
                    Some((_, is_lit)) => !is_lit && input.lhs.1,
                    None => false,
                };
                let mut out: Vec<char> = Vec::new();
                append_str(&mut out, "match ");
                append_chars(&mut out, subject.as_slice());
                append_str(&mut out, " {\n");
                append_chars(&mut out, body.as_slice());
                if fallback {
                    append_str(&mut out, "    _ => None,\n");
                }
                append_str(&mut out, "}\n");
                Ok(out)
            },
            None => Err(GenerationError::NotEnoughInformation),
        },
    }
}

} // verus!
