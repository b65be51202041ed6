//! The value-level lookup layer: the meaning of the emitted match
//! constructs. A generated match from one key's values to another key's
//! values behaves as a first-match lookup over the record table; the
//! lemmas here carry the conversion laws the generated constructs obey.

use vstd::prelude::*;

use crate::schema::{field_value, records_view, Record, TableKey};
use crate::text::chars_eq;

verus! {

/// The index of the first record whose `k` value is `v`.
pub open spec fn spec_find<K: TableKey>(
    recs: Seq<Seq<(K, Seq<char>)>>,
    k: K,
    v: Seq<char>,
) -> Option<int>
    decreases recs.len(),
{
    if recs.len() == 0 {
        None
    } else if field_value(recs[0], k) == Some(v) {
        Some(0)
    } else {
        match spec_find(recs.drop_first(), k, v) {
            None => None,
            Some(i) => Some(i + 1),
        }
    }
}

/// What converting the code `code` of standard `from` into standard
/// `to` yields: the `to` value of the first record carrying `code`
/// under `from`, if any.
pub open spec fn spec_convert_value<K: TableKey>(
    recs: Seq<Seq<(K, Seq<char>)>>,
    from: K,
    code: Seq<char>,
    to: K,
) -> Option<Seq<char>> {
    match spec_find(recs, from, code) {
        None => None,
        Some(i) => field_value(recs[i], to),
    }
}

/// No two records give the same value to `k`.
pub open spec fn distinct_column<K: TableKey>(recs: Seq<Seq<(K, Seq<char>)>>, k: K) -> bool {
    forall|i: int, j: int|
        0 <= i < recs.len() && 0 <= j < recs.len() && i != j ==> #[trigger] field_value(
            recs[i],
            k,
        ) != #[trigger] field_value(recs[j], k)
}

/// What a found index means: the record at it carries the code, and no
/// earlier record does.
pub proof fn lemma_find_characterization<K: TableKey>(
    recs: Seq<Seq<(K, Seq<char>)>>,
    k: K,
    v: Seq<char>,
)
    ensures
        match spec_find(recs, k, v) {
            Some(i) => 0 <= i < recs.len() && field_value(recs[i], k) == Some(v) && forall|j: int|
                0 <= j < i ==> #[trigger] field_value(recs[j], k) != Some(v),
            None => forall|j: int|
                0 <= j < recs.len() ==> #[trigger] field_value(recs[j], k) != Some(v),
        },
    decreases recs.len(),
{
    if recs.len() > 0 {
        if field_value(recs[0], k) != Some(v) {
            lemma_find_characterization(recs.drop_first(), k, v);
            assert(forall|j: int|
                1 <= j < recs.len() ==> #[trigger] recs[j] == recs.drop_first()[j - 1]);
        }
    }
}

/// Format then parse: under a column without duplicates, looking a
/// record's own `k` value up finds that record again.
pub proof fn lemma_find_self<K: TableKey>(recs: Seq<Seq<(K, Seq<char>)>>, k: K, i: int)
    requires
        distinct_column(recs, k),
        0 <= i < recs.len(),
        field_value(recs[i], k) is Some,
    ensures
        spec_find(recs, k, field_value(recs[i], k)->Some_0) == Some(i),
    decreases recs.len(),
{
    let v = field_value(recs[i], k)->Some_0;
    if i == 0 {
    } else {
        assert(field_value(recs[0], k) != field_value(recs[i], k));
        let rest = recs.drop_first();
        assert(forall|j: int| 0 <= j < rest.len() ==> #[trigger] rest[j] == recs[j + 1]);
        assert(distinct_column(rest, k)) by {
            assert(forall|a: int, b: int|
                0 <= a < rest.len() && 0 <= b < rest.len() && a != b ==> #[trigger] field_value(
                    rest[a],
                    k,
                ) != #[trigger] field_value(rest[b], k));
        }
        lemma_find_self(rest, k, i - 1);
    }
}

/// Finds the first record whose `k` value is `v`.
pub fn find_record<K: TableKey>(records: &Vec<Record<K>>, k: &K, v: &[char]) -> (r: Option<usize>)
    ensures
        match r {
            Some(i) => spec_find(records_view(records@), *k, v@) == Some(i as int) && i
                < records@.len(),
            None => spec_find(records_view(records@), *k, v@) is None,
        },
{
    let ghost rv = records_view(records@);
    let n = records.len();
    let mut i: usize = 0;
    proof {
        assert(rv.skip(0) =~= rv);
    }
    while i < n
        invariant
            i <= n,
            n == records@.len(),
            rv == records_view(records@),
            rv.len() == n,
            match spec_find(rv.skip(i as int), *k, v@) {
                None => spec_find(rv, *k, v@) is None,
                Some(j) => spec_find(rv, *k, v@) == Some(j + i),
            },
        decreases n - i,
    {
        proof {
            assert(rv.skip(i as int)[0] == records@[i as int]@);
            assert(rv.skip(i as int).drop_first() =~= rv.skip(i + 1));
        }
        let hit = match records[i].field(k) {
            Some(val) => chars_eq(val.as_slice(), v),
            None => false,
        };
        if hit {
            return Some(i);
        }
        i = i + 1;
    }
    proof {
        assert(rv.skip(n as int) =~= Seq::<Seq<(K, Seq<char>)>>::empty());
    }
    None
}

} // verus!
