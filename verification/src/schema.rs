//! The schema layer: a record is a closed mapping from field keys to
//! character-string values, and a key registry describes, per key, the
//! metadata the generator consults — whether the key corresponds to a
//! formal standard designation, whether its values name a variant space,
//! whether it may be absent from a record, and how its values are
//! rendered.

use vstd::prelude::*;

verus! {

/// A registry of field keys for one dataset kind.
///
/// Each dataset kind (country, language) keeps its own closed key
/// enumeration; this trait is the schema descriptor the generator core
/// is parameterized over.
pub trait TableKey: Sized + Copy {
    /// The key a canonical field name designates, compared without
    /// regard to ASCII case.
    spec fn spec_canonical(name: Seq<char>) -> Option<Self>;

    /// Looks a key up by its canonical field name.
    fn from_canonical_name(name: &[char]) -> (r: Option<Self>)
        ensures
            r == Self::spec_canonical(name@);

    /// The formal standard designation of the key, if it has one; a key
    /// without one cannot be the discriminant of an enumeration.
    spec fn spec_standard_code(self) -> Option<Seq<char>>;

    /// The formal standard designation of the key, if it has one.
    fn standard_code(&self) -> (r: Option<&'static str>)
        ensures
            match r {
                Some(s) => self.spec_standard_code() == Some(s@),
                None => self.spec_standard_code() is None,
            };

    /// The name of the variant space the key's values belong to, if its
    /// values can serve as symbolic identifiers.
    spec fn spec_variant_path(self) -> Option<Seq<char>>;

    /// The variant-space name of the key, if any.
    fn variant_path(&self) -> (r: Option<&'static str>)
        ensures
            match r {
                Some(s) => self.spec_variant_path() == Some(s@),
                None => self.spec_variant_path() is None,
            };

    /// Whether a record may legitimately lack a value under this key.
    spec fn spec_may_be_absent(self) -> bool;

    /// Whether a record may lack a value under this key.
    fn may_be_absent(&self) -> (r: bool)
        ensures
            r == self.spec_may_be_absent();

    /// Whether a value under this key may stand alone as a whole
    /// emitted fragment.
    spec fn spec_lone_usable(self) -> bool;

    /// Whether a value under this key may stand alone.
    fn lone_usable(&self) -> (r: bool)
        ensures
            r == self.spec_lone_usable();

    /// Whether literal values under this key are unsigned 16-bit decimal
    /// numerals rather than quoted strings.
    spec fn spec_numeric_literal(self) -> bool;

    /// Whether literal values under this key are numerals.
    fn numeric_literal(&self) -> (r: bool)
        ensures
            r == self.spec_numeric_literal();

    /// Equality of keys.
    fn key_eq(&self, other: &Self) -> (r: bool)
        ensures
            r == (*self == *other);
}

/// One normalized row of a source dataset: an ordered mapping from key
/// to field value.
#[derive(Debug)]
pub struct Record<K> {
    pub fields: Vec<(K, Vec<char>)>,
}

impl<K> View for Record<K> {
    type V = Seq<(K, Seq<char>)>;

    open spec fn view(&self) -> Seq<(K, Seq<char>)> {
        self.fields@.map_values(|p: (K, Vec<char>)| (p.0, p.1@))
    }
}

/// The value the fields of a record give to `k`: the first binding of
/// `k`, if any.
pub open spec fn field_value<K>(fields: Seq<(K, Seq<char>)>, k: K) -> Option<Seq<char>>
    decreases fields.len(),
{
    if fields.len() == 0 {
        None
    } else if fields[0].0 == k {
        Some(fields[0].1)
    } else {
        field_value(fields.drop_first(), k)
    }
}

/// The views of a sequence of records.
pub open spec fn records_view<K>(rs: Seq<Record<K>>) -> Seq<Seq<(K, Seq<char>)>> {
    rs.map_values(|r: Record<K>| r@)
}

/// A record offers a usable value for `k`: a binding exists and the
/// value is not empty.
pub open spec fn field_available<K>(fields: Seq<(K, Seq<char>)>, k: K) -> bool {
    match field_value(fields, k) {
        Some(v) => v.len() > 0,
        None => false,
    }
}

/// How a record's value under `k` decomposes over an append: the first
/// part answers when it binds `k`, the second otherwise.
pub proof fn lemma_field_value_append<K>(
    a: Seq<(K, Seq<char>)>,
    b: Seq<(K, Seq<char>)>,
    k: K,
)
    ensures
        field_value(a + b, k) == match field_value(a, k) {
            Some(v) => Some(v),
            None => field_value(b, k),
        },
    decreases a.len(),
{
    if a.len() == 0 {
        assert(a + b =~= b);
    } else {
        assert((a + b).len() > 0);
        assert((a + b)[0] == a[0]);
        assert((a + b).drop_first() =~= a.drop_first() + b);
        lemma_field_value_append(a.drop_first(), b, k);
    }
}

proof fn lemma_field_value_step<K>(fields: Seq<(K, Seq<char>)>, k: K, i: int)
    requires
        0 <= i < fields.len(),
        forall|j: int| 0 <= j < i ==> (#[trigger] fields[j]).0 != k,
    ensures
        field_value(fields, k) == if fields[i].0 == k {
            Some(fields[i].1)
        } else {
            field_value(fields.skip(i + 1), k)
        },
    decreases i,
{
    if i == 0 {
        assert(fields.drop_first() =~= fields.skip(1));
    } else {
        assert(fields.drop_first() =~= fields.skip(1));
        lemma_field_value_step(fields.skip(1), k, i - 1);
        assert(fields.skip(1)[i - 1] == fields[i]);
        assert(fields.skip(1).skip(i) =~= fields.skip(i + 1));
        assert(forall|j: int|
            0 <= j < i - 1 ==> (#[trigger] fields.skip(1)[j]).0 != k);
    }
}

impl<K: TableKey> Record<K> {
    /// The value this record gives to `k`, if any.
    pub fn field(&self, k: &K) -> (r: Option<Vec<char>>)
        ensures
            match r {
                Some(v) => field_value(self@, *k) == Some(v@),
                None => field_value(self@, *k) is None,
            },
    {
        let n = self.fields.len();
        let mut i: usize = 0;
        while i < n
            invariant
                n == self.fields@.len(),
                self@.len() == n,
                i <= n,
                forall|j: int| 0 <= j < i ==> (#[trigger] self@[j]).0 != *k,
            decreases n - i,
        {
            assert(self@[i as int].0 == self.fields@[i as int].0);
            assert(self@[i as int].1 == self.fields@[i as int].1@);
            if self.fields[i].0.key_eq(k) {
                let v = clone_chars(&self.fields[i].1);
                proof {
                    lemma_field_value_step(self@, *k, i as int);
                }
                return Some(v);
            }
            i = i + 1;
        }
        proof {
            if n > 0 {
                lemma_field_value_step(self@, *k, n as int - 1);
                assert(self@.skip(n as int) =~= Seq::<(K, Seq<char>)>::empty());
            }
        }
        None
    }

    /// The value this record gives to `k`, when that value is not empty.
    pub fn available_field(&self, k: &K) -> (r: Option<Vec<char>>)
        ensures
            match r {
                Some(v) => field_available(self@, *k) && field_value(self@, *k) == Some(v@),
                None => !field_available(self@, *k),
            },
    {
        match self.field(k) {
            Some(v) => {
                if v.len() > 0 {
                    Some(v)
                } else {
                    None
                }
            },
            None => None,
        }
    }
}

/// A copy of a character buffer.
pub fn clone_chars(v: &Vec<char>) -> (r: Vec<char>)
    ensures
        r@ == v@,
{
    let mut out: Vec<char> = Vec::new();
    let mut i: usize = 0;
    while i < v.len()
        invariant
            i <= v@.len(),
            out@ =~= v@.take(i as int),
        decreases v@.len() - i,
    {
        out.push(v[i]);
        i = i + 1;
    }
    proof {
        assert(out@ =~= v@);
    }
    out
}

} // verus!
