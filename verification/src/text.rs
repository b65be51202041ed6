//! Character-sequence helpers shared by the generator: appending string
//! pieces to an output buffer, comparing buffers against fixed names, and
//! reading and writing unsigned 16-bit decimal numerals.

use vstd::prelude::*;
use vstd::string::StrSliceExecFns;

verus! {

/// Appends every character of `s` to `out`.
pub fn append_str(out: &mut Vec<char>, s: &str)
    ensures
        final(out)@ == old(out)@ + s@,
{
    let n = s.unicode_len();
    let mut i: usize = 0;
    while i < n
        invariant
            n == s@.len(),
            i <= n,
            out@ =~= old(out)@ + s@.take(i as int),
        decreases n - i,
    {
        let c = s.get_char(i);
        out.push(c);
        i = i + 1;
    }
    assert(out@ =~= old(out)@ + s@);
}

/// Appends every character of the slice `s` to `out`.
pub fn append_chars(out: &mut Vec<char>, s: &[char])
    ensures
        final(out)@ == old(out)@ + s@,
{
    let mut i: usize = 0;
    while i < s.len()
        invariant
            i <= s@.len(),
            out@ =~= old(out)@ + s@.take(i as int),
        decreases s@.len() - i,
    {
        out.push(s[i]);
        i = i + 1;
    }
    assert(out@ =~= old(out)@ + s@);
}

/// True when the characters of `v` spell exactly the string `s`.
pub fn chars_eq_str(v: &[char], s: &str) -> (r: bool)
    ensures
        r == (v@ == s@),
{
    let n = s.unicode_len();
    if v.len() != n {
        proof {
            assert(v@.len() != s@.len());
        }
        return false;
    }
    let mut i: usize = 0;
    while i < n
        invariant
            n == s@.len(),
            v@.len() == n,
            i <= n,
            forall|j: int| 0 <= j < i ==> v@[j] == s@[j],
        decreases n - i,
    {
        if v[i] != s.get_char(i) {
            return false;
        }
        i = i + 1;
    }
    proof {
        assert(v@ =~= s@);
    }
    true
}

/// True when two character slices hold the same characters.
pub fn chars_eq(a: &[char], b: &[char]) -> (r: bool)
    ensures
        r == (a@ == b@),
{
    if a.len() != b.len() {
        proof {
            assert(a@.len() != b@.len());
        }
        return false;
    }
    let mut i: usize = 0;
    while i < a.len()
        invariant
            i <= a@.len(),
            a@.len() == b@.len(),
            forall|j: int| 0 <= j < i ==> a@[j] == b@[j],
        decreases a@.len() - i,
    {
        if a[i] != b[i] {
            return false;
        }
        i = i + 1;
    }
    proof {
        assert(a@ =~= b@);
    }
    true
}

/// A decimal digit.
pub open spec fn is_dec_digit(c: char) -> bool {
    '0' <= c && c <= '9'
}

/// The numeric value of one decimal digit.
pub open spec fn dec_digit_val(c: char) -> int {
    c as int - 48
}

/// Every character of `s` is a decimal digit.
pub open spec fn all_dec_digits(s: Seq<char>) -> bool {
    forall|i: int| 0 <= i < s.len() ==> is_dec_digit(#[trigger] s[i])
}

/// The value of a digit string read in base ten.
pub open spec fn dec_value(s: Seq<char>) -> int
    decreases s.len(),
{
    if s.len() == 0 {
        0
    } else {
        dec_value(s.drop_last()) * 10 + dec_digit_val(s.last())
    }
}

/// A digit string the generator accepts as an unsigned 16-bit numeral.
pub open spec fn is_u16_numeral(s: Seq<char>) -> bool {
    s.len() > 0 && all_dec_digits(s) && dec_value(s) <= 0xffff
}

proof fn lemma_dec_value_nonneg(s: Seq<char>)
    requires
        all_dec_digits(s),
    ensures
        dec_value(s) >= 0,
    decreases s.len(),
{
    if s.len() > 0 {
        assert(all_dec_digits(s.drop_last())) by {
            assert(forall|i: int|
                0 <= i < s.len() - 1 ==> is_dec_digit(#[trigger] s.drop_last()[i]));
        }
        lemma_dec_value_nonneg(s.drop_last());
    }
}

proof fn lemma_dec_value_prefix_grows(s: Seq<char>, i: int)
    requires
        all_dec_digits(s),
        0 <= i <= s.len(),
    ensures
        dec_value(s.take(i)) <= dec_value(s),
    decreases s.len() - i,
{
    if i < s.len() {
        lemma_dec_value_prefix_grows(s, i + 1);
        let p = s.take(i + 1);
        assert(p.drop_last() =~= s.take(i));
        assert(all_dec_digits(s.take(i))) by {
            assert(forall|j: int|
                0 <= j < i ==> is_dec_digit(#[trigger] s.take(i)[j]));
        }
        lemma_dec_value_nonneg(s.take(i));
        assert(dec_value(p) == dec_value(s.take(i)) * 10 + dec_digit_val(s[i]));
        assert(dec_value(s.take(i)) * 10 >= dec_value(s.take(i))) by (nonlinear_arith)
            requires dec_value(s.take(i)) >= 0;
        assert(dec_digit_val(s[i]) >= 0);
    } else {
        assert(s.take(i) =~= s);
    }
}

/// Parses a base-ten numeral into a `u16`; yields `None` on an empty
/// string, a non-digit character, or a value above `u16::MAX`.
pub fn parse_u16(s: &[char]) -> (r: Option<u16>)
    ensures
        match r {
            Some(v) => is_u16_numeral(s@) && v as int == dec_value(s@),
            None => !is_u16_numeral(s@),
        },
{
    if s.len() == 0 {
        return None;
    }
    let mut value: u32 = 0;
    let mut i: usize = 0;
    while i < s.len()
        invariant
            i <= s@.len(),
            s@.len() > 0,
            forall|j: int| 0 <= j < i ==> is_dec_digit(#[trigger] s@[j]),
            value as int == dec_value(s@.take(i as int)),
            value <= 0xffff,
        decreases s@.len() - i,
    {
        let c = s[i];
        if !('0' <= c && c <= '9') {
            return None;
        }
        let d: u32 = (c as u32) - 48;
        value = value * 10 + d;
        proof {
            assert(s@.take(i + 1).drop_last() =~= s@.take(i as int));
        }
        i = i + 1;
        if value > 0xffff {
            proof {
                if all_dec_digits(s@) {
                    lemma_dec_value_prefix_grows(s@, i as int);
                }
            }
            return None;
        }
    }
    proof {
        assert(s@.take(i as int) =~= s@);
    }
    Some(value as u16)
}

/// The position of the first occurrence of `sep` in `s`, or the length
/// of `s` if it does not occur.
pub open spec fn char_pos(s: Seq<char>, sep: char) -> nat
    decreases s.len(),
{
    if s.len() == 0 {
        0
    } else if s[0] == sep {
        0
    } else {
        1 + char_pos(s.drop_first(), sep)
    }
}

/// The pieces of `s` between occurrences of `sep`: one piece more than
/// there are separators, in order, each without the separator.
pub open spec fn split_on(s: Seq<char>, sep: char) -> Seq<Seq<char>>
    decreases s.len(),
{
    let p = char_pos(s, sep) as int;
    if p >= s.len() {
        seq![s]
    } else {
        seq![s.take(p)] + split_on(s.skip(p + 1), sep)
    }
}

proof fn lemma_char_pos_at(s: Seq<char>, sep: char, k: int)
    requires
        0 <= k <= s.len(),
        forall|j: int| 0 <= j < k ==> s[j] != sep,
        k == s.len() || s[k] == sep,
    ensures
        char_pos(s, sep) == k,
    decreases k,
{
    if k > 0 {
        assert(s[0] != sep);
        lemma_char_pos_at(s.drop_first(), sep, k - 1);
        assert(forall|j: int|
            0 <= j < k - 1 ==> #[trigger] s.drop_first()[j] == s[j + 1]);
    }
}

/// The views of a sequence of character buffers.
pub open spec fn views_of(v: Seq<Vec<char>>) -> Seq<Seq<char>> {
    v.map_values(|x: Vec<char>| x@)
}

/// Splits `s` at every occurrence of `sep`.
pub fn split_chars(s: &[char], sep: char) -> (r: Vec<Vec<char>>)
    ensures
        views_of(r@) == split_on(s@, sep),
{
    let mut pieces: Vec<Vec<char>> = Vec::new();
    let mut piece: Vec<char> = Vec::new();
    let mut start: usize = 0;
    let mut i: usize = 0;
    proof {
        assert(s@.skip(0) =~= s@);
        assert(views_of(pieces@) + split_on(s@, sep) =~= split_on(s@, sep));
    }
    while i < s.len()
        invariant
            start <= i <= s@.len(),
            piece@ =~= s@.subrange(start as int, i as int),
            forall|j: int| start <= j < i ==> s@[j] != sep,
            split_on(s@, sep) =~= views_of(pieces@) + split_on(s@.skip(start as int), sep),
        decreases s@.len() - i,
    {
        let c = s[i];
        if c == sep {
            proof {
                let tail = s@.skip(start as int);
                assert(forall|j: int|
                    0 <= j < i - start ==> #[trigger] tail[j] == s@[j + start]);
                lemma_char_pos_at(tail, sep, i - start);
                assert(tail.take(i - start) =~= s@.subrange(start as int, i as int));
                assert(tail.skip(i - start + 1) =~= s@.skip(i + 1));
                assert(split_on(tail, sep) == seq![piece@] + split_on(s@.skip(i + 1), sep));
            }
            let ghost old_pieces = pieces@;
            let ghost this_piece = piece@;
            pieces.push(piece);
            piece = Vec::new();
            start = i + 1;
            proof {
                assert(views_of(pieces@) =~= views_of(old_pieces).push(this_piece));
                assert(views_of(old_pieces).push(this_piece) + split_on(s@.skip(start as int), sep)
                    =~= views_of(old_pieces) + (seq![this_piece] + split_on(
                    s@.skip(start as int),
                    sep,
                )));
                assert(piece@ =~= s@.subrange(start as int, start as int));
            }
        } else {
            piece.push(c);
        }
        i = i + 1;
    }
    proof {
        let tail = s@.skip(start as int);
        assert(forall|j: int|
            0 <= j < s@.len() - start ==> #[trigger] tail[j] == s@[j + start]);
        lemma_char_pos_at(tail, sep, s@.len() - start);
        assert(split_on(tail, sep) == seq![tail]);
        assert(tail =~= piece@);
    }
    let ghost old_pieces = pieces@;
    let ghost this_piece = piece@;
    pieces.push(piece);
    proof {
        assert(views_of(pieces@) =~= views_of(old_pieces).push(this_piece));
        assert(views_of(old_pieces).push(this_piece) =~= views_of(old_pieces) + seq![this_piece]);
        assert(views_of(pieces@) =~= split_on(s@, sep));
    }
    pieces
}

/// A line with a trailing carriage return removed.
pub open spec fn strip_cr(l: Seq<char>) -> Seq<char> {
    if l.len() > 0 && l.last() == '\r' {
        l.drop_last()
    } else {
        l
    }
}

/// The lines of `s`: the pieces between line feeds, without a final
/// empty piece after a trailing line feed, each with a trailing carriage
/// return removed.
pub open spec fn spec_lines(s: Seq<char>) -> Seq<Seq<char>> {
    let pieces = split_on(s, '\n');
    let kept = if pieces.len() > 0 && pieces.last().len() == 0 {
        pieces.drop_last()
    } else {
        pieces
    };
    kept.map_values(|l: Seq<char>| strip_cr(l))
}

/// Splits `s` into lines.
pub fn lines_of(s: &[char]) -> (r: Vec<Vec<char>>)
    ensures
        views_of(r@) == spec_lines(s@),
{
    let mut pieces = split_chars(s, '\n');
    if pieces.len() > 0 && pieces[pieces.len() - 1].len() == 0 {
        proof {
            assert(views_of(pieces@).last().len() == 0);
        }
        let ghost old_pieces = pieces@;
        pieces.pop();
        proof {
            assert(views_of(pieces@) =~= views_of(old_pieces).drop_last());
        }
    }
    let ghost kept = views_of(pieces@);
    let mut out: Vec<Vec<char>> = Vec::new();
    let mut i: usize = 0;
    while i < pieces.len()
        invariant
            i <= pieces@.len(),
            kept == views_of(pieces@),
            kept.len() == pieces@.len(),
            views_of(out@) =~= kept.take(i as int).map_values(|l: Seq<char>| strip_cr(l)),
        decreases pieces@.len() - i,
    {
        let n = pieces[i].len();
        let mut line = crate::schema::clone_chars(&pieces[i]);
        if n > 0 && line[n - 1] == '\r' {
            line.pop();
            proof {
                assert(line@ =~= strip_cr(kept[i as int]));
            }
        } else {
            proof {
                assert(line@ =~= strip_cr(kept[i as int]));
            }
        }
        let ghost old_out = out@;
        out.push(line);
        proof {
            assert(views_of(out@) =~= views_of(old_out).push(strip_cr(kept[i as int])));
            assert(views_of(out@) =~= kept.take(i + 1).map_values(|l: Seq<char>| strip_cr(l)));
        }
        i = i + 1;
    }
    proof {
        assert(kept.take(kept.len() as int) =~= kept);
        assert(views_of(out@) =~= spec_lines(s@));
    }
    out
}

/// The decimal numeral of a non-negative value, most significant digit
/// first, with no leading zeros.
pub open spec fn dec_numeral(n: int) -> Seq<char>
    decreases n,
{
    if n < 0 {
        Seq::empty()
    } else if n < 10 {
        seq![(48 + n) as char]
    } else {
        dec_numeral(n / 10).push((48 + n % 10) as char)
    }
}

/// Writes `n` as a decimal numeral.
pub fn u16_numeral(n: u16) -> (r: Vec<char>)
    ensures
        r@ == dec_numeral(n as int),
    decreases n,
{
    if n < 10 {
        let c: char = ((48 + n) as u8) as char;
        let mut v: Vec<char> = Vec::new();
        v.push(c);
        v
    } else {
        let mut v = u16_numeral(n / 10);
        let c: char = ((48 + n % 10) as u8) as char;
        v.push(c);
        v
    }
}

} // verus!

