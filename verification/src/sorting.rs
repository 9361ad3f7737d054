//! Ordering texts, and lists of rows by the text that they start with.
use vstd::prelude::*;

use crate::text::chars_of;

verus! {

broadcast use vstd::string::group_string_axioms;

/// Whether a text comes before another: by the first character that differs, in the order of
/// code points, and a text that the other starts with comes first.
pub open spec fn text_before(a: Seq<char>, b: Seq<char>) -> bool
    decreases a.len(),
{
    if b.len() == 0 {
        false
    } else if a.len() == 0 {
        true
    } else if a[0] != b[0] {
        (a[0] as int) < (b[0] as int)
    } else {
        text_before(a.drop_first(), b.drop_first())
    }
}

fn char_before(a: char, b: char) -> (r: bool)
    ensures
        r == ((a as int) < (b as int)),
{
    (a as u32) < (b as u32)
}

/// Whether a text comes before another.
pub fn str_before(a: &str, b: &str) -> (r: bool)
    ensures
        r == text_before(a@, b@),
{
    let x = chars_of(a);
    let y = chars_of(b);
    let mut i: usize = 0;
    assert(x@.skip(0) =~= x@);
    assert(y@.skip(0) =~= y@);
    while i < x.len() && i < y.len() && x[i] == y[i]
        invariant
            i <= x@.len(),
            i <= y@.len(),
            text_before(x@.skip(i as int), y@.skip(i as int)) == text_before(x@, y@),
        decreases x.len() - i,
    {
        assert(x@.skip(i as int)[0] == x@[i as int]);
        assert(y@.skip(i as int)[0] == y@[i as int]);
        assert(x@.skip(i as int).drop_first() =~= x@.skip(i + 1));
        assert(y@.skip(i as int).drop_first() =~= y@.skip(i + 1));
        i += 1;
    }
    if i >= y.len() {
        return false;
    }
    if i >= x.len() {
        return true;
    }
    assert(x@.skip(i as int)[0] == x@[i as int]);
    assert(y@.skip(i as int)[0] == y@[i as int]);
    char_before(x[i], y[i])
}

/// The models of rows.
pub open spec fn row_views(v: Seq<(String, String)>) -> Seq<(Seq<char>, Seq<char>)> {
    v.map_values(|p: (String, String)| (p.0@, p.1@))
}

/// Rows in order with one more: in front of the first one that comes after it.
pub open spec fn with_row(rows: Seq<(Seq<char>, Seq<char>)>, row: (Seq<char>, Seq<char>)) -> Seq<
    (Seq<char>, Seq<char>),
> {
    let key = row.0;
    let at = crate::seqs::first_where(
        0,
        rows.len() as int,
        |i: int| text_before(key, rows[i].0),
    );
    rows.insert(at, row)
}

/// The rows in the order of their first texts, those with equal ones in the order given.
pub open spec fn sorted(rows: Seq<(Seq<char>, Seq<char>)>) -> Seq<(Seq<char>, Seq<char>)>
    decreases rows.len(),
{
    if rows.len() == 0 {
        Seq::empty()
    } else {
        with_row(sorted(rows.drop_last()), rows.last())
    }
}

/// Inserts a row into rows in order.
pub fn insert_row(rows: &mut Vec<(String, String)>, key: String, value: String)
    ensures
        row_views(final(rows)@) == with_row(row_views(old(rows)@), (key@, value@)),
{
    let ghost v = row_views(rows@);
    let ghost k = key@;
    let ghost p = |i: int| text_before(k, v[i].0);
    let mut at: usize = 0;
    while at < rows.len() && !str_before(key.as_str(), rows[at].0.as_str())
        invariant
            at <= rows@.len(),
            *rows == *old(rows),
            v == row_views(rows@),
            k == key@,
            p == (|i: int| text_before(k, v[i].0)),
            forall|j: int| 0 <= j < at ==> !#[trigger] p(j),
        decreases rows.len() - at,
    {
        assert(!p(at as int));
        at += 1;
    }
    proof {
        assert(at < v.len() ==> p(at as int));
        crate::seqs::lemma_first_where_is(0, v.len() as int, p, at as int);
    }
    let ghost row = (key@, value@);
    rows.insert(at, (key, value));
    assert(row_views(rows@) =~= v.insert(at as int, row));
}

// ── Laws ─────────────────────────────────────────────────────────────────────

/// No text comes before itself, of two different texts exactly one comes before the other.
pub proof fn law_order_is_total(a: Seq<char>, b: Seq<char>)
    ensures
        !text_before(a, a),
        text_before(a, b) ==> !text_before(b, a),
        a != b ==> text_before(a, b) || text_before(b, a),
    decreases a.len(),
{
    if a.len() > 0 && b.len() > 0 {
        law_order_is_total(a.drop_first(), b.drop_first());
        if a[0] == b[0] && a.drop_first() == b.drop_first() {
            assert(a =~= seq![a[0]] + a.drop_first());
            assert(b =~= seq![b[0]] + b.drop_first());
        }
    } else if a.len() > 0 {
        law_order_is_total(a.drop_first(), a.drop_first());
    } else if b.len() == 0 {
        assert(a =~= b);
    }
}

/// A text that comes before a second one comes before all that the second one comes before.
pub proof fn law_order_is_transitive(a: Seq<char>, b: Seq<char>, c: Seq<char>)
    requires
        text_before(a, b),
        text_before(b, c),
    ensures
        text_before(a, c),
    decreases a.len(),
{
    if a.len() > 0 && a[0] == b[0] && b[0] == c[0] {
        law_order_is_transitive(a.drop_first(), b.drop_first(), c.drop_first());
    }
}

/// Whether no row comes before an earlier one.
pub open spec fn is_sorted(rows: Seq<(Seq<char>, Seq<char>)>) -> bool {
    forall|i: int, j: int|
        0 <= i < j < rows.len() ==> !text_before((#[trigger] rows[j]).0, (#[trigger] rows[i]).0)
}

/// Sorting puts the rows in order, and keeps each of them.
pub proof fn law_sorted_is_in_order(rows: Seq<(Seq<char>, Seq<char>)>)
    ensures
        is_sorted(sorted(rows)),
        sorted(rows).to_multiset() == rows.to_multiset(),
    decreases rows.len(),
{
    broadcast use vstd::seq_lib::group_to_multiset_ensures;

    if rows.len() > 0 {
        let rest = sorted(rows.drop_last());
        law_sorted_is_in_order(rows.drop_last());
        lemma_with_row(rest, rows.last());
        assert(rows =~= rows.drop_last().push(rows.last()));
        let key = rows.last().0;
        let p = |i: int| text_before(key, rest[i].0);
        crate::seqs::lemma_first_where(0, rest.len() as int, p);
    } else {
        assert(sorted(rows) =~= rows);
    }
}

proof fn lemma_with_row(rows: Seq<(Seq<char>, Seq<char>)>, row: (Seq<char>, Seq<char>))
    requires
        is_sorted(rows),
    ensures
        is_sorted(with_row(rows, row)),
{
    let key = row.0;
    let p = |i: int| text_before(key, rows[i].0);
    let at = crate::seqs::first_where(0, rows.len() as int, p);
    crate::seqs::lemma_first_where(0, rows.len() as int, p);
    let s = with_row(rows, row);
    assert forall|i: int, j: int| 0 <= i < j < s.len() implies !text_before(
        (#[trigger] s[j]).0,
        (#[trigger] s[i]).0,
    ) by {
        let a = if i < at {
            i
        } else {
            i - 1
        };
        let b = if j < at {
            j
        } else {
            j - 1
        };
        if i != at && j != at {
            assert(s[i] == rows[a] && s[j] == rows[b]);
        } else if i == at {
            // Everything behind the new row comes after it.
            assert(s[j] == rows[b]);
            assert(p(at));
            law_order_is_total(key, rows[at].0);
            law_order_is_total(key, rows[b].0);
            if b > at && text_before(rows[b].0, key) {
                law_order_is_transitive(rows[b].0, key, rows[at].0);
            }
        } else {
            assert(s[i] == rows[a]);
            assert(!p(a));
        }
    }
}

/// Texts are ordered by the first character in which they differ, and a text comes before one that
/// it is the beginning of.
pub proof fn law_first_difference_decides(a: Seq<char>, b: Seq<char>, i: int)
    requires
        0 <= i <= a.len(),
        i <= b.len(),
        forall|j: int| 0 <= j < i ==> #[trigger] a[j] == b[j],
    ensures
        i < a.len() && i < b.len() && a[i] != b[i] ==> (text_before(a, b) <==> (a[i] as int) < (
        b[i] as int)),
        i == a.len() && i < b.len() ==> text_before(a, b),
        i == b.len() ==> !text_before(a, b),
    decreases a.len(),
{
    if i > 0 {
        assert(a[0] == b[0]);
        assert forall|j: int| 0 <= j < i - 1 implies #[trigger] a.drop_first()[j]
            == b.drop_first()[j] by {
            assert(a[j + 1] == b[j + 1]);
        }
        law_first_difference_decides(a.drop_first(), b.drop_first(), i - 1);
    }
}

} // verus!
