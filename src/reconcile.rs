//! Reconciliation of one receipt's lines with the relational store: one price
//! row per product of the receipt, the last line for a name winning, and the
//! distinct product names that must exist before the rows are written.
use vstd::prelude::*;

use crate::extract::{lines_view, LineItem, LineView};

verus! {

/// The lines of `s` whose name is not `n`, in order.
pub open spec fn without_name(s: Seq<LineView>, n: Seq<char>) -> Seq<LineView>
    decreases s.len(),
{
    if s.len() == 0 {
        s
    } else {
        let earlier = without_name(s.drop_last(), n);
        if s.last().0 == n {
            earlier
        } else {
            earlier.push(s.last())
        }
    }
}

/// The price rows that a receipt's lines give: each line replaces an earlier
/// row of the same name, so the last line for each name is kept.
pub open spec fn last_per_name(s: Seq<LineView>) -> Seq<LineView>
    decreases s.len(),
{
    if s.len() == 0 {
        s
    } else {
        without_name(last_per_name(s.drop_last()), s.last().0).push(s.last())
    }
}

/// How many lines of `s` carry the name `n`.
pub open spec fn rows_named(s: Seq<LineView>, n: Seq<char>) -> nat
    decreases s.len(),
{
    if s.len() == 0 {
        0
    } else {
        rows_named(s.drop_last(), n) + if s.last().0 == n {
            1nat
        } else {
            0nat
        }
    }
}

fn copy_line(l: &LineItem) -> (r: LineItem)
    ensures
        r@ == l@,
{
    LineItem { name: l.name.clone(), count: l.count, unit_price: l.unit_price }
}

/// The rows whose name differs from `name`, in order.
fn drop_named(rows: &Vec<LineItem>, name: &String) -> (r: Vec<LineItem>)
    ensures
        lines_view(r@) == without_name(lines_view(rows@), name@),
{
    let mut out: Vec<LineItem> = Vec::new();
    let mut j: usize = 0;
    while j < rows.len()
        invariant
            j <= rows.len(),
            lines_view(out@) == without_name(lines_view(rows@.subrange(0, j as int)), name@),
        decreases rows.len() - j,
    {
        assert(lines_view(rows@.subrange(0, j + 1)).drop_last() =~= lines_view(
            rows@.subrange(0, j as int),
        ));
        assert(lines_view(rows@.subrange(0, j + 1)).last() == rows@[j as int]@);
        if rows[j].name != *name {
            let ghost before = out@;
            out.push(copy_line(&rows[j]));
            assert(lines_view(out@) =~= lines_view(before).push(rows@[j as int]@));
        }
        j = j + 1;
    }
    assert(rows@.subrange(0, rows.len() as int) =~= rows@);
    out
}

/// The price rows of one receipt: one per product name, holding the count
/// and unit price of the last line with that name.
pub fn price_rows(lines: &Vec<LineItem>) -> (r: Vec<LineItem>)
    ensures
        lines_view(r@) == last_per_name(lines_view(lines@)),
{
    let mut out: Vec<LineItem> = Vec::new();
    let mut i: usize = 0;
    while i < lines.len()
        invariant
            i <= lines.len(),
            lines_view(out@) == last_per_name(lines_view(lines@.subrange(0, i as int))),
        decreases lines.len() - i,
    {
        assert(lines_view(lines@.subrange(0, i + 1)).drop_last() =~= lines_view(
            lines@.subrange(0, i as int),
        ));
        assert(lines_view(lines@.subrange(0, i + 1)).last() == lines@[i as int]@);
        let mut next = drop_named(&out, &lines[i].name);
        let ghost kept = next@;
        next.push(copy_line(&lines[i]));
        assert(lines_view(next@) =~= lines_view(kept).push(lines@[i as int]@));
        out = next;
        i = i + 1;
    }
    assert(lines@.subrange(0, lines.len() as int) =~= lines@);
    out
}

/// The product names of a receipt's price rows, in row order.
pub fn product_names(rows: &Vec<LineItem>) -> (r: Vec<String>)
    ensures
        r@.len() == rows@.len(),
        forall|i: int| 0 <= i < rows@.len() ==> #[trigger] r@[i]@ == rows@[i].name@,
{
    let mut out: Vec<String> = Vec::new();
    let mut i: usize = 0;
    while i < rows.len()
        invariant
            i <= rows.len(),
            out@.len() == i,
            forall|k: int| 0 <= k < i ==> #[trigger] out@[k]@ == rows@[k].name@,
        decreases rows.len() - i,
    {
        out.push(rows[i].name.clone());
        i = i + 1;
    }
    out
}

proof fn lemma_push_rows_named(s: Seq<LineView>, x: LineView, n: Seq<char>)
    ensures
        rows_named(s.push(x), n) == rows_named(s, n) + if x.0 == n {
            1nat
        } else {
            0nat
        },
{
    assert(s.push(x).drop_last() =~= s);
}

proof fn lemma_without_name_rows(s: Seq<LineView>, m: Seq<char>, n: Seq<char>)
    ensures
        rows_named(without_name(s, m), n) == if m == n {
            0nat
        } else {
            rows_named(s, n)
        },
    decreases s.len(),
{
    if s.len() > 0 {
        lemma_without_name_rows(s.drop_last(), m, n);
        let earlier = without_name(s.drop_last(), m);
        if s.last().0 != m {
            lemma_push_rows_named(earlier, s.last(), n);
        }
    }
}

proof fn lemma_without_name_keeps(s: Seq<LineView>, m: Seq<char>, x: LineView)
    requires
        s.contains(x),
        x.0 != m,
    ensures
        without_name(s, m).contains(x),
    decreases s.len(),
{
    let earlier = without_name(s.drop_last(), m);
    if s.last() == x {
        assert(earlier.push(x)[earlier.len() as int] == x);
    } else {
        let j = choose|j: int| 0 <= j < s.len() && s[j] == x;
        assert(s.drop_last()[j] == x);
        lemma_without_name_keeps(s.drop_last(), m, x);
        let k = choose|k: int| 0 <= k < earlier.len() && earlier[k] == x;
        if s.last().0 != m {
            assert(earlier.push(s.last())[k] == x);
        }
    }
}

proof fn lemma_without_name_len(s: Seq<LineView>, m: Seq<char>)
    ensures
        without_name(s, m).len() <= s.len(),
    decreases s.len(),
{
    if s.len() > 0 {
        lemma_without_name_len(s.drop_last(), m);
    }
}

/// A receipt has no more price rows than lines.
pub proof fn lemma_price_rows_len(s: Seq<LineView>)
    ensures
        last_per_name(s).len() <= s.len(),
    decreases s.len(),
{
    if s.len() > 0 {
        lemma_price_rows_len(s.drop_last());
        lemma_without_name_len(last_per_name(s.drop_last()), s.last().0);
    }
}

/// No two price rows of a receipt share a product name.
pub proof fn lemma_price_rows_unique(s: Seq<LineView>, n: Seq<char>)
    ensures
        rows_named(last_per_name(s), n) <= 1,
    decreases s.len(),
{
    if s.len() > 0 {
        lemma_price_rows_unique(s.drop_last(), n);
        let kept = without_name(last_per_name(s.drop_last()), s.last().0);
        lemma_without_name_rows(last_per_name(s.drop_last()), s.last().0, n);
        lemma_push_rows_named(kept, s.last(), n);
    }
}

/// When several lines of a receipt share a product name, exactly one price
/// row carries that name, and it holds the count and unit price of the last
/// of those lines.
pub proof fn lemma_last_line_wins(s: Seq<LineView>, i: int)
    requires
        0 <= i < s.len(),
        forall|j: int| i < j < s.len() ==> #[trigger] s[j].0 != s[i].0,
    ensures
        rows_named(last_per_name(s), s[i].0) == 1,
        last_per_name(s).contains(s[i]),
    decreases s.len(),
{
    let n = s[i].0;
    let earlier = last_per_name(s.drop_last());
    let kept = without_name(earlier, s.last().0);
    lemma_without_name_rows(earlier, s.last().0, n);
    lemma_push_rows_named(kept, s.last(), n);
    if i == s.len() - 1 {
        assert(kept.push(s.last())[kept.len() as int] == s[i]);
    } else {
        assert(s.last().0 != n);
        assert(s.drop_last()[i] == s[i]);
        assert forall|j: int| i < j < s.drop_last().len() implies #[trigger] s.drop_last()[j].0
            != s.drop_last()[i].0 by {
            assert(s.drop_last()[j] == s[j]);
        }
        lemma_last_line_wins(s.drop_last(), i);
        lemma_without_name_keeps(earlier, s.last().0, s[i]);
        let k = choose|k: int| 0 <= k < kept.len() && kept[k] == s[i];
        assert(kept.push(s.last())[k] == s[i]);
    }
}

} // verus!
