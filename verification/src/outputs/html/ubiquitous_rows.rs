//! The glossary row set, sorted for presentation.
//!
//! Rows are ordered by context, ties broken by term, both lexicographic by
//! unicode scalar value; rows whose keys are equal keep their insertion
//! order. The sort below is an insertion sort, stated exactly by
//! `spec_sort_rows`, and the order law and the permutation law are proved
//! of it.

use vstd::prelude::*;
use vstd::seq_lib::group_to_multiset_ensures;
use crate::outputs::html::ubiquitous_row::{UbiquitousRow, UbiquitousRowView};
use crate::text::{
    chars_of, lemma_lex_antisym, lemma_lex_total, lemma_lex_trans, lex_le, lex_le_chars,
};

verus! {

/// Row order: by context, ties by term.
pub open spec fn row_le(a: UbiquitousRowView, b: UbiquitousRowView) -> bool {
    if a.context == b.context {
        lex_le(a.ubiquitous, b.ubiquitous)
    } else {
        lex_le(a.context, b.context)
    }
}

/// `row_le` is total.
pub proof fn lemma_row_le_total(a: UbiquitousRowView, b: UbiquitousRowView)
    ensures
        row_le(a, b) || row_le(b, a),
{
    if a.context == b.context {
        lemma_lex_total(a.ubiquitous, b.ubiquitous);
    } else {
        lemma_lex_total(a.context, b.context);
    }
}

/// `row_le` is transitive.
pub proof fn lemma_row_le_trans(a: UbiquitousRowView, b: UbiquitousRowView, c: UbiquitousRowView)
    requires
        row_le(a, b),
        row_le(b, c),
    ensures
        row_le(a, c),
{
    if a.context == b.context && b.context == c.context {
        lemma_lex_trans(a.ubiquitous, b.ubiquitous, c.ubiquitous);
    } else if a.context != b.context && b.context != c.context {
        lemma_lex_trans(a.context, b.context, c.context);
        if a.context == c.context {
            lemma_lex_antisym(a.context, b.context);
        }
    }
}

/// `x` inserted into `s` after every row that does not come after it, so
/// that rows with equal keys keep their order.
pub open spec fn spec_insert_row(s: Seq<UbiquitousRowView>, x: UbiquitousRowView) -> Seq<
    UbiquitousRowView,
>
    decreases s.len(),
{
    if s.len() == 0 {
        seq![x]
    } else if row_le(s.last(), x) {
        s.push(x)
    } else {
        spec_insert_row(s.drop_last(), x).push(s.last())
    }
}

/// The rows in presentation order: each row inserted, in turn, into the
/// sorted rows before it.
pub open spec fn spec_sort_rows(s: Seq<UbiquitousRowView>) -> Seq<UbiquitousRowView>
    decreases s.len(),
{
    if s.len() == 0 {
        Seq::empty()
    } else {
        spec_insert_row(spec_sort_rows(s.drop_last()), s.last())
    }
}

/// Every pair of rows stands in order.
pub open spec fn sorted_rows(s: Seq<UbiquitousRowView>) -> bool {
    forall|i: int, j: int| 0 <= i < j < s.len() ==> row_le(#[trigger] s[i], #[trigger] s[j])
}

pub proof fn lemma_insert_row_len(s: Seq<UbiquitousRowView>, x: UbiquitousRowView)
    ensures
        spec_insert_row(s, x).len() == s.len() + 1,
    decreases s.len(),
{
    if s.len() > 0 && !row_le(s.last(), x) {
        lemma_insert_row_len(s.drop_last(), x);
    }
}

pub proof fn lemma_sort_rows_len(s: Seq<UbiquitousRowView>)
    ensures
        spec_sort_rows(s).len() == s.len(),
    decreases s.len(),
{
    if s.len() > 0 {
        lemma_sort_rows_len(s.drop_last());
        lemma_insert_row_len(spec_sort_rows(s.drop_last()), s.last());
    }
}

/// Where the insertion position is pinned down — everything from `p` on
/// comes after `x`, and the row before `p` does not — the insertion is a
/// splice at `p`.
proof fn lemma_insert_row_at(s: Seq<UbiquitousRowView>, x: UbiquitousRowView, p: int)
    requires
        0 <= p <= s.len(),
        forall|k: int| p <= k < s.len() ==> !row_le(#[trigger] s[k], x),
        p > 0 ==> row_le(s[p - 1], x),
    ensures
        spec_insert_row(s, x) == s.take(p) + seq![x] + s.skip(p),
    decreases s.len(),
{
    if s.len() == 0 {
        assert(spec_insert_row(s, x) =~= s.take(p) + seq![x] + s.skip(p));
    } else if p == s.len() {
        assert(row_le(s.last(), x));
        assert(spec_insert_row(s, x) =~= s.take(p) + seq![x] + s.skip(p));
    } else {
        assert(!row_le(s.last(), x));
        lemma_insert_row_at(s.drop_last(), x, p);
        assert(s.drop_last().take(p) =~= s.take(p));
        assert(spec_insert_row(s, x) =~= s.take(p) + seq![x] + s.skip(p));
    }
}

/// An upper bound on every row of `s` and on `x` bounds every row of the
/// insertion.
proof fn lemma_insert_row_bound(s: Seq<UbiquitousRowView>, x: UbiquitousRowView, b: UbiquitousRowView)
    requires
        forall|k: int| 0 <= k < s.len() ==> row_le(#[trigger] s[k], b),
        row_le(x, b),
    ensures
        forall|k: int|
            0 <= k < spec_insert_row(s, x).len() ==> row_le(#[trigger] spec_insert_row(s, x)[k], b),
    decreases s.len(),
{
    if s.len() == 0 {
        assert forall|k: int| 0 <= k < spec_insert_row(s, x).len() implies row_le(
            #[trigger] spec_insert_row(s, x)[k],
            b,
        ) by {
            assert(spec_insert_row(s, x)[k] == x);
        }
    } else if row_le(s.last(), x) {
        assert forall|k: int| 0 <= k < spec_insert_row(s, x).len() implies row_le(
            #[trigger] spec_insert_row(s, x)[k],
            b,
        ) by {
            if k < s.len() {
                assert(row_le(s[k], b));
            } else {
                assert(spec_insert_row(s, x)[k] == x);
            }
        }
    } else {
        let d = s.drop_last();
        assert(forall|k: int| 0 <= k < d.len() ==> row_le(#[trigger] d[k], b));
        lemma_insert_row_bound(d, x, b);
        let v = spec_insert_row(d, x);
        lemma_insert_row_len(d, x);
        assert forall|k: int| 0 <= k < spec_insert_row(s, x).len() implies row_le(
            #[trigger] spec_insert_row(s, x)[k],
            b,
        ) by {
            if k < v.len() {
                assert(spec_insert_row(s, x)[k] == v[k]);
                assert(row_le(v[k], b));
            } else {
                assert(spec_insert_row(s, x)[k] == s.last());
                assert(row_le(s[s.len() - 1], b));
            }
        }
    }
}

/// Insertion into sorted rows stays sorted.
proof fn lemma_insert_row_sorted(s: Seq<UbiquitousRowView>, x: UbiquitousRowView)
    requires
        sorted_rows(s),
    ensures
        sorted_rows(spec_insert_row(s, x)),
    decreases s.len(),
{
    if s.len() == 0 {
    } else if row_le(s.last(), x) {
        let w = s.push(x);
        assert forall|i: int, j: int| 0 <= i < j < w.len() implies row_le(
            #[trigger] w[i],
            #[trigger] w[j],
        ) by {
            if j == w.len() - 1 {
                if i < s.len() - 1 {
                    assert(row_le(s[i], s[s.len() - 1]));
                    lemma_row_le_trans(s[i], s[s.len() - 1], x);
                }
            }
        }
    } else {
        let d = s.drop_last();
        assert(forall|i: int, j: int|
            0 <= i < j < d.len() ==> row_le(#[trigger] d[i], #[trigger] d[j]));
        lemma_insert_row_sorted(d, x);
        lemma_row_le_total(s.last(), x);
        assert(forall|k: int| 0 <= k < d.len() ==> row_le(#[trigger] d[k], s.last()));
        lemma_insert_row_bound(d, x, s.last());
        let v = spec_insert_row(d, x);
        let w = v.push(s.last());
        lemma_insert_row_len(d, x);
        assert forall|i: int, j: int| 0 <= i < j < w.len() implies row_le(
            #[trigger] w[i],
            #[trigger] w[j],
        ) by {
            if j == w.len() - 1 {
                assert(row_le(v[i], s.last()));
            }
        }
    }
}

/// The law of the sort: every pair of rows of the sorted sequence stands
/// in order — a row of smaller context comes first, and within one context
/// the terms ascend.
pub proof fn lemma_sort_rows_sorted(s: Seq<UbiquitousRowView>)
    ensures
        sorted_rows(spec_sort_rows(s)),
    decreases s.len(),
{
    if s.len() > 0 {
        lemma_sort_rows_sorted(s.drop_last());
        lemma_insert_row_sorted(spec_sort_rows(s.drop_last()), s.last());
    }
}

/// Sorting rows that already stand in order changes nothing.
proof fn lemma_sorted_sort_identity(s: Seq<UbiquitousRowView>)
    requires
        sorted_rows(s),
    ensures
        spec_sort_rows(s) == s,
    decreases s.len(),
{
    if s.len() > 0 {
        let d = s.drop_last();
        assert(forall|i: int, j: int|
            0 <= i < j < d.len() ==> row_le(#[trigger] d[i], #[trigger] d[j]));
        lemma_sorted_sort_identity(d);
        if d.len() > 0 {
            assert(row_le(s[s.len() - 2], s[s.len() - 1]));
            assert(row_le(d.last(), s.last()));
            assert(d.push(s.last()) =~= s);
        } else {
            assert(spec_insert_row(d, s.last()) =~= s);
        }
    } else {
        assert(s =~= Seq::<UbiquitousRowView>::empty());
    }
}

/// The idempotence law: the sorted row set is a fixed point — running the
/// ordering stage again returns the same sequence, byte for byte.
pub proof fn lemma_sort_rows_idempotent(s: Seq<UbiquitousRowView>)
    ensures
        spec_sort_rows(spec_sort_rows(s)) == spec_sort_rows(s),
{
    lemma_sort_rows_sorted(s);
    lemma_sorted_sort_identity(spec_sort_rows(s));
}

proof fn lemma_insert_row_multiset(s: Seq<UbiquitousRowView>, x: UbiquitousRowView)
    ensures
        spec_insert_row(s, x).to_multiset() == s.to_multiset().insert(x),
    decreases s.len(),
{
    broadcast use group_to_multiset_ensures;

    if s.len() == 0 {
        assert(seq![x] =~= Seq::<UbiquitousRowView>::empty().push(x));
        assert(spec_insert_row(s, x).to_multiset() =~= s.to_multiset().insert(x));
    } else if row_le(s.last(), x) {
    } else {
        lemma_insert_row_multiset(s.drop_last(), x);
        assert(s.drop_last().push(s.last()) =~= s);
        assert(spec_insert_row(s, x).to_multiset() =~= s.drop_last().to_multiset().insert(
            x,
        ).insert(s.last()));
        assert(s.to_multiset() =~= s.drop_last().to_multiset().insert(s.last()));
        assert(s.drop_last().to_multiset().insert(x).insert(s.last())
            =~= s.drop_last().to_multiset().insert(s.last()).insert(x));
    }
}

/// The permutation law: sorting keeps exactly the rows that were there.
pub proof fn lemma_sort_rows_multiset(s: Seq<UbiquitousRowView>)
    ensures
        spec_sort_rows(s).to_multiset() == s.to_multiset(),
    decreases s.len(),
{
    broadcast use group_to_multiset_ensures;

    if s.len() > 0 {
        lemma_sort_rows_multiset(s.drop_last());
        lemma_insert_row_multiset(spec_sort_rows(s.drop_last()), s.last());
        assert(s.drop_last().push(s.last()) =~= s);
    }
}

/// Remove the row at `i`, stated over the ghost row sequence.
fn remove_row(rows: &mut Vec<UbiquitousRow>, i: usize) -> (x: UbiquitousRow)
    requires
        i < old(rows)@.len(),
    ensures
        x@ == old(rows).deep_view()[i as int],
        final(rows).deep_view() == old(rows).deep_view().remove(i as int),
{
    let ghost pre = rows.deep_view();
    let ghost pre_raw = rows@;
    let x = rows.remove(i);
    proof {
        assert(pre[i as int] == pre_raw[i as int].deep_view());
        pre.remove_ensures(i as int);
        assert forall|k: int| 0 <= k < rows.deep_view().len() implies rows.deep_view()[k]
            == pre.remove(i as int)[k] by {
            assert(rows.deep_view()[k] == rows@[k].deep_view());
            if k < i {
                assert(rows@[k] == pre_raw.remove(i as int)[k]);
                assert(pre_raw.remove(i as int)[k] == pre_raw[k]);
            } else {
                assert(rows@[k] == pre_raw.remove(i as int)[k]);
                assert(pre_raw.remove(i as int)[k] == pre_raw[k + 1]);
            }
        }
        assert(rows.deep_view() =~= pre.remove(i as int));
    }
    x
}

/// Insert a row at `p`, stated over the ghost row sequence.
fn insert_row(rows: &mut Vec<UbiquitousRow>, p: usize, x: UbiquitousRow)
    requires
        p <= old(rows)@.len(),
    ensures
        final(rows).deep_view() == old(rows).deep_view().insert(p as int, x@),
{
    let ghost pre = rows.deep_view();
    let ghost pre_raw = rows@;
    let ghost xv = x@;
    rows.insert(p, x);
    proof {
        pre.insert_ensures(p as int, xv);
        pre_raw.insert_ensures(p as int, x);
        assert forall|k: int| 0 <= k < rows.deep_view().len() implies rows.deep_view()[k]
            == pre.insert(p as int, xv)[k] by {
            assert(rows.deep_view()[k] == rows@[k].deep_view());
            if k < p {
                assert(rows@[k] == pre_raw[k]);
                assert(pre.insert(p as int, xv)[k] == pre[k]);
            } else if k == p {
                assert(rows@[k] == x);
            } else {
                assert(rows@[k] == pre_raw[k - 1]);
                assert(pre.insert(p as int, xv)[k] == pre[k - 1]);
            }
        }
        assert(rows.deep_view() =~= pre.insert(p as int, xv));
    }
}

/// The position in the sorted prefix `rows[..i]` at which `x` belongs:
/// everything from it on comes after `x`, and the row before it does not.
fn insert_pos(rows: &Vec<UbiquitousRow>, i: usize, x: &UbiquitousRow) -> (p: usize)
    requires
        i <= rows@.len(),
    ensures
        p <= i,
        forall|k: int| p <= k < i ==> !row_le(#[trigger] rows.deep_view()[k], x@),
        p > 0 ==> row_le(rows.deep_view()[p - 1], x@),
{
    let mut p = i;
    while p > 0 && !row_le_exec(&rows[p - 1], x)
        invariant
            p <= i <= rows@.len(),
            forall|k: int| p <= k < i ==> !row_le(#[trigger] rows.deep_view()[k], x@),
        decreases p,
    {
        proof {
            assert(rows.deep_view()[p - 1] == rows@[p - 1].deep_view());
        }
        p = p - 1;
    }
    proof {
        if p > 0 {
            assert(rows.deep_view()[p - 1] == rows@[p - 1].deep_view());
        }
    }
    p
}

fn row_le_exec(a: &UbiquitousRow, b: &UbiquitousRow) -> (r: bool)
    ensures
        r == row_le(a@, b@),
{
    if a.context.eq(&b.context) {
        let av = chars_of(a.ubiquitous.as_str());
        let bv = chars_of(b.ubiquitous.as_str());
        lex_le_chars(&av, &bv)
    } else {
        let av = chars_of(a.context.as_str());
        let bv = chars_of(b.context.as_str());
        lex_le_chars(&av, &bv)
    }
}

/// The set of glossary rows, in insertion order until sorted.
pub struct UbiquitousRows {
    pub rows: Vec<UbiquitousRow>,
}

impl UbiquitousRows {
    pub fn new() -> (r: Self)
        ensures
            r.rows@.len() == 0,
    {
        UbiquitousRows { rows: Vec::new() }
    }

    pub fn add(&mut self, row: UbiquitousRow)
        ensures
            final(self).rows@ == old(self).rows@.push(row),
    {
        self.rows.push(row);
    }

    /// Sort the rows by context, ties by term, rows with equal keys
    /// keeping their order: afterwards every pair of rows stands in
    /// order, and exactly the rows that were there remain.
    pub fn sort(&mut self)
        ensures
            final(self).rows.deep_view() == spec_sort_rows(old(self).rows.deep_view()),
            sorted_rows(final(self).rows.deep_view()),
            final(self).rows.deep_view().to_multiset() == old(self).rows.deep_view().to_multiset(),
    {
        proof {
            lemma_sort_rows_sorted(self.rows.deep_view());
            lemma_sort_rows_multiset(self.rows.deep_view());
        }
        let ghost orig = self.rows.deep_view();
        if self.rows.len() <= 1 {
            proof {
                if orig.len() == 1 {
                    assert(orig.drop_last() =~= Seq::<UbiquitousRowView>::empty());
                    assert(spec_sort_rows(Seq::<UbiquitousRowView>::empty())
                        =~= Seq::<UbiquitousRowView>::empty());
                    assert(spec_sort_rows(orig) == spec_insert_row(
                        Seq::<UbiquitousRowView>::empty(),
                        orig.last(),
                    ));
                    assert(spec_insert_row(Seq::<UbiquitousRowView>::empty(), orig.last())
                        =~= orig);
                } else {
                    assert(orig =~= Seq::<UbiquitousRowView>::empty());
                }
            }
            return ;
        }
        let mut i: usize = 1;
        proof {
            assert(orig.take(1).drop_last() =~= Seq::<UbiquitousRowView>::empty());
            assert(spec_sort_rows(Seq::<UbiquitousRowView>::empty())
                =~= Seq::<UbiquitousRowView>::empty());
            assert(spec_sort_rows(orig.take(1)) == spec_insert_row(
                Seq::<UbiquitousRowView>::empty(),
                orig.take(1).last(),
            ));
            assert(orig.take(1).last() == orig[0]);
            assert(spec_insert_row(Seq::<UbiquitousRowView>::empty(), orig[0]) =~= orig.take(1));
            assert(spec_sort_rows(orig.take(1)) + orig.skip(1) =~= orig);
        }
        while i < self.rows.len()
            invariant
                1 <= i <= orig.len(),
                self.rows@.len() == orig.len(),
                orig == old(self).rows.deep_view(),
                self.rows.deep_view() == spec_sort_rows(orig.take(i as int)) + orig.skip(i as int),
            decreases orig.len() - i,
        {
            let ghost sorted_prefix = spec_sort_rows(orig.take(i as int));
            let ghost cur = self.rows.deep_view();
            proof {
                lemma_sort_rows_len(orig.take(i as int));
            }
            let x = remove_row(&mut self.rows, i);
            proof {
                assert(cur[i as int] == orig[i as int]);
                cur.remove_ensures(i as int);
                assert(self.rows.deep_view() =~= sorted_prefix + orig.skip(i + 1));
            }
            let p = insert_pos(&self.rows, i, &x);
            proof {
                assert forall|k: int| p <= k < i implies !row_le(#[trigger] sorted_prefix[k], x@) by {
                    assert(self.rows.deep_view()[k] == sorted_prefix[k]);
                }
                if p > 0 {
                    assert(self.rows.deep_view()[p - 1] == sorted_prefix[p - 1]);
                }
                lemma_insert_row_at(sorted_prefix, x@, p as int);
            }
            let ghost mid = self.rows.deep_view();
            insert_row(&mut self.rows, p, x);
            i = i + 1;
            proof {
                mid.insert_ensures(p as int, orig[i - 1]);
                assert(self.rows.deep_view() =~= (sorted_prefix.take(p as int) + seq![
                    orig[i - 1],
                ] + sorted_prefix.skip(p as int)) + orig.skip(i as int));
                assert(orig.take(i as int).drop_last() =~= orig.take(i - 1));
                assert(orig.take(i as int).last() == orig[i - 1]);
                assert(spec_sort_rows(orig.take(i as int)) == spec_insert_row(
                    spec_sort_rows(orig.take(i - 1)),
                    orig[i - 1],
                ));
                assert(self.rows.deep_view() =~= spec_sort_rows(orig.take(i as int)) + orig.skip(
                    i as int,
                ));
            }
        }
        proof {
            assert(orig.take(orig.len() as int) =~= orig);
            assert(orig.skip(orig.len() as int) =~= Seq::<UbiquitousRowView>::empty());
            assert(spec_sort_rows(orig.take(orig.len() as int)) + orig.skip(orig.len() as int)
                =~= spec_sort_rows(orig));
        }
    }
}

} // verus!
