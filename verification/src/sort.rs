//! The sort engine: comparator-based ordering of report responses on one of
//! three keys, ascending or descending. The order a sort denotes is total and
//! transitive, and sorting is insertion into an already-sorted prefix, so the
//! result is pinned exactly by `sort_responses`.

use vstd::multiset::Multiset;
use vstd::prelude::*;
use vstd::relations::sorted_by;

use crate::report::{ReportResponse, ReportResponseView, response_views};
use crate::text::{lex_le, lemma_lex_le_total, lemma_lex_le_trans, str_le};

verus! {

#[derive(Clone, Copy, PartialEq, Eq, Structural)]
pub enum SortDirection {
    Asc,
    Desc,
}

/// The sort key and direction of a query.
#[derive(Clone, Copy, PartialEq, Eq, Structural)]
pub enum ReportSort {
    /// By identifier sequence number: creation order on one shard.
    Id(SortDirection),
    /// By the subject's kind label, lexicographically by code point.
    Kind(SortDirection),
    /// By creation timestamp.
    CreatedOn(SortDirection),
}

/// "Less or equal" on two u64 keys under a direction.
pub open spec fn dir_le(d: SortDirection, x: u64, y: u64) -> bool {
    match d {
        SortDirection::Asc => x <= y,
        SortDirection::Desc => y <= x,
    }
}

/// The order a sort denotes on responses.
pub open spec fn report_le(sort: ReportSort, a: ReportResponseView, b: ReportResponseView) -> bool {
    match sort {
        ReportSort::Id(d) => dir_le(d, a.identifier.index, b.identifier.index),
        ReportSort::CreatedOn(d) => dir_le(d, a.created_on, b.created_on),
        ReportSort::Kind(d) => match d {
            SortDirection::Asc => lex_le(a.subject_kind, b.subject_kind),
            SortDirection::Desc => lex_le(b.subject_kind, a.subject_kind),
        },
    }
}

/// `report_le` as a curried relation, for `sorted_by`.
pub open spec fn le_of(sort: ReportSort) -> spec_fn(ReportResponseView, ReportResponseView) -> bool {
    |a: ReportResponseView, b: ReportResponseView| report_le(sort, a, b)
}

/// Any two responses are comparable under any sort.
pub proof fn lemma_report_le_total(sort: ReportSort, a: ReportResponseView, b: ReportResponseView)
    ensures
        report_le(sort, a, b) || report_le(sort, b, a),
{
    match sort {
        ReportSort::Kind(_) => {
            lemma_lex_le_total(a.subject_kind, b.subject_kind);
        },
        _ => {},
    }
}

/// `report_le` is transitive under any sort.
pub proof fn lemma_report_le_trans(
    sort: ReportSort,
    a: ReportResponseView,
    b: ReportResponseView,
    c: ReportResponseView,
)
    requires
        report_le(sort, a, b),
        report_le(sort, b, c),
    ensures
        report_le(sort, a, c),
{
    match sort {
        ReportSort::Kind(d) => match d {
            SortDirection::Asc => {
                lemma_lex_le_trans(a.subject_kind, b.subject_kind, c.subject_kind);
            },
            SortDirection::Desc => {
                lemma_lex_le_trans(c.subject_kind, b.subject_kind, a.subject_kind);
            },
        },
        _ => {},
    }
}

/// Where insertion sort places `x` in `s`: right of every trailing element
/// greater than `x`.
pub open spec fn insert_sorted(
    sort: ReportSort,
    x: ReportResponseView,
    s: Seq<ReportResponseView>,
) -> Seq<ReportResponseView>
    decreases s.len(),
{
    if s.len() == 0 {
        seq![x]
    } else if report_le(sort, s.last(), x) {
        s.push(x)
    } else {
        insert_sorted(sort, x, s.drop_last()).push(s.last())
    }
}

/// The sorted permutation insertion sort produces: each element in turn,
/// inserted into the sorted image of the elements before it.
pub open spec fn sort_responses(sort: ReportSort, s: Seq<ReportResponseView>) -> Seq<
    ReportResponseView,
>
    decreases s.len(),
{
    if s.len() == 0 {
        Seq::empty()
    } else {
        insert_sorted(sort, s.last(), sort_responses(sort, s.drop_last()))
    }
}

/// Inserting at a position bounded by greater elements on the right and a
/// no-greater element on the left is what `insert_sorted` does.
proof fn lemma_insert_sorted_position(
    sort: ReportSort,
    x: ReportResponseView,
    s: Seq<ReportResponseView>,
    j: int,
)
    requires
        0 <= j <= s.len(),
        j == 0 || report_le(sort, s[j - 1], x),
        forall|k: int| j <= k < s.len() ==> !report_le(sort, #[trigger] s[k], x),
    ensures
        insert_sorted(sort, x, s) =~= s.take(j) + seq![x] + s.skip(j),
    decreases s.len(),
{
    if s.len() == j {
        // x lands at the very end.
        if j == 0 {
        } else {
            assert(report_le(sort, s.last(), x));
        }
    } else {
        assert(!report_le(sort, s.last(), x));
        lemma_insert_sorted_position(sort, x, s.drop_last(), j);
        assert(s.drop_last().take(j) =~= s.take(j));
        assert(s.drop_last().skip(j).push(s.last()) =~= s.skip(j));
    }
}

proof fn lemma_insert_sorted_len(
    sort: ReportSort,
    x: ReportResponseView,
    s: Seq<ReportResponseView>,
)
    ensures
        insert_sorted(sort, x, s).len() == s.len() + 1,
    decreases s.len(),
{
    if s.len() == 0 {
    } else if report_le(sort, s.last(), x) {
    } else {
        lemma_insert_sorted_len(sort, x, s.drop_last());
    }
}

/// Insertion preserves the multiset of elements.
proof fn lemma_insert_sorted_multiset(
    sort: ReportSort,
    x: ReportResponseView,
    s: Seq<ReportResponseView>,
)
    ensures
        insert_sorted(sort, x, s).to_multiset() =~= s.to_multiset().insert(x),
    decreases s.len(),
{
    broadcast use vstd::seq_lib::group_to_multiset_ensures;

    if s.len() == 0 {
        assert(seq![x] =~= Seq::empty().push(x));
        assert(Seq::<ReportResponseView>::empty().to_multiset() =~= Multiset::empty());
    } else if report_le(sort, s.last(), x) {
    } else {
        lemma_insert_sorted_multiset(sort, x, s.drop_last());
        assert(s.drop_last().push(s.last()) =~= s);
        assert(insert_sorted(sort, x, s) == insert_sorted(sort, x, s.drop_last()).push(s.last()));
        assert(insert_sorted(sort, x, s).to_multiset() =~= insert_sorted(
            sort,
            x,
            s.drop_last(),
        ).to_multiset().insert(s.last()));
        assert(s.to_multiset() =~= s.drop_last().to_multiset().insert(s.last()));
    }
}

/// Insertion into a sorted sequence yields a sorted sequence.
proof fn lemma_insert_sorted_sorted(
    sort: ReportSort,
    x: ReportResponseView,
    s: Seq<ReportResponseView>,
)
    requires
        sorted_by(s, le_of(sort)),
    ensures
        sorted_by(insert_sorted(sort, x, s), le_of(sort)),
    decreases s.len(),
{
    let le = le_of(sort);
    let out = insert_sorted(sort, x, s);
    if s.len() == 0 {
    } else if report_le(sort, s.last(), x) {
        assert forall|i: int, j: int| 0 <= i < j < out.len() implies le(out[i], out[j]) by {
            if j == out.len() - 1 {
                if i < s.len() - 1 {
                    assert(le(s[i], s[s.len() - 1]));
                    lemma_report_le_trans(sort, s[i], s[s.len() - 1], x);
                }
            }
        }
    } else {
        assert(sorted_by(s.drop_last(), le)) by {
            assert(forall|i: int, j: int|
                0 <= i < j < s.drop_last().len() ==> le(
                    #[trigger] s.drop_last()[i],
                    #[trigger] s.drop_last()[j],
                ));
        }
        lemma_insert_sorted_sorted(sort, x, s.drop_last());
        let inner = insert_sorted(sort, x, s.drop_last());
        lemma_insert_sorted_multiset(sort, x, s.drop_last());
        assert forall|i: int, j: int| 0 <= i < j < out.len() implies le(out[i], out[j]) by {
            if j == out.len() - 1 {
                // out ends with s.last(); every earlier element is either from
                // the sorted prefix, hence at most s.last(), or x itself,
                // which is below s.last() by totality.
                assert(out[j] == s.last());
                broadcast use vstd::seq_lib::group_to_multiset_ensures;

                assert(inner.contains(out[i]));
                assert(inner.to_multiset().count(out[i]) > 0);
                if out[i] == x {
                    lemma_report_le_total(sort, s.last(), x);
                    assert(le(x, s.last()));
                } else {
                    assert(s.drop_last().to_multiset().count(out[i]) > 0);
                    assert(s.drop_last().contains(out[i]));
                    let k = choose|k: int|
                        0 <= k < s.drop_last().len() && s.drop_last()[k] == out[i];
                    assert(s[k] == out[i]);
                    assert(le(s[k], s[s.len() - 1]));
                }
            }
        }
    }
}

/// Sorting sorts: the result of `sort_responses` is ordered by the sort's
/// comparator and is a permutation of its input.
pub proof fn lemma_sort_responses_ensures(sort: ReportSort, s: Seq<ReportResponseView>)
    ensures
        sorted_by(sort_responses(sort, s), le_of(sort)),
        sort_responses(sort, s).to_multiset() =~= s.to_multiset(),
        sort_responses(sort, s).len() == s.len(),
    decreases s.len(),
{
    broadcast use vstd::seq_lib::group_to_multiset_ensures;

    if s.len() == 0 {
    } else {
        lemma_sort_responses_ensures(sort, s.drop_last());
        lemma_insert_sorted_sorted(sort, s.last(), sort_responses(sort, s.drop_last()));
        lemma_insert_sorted_multiset(sort, s.last(), sort_responses(sort, s.drop_last()));
        lemma_insert_sorted_len(sort, s.last(), sort_responses(sort, s.drop_last()));
        assert(s.drop_last().push(s.last()) =~= s);
        assert(s.drop_last().to_multiset().insert(s.last()) =~= s.to_multiset());
    }
}

/// Decides `report_le` on the views.
pub fn report_le_exec(sort: ReportSort, a: &ReportResponse, b: &ReportResponse) -> (r: bool)
    ensures
        r == report_le(sort, a@, b@),
{
    match sort {
        ReportSort::Id(d) => match d {
            SortDirection::Asc => a.identifier.index <= b.identifier.index,
            SortDirection::Desc => b.identifier.index <= a.identifier.index,
        },
        ReportSort::CreatedOn(d) => match d {
            SortDirection::Asc => a.created_on <= b.created_on,
            SortDirection::Desc => b.created_on <= a.created_on,
        },
        ReportSort::Kind(d) => match d {
            SortDirection::Asc => str_le(&a.subject_kind, &b.subject_kind),
            SortDirection::Desc => str_le(&b.subject_kind, &a.subject_kind),
        },
    }
}

/// Sorts the responses by the given key and direction; the result is exactly
/// `sort_responses` of the input.
pub fn get_ordered_reports(reports: Vec<ReportResponse>, sort: ReportSort) -> (out: Vec<
    ReportResponse,
>)
    ensures
        response_views(out@) == sort_responses(sort, response_views(reports@)),
{
    let ghost orig = response_views(reports@);
    let mut v = reports;
    let mut i: usize = 0;
    while i < v.len()
        invariant
            i <= v.len(),
            v@.len() == orig.len(),
            response_views(v@).take(i as int) == sort_responses(sort, orig.take(i as int)),
            response_views(v@).skip(i as int) =~= orig.skip(i as int),
        decreases v.len() - i,
    {
        let ghost w0 = response_views(v@);
        let ghost p = w0.take(i as int);
        proof {
            assert(w0[i as int] == orig[i as int]) by {
                assert(w0.skip(i as int)[0] == orig.skip(i as int)[0]);
            }
        }
        let x = v.remove(i);
        let ghost w = response_views(v@);
        proof {
            assert(w =~= p + orig.skip(i + 1)) by {
                assert(v@ =~= v@);
                assert(w.len() == w0.len() - 1);
                assert forall|k: int| 0 <= k < w.len() implies w[k] == (p + orig.skip(i + 1))[k] by {
                    if k < i {
                        assert(w[k] == w0[k]);
                        assert(w0.take(i as int)[k] == w0[k]);
                    } else {
                        assert(w[k] == w0[k + 1]);
                        assert(w0.skip(i as int)[k + 1 - i] == orig.skip(i as int)[k + 1 - i]);
                    }
                }
            }
            assert(x@ == orig[i as int]);
        }
        let mut j: usize = i;
        while j > 0 && !report_le_exec(sort, &v[j - 1], &x)
            invariant
                j <= i,
                i < orig.len(),
                v@.len() == orig.len() - 1,
                w == response_views(v@),
                w =~= p + orig.skip(i + 1),
                p.len() == i,
                forall|k: int| j <= k < i ==> !report_le(sort, #[trigger] w[k], x@),
            decreases j,
        {
            j = j - 1;
        }
        proof {
            assert(j == 0 || report_le(sort, w[j - 1], x@));
            assert forall|k: int| j <= k < p.len() implies !report_le(sort, #[trigger] p[k], x@) by {
                assert(p[k] == w[k]);
            }
            if j > 0 {
                assert(p[j - 1] == w[j - 1]);
            }
            lemma_insert_sorted_position(sort, x@, p, j as int);
        }
        v.insert(j, x);
        proof {
            let w1 = response_views(v@);
            assert(w1 =~= w.insert(j as int, x@)) by {
                assert forall|k: int| 0 <= k < w1.len() implies w1[k] == w.insert(j as int, x@)[k]
                by {}
            }
            assert(w1.take(i + 1) =~= p.take(j as int) + seq![x@] + p.skip(j as int)) by {
                assert forall|k: int|
                    0 <= k < i + 1 implies w1[k] == (p.take(j as int) + seq![x@] + p.skip(
                    j as int,
                ))[k] by {
                    if k < j {
                        assert(w1[k] == w[k]);
                        assert(w[k] == p[k]);
                    } else if k > j {
                        assert(w1[k] == w[k - 1]);
                        assert(w[k - 1] == p[k - 1]);
                    }
                }
            }
            assert(w1.take(i + 1) == insert_sorted(sort, x@, p));
            assert(orig.take(i + 1).drop_last() =~= orig.take(i as int));
            assert(orig.take(i + 1).last() == orig[i as int]);
            assert(sort_responses(sort, orig.take(i + 1)) == insert_sorted(
                sort,
                orig[i as int],
                sort_responses(sort, orig.take(i as int)),
            ));
            assert(w1.take(i + 1) == sort_responses(sort, orig.take(i + 1)));
            assert(w1.skip(i + 1) =~= orig.skip(i + 1)) by {
                assert forall|k: int| 0 <= k < w1.len() - i - 1 implies #[trigger] w1.skip(i + 1)[k]
                    == orig.skip(i + 1)[k] by {
                    assert(w1[k + i + 1] == w[k + i]);
                    assert(w[k + i] == (p + orig.skip(i + 1))[k + i]);
                }
            }
        }
        i = i + 1;
    }
    proof {
        assert(response_views(v@).take(orig.len() as int) =~= response_views(v@));
        assert(orig.take(orig.len() as int) =~= orig);
    }
    v
}

} // verus!
