//! The filter engine: predicate filters over report responses, applied either
//! in AND mode (a response must satisfy every filter) or in OR mode (a
//! response must satisfy some filter; the result is deduplicated by
//! identifier).

use vstd::prelude::*;

use crate::principal::PrincipalId;
use crate::report::{DateRange, IdentifierView, ReportResponse, ReportResponseView};
use crate::text::{is_substring, str_contains};

verus! {

/// How a list of filters combines.
#[derive(Clone, Copy, PartialEq, Eq, Structural)]
pub enum FilterType {
    /// Keep the responses that satisfy every filter.
    And,
    /// Keep the responses that satisfy at least one filter, one response per
    /// identifier.
    Or,
}

/// A predicate over report responses.
pub enum ReportFilter {
    /// The subject's kind label contains the given text.
    Kind(String),
    /// The creation time falls in the given window.
    CreatedOn(DateRange),
    /// The report was filed by the given principal.
    ReportedBy(PrincipalId),
}

pub ghost enum ReportFilterView {
    Kind(Seq<char>),
    CreatedOn(DateRange),
    ReportedBy(Seq<u8>),
}

impl View for ReportFilter {
    type V = ReportFilterView;

    open spec fn view(&self) -> ReportFilterView {
        match self {
            ReportFilter::Kind(value) => ReportFilterView::Kind(value@),
            ReportFilter::CreatedOn(range) => ReportFilterView::CreatedOn(*range),
            ReportFilter::ReportedBy(p) => ReportFilterView::ReportedBy(p@),
        }
    }
}

/// The views of a list of filters.
pub open spec fn filter_views(filters: Seq<ReportFilter>) -> Seq<ReportFilterView> {
    filters.map_values(|f: ReportFilter| f@)
}

/// What it means for a response to satisfy one filter.
pub open spec fn matches_filter(f: ReportFilterView, r: ReportResponseView) -> bool {
    match f {
        ReportFilterView::Kind(value) => is_substring(value, r.subject_kind),
        ReportFilterView::CreatedOn(range) => if range.end_date > 0 {
            range.start_date <= r.created_on <= range.end_date
        } else {
            range.start_date <= r.created_on
        },
        ReportFilterView::ReportedBy(p) => r.reported_by == p,
    }
}

/// The response satisfies every filter. Trivially true of an empty list.
pub open spec fn matches_all(fs: Seq<ReportFilterView>, r: ReportResponseView) -> bool {
    forall|i: int| 0 <= i < fs.len() ==> matches_filter(fs[i], r)
}

/// The response satisfies at least one filter. Trivially false of an empty
/// list.
pub open spec fn matches_any(fs: Seq<ReportFilterView>, r: ReportResponseView) -> bool {
    exists|i: int| 0 <= i < fs.len() && matches_filter(fs[i], r)
}

/// Some response in `s` bears the identifier `id`.
pub open spec fn contains_id(s: Seq<ReportResponseView>, id: IdentifierView) -> bool {
    exists|i: int| 0 <= i < s.len() && s[i].identifier == id
}

/// AND mode keeps, in order, exactly the responses that satisfy every filter.
pub open spec fn and_filtered(s: Seq<ReportResponseView>, fs: Seq<ReportFilterView>) -> Seq<
    ReportResponseView,
> {
    s.filter(|r: ReportResponseView| matches_all(fs, r))
}

/// The response at position `i` is kept by OR mode: it satisfies some filter
/// and no earlier kept response bears its identifier.
pub open spec fn or_kept(s: Seq<ReportResponseView>, fs: Seq<ReportFilterView>, i: int) -> bool {
    &&& matches_any(fs, s[i])
    &&& forall|j: int|
        0 <= j < i ==> !(matches_any(fs, s[j]) && s[j].identifier == s[i].identifier)
}

/// OR mode keeps, in order, the first response of each identifier that
/// satisfies some filter.
pub open spec fn or_filtered(s: Seq<ReportResponseView>, fs: Seq<ReportFilterView>) -> Seq<
    ReportResponseView,
>
    decreases s.len(),
{
    if s.len() == 0 {
        Seq::empty()
    } else {
        let prefix = or_filtered(s.drop_last(), fs);
        if or_kept(s, fs, s.len() - 1) {
            prefix.push(s.last())
        } else {
            prefix
        }
    }
}

/// The result of applying a filter list to a response list in the given mode.
pub open spec fn filtered(
    s: Seq<ReportResponseView>,
    fs: Seq<ReportFilterView>,
    filter_type: FilterType,
) -> Seq<ReportResponseView> {
    match filter_type {
        FilterType::And => and_filtered(s, fs),
        FilterType::Or => or_filtered(s, fs),
    }
}

/// Decides `matches_filter` on the views.
pub fn filter_matches(f: &ReportFilter, r: &ReportResponse) -> (b: bool)
    ensures
        b == matches_filter(f@, r@),
{
    match f {
        ReportFilter::Kind(value) => str_contains(&r.subject_kind, value),
        ReportFilter::CreatedOn(range) => {
            if range.end_date > 0 {
                range.start_date <= r.created_on && r.created_on <= range.end_date
            } else {
                range.start_date <= r.created_on
            }
        },
        ReportFilter::ReportedBy(p) => p.is(&r.reported_by),
    }
}

/// Decides `matches_all` on the views.
fn matches_all_filters(filters: &Vec<ReportFilter>, r: &ReportResponse) -> (b: bool)
    ensures
        b == matches_all(filter_views(filters@), r@),
{
    let ghost fs = filter_views(filters@);
    let mut j: usize = 0;
    while j < filters.len()
        invariant
            j <= filters.len(),
            fs == filter_views(filters@),
            forall|k: int| 0 <= k < j ==> matches_filter(fs[k], r@),
        decreases filters.len() - j,
    {
        if !filter_matches(&filters[j], r) {
            assert(!matches_filter(fs[j as int], r@));
            return false;
        }
        j = j + 1;
    }
    true
}

/// Decides `matches_any` on the views.
fn matches_any_filter(filters: &Vec<ReportFilter>, r: &ReportResponse) -> (b: bool)
    ensures
        b == matches_any(filter_views(filters@), r@),
{
    let ghost fs = filter_views(filters@);
    let mut j: usize = 0;
    while j < filters.len()
        invariant
            j <= filters.len(),
            fs == filter_views(filters@),
            forall|k: int| 0 <= k < j ==> !matches_filter(fs[k], r@),
        decreases filters.len() - j,
    {
        if filter_matches(&filters[j], r) {
            assert(matches_filter(fs[j as int], r@));
            return true;
        }
        j = j + 1;
    }
    false
}

/// Decides `contains_id` on the views.
fn has_identifier(s: &Vec<ReportResponse>, id: &crate::report::Identifier) -> (b: bool)
    ensures
        b == contains_id(crate::report::response_views(s@), id@),
{
    let ghost views = crate::report::response_views(s@);
    let mut i: usize = 0;
    while i < s.len()
        invariant
            i <= s.len(),
            views == crate::report::response_views(s@),
            forall|k: int| 0 <= k < i ==> views[k].identifier != id@,
        decreases s.len() - i,
    {
        if s[i].identifier.index == id.index && s[i].identifier.principal.is(&id.principal)
            && s[i].identifier.kind == id.kind {
            assert(views[i as int].identifier == id@);
            return true;
        }
        assert(views[i as int].identifier != id@);
        i = i + 1;
    }
    false
}

/// Applies the filter list to the responses in the given mode.
///
/// In AND mode the result is the subsequence satisfying every filter; in OR
/// mode it is the first response of each identifier satisfying some filter,
/// in input order.
pub fn get_filtered_reports(
    reports: Vec<ReportResponse>,
    filters: &Vec<ReportFilter>,
    filter_type: FilterType,
) -> (out: Vec<ReportResponse>)
    ensures
        crate::report::response_views(out@) == filtered(
            crate::report::response_views(reports@),
            filter_views(filters@),
            filter_type,
        ),
{
    let ghost s = crate::report::response_views(reports@);
    let ghost fs = filter_views(filters@);
    let mut out: Vec<ReportResponse> = Vec::new();
    let mut i: usize = 0;
    match filter_type {
        FilterType::And => {
            while i < reports.len()
                invariant
                    i <= reports.len(),
                    s == crate::report::response_views(reports@),
                    fs == filter_views(filters@),
                    crate::report::response_views(out@) == and_filtered(s.take(i as int), fs),
                decreases reports.len() - i,
            {
                let ghost prefix = s.take(i as int);
                let keep = matches_all_filters(filters, &reports[i]);
                proof {
                    reveal(Seq::filter);
                    assert(s.take(i + 1).drop_last() =~= prefix);
                    assert(s.take(i + 1).last() == s[i as int]);
                }
                if keep {
                    out.push(reports[i].duplicate());
                    proof {
                        assert(crate::report::response_views(out@) =~= and_filtered(
                            s.take(i + 1),
                            fs,
                        ));
                    }
                } else {
                    proof {
                        assert(crate::report::response_views(out@) =~= and_filtered(
                            s.take(i + 1),
                            fs,
                        ));
                    }
                }
                i = i + 1;
            }
            proof {
                assert(s.take(reports@.len() as int) =~= s);
            }
        },
        FilterType::Or => {
            while i < reports.len()
                invariant
                    i <= reports.len(),
                    s == crate::report::response_views(reports@),
                    fs == filter_views(filters@),
                    crate::report::response_views(out@) == or_filtered(s.take(i as int), fs),
                decreases reports.len() - i,
            {
                let ghost prefix = s.take(i as int);
                proof {
                    lemma_or_filtered_ids(prefix, fs);
                    assert(s.take(i + 1).drop_last() =~= prefix);
                    assert(s.take(i + 1).last() == s[i as int]);
                    assert forall|j: int| 0 <= j < i implies s.take(i + 1)[j] == s[j] by {}
                }
                let any = matches_any_filter(filters, &reports[i]);
                let dup = has_identifier(&out, &reports[i].identifier);
                proof {
                    if any && !dup {
                        assert(or_kept(s.take(i + 1), fs, i as int));
                    } else {
                        assert(!or_kept(s.take(i + 1), fs, i as int));
                    }
                }
                if any && !dup {
                    out.push(reports[i].duplicate());
                    proof {
                        assert(crate::report::response_views(out@) =~= or_filtered(
                            s.take(i + 1),
                            fs,
                        ));
                    }
                } else {
                    proof {
                        assert(crate::report::response_views(out@) =~= or_filtered(
                            s.take(i + 1),
                            fs,
                        ));
                    }
                }
                i = i + 1;
            }
            proof {
                assert(s.take(reports@.len() as int) =~= s);
            }
        },
    }
    out
}

/// AND mode computes the intersection of the per-filter predicate sets: a
/// response appears in the result exactly when it appears in the input and
/// satisfies every filter.
pub proof fn lemma_and_mode_intersection(s: Seq<ReportResponseView>, fs: Seq<ReportFilterView>)
    ensures
        forall|x: ReportResponseView| #[trigger]
            and_filtered(s, fs).contains(x) <==> s.contains(x) && matches_all(fs, x),
    decreases s.len(),
{
    reveal(Seq::filter);
    let pred = |r: ReportResponseView| matches_all(fs, r);
    if s.len() > 0 {
        lemma_and_mode_intersection(s.drop_last(), fs);
        assert forall|x: ReportResponseView| #[trigger] and_filtered(s, fs).contains(x) implies s
            .contains(x) && matches_all(fs, x) by {
            if x == s.last() && pred(s.last()) {
                assert(s[s.len() - 1] == x);
            } else {
                let prefix = and_filtered(s.drop_last(), fs);
                assert(prefix.contains(x)) by {
                    if pred(s.last()) {
                        let k = choose|k: int| 0 <= k < and_filtered(s, fs).len() && and_filtered(
                            s,
                            fs,
                        )[k] == x;
                        assert(and_filtered(s, fs) == prefix.push(s.last()));
                        assert(k < prefix.len());
                    }
                }
                let k = choose|k: int| 0 <= k < s.drop_last().len() && s.drop_last()[k] == x;
                assert(s[k] == x);
            }
        }
        assert forall|x: ReportResponseView| s.contains(x) && matches_all(fs, x) implies #[trigger]
        and_filtered(s, fs).contains(x) by {
            let k = choose|k: int| 0 <= k < s.len() && s[k] == x;
            if k < s.len() - 1 {
                assert(s.drop_last()[k] == x);
                assert(s.drop_last().contains(x));
                let prefix = and_filtered(s.drop_last(), fs);
                assert(prefix.contains(x));
                let j = choose|j: int| 0 <= j < prefix.len() && prefix[j] == x;
                assert(and_filtered(s, fs)[j] == x);
                assert(and_filtered(s, fs).contains(x));
            } else {
                assert(s.last() == x);
                assert(and_filtered(s, fs).last() == x);
                assert(and_filtered(s, fs).contains(x));
            }
        }
    }
}

/// OR mode computes the union of the per-filter predicate sets, deduplicated
/// by identifier: every kept response comes from the input and satisfies some
/// filter, kept identifiers are pairwise distinct, and an identifier is kept
/// exactly when some input response bearing it satisfies some filter.
pub proof fn lemma_or_filtered_ids(s: Seq<ReportResponseView>, fs: Seq<ReportFilterView>)
    ensures
        forall|i: int|
            0 <= i < or_filtered(s, fs).len() ==> s.contains(#[trigger] or_filtered(s, fs)[i])
                && matches_any(fs, or_filtered(s, fs)[i]),
        forall|i: int, j: int|
            0 <= i < j < or_filtered(s, fs).len() ==> #[trigger] or_filtered(s, fs)[i].identifier
                != #[trigger] or_filtered(s, fs)[j].identifier,
        forall|id: IdentifierView| #[trigger]
            contains_id(or_filtered(s, fs), id) <==> exists|k: int|
                0 <= k < s.len() && matches_any(fs, #[trigger] s[k]) && s[k].identifier == id,
    decreases s.len(),
{
    let out = or_filtered(s, fs);
    if s.len() > 0 {
        lemma_or_filtered_ids(s.drop_last(), fs);
        let prefix = or_filtered(s.drop_last(), fs);
        assert forall|i: int| 0 <= i < out.len() implies s.contains(#[trigger] out[i])
            && matches_any(fs, out[i]) by {
            if i < prefix.len() {
                assert(prefix[i] == out[i]);
                let k = choose|k: int|
                    0 <= k < s.drop_last().len() && s.drop_last()[k] == prefix[i];
                assert(s[k] == out[i]);
            } else {
                assert(out[i] == s.last());
                assert(s[s.len() - 1] == s.last());
            }
        }
        assert forall|id: IdentifierView| #[trigger] contains_id(out, id) implies exists|k: int|
            0 <= k < s.len() && matches_any(fs, #[trigger] s[k]) && s[k].identifier == id by {
            let i = choose|i: int| 0 <= i < out.len() && out[i].identifier == id;
            if i < prefix.len() {
                assert(contains_id(prefix, id));
                let k = choose|k: int|
                    0 <= k < s.drop_last().len() && matches_any(fs, #[trigger] s.drop_last()[k])
                        && s.drop_last()[k].identifier == id;
                assert(matches_any(fs, s[k]) && s[k].identifier == id);
            } else {
                assert(out[i] == s.last());
                assert(matches_any(fs, s[s.len() - 1]) && s[s.len() - 1].identifier == id);
            }
        }
        assert forall|id: IdentifierView|
            (exists|k: int|
                0 <= k < s.len() && matches_any(fs, #[trigger] s[k]) && s[k].identifier
                    == id) implies #[trigger] contains_id(out, id) by {
            let k = choose|k: int|
                0 <= k < s.len() && matches_any(fs, #[trigger] s[k]) && s[k].identifier == id;
            if k < s.len() - 1 {
                assert(s.drop_last()[k] == s[k]);
                assert(contains_id(prefix, id));
                let i = choose|i: int| 0 <= i < prefix.len() && prefix[i].identifier == id;
                assert(out[i].identifier == id);
            } else {
                if or_kept(s, fs, s.len() - 1) {
                    assert(out.last().identifier == id);
                    assert(out[out.len() - 1].identifier == id);
                } else {
                    let j = choose|j: int|
                        0 <= j < s.len() - 1 && matches_any(fs, s[j]) && s[j].identifier
                            == s[s.len() - 1].identifier;
                    assert(s.drop_last()[j] == s[j]);
                    assert(contains_id(prefix, id));
                    let i = choose|i: int| 0 <= i < prefix.len() && prefix[i].identifier == id;
                    assert(out[i].identifier == id);
                }
            }
        }
        assert forall|i: int, j: int| 0 <= i < j < out.len() implies out[i].identifier
            != out[j].identifier by {
            if j < prefix.len() {
            } else if or_kept(s, fs, s.len() - 1) {
                // out == prefix.push(s.last()); i indexes the prefix.
                assert(out[i] == prefix[i]);
                assert(out[j] == s.last());
                if out[i].identifier == s.last().identifier {
                    assert(contains_id(prefix, s.last().identifier));
                    let k = choose|k: int|
                        0 <= k < s.drop_last().len() && matches_any(
                            fs,
                            #[trigger] s.drop_last()[k],
                        ) && s.drop_last()[k].identifier == s.last().identifier;
                    assert(s[k] == s.drop_last()[k]);
                    assert(!or_kept(s, fs, s.len() - 1));
                }
            }
        }
    }
}

} // verus!
