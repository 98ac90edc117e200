use scalable_reports::filter::{FilterType, ReportFilter, get_filtered_reports};
use scalable_reports::page::get_paged_data;
use scalable_reports::principal::PrincipalId;
use scalable_reports::report::{DateRange, Identifier, ReportResponse};
use scalable_reports::sort::{ReportSort, SortDirection, get_ordered_reports};

fn principal(tag: u8) -> PrincipalId {
    PrincipalId::new(vec![tag, tag, tag])
}

fn response(index: u64, kind: &str, reporter: u8, created_on: u64) -> ReportResponse {
    ReportResponse {
        identifier: Identifier::report(index, &principal(50)),
        reported_by: principal(reporter),
        group_identifier: principal(9),
        subject: Identifier {
            index: 100 + index,
            principal: principal(40),
            kind: String::from(kind),
        },
        subject_kind: String::from(kind),
        message: String::from("msg"),
        created_on,
    }
}

fn indices(rs: &[ReportResponse]) -> Vec<u64> {
    rs.iter().map(|r| r.identifier.index).collect()
}

#[test]
fn and_mode_is_intersection() {
    let reports = vec![
        response(0, "grp", 1, 100),
        response(1, "mbr", 1, 200),
        response(2, "grp", 2, 300),
        response(3, "grp", 1, 400),
    ];
    let filters = vec![
        ReportFilter::Kind(String::from("grp")),
        ReportFilter::ReportedBy(principal(1)),
    ];
    let out = get_filtered_reports(reports, &filters, FilterType::And);
    assert_eq!(indices(&out), vec![0, 3]);
}

#[test]
fn or_mode_is_union_deduplicated() {
    let reports = vec![
        response(0, "grp", 1, 100),
        response(1, "mbr", 2, 200),
        response(2, "evt", 3, 300),
    ];
    // The first report matches both filters; it must appear once.
    let filters = vec![
        ReportFilter::Kind(String::from("grp")),
        ReportFilter::ReportedBy(principal(1)),
        ReportFilter::ReportedBy(principal(2)),
    ];
    let out = get_filtered_reports(reports, &filters, FilterType::Or);
    assert_eq!(indices(&out), vec![0, 1]);
}

#[test]
fn and_mode_empty_filter_list_keeps_all() {
    let reports = vec![response(0, "grp", 1, 100), response(1, "mbr", 2, 200)];
    let out = get_filtered_reports(reports, &vec![], FilterType::And);
    assert_eq!(indices(&out), vec![0, 1]);
}

#[test]
fn or_mode_empty_filter_list_keeps_none() {
    let reports = vec![response(0, "grp", 1, 100), response(1, "mbr", 2, 200)];
    let out = get_filtered_reports(reports, &vec![], FilterType::Or);
    assert!(out.is_empty());
}

#[test]
fn kind_filter_matches_substring() {
    let reports = vec![response(0, "group_canister", 1, 100), response(1, "member", 1, 200)];
    let filters = vec![ReportFilter::Kind(String::from("roup"))];
    let out = get_filtered_reports(reports, &filters, FilterType::And);
    assert_eq!(indices(&out), vec![0]);
}

#[test]
fn created_on_filter_closed_and_open_window() {
    let reports = vec![
        response(0, "grp", 1, 100),
        response(1, "grp", 1, 200),
        response(2, "grp", 1, 300),
    ];
    let closed = vec![ReportFilter::CreatedOn(DateRange {
        start_date: 150,
        end_date: 250,
    })];
    let out = get_filtered_reports(
        reports.iter().map(clone_response).collect(),
        &closed,
        FilterType::And,
    );
    assert_eq!(indices(&out), vec![1]);

    // end_date zero means no upper bound
    let open = vec![ReportFilter::CreatedOn(DateRange {
        start_date: 150,
        end_date: 0,
    })];
    let out = get_filtered_reports(reports, &open, FilterType::And);
    assert_eq!(indices(&out), vec![1, 2]);
}

fn clone_response(r: &ReportResponse) -> ReportResponse {
    r.duplicate()
}

#[test]
fn sort_by_id_both_directions() {
    let reports = vec![response(2, "a", 1, 10), response(0, "b", 1, 30), response(1, "c", 1, 20)];
    let asc = get_ordered_reports(
        reports.iter().map(clone_response).collect(),
        ReportSort::Id(SortDirection::Asc),
    );
    assert_eq!(indices(&asc), vec![0, 1, 2]);
    let desc = get_ordered_reports(reports, ReportSort::Id(SortDirection::Desc));
    assert_eq!(indices(&desc), vec![2, 1, 0]);
}

#[test]
fn sort_by_created_on_is_monotonic() {
    let reports = vec![response(0, "a", 1, 300), response(1, "b", 1, 100), response(2, "c", 1, 200)];
    let asc = get_ordered_reports(
        reports.iter().map(clone_response).collect(),
        ReportSort::CreatedOn(SortDirection::Asc),
    );
    let stamps: Vec<u64> = asc.iter().map(|r| r.created_on).collect();
    assert_eq!(stamps, vec![100, 200, 300]);
    let desc = get_ordered_reports(reports, ReportSort::CreatedOn(SortDirection::Desc));
    let stamps: Vec<u64> = desc.iter().map(|r| r.created_on).collect();
    assert_eq!(stamps, vec![300, 200, 100]);
}

#[test]
fn sort_by_kind_is_lexicographic() {
    let reports = vec![
        response(0, "member", 1, 10),
        response(1, "event", 1, 10),
        response(2, "evensong", 1, 10),
        response(3, "group", 1, 10),
    ];
    let asc = get_ordered_reports(reports, ReportSort::Kind(SortDirection::Asc));
    let kinds: Vec<String> = asc.iter().map(|r| r.subject_kind.clone()).collect();
    assert_eq!(kinds, vec!["evensong", "event", "group", "member"]);
}

#[test]
fn paging_slices_pages_in_order() {
    let reports: Vec<ReportResponse> = (0..5).map(|i| response(i, "grp", 1, i * 10)).collect();
    let page0 = get_paged_data(reports.iter().map(clone_response).collect(), 2, 0);
    assert_eq!(page0.total, 5);
    assert_eq!(page0.page, 0);
    assert_eq!(page0.limit, 2);
    assert_eq!(indices(&page0.data), vec![0, 1]);
    let page2 = get_paged_data(reports.iter().map(clone_response).collect(), 2, 2);
    assert_eq!(indices(&page2.data), vec![4]);
    let beyond = get_paged_data(reports.iter().map(clone_response).collect(), 2, 3);
    assert!(beyond.data.is_empty());
    let zero = get_paged_data(reports, 0, 0);
    assert!(zero.data.is_empty());
    assert_eq!(zero.total, 5);
}
