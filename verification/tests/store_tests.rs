use scalable_reports::error::ApiError;
use scalable_reports::filter::FilterType;
use scalable_reports::principal::PrincipalId;
use scalable_reports::report::{Identifier, PostReport};
use scalable_reports::sort::{ReportSort, SortDirection};
use scalable_reports::store::Store;

fn principal(tag: u8) -> PrincipalId {
    PrincipalId::new(vec![tag, tag])
}

fn post(kind: &str, group: u8, message: &str) -> PostReport {
    PostReport {
        subject: Identifier {
            index: 7,
            principal: principal(40),
            kind: String::from(kind),
        },
        message: String::from(message),
        group_identifier: principal(group),
    }
}

// The shard's own principal and its parent registry's principal.
fn shard_principal() -> PrincipalId {
    principal(90)
}

fn fresh_store(capacity: usize) -> Store {
    Store::new(String::from("reports"), shard_principal(), principal(0), capacity)
}

fn report_id(index: u64) -> Identifier {
    Identifier::report(index, &shard_principal())
}

#[test]
fn add_assigns_sequence_numbers_in_order() {
    let mut store = fresh_store(10);
    let caller = principal(1);
    let r0 = store.add_report(&caller, post("grp", 5, "first"), 100).unwrap();
    let r1 = store.add_report(&caller, post("grp", 5, "second"), 200).unwrap();
    assert_eq!(r0.identifier.index, 0);
    assert_eq!(r0.identifier.kind, "rpt");
    assert_eq!(r1.identifier.index, 1);
    assert_eq!(r0.message, "first");
    assert_eq!(r0.created_on, 100);
    assert_eq!(r0.subject_kind, "grp");
    assert_eq!(store.entry_count(), 2);
}

#[test]
fn add_at_capacity_is_refused_and_stores_nothing() {
    let mut store = fresh_store(2);
    let caller = principal(1);
    assert!(store.add_report(&caller, post("grp", 5, "a"), 1).is_ok());
    assert!(store.add_report(&caller, post("grp", 5, "b"), 2).is_ok());
    assert!(store.is_available());
    let third = store.add_report(&caller, post("grp", 5, "c"), 3);
    match third {
        Err(ApiError::CanisterAtCapacity(detail)) => {
            assert_eq!(detail.tag, "CANISTER_AT_CAPACITY");
        }
        _ => panic!("expected CanisterAtCapacity"),
    }
    assert_eq!(store.entry_count(), 2);
    // The overflow marked the shard unavailable; every later direct write
    // is refused outright.
    assert!(!store.is_available());
    match store.add_report(&caller, post("grp", 5, "d"), 4) {
        Err(ApiError::BadRequest(detail)) => {
            assert_eq!(detail.tag, "UNAVAILABLE_CANISTER");
        }
        _ => panic!("expected BadRequest"),
    }
    assert_eq!(store.entry_count(), 2);
}

#[test]
fn get_report_returns_the_stored_record() {
    let mut store = fresh_store(10);
    let caller = principal(1);
    store.add_report(&caller, post("grp", 5, "hello"), 100).unwrap();
    let got = store.get_report(&report_id(0), &principal(5)).unwrap();
    assert_eq!(got.message, "hello");
    assert_eq!(got.identifier.index, 0);
}

#[test]
fn get_report_unknown_identifier_is_not_found() {
    let store = fresh_store(10);
    match store.get_report(&report_id(3), &principal(5)) {
        Err(ApiError::NotFound(_)) => {}
        _ => panic!("expected NotFound"),
    }
}

#[test]
fn get_report_foreign_shard_identifier_is_not_found() {
    let mut store = fresh_store(10);
    let caller = principal(1);
    store.add_report(&caller, post("grp", 5, "hello"), 100).unwrap();
    // Sequence number 0 exists, but the identifier names another shard.
    let foreign = Identifier::report(0, &principal(91));
    assert!(matches!(
        store.get_report(&foreign, &principal(5)),
        Err(ApiError::NotFound(_))
    ));
}

#[test]
fn get_report_cross_group_is_unauthorized_not_not_found() {
    let mut store = fresh_store(10);
    let caller = principal(1);
    store.add_report(&caller, post("grp", 5, "hello"), 100).unwrap();
    match store.get_report(&report_id(0), &principal(6)) {
        Err(ApiError::Unauthorized(detail)) => {
            assert_eq!(detail.tag, "REPORT_NOT_FOUND");
        }
        _ => panic!("expected Unauthorized"),
    }
}

#[test]
fn get_reports_restricts_to_group_then_sorts_and_pages() {
    let mut store = fresh_store(10);
    let caller = principal(1);
    store.add_report(&caller, post("grp", 5, "a"), 300).unwrap();
    store.add_report(&caller, post("grp", 6, "other group"), 50).unwrap();
    store.add_report(&caller, post("grp", 5, "b"), 100).unwrap();
    store.add_report(&caller, post("grp", 5, "c"), 200).unwrap();
    let page = store.get_reports(
        2,
        0,
        ReportSort::CreatedOn(SortDirection::Asc),
        &vec![],
        FilterType::And,
        &principal(5),
    );
    assert_eq!(page.total, 3);
    let stamps: Vec<u64> = page.data.iter().map(|r| r.created_on).collect();
    assert_eq!(stamps, vec![100, 200]);
}

#[test]
fn add_entry_by_parent_bypasses_nothing_but_the_gate() {
    let mut store = fresh_store(1);
    let forwarded = scalable_reports::report::Report {
        reported_by: principal(1),
        subject: Identifier {
            index: 7,
            principal: principal(40),
            kind: String::from("grp"),
        },
        group_identifier: principal(5),
        message: String::from("forwarded"),
        created_on: 123,
    };
    let resp = store.add_entry_by_parent(forwarded).unwrap();
    assert_eq!(resp.identifier.index, 0);
    assert_eq!(resp.message, "forwarded");
    // The parent path honours the capacity ceiling too.
    let again = scalable_reports::report::Report {
        reported_by: principal(1),
        subject: Identifier {
            index: 8,
            principal: principal(40),
            kind: String::from("grp"),
        },
        group_identifier: principal(5),
        message: String::from("too many"),
        created_on: 124,
    };
    assert!(store.add_entry_by_parent(again).is_err());
}

#[test]
fn is_parent_compares_bytes() {
    let store = fresh_store(1);
    assert!(store.is_parent(&principal(0)));
    assert!(!store.is_parent(&principal(1)));
}
