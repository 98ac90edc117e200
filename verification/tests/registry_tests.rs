use scalable_reports::error::ApiError;
use scalable_reports::filter::FilterType;
use scalable_reports::principal::PrincipalId;
use scalable_reports::registry::{CanisterType, ScalableData, WasmVersion};
use scalable_reports::report::{Identifier, PostReport};
use scalable_reports::sort::{ReportSort, SortDirection};
use scalable_reports::store::Store;

fn principal(tag: u8) -> PrincipalId {
    PrincipalId::new(vec![tag])
}

fn fresh_registry() -> ScalableData {
    ScalableData::new(String::from("reports"), principal(100), principal(101), 1_000)
}

fn registry_with_wasm() -> ScalableData {
    let mut reg = fresh_registry();
    reg.update_child_wasm_data(1, vec![0, 97, 115, 109], 1_001).unwrap();
    reg
}

fn post(group: u8, message: &str) -> PostReport {
    PostReport {
        subject: Identifier {
            index: 7,
            principal: principal(40),
            kind: String::from("grp"),
        },
        message: String::from(message),
        group_identifier: principal(group),
    }
}

#[test]
fn bootstrap_guard_needs_wasm_and_empty_directory() {
    let mut reg = fresh_registry();
    assert!(!reg.should_bootstrap());
    reg.update_child_wasm_data(1, vec![1, 2, 3], 2).unwrap();
    assert!(reg.should_bootstrap());
    reg.register_empty_canister(principal(10));
    assert!(!reg.should_bootstrap());
}

#[test]
fn spawn_then_install_moves_the_entry_to_active() {
    let mut reg = registry_with_wasm();
    reg.register_empty_canister(principal(10));
    let entries = reg.get_canisters();
    assert_eq!(entries.len(), 1);
    assert_eq!(entries[0].canister_type, CanisterType::Empty);
    assert_eq!(entries[0].wasm_version, WasmVersion::Unversioned);
    assert!(entries[0].is_available);
    assert_eq!(entries[0].entry_range, (0, None));

    reg.register_installed_canister(principal(10));
    let entries = reg.get_canisters();
    assert_eq!(entries.len(), 1);
    assert_eq!(entries[0].canister_type, CanisterType::ScalableChild);
    assert_eq!(entries[0].wasm_version, WasmVersion::Version(1));
    assert!(entries[0].is_available);
}

#[test]
fn get_available_canister_skips_the_caller_and_unavailable_shards() {
    let mut reg = registry_with_wasm();
    reg.register_installed_canister(principal(10));
    reg.register_installed_canister(principal(11));
    // A shard asking for a sibling is not handed itself.
    let found = reg.get_available_canister(&principal(10)).unwrap();
    assert_eq!(found.principal.bytes(), principal(11).bytes());
    reg.freeze_canister(&principal(11), 5).unwrap();
    assert!(reg.get_available_canister(&principal(10)).is_err());
}

#[test]
fn handoff_validation_refuses_without_wasm_and_unknown_callers() {
    let reg = fresh_registry();
    match reg.validate_handoff(&principal(10)) {
        Err(ApiError::BadRequest(detail)) => assert_eq!(detail.tag, "NO_WASM_SPECIFIED"),
        _ => panic!("expected BadRequest"),
    }
    let reg = registry_with_wasm();
    match reg.validate_handoff(&principal(10)) {
        Err(ApiError::BadRequest(detail)) => assert_eq!(detail.tag, "UNKNOWN_CANISTER"),
        _ => panic!("expected BadRequest"),
    }
}

#[test]
fn overflow_handoff_scenario_moves_the_write_to_the_sibling() {
    // A shard at capacity 2 holding 2 records refuses the third write.
    let mut shard = Store::new(String::from("reports"), principal(10), principal(101), 2);
    let caller = principal(1);
    shard.add_report(&caller, post(5, "a"), 1).unwrap();
    shard.add_report(&caller, post(5, "b"), 2).unwrap();
    let overflow = shard.add_report(&caller, post(5, "c"), 3);
    assert!(matches!(overflow, Err(ApiError::CanisterAtCapacity(_))));
    assert_eq!(shard.entry_count(), 2);

    // The registry spawns and installs a sibling, freezes the source...
    let mut reg = registry_with_wasm();
    reg.register_installed_canister(principal(10));
    assert!(reg.validate_handoff(&principal(10)).is_ok());
    reg.register_empty_canister(principal(11));
    reg.register_installed_canister(principal(11));
    reg.freeze_canister(&principal(10), 1).unwrap();

    // ...and forwards the pending payload to the sibling.
    let mut sibling = Store::new(String::from("reports"), principal(11), principal(101), 2);
    let forwarded = scalable_reports::report::Report {
        reported_by: caller,
        subject: Identifier {
            index: 7,
            principal: principal(40),
            kind: String::from("grp"),
        },
        group_identifier: principal(5),
        message: String::from("c"),
        created_on: 3,
    };
    sibling.add_entry_by_parent(forwarded).unwrap();

    // The sibling holds exactly the forwarded record.
    let sibling_page = sibling.get_reports(
        10,
        0,
        ReportSort::Id(SortDirection::Asc),
        &vec![],
        FilterType::And,
        &principal(5),
    );
    assert_eq!(sibling_page.total, 1);
    assert_eq!(sibling_page.data[0].message, "c");

    // The frozen shard still answers queries with its original two records.
    let old_page = shard.get_reports(
        10,
        0,
        ReportSort::Id(SortDirection::Asc),
        &vec![],
        FilterType::And,
        &principal(5),
    );
    assert_eq!(old_page.total, 2);

    // Its directory entry is now unavailable with a closed range.
    let entries = reg.get_canisters();
    let frozen = entries
        .iter()
        .find(|d| d.principal.bytes() == principal(10).bytes())
        .unwrap();
    assert!(!frozen.is_available);
    assert_eq!(frozen.entry_range, (0, Some(1)));
    let fresh = entries
        .iter()
        .find(|d| d.principal.bytes() == principal(11).bytes())
        .unwrap();
    assert!(fresh.is_available);
}

#[test]
fn forward_failure_is_reported_as_failed_to_store_data() {
    let reg = registry_with_wasm();
    let err = reg.handoff_forward_failed(&String::from("no route to canister"));
    match err {
        ApiError::BadRequest(detail) => {
            assert_eq!(detail.tag, "FAILED_TO_STORE_DATA");
            assert_eq!(detail.message, "no route to canister");
        }
        _ => panic!("expected BadRequest"),
    }
}

#[test]
fn upgrading_an_up_to_date_shard_is_refused_and_changes_nothing() {
    let mut reg = registry_with_wasm();
    reg.register_installed_canister(principal(10));
    let before = reg.get_canisters();
    // The shard already runs version 1, the current package.
    match reg.prepare_upgrade(&principal(10)) {
        Err(ApiError::BadRequest(detail)) => assert_eq!(detail.tag, "CANISTER_UP_TO_DATE"),
        _ => panic!("expected BadRequest"),
    }
    let after = reg.get_canisters();
    assert_eq!(before.len(), after.len());
    assert_eq!(after[0].wasm_version, WasmVersion::Version(1));
    assert_eq!(after[0].is_available, before[0].is_available);
    assert_eq!(after[0].entry_range, before[0].entry_range);
}

#[test]
fn upgrade_installs_the_newer_package_and_preserves_the_rest() {
    let mut reg = registry_with_wasm();
    reg.register_installed_canister(principal(10));
    reg.freeze_canister(&principal(10), 4).unwrap();
    reg.update_child_wasm_data(2, vec![0, 97, 115, 109, 2], 1_002).unwrap();
    let bytes = reg.prepare_upgrade(&principal(10)).unwrap();
    assert_eq!(bytes, vec![0, 97, 115, 109, 2]);
    let updated = reg.apply_upgrade(&principal(10)).unwrap();
    assert_eq!(updated.wasm_version, WasmVersion::Version(2));
    assert!(!updated.is_available);
    assert_eq!(updated.entry_range, (0, Some(4)));
    match reg.prepare_upgrade(&principal(11)) {
        Err(ApiError::NotFound(detail)) => assert_eq!(detail.tag, "NO_CHILDREN"),
        _ => panic!("expected NotFound"),
    }
}

#[test]
fn upgrade_targets_lists_only_trailing_shards() {
    let mut reg = registry_with_wasm();
    reg.register_installed_canister(principal(10));
    reg.update_child_wasm_data(2, vec![9, 9], 1_002).unwrap();
    reg.register_installed_canister(principal(11));
    let targets = reg.upgrade_targets();
    assert_eq!(targets.len(), 1);
    assert_eq!(targets[0].bytes(), principal(10).bytes());
}

#[test]
fn package_update_rules_reject_stale_and_identical_wasm() {
    let mut reg = fresh_registry();
    assert!(reg.update_child_wasm_data(1, vec![], 2).is_err());
    reg.update_child_wasm_data(3, vec![1, 2], 2).unwrap();
    // Same bytes again: refused.
    assert!(reg.update_child_wasm_data(4, vec![1, 2], 3).is_err());
    // Lower or equal version: refused.
    assert!(reg.update_child_wasm_data(3, vec![1, 2, 3], 3).is_err());
    assert!(reg.update_child_wasm_data(2, vec![1, 2, 3], 3).is_err());
    // Strictly newer version with different bytes: adopted.
    reg.update_child_wasm_data(4, vec![1, 2, 3], 3).unwrap();
    assert_eq!(reg.child_wasm_data().wasm_version, WasmVersion::Version(4));
}

#[test]
fn building_a_package_labels_it_and_keeps_creation_time() {
    let reg = registry_with_wasm();
    let built = ScalableData::get_child_wasm_data(&reg, 5, vec![9], 2_000).unwrap();
    assert_eq!(built.label, "child_group_canister");
    assert_eq!(built.wasm_version, WasmVersion::Version(5));
    assert_eq!(built.bytes, vec![9]);
    assert_eq!(built.updated_at, 2_000);
    // The creation time of the registry's package line survives updates.
    assert_eq!(built.created_at, 1_000);
}

#[test]
fn aggregation_sorts_globally_across_shards() {
    // Three shards, five matching records each, interleaved timestamps.
    let caller = principal(1);
    let mut collected = Vec::new();
    for shard_index in 0..3u64 {
        let mut shard = Store::new(String::from("reports"), principal(20 + shard_index as u8), principal(101), 10);
        for k in 0..5u64 {
            let stamp = k * 3 + shard_index;
            shard
                .add_report(&caller, post(5, &format!("s{shard_index}k{k}")), stamp)
                .unwrap();
        }
        let mut part = shard.get_chunked_data(&vec![], FilterType::And);
        collected.append(&mut part);
    }
    let page = ScalableData::get_child_canister_data(
        collected,
        10,
        0,
        ReportSort::CreatedOn(SortDirection::Asc),
    );
    assert_eq!(page.total, 15);
    assert_eq!(page.data.len(), 10);
    let stamps: Vec<u64> = page.data.iter().map(|r| r.created_on).collect();
    assert_eq!(stamps, vec![0, 1, 2, 3, 4, 5, 6, 7, 8, 9]);
}

#[test]
fn metadata_reports_the_directory_and_package_state() {
    let mut reg = registry_with_wasm();
    reg.register_installed_canister(principal(10));
    let meta = reg.metadata(77, 88);
    assert_eq!(meta.name, "reports");
    assert_eq!(meta.canister_count, 1);
    assert!(meta.has_child_wasm);
    assert_eq!(meta.cycles, 77);
    assert_eq!(meta.used_data, 88);
}
