use scalable_reports::error::ApiError;
use scalable_reports::permission::{
    PermissionActionType, PermissionActions, Role, check_permission, default_roles, has_permission,
};
use scalable_reports::principal::PrincipalId;

fn principal(tag: u8) -> PrincipalId {
    PrincipalId::new(vec![tag])
}

fn role(name: &str, write: bool, read: bool) -> Role {
    Role {
        name: String::from(name),
        protected: false,
        actions: PermissionActions {
            write,
            read,
            edit: false,
            delete: false,
        },
    }
}

fn location() -> String {
    String::from("reports")
}

#[test]
fn default_roles_grant_everything_to_owner_and_admin() {
    let defaults = default_roles();
    let names: Vec<String> = defaults.iter().map(|r| r.name.clone()).collect();
    assert_eq!(names, vec!["owner", "admin", "moderator", "member"]);
    let member = vec![String::from("owner")];
    assert!(has_permission(&member, &defaults, PermissionActionType::Delete));
    // The default member role may read but not write.
    let plain = vec![String::from("member")];
    assert!(has_permission(&plain, &defaults, PermissionActionType::Read));
    assert!(!has_permission(&plain, &defaults, PermissionActionType::Write));
}

#[test]
fn member_without_granting_role_is_denied() {
    let group = vec![role("viewer", false, true)];
    let member = vec![String::from("viewer")];
    assert!(!has_permission(&member, &group, PermissionActionType::Write));
    assert!(has_permission(&member, &group, PermissionActionType::Read));
}

#[test]
fn gate_grants_through_group_role() {
    let caller = principal(1);
    let member = Ok((principal(1), vec![String::from("poster")]));
    let group = Ok(vec![role("poster", true, true)]);
    let out = check_permission(&caller, group, member, PermissionActionType::Write, &location());
    let granted = out.unwrap();
    assert_eq!(granted.bytes(), caller.bytes());
}

#[test]
fn gate_grants_through_default_role_merged_in() {
    let caller = principal(1);
    let member = Ok((principal(1), vec![String::from("admin")]));
    // The group defines no roles of its own; the defaults still apply.
    let group = Ok(vec![]);
    let out = check_permission(&caller, group, member, PermissionActionType::Edit, &location());
    assert!(out.is_ok());
}

#[test]
fn principal_mismatch_is_its_own_refusal() {
    let caller = principal(1);
    let member = Ok((principal(2), vec![String::from("owner")]));
    let group = Ok(vec![]);
    match check_permission(&caller, group, member, PermissionActionType::Read, &location()) {
        Err(ApiError::Unauthorized(detail)) => assert_eq!(detail.tag, "PRINCIPAL_MISMATCH"),
        _ => panic!("expected Unauthorized"),
    }
}

#[test]
fn failed_member_resolution_short_circuits() {
    let caller = principal(1);
    let member = Err(String::from("member canister unreachable"));
    let group = Ok(vec![role("poster", true, true)]);
    match check_permission(&caller, group, member, PermissionActionType::Read, &location()) {
        Err(ApiError::Unauthorized(detail)) => {
            assert_eq!(detail.tag, "NO_PERMISSION");
            assert_eq!(detail.message, "member canister unreachable");
        }
        _ => panic!("expected Unauthorized"),
    }
}

#[test]
fn failed_group_resolution_short_circuits() {
    let caller = principal(1);
    let member = Ok((principal(1), vec![String::from("poster")]));
    let group = Err(String::from("group canister unreachable"));
    match check_permission(&caller, group, member, PermissionActionType::Read, &location()) {
        Err(ApiError::Unauthorized(detail)) => {
            assert_eq!(detail.tag, "NO_PERMISSION");
            assert_eq!(detail.message, "group canister unreachable");
        }
        _ => panic!("expected Unauthorized"),
    }
}

#[test]
fn holding_no_matching_role_name_is_denied() {
    let caller = principal(1);
    let member = Ok((principal(1), vec![String::from("stranger")]));
    let group = Ok(vec![role("poster", true, true)]);
    match check_permission(&caller, group, member, PermissionActionType::Write, &location()) {
        Err(ApiError::Unauthorized(detail)) => assert_eq!(detail.tag, "NO_PERMISSION"),
        _ => panic!("expected Unauthorized"),
    }
}
