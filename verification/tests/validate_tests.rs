use scalable_reports::error::ApiError;
use scalable_reports::principal::PrincipalId;
use scalable_reports::report::{Identifier, PostReport};
use scalable_reports::validate::validate_post_report;

fn post_with_message(message: String) -> PostReport {
    PostReport {
        subject: Identifier {
            index: 1,
            principal: PrincipalId::new(vec![4]),
            kind: String::from("grp"),
        },
        message,
        group_identifier: PrincipalId::new(vec![5]),
    }
}

#[test]
fn empty_and_boundary_messages_are_accepted() {
    assert!(validate_post_report(&post_with_message(String::new())).is_ok());
    assert!(validate_post_report(&post_with_message("x".repeat(500))).is_ok());
}

#[test]
fn over_long_message_is_rejected() {
    match validate_post_report(&post_with_message("x".repeat(501))) {
        Err(ApiError::BadRequest(detail)) => assert_eq!(detail.tag, "VALIDATION_ERROR"),
        _ => panic!("expected BadRequest"),
    }
}
