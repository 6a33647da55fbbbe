use lootlabs_reward_role::error::AppError;
use lootlabs_reward_role::rolelogic::{
    authorization_header, result_key, revoke_outcome, user_call_result, user_url, UserOp, UserResponse,
    ROLELOGIC_API_BASE,
};

#[test]
fn user_url_names_guild_role_and_user() {
    assert_eq!(
        user_url(ROLELOGIC_API_BASE, "g1", "r2", "u3"),
        "https://api-rolelogic.faizo.net/api/role-link/g1/r2/users/u3"
    );
}

#[test]
fn header_carries_the_token() {
    assert_eq!(authorization_header("rl_abc"), "Token rl_abc");
}

#[test]
fn answer_flag_is_read_with_false_as_default() {
    assert_eq!(user_call_result(UserOp::Add, UserResponse::Accepted(Some(true))), Ok(true));
    assert_eq!(user_call_result(UserOp::Remove, UserResponse::Accepted(Some(false))), Ok(false));
    assert_eq!(user_call_result(UserOp::Add, UserResponse::Accepted(None)), Ok(false));
    assert_eq!(result_key(UserOp::Add), "added");
    assert_eq!(result_key(UserOp::Remove), "removed");
}

#[test]
fn rejected_answers_name_the_operation() {
    let rejected = || UserResponse::Rejected { status: "404 Not Found".to_string(), body: "nope".to_string() };
    assert_eq!(
        user_call_result(UserOp::Add, rejected()),
        Err(AppError::RoleLogic("Add user failed: 404 Not Found - nope".to_string()))
    );
    assert_eq!(
        user_call_result(UserOp::Remove, rejected()),
        Err(AppError::RoleLogic("Remove user failed: 404 Not Found - nope".to_string()))
    );
}

#[test]
fn transport_and_body_errors_pass_through() {
    assert_eq!(
        user_call_result(UserOp::Add, UserResponse::SendFailed("timeout".to_string())),
        Err(AppError::RoleLogic("timeout".to_string()))
    );
    assert_eq!(
        user_call_result(UserOp::Remove, UserResponse::Unreadable("bad json".to_string())),
        Err(AppError::RoleLogic("bad json".to_string()))
    );
}

#[test]
fn sweep_marks_revoked_only_after_a_successful_removal() {
    assert!(revoke_outcome(&Ok(true)));
    assert!(revoke_outcome(&Ok(false)));
    assert!(!revoke_outcome(&Err(AppError::RoleLogic("502".to_string()))));
}
