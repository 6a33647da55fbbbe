//! The RoleLogic User Management API: the requests that add a member to a
//! role link's roster or remove one, and how their answers are read.

use vstd::prelude::*;

use crate::error::AppError;
use crate::text::append_str;

verus! {

/// Where the RoleLogic API lives.
pub const ROLELOGIC_API_BASE: &'static str = "https://api-rolelogic.faizo.net";

/// The two roster operations.
#[derive(Debug, Clone, Copy, PartialEq, Eq)]
pub enum UserOp {
    /// `POST`: grant the role.
    Add,
    /// `DELETE`: revoke the role.
    Remove,
}

/// The URL of one member of a role link's roster:
/// `{base}/api/role-link/{guild}/{role}/users/{user}`.
pub open spec fn user_url_spec(base: Seq<char>, guild_id: Seq<char>, role_id: Seq<char>, user_id: Seq<char>) -> Seq<char> {
    base + "/api/role-link/"@ + guild_id + "/"@ + role_id + "/users/"@ + user_id
}

/// The start of a failure message for `op`.
pub open spec fn failure_prefix(op: UserOp) -> Seq<char> {
    match op {
        UserOp::Add => "Add user failed: "@,
        UserOp::Remove => "Remove user failed: "@,
    }
}

/// The field of `data` in a successful answer that says whether the roster changed.
pub open spec fn result_key_spec(op: UserOp) -> Seq<char> {
    match op {
        UserOp::Add => "added"@,
        UserOp::Remove => "removed"@,
    }
}

/// What came back from a roster request.
pub enum UserResponse {
    /// The request could not be sent or answered; the text is the client's error.
    SendFailed(String),
    /// A non-success status (its text, e.g. `404 Not Found`) and the body.
    Rejected { status: String, body: String },
    /// A success status whose body is not JSON; the text is the parser's error.
    Unreadable(String),
    /// A success status; `data.added` (or `data.removed`) where it is a boolean.
    Accepted(Option<bool>),
}

/// The URL of one member of a role link's roster.
pub fn user_url(base: &str, guild_id: &str, role_id: &str, user_id: &str) -> (res: String)
    ensures
        res@ == user_url_spec(base@, guild_id@, role_id@, user_id@),
{
    let mut s = base.to_owned();
    append_str(&mut s, "/api/role-link/");
    append_str(&mut s, guild_id);
    append_str(&mut s, "/");
    append_str(&mut s, role_id);
    append_str(&mut s, "/users/");
    append_str(&mut s, user_id);
    s
}

/// The `Authorization` header of a RoleLogic request: `Token {token}`.
pub fn authorization_header(token: &str) -> (res: String)
    ensures
        res@ == "Token "@ + token@,
{
    let mut s = "Token ".to_owned();
    append_str(&mut s, token);
    s
}

/// The field of `data` that answers whether the roster changed.
pub fn result_key(op: UserOp) -> (res: &'static str)
    ensures
        res@ == result_key_spec(op),
{
    match op {
        UserOp::Add => "added",
        UserOp::Remove => "removed",
    }
}

/// Reads the answer to a roster request: whether the roster changed, with
/// a missing or non-boolean flag read as `false`, or a `RoleLogic` error
/// (`Add user failed: {status} - {body}` for a rejected add).
pub fn user_call_result(op: UserOp, response: UserResponse) -> (res: Result<bool, AppError>)
    ensures
        match response {
            UserResponse::SendFailed(msg) => res matches Err(AppError::RoleLogic(m)) && m@ == msg@,
            UserResponse::Rejected { status, body } => res matches Err(AppError::RoleLogic(m))
                && m@ == failure_prefix(op) + status@ + " - "@ + body@,
            UserResponse::Unreadable(msg) => res matches Err(AppError::RoleLogic(m)) && m@ == msg@,
            UserResponse::Accepted(flag) => res == Ok::<bool, AppError>(
                match flag {
                    Some(b) => b,
                    None => false,
                },
            ),
        },
{
    match response {
        UserResponse::SendFailed(msg) => Err(AppError::RoleLogic(msg)),
        UserResponse::Rejected { status, body } => {
            let mut m = match op {
                UserOp::Add => "Add user failed: ".to_owned(),
                UserOp::Remove => "Remove user failed: ".to_owned(),
            };
            append_str(&mut m, status.as_str());
            append_str(&mut m, " - ");
            append_str(&mut m, body.as_str());
            Err(AppError::RoleLogic(m))
        },
        UserResponse::Unreadable(msg) => Err(AppError::RoleLogic(msg)),
        UserResponse::Accepted(flag) => Ok(
            match flag {
                Some(b) => b,
                None => false,
            },
        ),
    }
}

/// The expiry sweep's step after asking RoleLogic to remove a member whose
/// role duration has elapsed: the claim is marked revoked when the removal
/// succeeded (whether or not the roster changed), and left for the next
/// sweep to retry when it failed.
pub fn revoke_outcome(removal: &Result<bool, AppError>) -> (mark_revoked: bool)
    ensures
        mark_revoked == removal is Ok,
{
    match removal {
        Ok(_) => true,
        Err(_) => false,
    }
}

} // verus!
