//! The errors that the plugin's endpoints answer with.

use vstd::prelude::*;

verus! {

/// Why a request failed.
#[derive(Debug, Clone, PartialEq, Eq)]
pub enum AppError {
    /// The RoleLogic token is missing, malformed or matches no registration.
    Unauthorized,
    /// The request is malformed; the text says how.
    BadRequest(String),
    /// The database failed; the text is its message.
    Database(String),
    /// The RoleLogic API failed; the text says how.
    RoleLogic(String),
}

} // verus!
