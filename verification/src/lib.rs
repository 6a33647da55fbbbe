//! Verified core of the Loot Labs reward-role plugin: the rules behind the
//! RoleLogic plugin endpoints, the member claim flow, the Loot Labs postback
//! and the Auth Gateway session cookie.

pub mod claim;
pub mod codec;
pub mod config;
pub mod error;
pub mod models;
pub mod plugin;
pub mod postback;
pub mod rolelogic;
pub mod session;
pub mod text;
pub mod token_gen;
