//! The shapes of the RoleLogic plugin contract's requests and responses.

use vstd::prelude::*;

verus! {

/// Body of `POST /register`.
#[derive(Debug, Clone, PartialEq, Eq)]
pub struct RegisterBody {
    pub guild_id: String,
    pub role_id: String,
}

/// Body of `DELETE /config`.
#[derive(Debug, Clone, PartialEq, Eq)]
pub struct DeleteConfigBody {
    pub guild_id: String,
    pub role_id: String,
}

/// A validation rule that the dashboard applies to a form field.
#[derive(Debug, Clone, PartialEq, Eq)]
pub enum FieldValidation {
    /// `{"required": true}`
    Required,
    /// `{"min": min, "max": max}`
    Range { min: i64, max: i64 },
}

/// One field of the config form.
#[derive(Debug, Clone, PartialEq, Eq)]
pub struct ConfigField {
    /// `display`, `url` or `number` (serialised as `type`).
    pub field_type: String,
    pub key: String,
    pub label: String,
    pub description: String,
    pub placeholder: Option<String>,
    pub validation: Option<FieldValidation>,
    /// The text shown by a `display` field.
    pub value: Option<String>,
}

/// One section of the config form.
#[derive(Debug, Clone, PartialEq, Eq)]
pub struct ConfigSection {
    pub title: String,
    pub description: Option<String>,
    pub fields: Vec<ConfigField>,
}

/// The saved values that pre-fill the form.
#[derive(Debug, Clone, PartialEq, Eq)]
pub struct ConfigFormValues {
    pub lootlabs_short_link: String,
    pub role_duration_hours: i32,
}

/// Answer to `GET /config`: the form schema and its current values.
#[derive(Debug, Clone, PartialEq, Eq)]
pub struct ConfigResponse {
    pub version: u32,
    pub name: String,
    pub description: String,
    pub sections: Vec<ConfigSection>,
    pub values: ConfigFormValues,
}

/// The view of an optional string.
pub open spec fn opt_view(o: Option<String>) -> Option<Seq<char>> {
    match o {
        Some(s) => Some(s@),
        None => None,
    }
}

} // verus!
