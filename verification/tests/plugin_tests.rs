use lootlabs_reward_role::error::AppError;
use lootlabs_reward_role::models::{FieldValidation, RegisterBody};
use lootlabs_reward_role::plugin::{
    build_config_response, claim_link, delete_result, extract_auth_token, postback_url,
    validate_config, validate_register, ConfigUpdate,
};

fn bad(msg: &str) -> AppError {
    AppError::BadRequest(msg.to_string())
}

#[test]
fn token_scheme_is_accepted_in_three_spellings() {
    assert_eq!(extract_auth_token(Some("Token rl_abc")), Ok("rl_abc".to_string()));
    assert_eq!(extract_auth_token(Some("token  rl_x \t")), Ok("rl_x".to_string()));
    assert_eq!(extract_auth_token(Some("Bearer rl_y")), Ok("rl_y".to_string()));
}

#[test]
fn token_is_unauthorized_when_missing_blank_or_unknown_scheme() {
    assert_eq!(extract_auth_token(None), Err(AppError::Unauthorized));
    assert_eq!(extract_auth_token(Some("Token    ")), Err(AppError::Unauthorized));
    assert_eq!(extract_auth_token(Some("Basic abc")), Err(AppError::Unauthorized));
    assert_eq!(extract_auth_token(Some("TOKEN abc")), Err(AppError::Unauthorized));
    assert_eq!(extract_auth_token(Some("Tokenabc")), Err(AppError::Unauthorized));
}

fn body(g: &str, r: &str) -> RegisterBody {
    RegisterBody { guild_id: g.to_string(), role_id: r.to_string() }
}

#[test]
fn register_accepts_a_token_and_both_ids() {
    let got = validate_register(Some("Token rl_1"), Ok(body("g1", "r1")));
    assert_eq!(got, Ok(("rl_1".to_string(), body("g1", "r1"))));
}

#[test]
fn register_checks_the_token_before_the_body() {
    assert_eq!(validate_register(None, Err("oops".to_string())), Err(AppError::Unauthorized));
}

#[test]
fn register_reports_the_parse_error() {
    assert_eq!(
        validate_register(Some("Token rl_1"), Err("missing field `role_id`".to_string())),
        Err(bad("Expected JSON {\"guild_id\": \"...\", \"role_id\": \"...\"}; parse error: missing field `role_id`"))
    );
}

#[test]
fn register_rejects_blank_ids() {
    let msg = "guild_id and role_id are required and must be non-empty strings";
    assert_eq!(validate_register(Some("Token t"), Ok(body("  ", "r"))), Err(bad(msg)));
    assert_eq!(validate_register(Some("Token t"), Ok(body("g", ""))), Err(bad(msg)));
}

fn update(link: Option<&str>, hours: Option<i32>) -> ConfigUpdate {
    ConfigUpdate { lootlabs_short_link: link.map(|s| s.to_string()), role_duration_hours: hours }
}

#[test]
fn config_link_is_trimmed_and_blank_is_none() {
    assert_eq!(
        validate_config(Some("  https://links.lootlabs.gg/s?A \n"), Some(24)),
        Ok(update(Some("https://links.lootlabs.gg/s?A"), Some(24)))
    );
    assert_eq!(validate_config(Some("   "), None), Ok(update(None, None)));
    assert_eq!(validate_config(None, None), Ok(update(None, None)));
}

#[test]
fn config_link_must_be_https() {
    assert_eq!(
        validate_config(Some("ftp://x"), None),
        Err(bad("Loot Labs short link must start with https://"))
    );
    assert_eq!(
        validate_config(Some("http://links.lootlabs.gg/s?A"), None),
        Err(bad("Loot Labs short link must start with https://"))
    );
    assert_eq!(
        validate_config(Some("links.lootlabs.gg/s?A"), Some(999_999)),
        Err(bad("Loot Labs short link must start with https://"))
    );
}

#[test]
fn config_link_length_counts_bytes() {
    let ok = format!("https://{}", "a".repeat(992));
    assert_eq!(ok.len(), 1000);
    assert_eq!(validate_config(Some(&ok), None), Ok(update(Some(&ok), None)));
    let long = format!("https://{}", "a".repeat(993));
    assert_eq!(validate_config(Some(&long), None), Err(bad("Short link too long")));
    let wide = format!("https://{}", "é".repeat(497));
    assert_eq!(wide.chars().count(), 505);
    assert_eq!(validate_config(Some(&wide), None), Err(bad("Short link too long")));
}

#[test]
fn config_duration_zero_or_negative_is_permanent() {
    assert_eq!(validate_config(None, Some(0)), Ok(update(None, None)));
    assert_eq!(validate_config(None, Some(-5)), Ok(update(None, None)));
    assert_eq!(validate_config(None, Some(1)), Ok(update(None, Some(1))));
}

#[test]
fn config_duration_is_capped_at_ten_years() {
    assert_eq!(validate_config(None, Some(87600)), Ok(update(None, Some(87600))));
    assert_eq!(
        validate_config(None, Some(87601)),
        Err(bad("Role duration too long (max 10 years)"))
    );
}

#[test]
fn delete_without_match_is_unauthorized() {
    assert_eq!(delete_result(0), Err(AppError::Unauthorized));
    assert_eq!(delete_result(1), Ok(()));
}

#[test]
fn urls_of_the_form() {
    assert_eq!(postback_url("https://p.example/llr", "S3c"), "https://p.example/llr/postback?k=S3c");
    assert_eq!(claim_link("https://p.example/llr", "abc-1"), "https://p.example/llr/claim/abc-1");
}

#[test]
fn config_form_for_a_first_role_link() {
    let res = build_config_response("https://b", "sec", "id1", 0, None, None);
    assert_eq!(res.version, 1);
    assert_eq!(res.name, "Loot Labs Reward Role");
    assert_eq!(
        res.description,
        "Members complete one Loot Labs task and receive a Discord role. Optional duration."
    );
    assert_eq!(res.sections.len(), 4);
    let s1 = &res.sections[0];
    assert_eq!(s1.title, "Step 1 — Postback URL (one-time per server)");
    assert_eq!(
        s1.description.as_deref(),
        Some("Paste this URL into Loot Labs → https://creators.lootlabs.gg/advanced → Postback URL. Tick the {CLICK_ID} parameter (Loot Labs requires it). You only need to do this once for the whole Discord server — future role links in this server will reuse the same postback URL automatically.")
    );
    assert_eq!(s1.fields.len(), 1);
    assert_eq!(s1.fields[0].field_type, "display");
    assert_eq!(s1.fields[0].key, "postback_url");
    assert_eq!(s1.fields[0].label, "Loot Labs Postback URL");
    assert_eq!(s1.fields[0].description, "");
    assert_eq!(s1.fields[0].value.as_deref(), Some("https://b/postback?k=sec"));
    let s2 = &res.sections[1];
    assert_eq!(s2.title, "Step 2 — Loot Labs short link");
    assert_eq!(s2.fields[0].field_type, "url");
    assert_eq!(s2.fields[0].key, "lootlabs_short_link");
    assert_eq!(s2.fields[0].placeholder.as_deref(), Some("https://links.lootlabs.gg/s?ABCDEF"));
    assert_eq!(s2.fields[0].validation, Some(FieldValidation::Required));
    assert_eq!(s2.fields[0].value, None);
    let s3 = &res.sections[2];
    assert_eq!(s3.title, "Step 3 — Role duration");
    assert_eq!(s3.fields[0].field_type, "number");
    assert_eq!(s3.fields[0].key, "role_duration_hours");
    assert_eq!(s3.fields[0].label, "Role duration (hours)");
    assert_eq!(s3.fields[0].description, "0 = permanent. 24 = role lasts a day. Max 87600 (10 years).");
    assert_eq!(s3.fields[0].placeholder.as_deref(), Some("24"));
    assert_eq!(s3.fields[0].validation, Some(FieldValidation::Range { min: 0, max: 87600 }));
    let s4 = &res.sections[3];
    assert_eq!(s4.title, "Step 4 — Share the claim link");
    assert_eq!(s4.fields[0].key, "claim_link");
    assert_eq!(s4.fields[0].label, "Member claim link");
    assert_eq!(s4.fields[0].value.as_deref(), Some("https://b/claim/id1"));
    assert_eq!(res.values.lootlabs_short_link, "");
    assert_eq!(res.values.role_duration_hours, 0);
}

#[test]
fn config_form_for_a_later_role_link() {
    let res = build_config_response(
        "https://b",
        "sec",
        "id2",
        2,
        Some("https://links.lootlabs.gg/s?Q".to_string()),
        Some(48),
    );
    let s1 = &res.sections[0];
    assert_eq!(s1.title, "Step 1 — Postback URL (already configured ✓)");
    assert_eq!(
        s1.description.as_deref(),
        Some("This Discord server already has another role link wired to Loot Labs, so the postback URL is shared and doesn't need to be pasted again. If you ever need it (e.g. switching Loot Labs accounts), it's shown below.")
    );
    assert_eq!(s1.fields[0].label, "Loot Labs Postback URL (per-guild, already set)");
    assert_eq!(s1.fields[0].value.as_deref(), Some("https://b/postback?k=sec"));
    assert_eq!(res.values.lootlabs_short_link, "https://links.lootlabs.gg/s?Q");
    assert_eq!(res.values.role_duration_hours, 48);
}
