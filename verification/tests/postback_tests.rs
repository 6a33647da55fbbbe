use lootlabs_reward_role::claim::claim_token_expiry;
use lootlabs_reward_role::postback::{
    find_query_param, postback_params, postback_verdict, ClaimTokenRow, PostbackRejection,
};

fn q(pairs: &[(&str, &str)]) -> Vec<(String, String)> {
    pairs.iter().map(|(k, v)| (k.to_string(), v.to_string())).collect()
}

fn row(secret: &str, consumed: bool, expires: i128, hours: Option<i32>) -> ClaimTokenRow {
    ClaimTokenRow {
        guild_secret: secret.to_string(),
        consumed,
        expires_at_nanos: expires,
        role_duration_hours: hours,
    }
}

const HOUR: i128 = 3_600_000_000_000;

#[test]
fn first_matching_parameter_wins_ignoring_case() {
    let query = q(&[("IP", "1.2.3.4"), ("K", "s1"), ("k", "s2")]);
    assert_eq!(find_query_param(&query, "k"), Some("s1".to_string()));
    assert_eq!(find_query_param(&query, "click_id"), None);
}

#[test]
fn params_need_a_secret() {
    assert_eq!(postback_params(&q(&[("CLICK_ID", "p")])), Err(PostbackRejection::MissingSecret));
}

#[test]
fn params_need_a_non_empty_click_id() {
    assert_eq!(postback_params(&q(&[("k", "s")])), Err(PostbackRejection::MissingClickId));
    assert_eq!(
        postback_params(&q(&[("k", "s"), ("CLICK_ID", ""), ("click_id", "p")])),
        Err(PostbackRejection::MissingClickId)
    );
}

#[test]
fn params_are_read() {
    assert_eq!(
        postback_params(&q(&[("k", "sec"), ("CLICK_ID", "puid1"), ("UNIQUE_ID", "u")])),
        Ok(("sec".to_string(), "puid1".to_string()))
    );
}

#[test]
fn unknown_token_is_rejected() {
    assert_eq!(postback_verdict("sec", None, 0), Err(PostbackRejection::UnknownToken));
}

#[test]
fn postback_with_wrong_secret_is_rejected() {
    let r = row("sec", false, 10, Some(1));
    assert_eq!(postback_verdict("sed", Some(&r), 0), Err(PostbackRejection::SecretMismatch));
    assert_eq!(postback_verdict("se", Some(&r), 0), Err(PostbackRejection::SecretMismatch));
    assert_eq!(postback_verdict("", Some(&r), 0), Err(PostbackRejection::SecretMismatch));
}

#[test]
fn used_token_is_ignored() {
    let r = row("sec", true, 10, Some(1));
    assert_eq!(postback_verdict("sec", Some(&r), 0), Err(PostbackRejection::AlreadyConsumed));
}

#[test]
fn expired_token_is_rejected() {
    let r = row("sec", false, 10, Some(1));
    assert_eq!(postback_verdict("sec", Some(&r), 11), Err(PostbackRejection::Expired));
    assert_eq!(postback_verdict("sec", Some(&r), 10), Ok(Some(10 + HOUR)));
}

#[test]
fn grant_expiry_follows_the_duration() {
    let now: i128 = 1_700_000_000_000_000_000;
    assert_eq!(postback_verdict("sec", Some(&row("sec", false, now, Some(24))), now), Ok(Some(now + 24 * HOUR)));
    assert_eq!(postback_verdict("sec", Some(&row("sec", false, now, Some(0))), now), Ok(None));
    assert_eq!(postback_verdict("sec", Some(&row("sec", false, now, Some(-3))), now), Ok(None));
    assert_eq!(postback_verdict("sec", Some(&row("sec", false, now, None)), now), Ok(None));
}

#[test]
fn claim_token_is_honoured_for_exactly_a_day() {
    let issued: i128 = 1_700_000_000_000_000_123;
    let r = row("sec", false, claim_token_expiry(issued), None);
    assert_eq!(postback_verdict("sec", Some(&r), issued + 24 * HOUR), Ok(None));
    assert_eq!(postback_verdict("sec", Some(&r), issued + 24 * HOUR + 1), Err(PostbackRejection::Expired));
}

#[test]
fn expiry_is_compared_to_the_nanosecond() {
    let expires: i128 = 1_700_000_000_000_001_000;
    let r = row("sec", false, expires, None);
    assert_eq!(postback_verdict("sec", Some(&r), expires), Ok(None));
    assert_eq!(postback_verdict("sec", Some(&r), expires + 1), Err(PostbackRejection::Expired));
}
