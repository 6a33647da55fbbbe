use lootlabs_reward_role::session::{micros_to_secs, verify_session, verify_session_at};

const SECRET: &str = "s3cret";
const ALICE: &str = "123456789:Alice%20B:1900000000:80869de1e6977ff4fba172291a292b92937f91061390f3e0a2ca7426d8e2380d";

#[test]
fn valid_cookie_yields_id_and_decoded_name() {
    let got = verify_session_at(ALICE, SECRET, 1_700_000_000);
    assert_eq!(got, Some(("123456789".to_string(), "Alice B".to_string())));
}

#[test]
fn cookie_verifies_up_to_its_expiry_second() {
    assert!(verify_session_at(ALICE, SECRET, 1_900_000_000).is_some());
    assert_eq!(verify_session_at(ALICE, SECRET, 1_900_000_001), None);
}

#[test]
fn tampered_signature_is_rejected() {
    let forged = ALICE.replace("80869de1", "80869de2");
    assert_eq!(verify_session_at(&forged, SECRET, 1_700_000_000), None);
}

#[test]
fn tampered_payload_is_rejected() {
    let forged = ALICE.replace("123456789:", "123456780:");
    assert_eq!(verify_session_at(&forged, SECRET, 1_700_000_000), None);
}

#[test]
fn cookie_under_wrong_secret_is_rejected() {
    assert_eq!(verify_session_at(ALICE, "other", 1_700_000_000), None);
}

#[test]
fn upper_case_signature_is_rejected() {
    let upper = ALICE.to_uppercase().replace("ALICE%20B", "Alice%20B");
    assert_eq!(verify_session_at(&upper, SECRET, 1_700_000_000), None);
}

#[test]
fn too_few_fields_are_rejected() {
    assert_eq!(verify_session_at("123456789:Alice:1900000000", SECRET, 0), None);
    assert_eq!(verify_session_at("", SECRET, 0), None);
}

#[test]
fn unparsable_expiry_is_rejected() {
    assert_eq!(verify_session_at("1:a:soon:deadbeef", SECRET, 0), None);
}

#[test]
fn name_that_is_not_utf8_is_rejected() {
    let cookie = "7:%FF:4102444800:09509bfb471824540376438f45dc4c896c42b950af1f817b63cb7884d1cf58f2";
    assert_eq!(verify_session_at(cookie, SECRET, 1_700_000_000), None);
}

#[test]
fn encoded_colon_in_name_is_decoded() {
    let cookie = "9:na%3Ame:4102444800:b7ac5a3c206a00ce330bdda9745fa877293c11e672ca4e50ddd472bf582f96a4";
    assert_eq!(
        verify_session_at(cookie, SECRET, 1_700_000_000),
        Some(("9".to_string(), "na:me".to_string()))
    );
}

#[test]
fn extra_colons_belong_to_the_signature() {
    let cookie = format!("{ALICE}:extra");
    assert_eq!(verify_session_at(&cookie, SECRET, 1_700_000_000), None);
}

#[test]
fn verify_session_uses_the_clock() {
    let live = "42:Bob:4102444800:c650cb61eb050ba9e59de39ab701b0178020bd99e4db28bf395bad64c21f4a2b";
    assert_eq!(verify_session(live, SECRET), Some(("42".to_string(), "Bob".to_string())));
    let expired = "5:Eve:0:b84c40c2d27a24eb6ffd925da89428547c8347cd5a2cd289333c22bf1513613a";
    assert_eq!(verify_session(expired, SECRET), None);
    assert_eq!(verify_session_at(expired, SECRET, 0), Some(("5".to_string(), "Eve".to_string())));
}

#[test]
fn micros_round_down_to_seconds() {
    assert_eq!(micros_to_secs(1_999_999), 1);
    assert_eq!(micros_to_secs(0), 0);
    assert_eq!(micros_to_secs(-1), -1);
    assert_eq!(micros_to_secs(-1_000_000), -1);
    assert_eq!(micros_to_secs(-1_000_001), -2);
    assert_eq!(micros_to_secs(i64::MIN), -9_223_372_036_855);
}
