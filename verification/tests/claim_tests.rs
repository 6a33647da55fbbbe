use lootlabs_reward_role::claim::{
    claim_gate, claim_target, claim_token_expiry, html_escape, landing_page, login_redirect_url,
    ClaimTarget, NOT_FOUND_BODY, NOT_FOUND_TITLE, NOT_SET_UP_BODY, NOT_SET_UP_TITLE,
};

fn expected_page(title: &str, body: &str) -> String {
    format!(
        r#"<!DOCTYPE html>
<html lang="en"><head><meta charset="utf-8">
<title>{title}</title>
<meta name="viewport" content="width=device-width, initial-scale=1">
<link rel="icon" type="image/x-icon" href="/lootlabs-reward-role/favicon.ico">
<style>
body{{font-family:-apple-system,BlinkMacSystemFont,'Segoe UI',sans-serif;background:#0e1525;color:#c9d1d9;
display:flex;align-items:center;justify-content:center;min-height:100vh;margin:0;padding:1rem}}
.card{{background:#161b22;border:1px solid #30363d;border-radius:12px;padding:2rem;max-width:420px;text-align:center}}
h1{{color:#e6edf3;margin:0 0 .75rem;font-size:1.4rem}}p{{color:#8b949e;margin:0;line-height:1.5}}
</style></head><body><div class="card"><h1>{title}</h1><p>{body}</p></div></body></html>"#
    )
}

#[test]
fn html_escape_replaces_the_five_specials() {
    assert_eq!(
        html_escape("<a href=\"x\">Tom & 'Jerry'</a>"),
        "&lt;a href=&quot;x&quot;&gt;Tom &amp; &#39;Jerry&#39;&lt;/a&gt;"
    );
}

#[test]
fn html_escape_does_not_escape_twice() {
    assert_eq!(html_escape("&lt;"), "&amp;lt;");
}

#[test]
fn html_escape_leaves_plain_text() {
    assert_eq!(html_escape("Not set up yet — ok"), "Not set up yet — ok");
    assert_eq!(html_escape(""), "");
}

#[test]
fn landing_page_escapes_title_and_body() {
    assert_eq!(landing_page("A<B", "x & y"), expected_page("A&lt;B", "x &amp; y"));
}

#[test]
fn missing_registration_shows_not_found() {
    match claim_target(None) {
        ClaimTarget::Landing(p) => assert_eq!(
            p,
            expected_page(
                "Claim link not found",
                "This claim link doesn&#39;t exist anymore — the role link may have been deleted."
            )
        ),
        ClaimTarget::ShortLink(_) => panic!("expected a landing page"),
    }
    assert_eq!(NOT_FOUND_TITLE, "Claim link not found");
    assert!(NOT_FOUND_BODY.starts_with("This claim link"));
}

#[test]
fn unconfigured_registration_shows_not_set_up() {
    let page = expected_page(
        "Not set up yet",
        "The admin hasn&#39;t finished configuring this reward yet. Try again later.",
    );
    for row in [Some(None), Some(Some("   ".to_string())), Some(Some(String::new()))] {
        match claim_target(row) {
            ClaimTarget::Landing(p) => assert_eq!(p, page),
            ClaimTarget::ShortLink(_) => panic!("expected a landing page"),
        }
    }
    assert_eq!(landing_page(NOT_SET_UP_TITLE, NOT_SET_UP_BODY), page);
}

#[test]
fn configured_registration_keeps_its_link_untrimmed() {
    match claim_target(Some(Some(" https://links.lootlabs.gg/s?A ".to_string()))) {
        ClaimTarget::ShortLink(l) => assert_eq!(l, " https://links.lootlabs.gg/s?A "),
        ClaimTarget::Landing(_) => panic!("expected the short link"),
    }
}

#[test]
fn login_redirect_returns_to_the_claim_link() {
    assert_eq!(
        login_redirect_url("6f1c7a52-0000-4000-8000-000000000001"),
        "/auth/login?return_to=%2Flootlabs-reward-role%2Fclaim%2F6f1c7a52-0000-4000-8000-000000000001"
    );
}

#[test]
fn claim_gate_redirects_without_a_valid_session() {
    let login = "/auth/login?return_to=%2Flootlabs-reward-role%2Fclaim%2Fr1".to_string();
    assert_eq!(claim_gate(None, "s3cret", "r1"), Err(login.clone()));
    assert_eq!(claim_gate(Some("garbage"), "s3cret", "r1"), Err(login));
}

#[test]
fn claim_gate_admits_a_signed_in_member() {
    let live = "42:Bob:4102444800:c650cb61eb050ba9e59de39ab701b0178020bd99e4db28bf395bad64c21f4a2b";
    assert_eq!(claim_gate(Some(live), "s3cret", "r1"), Ok("42".to_string()));
}

#[test]
fn claim_tokens_last_a_day() {
    assert_eq!(claim_token_expiry(1_000), 1_000 + 86_400_000_000_000);
}
