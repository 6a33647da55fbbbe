use lootlabs_reward_role::token_gen::{append_puid, random_token};

fn url_safe(c: char) -> bool {
    c.is_ascii_alphanumeric() || c == '-' || c == '_'
}

#[test]
fn random_token_is_43_url_safe_characters() {
    let t = random_token();
    assert_eq!(t.chars().count(), 43);
    assert!(t.chars().all(url_safe), "{t}");
}

#[test]
fn random_tokens_differ() {
    assert_ne!(random_token(), random_token());
}

#[test]
fn puid_joins_existing_query_with_ampersand() {
    assert_eq!(
        append_puid("https://links.lootlabs.gg/s?ABCDEF", "tok_-9"),
        "https://links.lootlabs.gg/s?ABCDEF&puid=tok_-9"
    );
}

#[test]
fn puid_starts_a_query_where_there_is_none() {
    assert_eq!(append_puid("https://loot-link.com/s/abc", "t"), "https://loot-link.com/s/abc?puid=t");
}

#[test]
fn puid_is_percent_encoded() {
    assert_eq!(append_puid("https://a/s?x", "a b/c~."), "https://a/s?x&puid=a%20b%2Fc~.");
    assert_eq!(append_puid("https://a/s", "👾!"), "https://a/s?puid=%F0%9F%91%BE%21");
}

#[test]
fn random_token_passes_through_unencoded() {
    let t = random_token();
    assert_eq!(append_puid("https://a/s?q", &t), format!("https://a/s?q&puid={t}"));
}
