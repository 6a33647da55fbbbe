//! The member-facing claim flow: `GET /claim/{registration_id}`.

use vstd::prelude::*;

use crate::codec::{lemma_url_decode_encode, url_decode_spec, url_encode, url_encode_spec};
use crate::session::{verify_session, verify_session_spec};
use crate::text::{append_str, chars_of, trim, trim_spec};

verus! {

/// Name of the Auth Gateway's session cookie.
pub const SESSION_COOKIE: &'static str = "rl_session";

/// How long a claim token stays valid, in hours.
pub const CLAIM_TOKEN_TTL_HOURS: i128 = 24;

/// Nanoseconds in an hour: instants are counted in nanoseconds since the
/// Unix epoch, the resolution at which the service compares them.
pub const NANOS_PER_HOUR: i128 = 3_600_000_000_000;

/// Where members are sent to sign in; the claim path follows, percent-encoded.
pub const LOGIN_PATH_PREFIX: &'static str = "/auth/login?return_to=";

/// The path of a claim link, before the registration id.
pub const CLAIM_PATH_PREFIX: &'static str = "/lootlabs-reward-role/claim/";

pub const NOT_FOUND_TITLE: &'static str = "Claim link not found";

pub const NOT_FOUND_BODY: &'static str = "This claim link doesn't exist anymore — the role link may have been deleted.";

pub const NOT_SET_UP_TITLE: &'static str = "Not set up yet";

pub const NOT_SET_UP_BODY: &'static str = "The admin hasn't finished configuring this reward yet. Try again later.";

/// The landing page up to its `<title>`.
pub const PAGE_HEAD: &'static str = "<!DOCTYPE html>\n<html lang=\"en\"><head><meta charset=\"utf-8\">\n<title>";

/// The landing page from `</title>` to its `<h1>`.
pub const PAGE_STYLE: &'static str = "</title>\n<meta name=\"viewport\" content=\"width=device-width, initial-scale=1\">\n<link rel=\"icon\" type=\"image/x-icon\" href=\"/lootlabs-reward-role/favicon.ico\">\n<style>\nbody{font-family:-apple-system,BlinkMacSystemFont,'Segoe UI',sans-serif;background:#0e1525;color:#c9d1d9;\ndisplay:flex;align-items:center;justify-content:center;min-height:100vh;margin:0;padding:1rem}\n.card{background:#161b22;border:1px solid #30363d;border-radius:12px;padding:2rem;max-width:420px;text-align:center}\nh1{color:#e6edf3;margin:0 0 .75rem;font-size:1.4rem}p{color:#8b949e;margin:0;line-height:1.5}\n</style></head><body><div class=\"card\"><h1>";

/// The landing page between the heading and the text.
pub const PAGE_MIDDLE: &'static str = "</h1><p>";

/// The end of the landing page.
pub const PAGE_TAIL: &'static str = "</p></div></body></html>";

/// HTML escape of one character: `&`, `<`, `>`, `"` and `'` become entities.
pub open spec fn html_escape_char(c: char) -> Seq<char> {
    if c == '&' {
        "&amp;"@
    } else if c == '<' {
        "&lt;"@
    } else if c == '>' {
        "&gt;"@
    } else if c == '"' {
        "&quot;"@
    } else if c == '\'' {
        "&#39;"@
    } else {
        seq![c]
    }
}

/// HTML escape of a text, character by character.
pub open spec fn html_escape_spec(s: Seq<char>) -> Seq<char>
    decreases s.len(),
{
    if s.len() == 0 {
        seq![]
    } else {
        html_escape_spec(s.drop_last()) + html_escape_char(s.last())
    }
}

/// The landing page with this title and text, both escaped.
pub open spec fn landing_page_spec(title: Seq<char>, body: Seq<char>) -> Seq<char> {
    PAGE_HEAD@ + html_escape_spec(title) + PAGE_STYLE@ + html_escape_spec(title) + PAGE_MIDDLE@
        + html_escape_spec(body) + PAGE_TAIL@
}

/// Where a member without a valid session is sent: the Auth Gateway's login,
/// returning to this claim link.
pub open spec fn login_redirect_spec(registration_id: Seq<char>) -> Seq<char> {
    LOGIN_PATH_PREFIX@ + url_encode_spec(CLAIM_PATH_PREFIX@ + registration_id)
}

/// The sign-in redirect hands the gateway the claim path, which decodes back
/// to `/lootlabs-reward-role/claim/{registration_id}`: the member returns to
/// the claim link they opened.
pub proof fn lemma_login_redirect_returns_to_claim(registration_id: Seq<char>)
    ensures
        ({
            let url = login_redirect_spec(registration_id);
            let prefix_len = LOGIN_PATH_PREFIX@.len() as int;
            &&& LOGIN_PATH_PREFIX@.is_prefix_of(url)
            &&& url_decode_spec(url.subrange(prefix_len, url.len() as int)) == Some(
                CLAIM_PATH_PREFIX@ + registration_id,
            )
        }),
{
    let url = login_redirect_spec(registration_id);
    let encoded = url_encode_spec(CLAIM_PATH_PREFIX@ + registration_id);
    assert(url.subrange(LOGIN_PATH_PREFIX@.len() as int, url.len() as int) =~= encoded);
    assert(url.subrange(0, LOGIN_PATH_PREFIX@.len() as int) =~= LOGIN_PATH_PREFIX@);
    lemma_url_decode_encode(CLAIM_PATH_PREFIX@ + registration_id);
}

/// Characters that HTML gives a meaning to outside entities' text.
pub open spec fn is_html_special(c: char) -> bool {
    c == '<' || c == '>' || c == '"' || c == '\''
}

/// Escaped text holds no `<`, `>`, `"` or `'`, so it can stand in an element
/// or an attribute without changing the markup.
pub proof fn lemma_html_escape_has_no_markup(s: Seq<char>)
    ensures
        forall|i: int|
            0 <= i < html_escape_spec(s).len() ==> !is_html_special(
                #[trigger] html_escape_spec(s)[i],
            ),
    decreases s.len(),
{
    if s.len() > 0 {
        lemma_html_escape_has_no_markup(s.drop_last());
        reveal_strlit("&amp;");
        reveal_strlit("&lt;");
        reveal_strlit("&gt;");
        reveal_strlit("&quot;");
        reveal_strlit("&#39;");
        let prev = html_escape_spec(s.drop_last());
        let last = html_escape_char(s.last());
        assert forall|i: int| 0 <= i < html_escape_spec(s).len() implies !is_html_special(
            #[trigger] html_escape_spec(s)[i],
        ) by {
            if i >= prev.len() {
                assert(html_escape_spec(s)[i] == last[i - prev.len()]);
            } else {
                assert(html_escape_spec(s)[i] == prev[i]);
            }
        }
    }
}

/// Text without any of `&`, `<`, `>`, `"`, `'` is left as it is.
pub proof fn lemma_html_escape_plain(s: Seq<char>)
    requires
        forall|i: int| 0 <= i < s.len() ==> !is_html_special(#[trigger] s[i]) && s[i] != '&',
    ensures
        html_escape_spec(s) == s,
    decreases s.len(),
{
    if s.len() > 0 {
        lemma_html_escape_plain(s.drop_last());
        assert(s.drop_last() + seq![s.last()] =~= s);
    }
}

/// Escapes `&`, `<`, `>`, `"` and `'` for HTML text and attribute values.
pub fn html_escape(s: &str) -> (res: String)
    ensures
        res@ == html_escape_spec(s@),
{
    let cs = chars_of(s);
    let mut res = String::new();
    let mut i: usize = 0;
    while i < cs.len()
        invariant
            i <= cs.len(),
            cs@ == s@,
            res@ == html_escape_spec(s@.take(i as int)),
        decreases cs.len() - i,
    {
        let c = cs[i];
        if c == '&' {
            append_str(&mut res, "&amp;");
        } else if c == '<' {
            append_str(&mut res, "&lt;");
        } else if c == '>' {
            append_str(&mut res, "&gt;");
        } else if c == '"' {
            append_str(&mut res, "&quot;");
        } else if c == '\'' {
            append_str(&mut res, "&#39;");
        } else {
            crate::text::push_char(&mut res, c);
        }
        proof {
            assert(s@.take(i + 1).drop_last() =~= s@.take(i as int));
            assert(s@.take(i + 1).last() == c);
        }
        i = i + 1;
    }
    assert(s@.take(cs.len() as int) =~= s@);
    res
}

/// The small HTML page shown where a claim cannot go ahead.
pub fn landing_page(title: &str, body: &str) -> (res: String)
    ensures
        res@ == landing_page_spec(title@, body@),
{
    let t = html_escape(title);
    let b = html_escape(body);
    let mut page = PAGE_HEAD.to_owned();
    append_str(&mut page, t.as_str());
    append_str(&mut page, PAGE_STYLE);
    append_str(&mut page, t.as_str());
    append_str(&mut page, PAGE_MIDDLE);
    append_str(&mut page, b.as_str());
    append_str(&mut page, PAGE_TAIL);
    page
}

/// The sign-in redirect for a member without a valid session:
/// `/auth/login?return_to=` and the percent-encoded claim path.
pub fn login_redirect_url(registration_id: &str) -> (res: String)
    ensures
        res@ == login_redirect_spec(registration_id@),
{
    let mut path = CLAIM_PATH_PREFIX.to_owned();
    append_str(&mut path, registration_id);
    let mut url = LOGIN_PATH_PREFIX.to_owned();
    let encoded = url_encode(path.as_str());
    append_str(&mut url, encoded.as_str());
    url
}

/// The Discord id a claim proceeds for, or the sign-in redirect where the
/// session cookie is missing or does not verify at some instant.
pub fn claim_gate(session_cookie: Option<&str>, secret: &str, registration_id: &str) -> (res: Result<
    String,
    String,
>)
    ensures
        match session_cookie {
            None => res matches Err(url) && url@ == login_redirect_spec(registration_id@),
            Some(c) => exists|now: i64|
                #![trigger verify_session_spec(c@, secret@, now)]
                match verify_session_spec(c@, secret@, now) {
                    Some((id, _name)) => res matches Ok(d) && d@ == id,
                    None => res matches Err(url) && url@ == login_redirect_spec(registration_id@),
                },
        },
{
    let verified = match session_cookie {
        Some(c) => verify_session(c, secret),
        None => None,
    };
    match verified {
        Some((id, _name)) => Ok(id),
        None => Err(login_redirect_url(registration_id)),
    }
}

/// Where a signed-in member goes, given the registration's saved short link
/// (`None`: no such registration; `Some(None)`: not configured).
pub enum ClaimTarget {
    /// Issue a claim token and redirect to this short link.
    ShortLink(String),
    /// Show this HTML page instead.
    Landing(String),
}

/// Picks between the Loot Labs short link and a landing page: "not found"
/// where the registration is gone, "not set up" where its short link is
/// missing or blank.
pub fn claim_target(registration: Option<Option<String>>) -> (res: ClaimTarget)
    ensures
        match registration {
            None => res matches ClaimTarget::Landing(p) && p@ == landing_page_spec(
                NOT_FOUND_TITLE@,
                NOT_FOUND_BODY@,
            ),
            Some(None) => res matches ClaimTarget::Landing(p) && p@ == landing_page_spec(
                NOT_SET_UP_TITLE@,
                NOT_SET_UP_BODY@,
            ),
            Some(Some(s)) => if trim_spec(s@).len() == 0 {
                res matches ClaimTarget::Landing(p) && p@ == landing_page_spec(
                    NOT_SET_UP_TITLE@,
                    NOT_SET_UP_BODY@,
                )
            } else {
                res matches ClaimTarget::ShortLink(l) && l@ == s@
            },
        },
{
    match registration {
        None => ClaimTarget::Landing(landing_page(NOT_FOUND_TITLE, NOT_FOUND_BODY)),
        Some(None) => ClaimTarget::Landing(landing_page(NOT_SET_UP_TITLE, NOT_SET_UP_BODY)),
        Some(Some(s)) => {
            if trim(s.as_str()).as_str().is_empty() {
                ClaimTarget::Landing(landing_page(NOT_SET_UP_TITLE, NOT_SET_UP_BODY))
            } else {
                ClaimTarget::ShortLink(s)
            }
        },
    }
}

/// When a claim token issued at `now_nanos` (nanoseconds since the Unix
/// epoch) expires: 24 hours later.
pub fn claim_token_expiry(now_nanos: i128) -> (res: i128)
    requires
        now_nanos + CLAIM_TOKEN_TTL_HOURS * NANOS_PER_HOUR <= i128::MAX,
    ensures
        res == now_nanos + CLAIM_TOKEN_TTL_HOURS * NANOS_PER_HOUR,
{
    now_nanos + CLAIM_TOKEN_TTL_HOURS * NANOS_PER_HOUR
}

} // verus!
