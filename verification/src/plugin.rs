//! The rules behind the RoleLogic plugin contract: `POST /register`,
//! `GET /config`, `POST /config` and `DELETE /config`.

use vstd::prelude::*;

use crate::error::AppError;
use crate::models::{
    opt_view, ConfigField, ConfigFormValues, ConfigResponse, ConfigSection, FieldValidation,
    RegisterBody,
};
use crate::text::{append_str, starts_with, strip_prefix, trim, trim_spec};

verus! {

// ---------------------------------------------------------------------------
// Texts
// ---------------------------------------------------------------------------

/// Start of the answer to a `/register` body that is not `{guild_id, role_id}`;
/// the parser's message follows it.
pub const REGISTER_BODY_ERROR_PREFIX: &'static str = "Expected JSON {\"guild_id\": \"...\", \"role_id\": \"...\"}; parse error: ";

/// Answer to a `/register` body whose ids are blank.
pub const REGISTER_IDS_REQUIRED: &'static str = "guild_id and role_id are required and must be non-empty strings";

/// Answer to a short link that is not an HTTPS URL.
pub const SHORT_LINK_SCHEME_ERROR: &'static str = "Loot Labs short link must start with https://";

/// Answer to a short link longer than `MAX_SHORT_LINK_BYTES`.
pub const SHORT_LINK_TOO_LONG: &'static str = "Short link too long";

/// Answer to a role duration above `MAX_ROLE_DURATION_HOURS`.
pub const DURATION_TOO_LONG: &'static str = "Role duration too long (max 10 years)";

/// Longest accepted short link, in bytes.
pub const MAX_SHORT_LINK_BYTES: usize = 1000;

/// Longest accepted role duration, in hours (10 years).
pub const MAX_ROLE_DURATION_HOURS: i32 = 87600;

pub const PLUGIN_NAME: &'static str = "Loot Labs Reward Role";

pub const PLUGIN_DESCRIPTION: &'static str = "Members complete one Loot Labs task and receive a Discord role. Optional duration.";

pub const POSTBACK_SHARED_TITLE: &'static str = "Step 1 — Postback URL (already configured ✓)";

pub const POSTBACK_SHARED_DESCRIPTION: &'static str = "This Discord server already has another role link wired to Loot Labs, so the postback URL is shared and doesn't need to be pasted again. If you ever need it (e.g. switching Loot Labs accounts), it's shown below.";

pub const POSTBACK_SHARED_LABEL: &'static str = "Loot Labs Postback URL (per-guild, already set)";

pub const POSTBACK_FIRST_TITLE: &'static str = "Step 1 — Postback URL (one-time per server)";

pub const POSTBACK_FIRST_DESCRIPTION: &'static str = "Paste this URL into Loot Labs → https://creators.lootlabs.gg/advanced → Postback URL. Tick the {CLICK_ID} parameter (Loot Labs requires it). You only need to do this once for the whole Discord server — future role links in this server will reuse the same postback URL automatically.";

pub const POSTBACK_FIRST_LABEL: &'static str = "Loot Labs Postback URL";

pub const SHORT_LINK_TITLE: &'static str = "Step 2 — Loot Labs short link";

pub const SHORT_LINK_DESCRIPTION: &'static str = "Create a link in your Loot Labs dashboard → https://creators.lootlabs.gg/dashboard Set the destination to a Discord message link (right-click → Copy Message Link) so users return after completing the task. Paste the generated short link here as-is.";

pub const SHORT_LINK_LABEL: &'static str = "Loot Labs short link";

pub const SHORT_LINK_FIELD_DESCRIPTION: &'static str = "Bare short link from your Loot Labs dashboard.";

pub const SHORT_LINK_PLACEHOLDER: &'static str = "https://links.lootlabs.gg/s?ABCDEF";

pub const DURATION_TITLE: &'static str = "Step 3 — Role duration";

pub const DURATION_DESCRIPTION: &'static str = "How long the role stays granted after a successful completion. Set to 0 (or leave blank) for a permanent role that never expires.";

pub const DURATION_LABEL: &'static str = "Role duration (hours)";

pub const DURATION_FIELD_DESCRIPTION: &'static str = "0 = permanent. 24 = role lasts a day. Max 87600 (10 years).";

pub const CLAIM_LINK_TITLE: &'static str = "Step 4 — Share the claim link";

pub const CLAIM_LINK_DESCRIPTION: &'static str = "Send this link to your Discord members (e.g. in a sticky message or button). Members log in with Discord, complete one Loot Labs task, and get the role.";

pub const CLAIM_LINK_LABEL: &'static str = "Member claim link";

// ---------------------------------------------------------------------------
// Specifications
// ---------------------------------------------------------------------------

/// The view of an optional string slice.
pub open spec fn opt_str_view(o: Option<&str>) -> Option<Seq<char>> {
    match o {
        Some(s) => Some(s@),
        None => None,
    }
}

/// `e` is a `BadRequest` whose text is `msg`.
pub open spec fn is_bad_request(e: AppError, msg: Seq<char>) -> bool {
    e matches AppError::BadRequest(m) && m@ == msg
}

/// What follows the scheme of an `Authorization` value: `Token ` (the
/// RoleLogic spelling), `token ` or an accidental `Bearer `, tried in that
/// order.
pub open spec fn auth_scheme_rest(raw: Seq<char>) -> Option<Seq<char>> {
    if "Token "@.is_prefix_of(raw) {
        Some(raw.subrange("Token "@.len() as int, raw.len() as int))
    } else if "token "@.is_prefix_of(raw) {
        Some(raw.subrange("token "@.len() as int, raw.len() as int))
    } else if "Bearer "@.is_prefix_of(raw) {
        Some(raw.subrange("Bearer "@.len() as int, raw.len() as int))
    } else {
        None
    }
}

/// The RoleLogic token an `Authorization` value carries: the trimmed rest
/// after the scheme, where it is not empty.
pub open spec fn auth_token_spec(raw: Option<Seq<char>>) -> Option<Seq<char>> {
    match raw {
        None => None,
        Some(r) => match auth_scheme_rest(r) {
            None => None,
            Some(rest) => if trim_spec(rest).len() > 0 {
                Some(trim_spec(rest))
            } else {
                None
            },
        },
    }
}

/// The short link as saved: trimmed, and absent where blank.
pub open spec fn normalized_short_link(link: Option<Seq<char>>) -> Option<Seq<char>> {
    match link {
        Some(l) => if trim_spec(l).len() > 0 {
            Some(trim_spec(l))
        } else {
            None
        },
        None => None,
    }
}

/// The role duration as saved: absent (permanent) where blank, zero or negative.
pub open spec fn normalized_duration(hours: Option<i32>) -> Option<i32> {
    match hours {
        Some(h) => if h > 0 {
            Some(h)
        } else {
            None
        },
        None => None,
    }
}

/// Whether a link starts with `https://`: short links must be HTTPS.
pub open spec fn has_https_scheme(l: Seq<char>) -> bool {
    "https://"@.is_prefix_of(l)
}

/// What `POST /config` saves from the submitted values, or the text of the
/// `BadRequest` it answers: the link is checked first (scheme, then length
/// in UTF-8 bytes), then the duration.
pub open spec fn config_update_spec(link: Option<Seq<char>>, hours: Option<i32>) -> Result<
    (Option<Seq<char>>, Option<i32>),
    Seq<char>,
> {
    let l = normalized_short_link(link);
    let h = normalized_duration(hours);
    if l is Some && !has_https_scheme(l->0) {
        Err(SHORT_LINK_SCHEME_ERROR@)
    } else if l is Some && vstd::utf8::encode_utf8(l->0).len() > MAX_SHORT_LINK_BYTES {
        Err(SHORT_LINK_TOO_LONG@)
    } else if h is Some && h->0 > MAX_ROLE_DURATION_HOURS {
        Err(DURATION_TOO_LONG@)
    } else {
        Ok((l, h))
    }
}

/// The guild's postback URL: `{base}/postback?k={secret}`.
pub open spec fn postback_url_spec(base_url: Seq<char>, secret: Seq<char>) -> Seq<char> {
    base_url + "/postback?k="@ + secret
}

/// A role link's member claim link: `{base}/claim/{registration_id}`.
pub open spec fn claim_link_spec(base_url: Seq<char>, registration_id: Seq<char>) -> Seq<char> {
    base_url + "/claim/"@ + registration_id
}

/// `f` is the field with these texts, validation and value.
pub open spec fn field_is(
    f: ConfigField,
    field_type: Seq<char>,
    key: Seq<char>,
    label: Seq<char>,
    description: Seq<char>,
    placeholder: Option<Seq<char>>,
    validation: Option<FieldValidation>,
    value: Option<Seq<char>>,
) -> bool {
    &&& f.field_type@ == field_type
    &&& f.key@ == key
    &&& f.label@ == label
    &&& f.description@ == description
    &&& opt_view(f.placeholder) == placeholder
    &&& f.validation == validation
    &&& opt_view(f.value) == value
}

/// `s` has this title and description and a single field.
pub open spec fn section_is(s: ConfigSection, title: Seq<char>, description: Seq<char>) -> bool {
    &&& s.title@ == title
    &&& opt_view(s.description) == Some(description)
    &&& s.fields@.len() == 1
}

/// A blank, zero or negative role duration is saved as permanent (no
/// duration), whatever the link.
pub proof fn lemma_nonpositive_duration_is_permanent(link: Option<Seq<char>>, hours: Option<i32>)
    requires
        match hours {
            Some(h) => h <= 0,
            None => true,
        },
    ensures
        config_update_spec(link, hours) matches Ok((_, h)) ==> h is None,
{
}

/// The token is the header's text after the scheme, trimmed and otherwise
/// untouched: for each accepted scheme, `scheme + t` yields exactly the
/// trimmed `t`, character for character, and nothing where it is blank.
pub proof fn lemma_token_taken_verbatim(t: Seq<char>)
    ensures
        auth_token_spec(Some("Token "@ + t)) == (if trim_spec(t).len() > 0 {
            Some(trim_spec(t))
        } else {
            None
        }),
        auth_token_spec(Some("token "@ + t)) == (if trim_spec(t).len() > 0 {
            Some(trim_spec(t))
        } else {
            None
        }),
        auth_token_spec(Some("Bearer "@ + t)) == (if trim_spec(t).len() > 0 {
            Some(trim_spec(t))
        } else {
            None
        }),
{
    reveal_strlit("Token ");
    reveal_strlit("token ");
    reveal_strlit("Bearer ");
    let a = "Token "@ + t;
    let b = "token "@ + t;
    let c = "Bearer "@ + t;
    assert("Token "@.is_prefix_of(a));
    assert(a.subrange("Token "@.len() as int, a.len() as int) =~= t);
    assert(!"Token "@.is_prefix_of(b)) by {
        assert("Token "@[0] == 'T');
        assert(b.subrange(0, "Token "@.len() as int)[0] == 't');
    }
    assert("token "@.is_prefix_of(b));
    assert(b.subrange("token "@.len() as int, b.len() as int) =~= t);
    assert(!"Token "@.is_prefix_of(c)) by {
        assert("Token "@[0] == 'T');
        assert(c.subrange(0, "Token "@.len() as int)[0] == 'B');
    }
    assert(!"token "@.is_prefix_of(c)) by {
        assert("token "@[0] == 't');
        assert(c.subrange(0, "token "@.len() as int)[0] == 'B');
    }
    assert("Bearer "@.is_prefix_of(c));
    assert(c.subrange("Bearer "@.len() as int, c.len() as int) =~= t);
}

/// Whatever the header, an accepted token is a stretch of the header's own
/// characters, taken after the scheme, unchanged.
pub proof fn lemma_token_is_part_of_header(raw: Seq<char>)
    ensures
        auth_token_spec(Some(raw)) matches Some(tok) ==> exists|i: int|
            0 < i && i + tok.len() <= raw.len() && #[trigger] raw.subrange(i, i + tok.len()) == tok,
{
    if let Some(tok) = auth_token_spec(Some(raw)) {
        let rest = auth_scheme_rest(raw)->0;
        let off = raw.len() - rest.len();
        assert(off > 0) by {
            reveal_strlit("Token ");
            reveal_strlit("token ");
            reveal_strlit("Bearer ");
        }
        assert(rest == raw.subrange(off, raw.len() as int));
        let (i, j) = crate::text::lemma_trim_is_inner_part(rest);
        assert(raw.subrange(off + i, off + i + tok.len()) =~= tok);
    }
}

/// The postback URL carries the whole guild secret: after
/// `{base}/postback?k=` comes exactly the secret, nothing cut or added.
pub proof fn lemma_postback_url_carries_whole_secret(base_url: Seq<char>, secret: Seq<char>)
    ensures
        ({
            let prefix = base_url + "/postback?k="@;
            let url = postback_url_spec(base_url, secret);
            &&& prefix.is_prefix_of(url)
            &&& url.subrange(prefix.len() as int, url.len() as int) == secret
        }),
{
    let prefix = base_url + "/postback?k="@;
    let url = postback_url_spec(base_url, secret);
    assert(url =~= prefix + secret);
    assert(url.subrange(prefix.len() as int, url.len() as int) =~= secret);
    assert(url.subrange(0, prefix.len() as int) =~= prefix);
}

/// The claim link carries the whole registration id after `{base}/claim/`.
pub proof fn lemma_claim_link_carries_whole_id(base_url: Seq<char>, registration_id: Seq<char>)
    ensures
        ({
            let prefix = base_url + "/claim/"@;
            let url = claim_link_spec(base_url, registration_id);
            &&& prefix.is_prefix_of(url)
            &&& url.subrange(prefix.len() as int, url.len() as int) == registration_id
        }),
{
    let prefix = base_url + "/claim/"@;
    let url = claim_link_spec(base_url, registration_id);
    assert(url =~= prefix + registration_id);
    assert(url.subrange(prefix.len() as int, url.len() as int) =~= registration_id);
    assert(url.subrange(0, prefix.len() as int) =~= prefix);
}

// ---------------------------------------------------------------------------
// Requests
// ---------------------------------------------------------------------------

/// Reads the RoleLogic token from the `Authorization` header value (absent
/// where the header is missing or not visible ASCII). Accepts `Token `,
/// `token ` and `Bearer `; the token is trimmed and must not be empty.
pub fn extract_auth_token(authorization: Option<&str>) -> (res: Result<String, AppError>)
    ensures
        match auth_token_spec(opt_str_view(authorization)) {
            Some(t) => res matches Ok(r) && r@ == t,
            None => res == Err::<String, AppError>(AppError::Unauthorized),
        },
{
    let raw = match authorization {
        Some(r) => r,
        None => {
            return Err(AppError::Unauthorized);
        },
    };
    let rest = match strip_prefix(raw, "Token ") {
        Some(r) => r,
        None => match strip_prefix(raw, "token ") {
            Some(r) => r,
            None => match strip_prefix(raw, "Bearer ") {
                Some(r) => r,
                None => {
                    return Err(AppError::Unauthorized);
                },
            },
        },
    };
    let token = trim(rest.as_str());
    if token.as_str().is_empty() {
        return Err(AppError::Unauthorized);
    }
    Ok(token)
}

/// Checks a `/register` request: the RoleLogic token first, then the body
/// (`Err` holds the JSON parser's message), then that both ids are not
/// blank. Returns the token and the body.
pub fn validate_register(authorization: Option<&str>, body: Result<RegisterBody, String>) -> (res:
    Result<(String, RegisterBody), AppError>)
    ensures
        match auth_token_spec(opt_str_view(authorization)) {
            None => res == Err::<(String, RegisterBody), AppError>(AppError::Unauthorized),
            Some(t) => match body {
                Err(msg) => res matches Err(e) && is_bad_request(
                    e,
                    REGISTER_BODY_ERROR_PREFIX@ + msg@,
                ),
                Ok(b) => if trim_spec(b.guild_id@).len() == 0 || trim_spec(b.role_id@).len() == 0 {
                    res matches Err(e) && is_bad_request(e, REGISTER_IDS_REQUIRED@)
                } else {
                    res matches Ok((tok, rb)) && tok@ == t && rb == b
                },
            },
        },
{
    let token = match extract_auth_token(authorization) {
        Ok(t) => t,
        Err(e) => {
            return Err(e);
        },
    };
    let parsed = match body {
        Ok(b) => b,
        Err(msg) => {
            let mut text = REGISTER_BODY_ERROR_PREFIX.to_owned();
            append_str(&mut text, msg.as_str());
            return Err(AppError::BadRequest(text));
        },
    };
    if trim(parsed.guild_id.as_str()).as_str().is_empty() || trim(
        parsed.role_id.as_str(),
    ).as_str().is_empty() {
        return Err(AppError::BadRequest(REGISTER_IDS_REQUIRED.to_owned()));
    }
    Ok((token, parsed))
}

/// What `POST /config` saves: the short link and the role duration in hours
/// (`None` = permanent).
#[derive(Debug, Clone, PartialEq, Eq)]
pub struct ConfigUpdate {
    pub lootlabs_short_link: Option<String>,
    pub role_duration_hours: Option<i32>,
}

/// Normalises and checks the values of `POST /config`: the short link is
/// trimmed (blank = none) and must be an HTTPS URL of at most 1000 bytes;
/// the duration, already rounded to whole hours, is permanent where blank,
/// zero or negative and may not exceed 87600 hours.
pub fn validate_config(short_link: Option<&str>, role_duration_hours: Option<i32>) -> (res: Result<
    ConfigUpdate,
    AppError,
>)
    ensures
        match config_update_spec(opt_str_view(short_link), role_duration_hours) {
            Ok((l, h)) => res matches Ok(u) && opt_view(u.lootlabs_short_link) == l
                && u.role_duration_hours == h,
            Err(msg) => res matches Err(e) && is_bad_request(e, msg),
        },
{
    let link: Option<String> = match short_link {
        Some(l) => {
            let t = trim(l);
            if t.as_str().is_empty() {
                None
            } else {
                Some(t)
            }
        },
        None => None,
    };
    match &link {
        Some(l) => {
            if !starts_with(l.as_str(), "https://") {
                return Err(AppError::BadRequest(SHORT_LINK_SCHEME_ERROR.to_owned()));
            }
            if l.as_str().as_bytes().len() > MAX_SHORT_LINK_BYTES {
                return Err(AppError::BadRequest(SHORT_LINK_TOO_LONG.to_owned()));
            }
        },
        None => {},
    }
    let hours: Option<i32> = match role_duration_hours {
        Some(h) => if h > 0 {
            Some(h)
        } else {
            None
        },
        None => None,
    };
    match hours {
        Some(h) => {
            if h > MAX_ROLE_DURATION_HOURS {
                return Err(AppError::BadRequest(DURATION_TOO_LONG.to_owned()));
            }
        },
        None => {},
    }
    Ok(ConfigUpdate { lootlabs_short_link: link, role_duration_hours: hours })
}

/// The answer of `DELETE /config` once the deletion ran: `Unauthorized`
/// where no registration matched the guild, the role and the token.
pub fn delete_result(rows_affected: u64) -> (res: Result<(), AppError>)
    ensures
        rows_affected == 0 ==> res == Err::<(), AppError>(AppError::Unauthorized),
        rows_affected > 0 ==> res == Ok::<(), AppError>(()),
{
    if rows_affected == 0 {
        Err(AppError::Unauthorized)
    } else {
        Ok(())
    }
}

// ---------------------------------------------------------------------------
// The config form
// ---------------------------------------------------------------------------

/// The guild's postback URL: `{base}/postback?k={secret}`.
pub fn postback_url(base_url: &str, secret: &str) -> (res: String)
    ensures
        res@ == postback_url_spec(base_url@, secret@),
{
    let mut s = base_url.to_owned();
    append_str(&mut s, "/postback?k=");
    append_str(&mut s, secret);
    s
}

/// A role link's member claim link: `{base}/claim/{registration_id}`.
pub fn claim_link(base_url: &str, registration_id: &str) -> (res: String)
    ensures
        res@ == claim_link_spec(base_url@, registration_id@),
{
    let mut s = base_url.to_owned();
    append_str(&mut s, "/claim/");
    append_str(&mut s, registration_id);
    s
}

/// The view of an optional string slice, as an owned string.
fn owned_opt(o: Option<&str>) -> (res: Option<String>)
    ensures
        opt_view(res) == opt_str_view(o),
{
    match o {
        Some(s) => Some(s.to_owned()),
        None => None,
    }
}

fn make_field(
    field_type: &str,
    key: &str,
    label: &str,
    description: &str,
    placeholder: Option<&str>,
    validation: Option<FieldValidation>,
    value: Option<String>,
) -> (f: ConfigField)
    ensures
        field_is(
            f,
            field_type@,
            key@,
            label@,
            description@,
            opt_str_view(placeholder),
            validation,
            opt_view(value),
        ),
{
    ConfigField {
        field_type: field_type.to_owned(),
        key: key.to_owned(),
        label: label.to_owned(),
        description: description.to_owned(),
        placeholder: owned_opt(placeholder),
        validation,
        value,
    }
}

fn make_section(title: &str, description: &str, field: ConfigField) -> (s: ConfigSection)
    ensures
        section_is(s, title@, description@),
        s.fields@[0] == field,
{
    let mut fields: Vec<ConfigField> = Vec::new();
    fields.push(field);
    ConfigSection {
        title: title.to_owned(),
        description: Some(description.to_owned()),
        fields,
    }
}

/// The `GET /config` form for a registration: step 1 shows the guild's
/// postback URL, with a softer text where `other_links` other role links of
/// the guild exist; step 2 asks for the short link; step 3 for the role
/// duration; step 4 shows the claim link. The saved values pre-fill it
/// (blank link and duration 0 where unset).
pub fn build_config_response(
    base_url: &str,
    guild_secret: &str,
    registration_id: &str,
    other_links: i64,
    lootlabs_short_link: Option<String>,
    role_duration_hours: Option<i32>,
) -> (res: ConfigResponse)
    ensures
        res.version == 1,
        res.name@ == PLUGIN_NAME@,
        res.description@ == PLUGIN_DESCRIPTION@,
        res.sections@.len() == 4,
        other_links > 0 ==> section_is(
            res.sections@[0],
            POSTBACK_SHARED_TITLE@,
            POSTBACK_SHARED_DESCRIPTION@,
        ) && field_is(
            res.sections@[0].fields@[0],
            "display"@,
            "postback_url"@,
            POSTBACK_SHARED_LABEL@,
            ""@,
            None,
            None,
            Some(postback_url_spec(base_url@, guild_secret@)),
        ),
        other_links <= 0 ==> section_is(
            res.sections@[0],
            POSTBACK_FIRST_TITLE@,
            POSTBACK_FIRST_DESCRIPTION@,
        ) && field_is(
            res.sections@[0].fields@[0],
            "display"@,
            "postback_url"@,
            POSTBACK_FIRST_LABEL@,
            ""@,
            None,
            None,
            Some(postback_url_spec(base_url@, guild_secret@)),
        ),
        section_is(res.sections@[1], SHORT_LINK_TITLE@, SHORT_LINK_DESCRIPTION@),
        field_is(
            res.sections@[1].fields@[0],
            "url"@,
            "lootlabs_short_link"@,
            SHORT_LINK_LABEL@,
            SHORT_LINK_FIELD_DESCRIPTION@,
            Some(SHORT_LINK_PLACEHOLDER@),
            Some(FieldValidation::Required),
            None,
        ),
        section_is(res.sections@[2], DURATION_TITLE@, DURATION_DESCRIPTION@),
        field_is(
            res.sections@[2].fields@[0],
            "number"@,
            "role_duration_hours"@,
            DURATION_LABEL@,
            DURATION_FIELD_DESCRIPTION@,
            Some("24"@),
            Some(FieldValidation::Range { min: 0, max: 87600 }),
            None,
        ),
        section_is(res.sections@[3], CLAIM_LINK_TITLE@, CLAIM_LINK_DESCRIPTION@),
        field_is(
            res.sections@[3].fields@[0],
            "display"@,
            "claim_link"@,
            CLAIM_LINK_LABEL@,
            ""@,
            None,
            None,
            Some(claim_link_spec(base_url@, registration_id@)),
        ),
        res.values.lootlabs_short_link@ == match lootlabs_short_link {
            Some(l) => l@,
            None => Seq::<char>::empty(),
        },
        res.values.role_duration_hours == match role_duration_hours {
            Some(h) => h,
            None => 0,
        },
{
    let postback = postback_url(base_url, guild_secret);
    let claim = claim_link(base_url, registration_id);
    let step1 = if other_links > 0 {
        make_section(
            POSTBACK_SHARED_TITLE,
            POSTBACK_SHARED_DESCRIPTION,
            make_field("display", "postback_url", POSTBACK_SHARED_LABEL, "", None, None, Some(postback)),
        )
    } else {
        make_section(
            POSTBACK_FIRST_TITLE,
            POSTBACK_FIRST_DESCRIPTION,
            make_field("display", "postback_url", POSTBACK_FIRST_LABEL, "", None, None, Some(postback)),
        )
    };
    let step2 = make_section(
        SHORT_LINK_TITLE,
        SHORT_LINK_DESCRIPTION,
        make_field(
            "url",
            "lootlabs_short_link",
            SHORT_LINK_LABEL,
            SHORT_LINK_FIELD_DESCRIPTION,
            Some(SHORT_LINK_PLACEHOLDER),
            Some(FieldValidation::Required),
            None,
        ),
    );
    let step3 = make_section(
        DURATION_TITLE,
        DURATION_DESCRIPTION,
        make_field(
            "number",
            "role_duration_hours",
            DURATION_LABEL,
            DURATION_FIELD_DESCRIPTION,
            Some("24"),
            Some(FieldValidation::Range { min: 0, max: 87600 }),
            None,
        ),
    );
    let step4 = make_section(
        CLAIM_LINK_TITLE,
        CLAIM_LINK_DESCRIPTION,
        make_field("display", "claim_link", CLAIM_LINK_LABEL, "", None, None, Some(claim)),
    );
    let mut sections: Vec<ConfigSection> = Vec::new();
    sections.push(step1);
    sections.push(step2);
    sections.push(step3);
    sections.push(step4);
    let link_value = match lootlabs_short_link {
        Some(l) => l,
        None => String::new(),
    };
    let hours_value: i32 = match role_duration_hours {
        Some(h) => h,
        None => 0,
    };
    ConfigResponse {
        version: 1,
        name: PLUGIN_NAME.to_owned(),
        description: PLUGIN_DESCRIPTION.to_owned(),
        sections,
        values: ConfigFormValues { lootlabs_short_link: link_value, role_duration_hours: hours_value },
    }
}

} // verus!
