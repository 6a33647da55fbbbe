//! The Loot Labs postback: `GET /postback?k={guild_secret}&CLICK_ID={puid}`.
//!
//! Loot Labs has no signature scheme: a postback is accepted when its `k`
//! equals the secret of the guild that the `puid` token belongs to, and the
//! token is neither used nor expired. The endpoint answers `{"ok": true}`
//! whatever the verdict, so callers learn nothing from it.

use vstd::prelude::*;

use crate::claim::{CLAIM_TOKEN_TTL_HOURS, NANOS_PER_HOUR};
use crate::codec::ct_eq_bytes;
use crate::models::opt_view;
use crate::text::{eq_ignore_ascii_case, eq_ignore_ascii_case_spec};

verus! {

/// The value of the first query parameter whose name equals `name` up to
/// ASCII case.
pub open spec fn query_param_spec(q: Seq<(String, String)>, name: Seq<char>) -> Option<Seq<char>>
    decreases q.len(),
{
    if q.len() == 0 {
        None
    } else if eq_ignore_ascii_case_spec(q[0].0@, name) {
        Some(q[0].1@)
    } else {
        query_param_spec(q.drop_first(), name)
    }
}

/// Why a postback grants nothing.
#[derive(Debug, Clone, Copy, PartialEq, Eq)]
pub enum PostbackRejection {
    /// No `k` parameter.
    MissingSecret,
    /// No `click_id` parameter, or an empty one: the member skipped the claim flow.
    MissingClickId,
    /// No claim token with that `puid`.
    UnknownToken,
    /// `k` is not the secret of the token's guild.
    SecretMismatch,
    /// The token was used already.
    AlreadyConsumed,
    /// The token's 24 hours are over.
    Expired,
}

/// What the lookup of a `puid` finds: the secret of its guild, whether the
/// token was used, when it expires and the role link's duration.
pub struct ClaimTokenRow {
    pub guild_secret: String,
    pub consumed: bool,
    /// Nanoseconds since the Unix epoch.
    pub expires_at_nanos: i128,
    /// `None`, zero or negative: the role is permanent.
    pub role_duration_hours: Option<i32>,
}

/// When a claim granted at `now` expires: `None` (never) where the duration
/// is missing, zero or negative, else `now` plus that many hours.
pub open spec fn claim_expiry_spec(hours: Option<i32>, now: i128) -> Option<int> {
    match hours {
        Some(h) => if h > 0 {
            Some(now + h * NANOS_PER_HOUR)
        } else {
            None
        },
        None => None,
    }
}

/// The claim's expiry is a representable instant.
pub open spec fn claim_expiry_fits(hours: Option<i32>, now: i128) -> bool {
    match claim_expiry_spec(hours, now) {
        Some(t) => t <= i128::MAX,
        None => true,
    }
}

/// The verdict on a postback whose `k` is `provided_k` and whose token
/// lookup found `row`, at time `now` (nanoseconds): the claim's expiry
/// (`None` = permanent) where the grant goes ahead.
pub open spec fn postback_verdict_spec(provided_k: Seq<char>, row: Option<ClaimTokenRow>, now: i128) -> Result<
    Option<int>,
    PostbackRejection,
> {
    match row {
        None => Err(PostbackRejection::UnknownToken),
        Some(r) => if provided_k != r.guild_secret@ {
            Err(PostbackRejection::SecretMismatch)
        } else if r.consumed {
            Err(PostbackRejection::AlreadyConsumed)
        } else if r.expires_at_nanos < now {
            Err(PostbackRejection::Expired)
        } else {
            Ok(claim_expiry_spec(r.role_duration_hours, now))
        },
    }
}

/// A postback grants only with the right guild secret, a token not used
/// before, and before the token's expiry; a used token never grants again.
pub proof fn lemma_grant_conditions(provided_k: Seq<char>, row: Option<ClaimTokenRow>, now: i128)
    ensures
        postback_verdict_spec(provided_k, row, now) is Ok ==> {
            &&& row is Some
            &&& provided_k == row->0.guild_secret@
            &&& !row->0.consumed
            &&& now <= row->0.expires_at_nanos
        },
{
}

/// A claim token issued at `issued` (its expiry set 24 hours later, as the
/// claim flow does) is honoured by a postback with the right secret exactly
/// until 24 hours have passed.
pub proof fn lemma_claim_window(provided_k: Seq<char>, row: ClaimTokenRow, issued: i128, now: i128)
    requires
        row.expires_at_nanos == issued + CLAIM_TOKEN_TTL_HOURS * NANOS_PER_HOUR,
        provided_k == row.guild_secret@,
        !row.consumed,
    ensures
        postback_verdict_spec(provided_k, Some(row), now) is Ok <==> now <= issued
            + CLAIM_TOKEN_TTL_HOURS * NANOS_PER_HOUR,
{
}

/// A role link without a positive duration grants permanent roles: the
/// granted claim has no expiry.
pub proof fn lemma_permanent_grant(provided_k: Seq<char>, row: ClaimTokenRow, now: i128)
    requires
        match row.role_duration_hours {
            Some(h) => h <= 0,
            None => true,
        },
    ensures
        postback_verdict_spec(provided_k, Some(row), now) is Ok ==> postback_verdict_spec(
            provided_k,
            Some(row),
            now,
        ) == Ok::<Option<int>, PostbackRejection>(None),
{
}

/// A granted role lasts exactly its duration from the postback's own time:
/// with a positive duration `h` the claim expires at `now + h` hours, and
/// without one it never expires. The claim token's expiry plays no part.
pub proof fn lemma_grant_expiry_counts_from_postback(
    provided_k: Seq<char>,
    row: ClaimTokenRow,
    now: i128,
)
    ensures
        postback_verdict_spec(provided_k, Some(row), now) matches Ok(Some(t)) ==> (
        row.role_duration_hours matches Some(h) && h > 0 && t == now + (h as int)
            * 3_600_000_000_000),
        postback_verdict_spec(provided_k, Some(row), now) matches Ok(None) ==> !(
        row.role_duration_hours matches Some(h) && h > 0),
{
}

/// Two tokens that differ only in their expiry, neither expired at `now`,
/// get the same verdict, granted expiry included.
pub proof fn lemma_verdict_ignores_token_expiry(
    provided_k: Seq<char>,
    r1: ClaimTokenRow,
    r2: ClaimTokenRow,
    now: i128,
)
    requires
        r1.guild_secret@ == r2.guild_secret@,
        r1.consumed == r2.consumed,
        r1.role_duration_hours == r2.role_duration_hours,
        now <= r1.expires_at_nanos,
        now <= r2.expires_at_nanos,
    ensures
        postback_verdict_spec(provided_k, Some(r1), now) == postback_verdict_spec(
            provided_k,
            Some(r2),
            now,
        ),
{
}

/// The `k` that Loot Labs sends back from the postback URL shown in the
/// config form passes the secret check of that guild's tokens.
pub proof fn lemma_postback_url_secret_accepted(base_url: Seq<char>, row: ClaimTokenRow, now: i128)
    ensures
        ({
            let url = crate::plugin::postback_url_spec(base_url, row.guild_secret@);
            let k = url.subrange((base_url + "/postback?k="@).len() as int, url.len() as int);
            postback_verdict_spec(k, Some(row), now) != Err::<Option<int>, PostbackRejection>(
                PostbackRejection::SecretMismatch,
            )
        }),
{
    crate::plugin::lemma_postback_url_carries_whole_secret(base_url, row.guild_secret@);
}

/// The value of the first query parameter named `name`, ignoring ASCII case.
pub fn find_query_param(query: &Vec<(String, String)>, name: &str) -> (res: Option<String>)
    ensures
        opt_view(res) == query_param_spec(query@, name@),
{
    let mut i: usize = 0;
    assert(query@.subrange(0, query.len() as int) =~= query@);
    while i < query.len()
        invariant
            i <= query.len(),
            query_param_spec(query@, name@) == query_param_spec(
                query@.subrange(i as int, query.len() as int),
                name@,
            ),
        decreases query.len() - i,
    {
        let ghost rest = query@.subrange(i as int, query.len() as int);
        assert(rest[0] == query@[i as int]);
        if eq_ignore_ascii_case(query[i].0.as_str(), name) {
            return Some(query[i].1.clone());
        }
        assert(rest.drop_first() =~= query@.subrange(i + 1, query.len() as int));
        i = i + 1;
    }
    None
}

/// Reads `k` (the guild secret) and `click_id` (the `puid`) from the query,
/// names compared up to ASCII case, the first occurrence of each counting.
pub fn postback_params(query: &Vec<(String, String)>) -> (res: Result<
    (String, String),
    PostbackRejection,
>)
    ensures
        match query_param_spec(query@, "k"@) {
            None => res == Err::<(String, String), PostbackRejection>(
                PostbackRejection::MissingSecret,
            ),
            Some(k) => match query_param_spec(query@, "click_id"@) {
                Some(p) => if p.len() > 0 {
                    res matches Ok((rk, rp)) && rk@ == k && rp@ == p
                } else {
                    res == Err::<(String, String), PostbackRejection>(
                        PostbackRejection::MissingClickId,
                    )
                },
                None => res == Err::<(String, String), PostbackRejection>(
                    PostbackRejection::MissingClickId,
                ),
            },
        },
{
    let k = match find_query_param(query, "k") {
        Some(v) => v,
        None => {
            return Err(PostbackRejection::MissingSecret);
        },
    };
    let puid = match find_query_param(query, "click_id") {
        Some(v) => v,
        None => {
            return Err(PostbackRejection::MissingClickId);
        },
    };
    if puid.as_str().is_empty() {
        return Err(PostbackRejection::MissingClickId);
    }
    Ok((k, puid))
}

/// Equal UTF-8 encodings come from equal strings.
proof fn lemma_encode_utf8_injective(a: Seq<char>, b: Seq<char>)
    ensures
        (vstd::utf8::encode_utf8(a) == vstd::utf8::encode_utf8(b)) == (a == b),
{
    vstd::utf8::encode_utf8_decode_utf8(a);
    vstd::utf8::encode_utf8_decode_utf8(b);
}

/// Decides a postback at time `now_nanos` (nanoseconds since the Unix epoch): the secret is compared in
/// constant time, then the token must be unused and unexpired. On success
/// the claim's expiry follows from the role duration.
pub fn postback_verdict(provided_k: &str, row: Option<&ClaimTokenRow>, now_nanos: i128) -> (res:
    Result<Option<i128>, PostbackRejection>)
    requires
        row matches Some(r) ==> claim_expiry_fits(r.role_duration_hours, now_nanos),
    ensures
        match postback_verdict_spec(
            provided_k@,
            match row {
                Some(r) => Some(*r),
                None => None,
            },
            now_nanos,
        ) {
            Ok(Some(t)) => res matches Ok(Some(x)) && x == t,
            Ok(None) => res == Ok::<Option<i128>, PostbackRejection>(None),
            Err(e) => res == Err::<Option<i128>, PostbackRejection>(e),
        },
{
    let r = match row {
        Some(r) => r,
        None => {
            return Err(PostbackRejection::UnknownToken);
        },
    };
    let same = ct_eq_bytes(provided_k.as_bytes(), r.guild_secret.as_str().as_bytes());
    proof {
        lemma_encode_utf8_injective(provided_k@, r.guild_secret@);
    }
    if !same {
        return Err(PostbackRejection::SecretMismatch);
    }
    if r.consumed {
        return Err(PostbackRejection::AlreadyConsumed);
    }
    if r.expires_at_nanos < now_nanos {
        return Err(PostbackRejection::Expired);
    }
    match r.role_duration_hours {
        Some(h) => if h > 0 {
            let hours = h as i128;
            assert(hours * NANOS_PER_HOUR <= i32::MAX * NANOS_PER_HOUR) by (nonlinear_arith)
                requires
                    0 < hours <= i32::MAX,
            ;
            Ok(Some(now_nanos + hours * NANOS_PER_HOUR))
        } else {
            Ok(None)
        },
        None => Ok(None),
    }
}

} // verus!
