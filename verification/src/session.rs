//! The `rl_session` cookie issued by the Auth Gateway:
//! `discord_id:url_encoded_name:expires_unix_secs:hex(hmac_sha256(secret, payload))`
//! where the payload is the first three fields joined by `:`.

use vstd::prelude::*;

use crate::codec::{
    hex_encode, hex_lower_spec, hmac_sha256, hmac_sha256_spec, lemma_url_decode_encode,
    lemma_url_encode_no_colon, unix_time_micros, url_decode, url_decode_spec, url_encode_spec,
};
use crate::text::{
    all_ascii_digits, chars_of, find_char_from, lemma_index_of_char_at, parse_i64, parse_i64_spec,
    split_once_spec, string_of, unsigned_part,
};

verus! {

/// The four `:`-separated fields of a cookie, split as `splitn(4, ':')`
/// does: the last field keeps any further `:`. `None` where there are fewer
/// than four fields.
pub open spec fn session_fields(cookie: Seq<char>) -> Option<
    (Seq<char>, Seq<char>, Seq<char>, Seq<char>),
> {
    match split_once_spec(cookie, ':') {
        None => None,
        Some((id, rest1)) => match split_once_spec(rest1, ':') {
            None => None,
            Some((name, rest2)) => match split_once_spec(rest2, ':') {
                None => None,
                Some((expires, sig)) => Some((id, name, expires, sig)),
            },
        },
    }
}

/// The signed payload: the first three fields joined by `:`.
pub open spec fn session_payload(id: Seq<char>, name: Seq<char>, expires: Seq<char>) -> Seq<char> {
    id + seq![':'] + name + seq![':'] + expires
}

/// The signature the gateway puts on a payload: lower-case hex of the
/// HMAC-SHA256 of the payload's UTF-8 bytes under the secret's UTF-8 bytes.
pub open spec fn session_signature(secret: Seq<char>, payload: Seq<char>) -> Seq<char> {
    hex_lower_spec(
        hmac_sha256_spec(vstd::utf8::encode_utf8(secret), vstd::utf8::encode_utf8(payload)),
    )
}

/// What a cookie yields at time `now` (Unix seconds): the Discord id and the
/// decoded display name, where the cookie has four fields, its expiry parses
/// as an `i64` not before `now`, its signature is the expected one, and its
/// name decodes; `None` otherwise.
pub open spec fn verify_session_spec(cookie: Seq<char>, secret: Seq<char>, now: i64) -> Option<
    (Seq<char>, Seq<char>),
> {
    match session_fields(cookie) {
        None => None,
        Some((id, name, expires, sig)) => match parse_i64_spec(expires) {
            None => None,
            Some(exp) => if now > exp {
                None
            } else if sig != session_signature(secret, session_payload(id, name, expires)) {
                None
            } else {
                match url_decode_spec(name) {
                    None => None,
                    Some(display_name) => Some((id, display_name)),
                }
            },
        },
    }
}

/// The views of an optional pair of strings.
pub open spec fn pair_view(r: Option<(String, String)>) -> Option<(Seq<char>, Seq<char>)> {
    match r {
        None => None,
        Some((a, b)) => Some((a@, b@)),
    }
}

/// Splitting `a + [c] + b` at its first `c`, where `a` holds no `c`.
proof fn lemma_split_once_concat(a: Seq<char>, b: Seq<char>, c: char)
    requires
        !a.contains(c),
    ensures
        split_once_spec(a + seq![c] + b, c) == Some((a, b)),
{
    let s = a + seq![c] + b;
    assert forall|j: int| 0 <= j < a.len() implies s[j] != c by {
        assert(s[j] == a[j]);
        if a[j] == c {
            assert(a.contains(c));
        }
    }
    lemma_index_of_char_at(s, c, a.len() as int);
    assert(s.subrange(0, a.len() as int) =~= a);
    assert(s.subrange(a.len() as int + 1, s.len() as int) =~= b);
}

/// A text that parses as an `i64` holds no `:`.
proof fn lemma_parsed_has_no_colon(s: Seq<char>)
    requires
        parse_i64_spec(s) is Some,
    ensures
        !s.contains(':'),
{
    let d = unsigned_part(s);
    assert(all_ascii_digits(d));
    if s.contains(':') {
        let j = choose|j: int| 0 <= j < s.len() && s[j] == ':';
        if s.len() > 0 && (s[0] == '+' || s[0] == '-') {
            assert(j > 0);
            assert(d[j - 1] == s[j]);
        } else {
            assert(d[j] == s[j]);
        }
    }
}

/// The cookie the Auth Gateway issues for a member: the payload
/// `id:name:expires`, a `:`, and the payload's signature under the secret.
pub open spec fn issued_cookie(secret: Seq<char>, id: Seq<char>, name: Seq<char>, expires: Seq<char>) -> Seq<char> {
    session_payload(id, name, expires) + seq![':'] + session_signature(
        secret,
        session_payload(id, name, expires),
    )
}

/// A cookie issued by the gateway with the shared secret verifies until its
/// expiry (inclusive) and then stops verifying; while it verifies it yields
/// the Discord id and the percent-decoded display name. The id and the
/// encoded name hold no `:` (the gateway percent-encodes the name).
pub proof fn lemma_issued_cookie_verifies(
    secret: Seq<char>,
    id: Seq<char>,
    name: Seq<char>,
    expires: Seq<char>,
    now: i64,
)
    requires
        !id.contains(':'),
        !name.contains(':'),
        parse_i64_spec(expires) is Some,
        url_decode_spec(name) is Some,
    ensures
        verify_session_spec(issued_cookie(secret, id, name, expires), secret, now) == if now
            <= parse_i64_spec(expires)->0 {
            Some((id, url_decode_spec(name)->0))
        } else {
            None
        },
{
    let sig = session_signature(secret, session_payload(id, name, expires));
    let rest2 = expires + seq![':'] + sig;
    let rest1 = name + seq![':'] + rest2;
    let cookie = issued_cookie(secret, id, name, expires);
    assert(cookie =~= id + seq![':'] + rest1);
    lemma_split_once_concat(id, rest1, ':');
    lemma_split_once_concat(name, rest2, ':');
    lemma_parsed_has_no_colon(expires);
    lemma_split_once_concat(expires, sig, ':');
    assert(session_fields(cookie) == Some((id, name, expires, sig)));
}

/// The gateway's cookie for a member carries the percent-encoded display
/// name; verifying it gives back the Discord id and the display name itself,
/// up to the expiry second and not after. The id holds no `:`.
pub proof fn lemma_member_cookie_roundtrip(
    secret: Seq<char>,
    id: Seq<char>,
    display_name: Seq<char>,
    expires: Seq<char>,
    now: i64,
)
    requires
        !id.contains(':'),
        parse_i64_spec(expires) is Some,
    ensures
        verify_session_spec(
            issued_cookie(secret, id, url_encode_spec(display_name), expires),
            secret,
            now,
        ) == if now <= parse_i64_spec(expires)->0 {
            Some((id, display_name))
        } else {
            None
        },
{
    lemma_url_encode_no_colon(display_name);
    lemma_url_decode_encode(display_name);
    lemma_issued_cookie_verifies(secret, id, url_encode_spec(display_name), expires, now);
}

/// The expiry (Unix seconds) a cookie carries in its third field, where it
/// has four fields and that field parses.
pub open spec fn cookie_expiry(cookie: Seq<char>) -> Option<i64> {
    match session_fields(cookie) {
        Some((_id, _name, expires, _sig)) => parse_i64_spec(expires),
        None => None,
    }
}

/// A cookie is never accepted after its expiry: at any `now` later than
/// the expiry it carries, verification gives nothing, whatever the
/// signature.
pub proof fn lemma_expired_cookie_rejected(cookie: Seq<char>, secret: Seq<char>, now: i64)
    requires
        cookie_expiry(cookie) is Some,
        now > cookie_expiry(cookie)->0,
    ensures
        verify_session_spec(cookie, secret, now) is None,
{
}

/// What an accepted cookie yields comes from the cookie itself: the id is
/// its first field, the name is its second field percent-decoded, its expiry
/// is not before `now`, and its signature is the one for its payload under
/// the secret.
pub proof fn lemma_accepted_cookie_fields(cookie: Seq<char>, secret: Seq<char>, now: i64)
    ensures
        match verify_session_spec(cookie, secret, now) {
            Some((id, name)) => match session_fields(cookie) {
                Some((fid, fname, fexp, fsig)) => {
                    &&& id == fid
                    &&& url_decode_spec(fname) == Some(name)
                    &&& parse_i64_spec(fexp) is Some
                    &&& now <= parse_i64_spec(fexp)->0
                    &&& fsig == session_signature(secret, session_payload(fid, fname, fexp))
                },
                None => false,
            },
            None => true,
        },
{
}

/// Whether a session cookie verifies does not depend on anything but the
/// cookie, the secret and the time: a cookie whose signature is not the
/// one for its payload under the secret never verifies.
pub proof fn lemma_forged_cookie_rejected(cookie: Seq<char>, secret: Seq<char>, now: i64)
    requires
        session_fields(cookie) matches Some((id, name, expires, sig)) && sig != session_signature(
            secret,
            session_payload(id, name, expires),
        ),
    ensures
        verify_session_spec(cookie, secret, now) is None,
{
}

/// Whole seconds (rounded down) in a count of microseconds.
pub fn micros_to_secs(micros: i64) -> (secs: i64)
    ensures
        secs == micros / 1_000_000,
{
    if micros >= 0 {
        micros / 1_000_000
    } else {
        let p: i64 = -(micros + 1);
        let q: i64 = p / 1_000_000;
        assert(-q - 1 == micros / 1_000_000) by (nonlinear_arith)
            requires
                p == -(micros + 1),
                q == p / 1_000_000,
                p >= 0,
        ;
        -q - 1
    }
}

/// The positions of the first three `:` of `chars`, which split it into the
/// four cookie fields.
fn split_fields(chars: &Vec<char>) -> (res: Option<(usize, usize, usize)>)
    ensures
        match res {
            Some((i1, i2, i3)) => {
                let c = chars@;
                &&& i1 < i2 < i3 < c.len()
                &&& c[i1 as int] == ':' && c[i2 as int] == ':'
                &&& session_fields(c) == Some(
                    (
                        c.subrange(0, i1 as int),
                        c.subrange(i1 + 1, i2 as int),
                        c.subrange(i2 + 1, i3 as int),
                        c.subrange(i3 + 1, c.len() as int),
                    ),
                )
            },
            None => session_fields(chars@) is None,
        },
{
    let n = chars.len();
    let ghost c = chars@;
    assert(c.subrange(0, n as int) =~= c);
    let i1 = match find_char_from(chars, 0, ':') {
        Some(i) => i,
        None => {
            return None;
        },
    };
    let ghost rest1 = c.subrange(i1 + 1, n as int);
    let i2 = match find_char_from(chars, i1 + 1, ':') {
        Some(i) => i,
        None => {
            return None;
        },
    };
    let ghost rest2 = c.subrange(i2 + 1, n as int);
    assert(rest1.subrange(0, i2 - i1 - 1) =~= c.subrange(i1 + 1, i2 as int));
    assert(rest1.subrange(i2 - i1, rest1.len() as int) =~= rest2);
    let i3 = match find_char_from(chars, i2 + 1, ':') {
        Some(i) => i,
        None => {
            return None;
        },
    };
    assert(rest2.subrange(0, i3 - i2 - 1) =~= c.subrange(i2 + 1, i3 as int));
    assert(rest2.subrange(i3 - i2, rest2.len() as int) =~= c.subrange(i3 + 1, n as int));
    Some((i1, i2, i3))
}

/// The prefix of the cookie before its third `:` is the signed payload.
proof fn lemma_payload_prefix(c: Seq<char>, i1: int, i2: int, i3: int)
    requires
        0 <= i1 < i2 < i3 <= c.len(),
        c[i1] == ':',
        c[i2] == ':',
    ensures
        c.subrange(0, i3) == session_payload(
            c.subrange(0, i1),
            c.subrange(i1 + 1, i2),
            c.subrange(i2 + 1, i3),
        ),
{
    assert(c.subrange(0, i3) =~= session_payload(
        c.subrange(0, i1),
        c.subrange(i1 + 1, i2),
        c.subrange(i2 + 1, i3),
    ));
}

/// Checks a session cookie at time `now` (Unix seconds) and returns the
/// Discord id and the decoded display name it carries.
pub fn verify_session_at(cookie_value: &str, secret: &str, now: i64) -> (res: Option<
    (String, String),
>)
    ensures
        pair_view(res) == verify_session_spec(cookie_value@, secret@, now),
{
    let cs = chars_of(cookie_value);
    let n = cs.len();
    let (i1, i2, i3) = match split_fields(&cs) {
        Some(t) => t,
        None => {
            return None;
        },
    };
    let discord_id = string_of(&cs, 0, i1);
    let encoded_name = string_of(&cs, i1 + 1, i2);
    let expires_str = string_of(&cs, i2 + 1, i3);
    let sig = string_of(&cs, i3 + 1, n);
    let expires = match parse_i64(expires_str.as_str()) {
        Some(e) => e,
        None => {
            return None;
        },
    };
    if now > expires {
        return None;
    }
    let payload = string_of(&cs, 0, i3);
    proof {
        lemma_payload_prefix(cs@, i1 as int, i2 as int, i3 as int);
    }
    let mac = hmac_sha256(secret.as_bytes(), payload.as_str().as_bytes());
    let expected = hex_encode(mac.as_slice());
    if !(sig == expected) {
        return None;
    }
    let display_name = match url_decode(encoded_name.as_str()) {
        Some(d) => d,
        None => {
            return None;
        },
    };
    Some((discord_id, display_name))
}

/// Verifies and extracts `(discord_id, display_name)` from the `rl_session`
/// cookie, checking its expiry against the current time. The result is what
/// `verify_session_at` gives at some instant: the clock decides which.
pub fn verify_session(cookie_value: &str, secret: &str) -> (res: Option<(String, String)>)
    ensures
        exists|now: i64| pair_view(res) == verify_session_spec(cookie_value@, secret@, now),
{
    let now = micros_to_secs(unix_time_micros());
    verify_session_at(cookie_value, secret, now)
}

} // verus!
