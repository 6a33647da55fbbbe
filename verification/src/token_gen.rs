//! Claim tokens (`puid`) and guild postback secrets, and the link that
//! carries a token to Loot Labs.

use vstd::prelude::*;

use crate::codec::{
    b64_url_char, base64_url_nopad, base64_url_nopad_spec, is_url_unreserved, random_bytes_32,
    url_encode, url_encode_byte, url_encode_bytes, url_encode_spec,
};
use crate::text::{append_str, contains_char, push_char};

verus! {

/// The characters of the URL-safe base64 alphabet: `A-Z`, `a-z`, `0-9`, `-`, `_`.
pub open spec fn is_url_safe_token_char(c: char) -> bool {
    ||| 'A' <= c <= 'Z'
    ||| 'a' <= c <= 'z'
    ||| '0' <= c <= '9'
    ||| c == '-'
    ||| c == '_'
}

/// A token as `random_token` makes them: 43 characters of the URL-safe
/// alphabet, the encoding of 32 bytes.
pub open spec fn is_token_shape(t: Seq<char>) -> bool {
    &&& t.len() == 43
    &&& forall|i: int| 0 <= i < t.len() ==> is_url_safe_token_char(#[trigger] t[i])
}

/// The link that sends a member to Loot Labs: the short link, then `&` if it
/// already holds a `?` and `?` otherwise, then `puid=` and the percent-encoded
/// token.
pub open spec fn append_puid_spec(short_link: Seq<char>, token: Seq<char>) -> Seq<char> {
    let sep = if short_link.contains('?') {
        '&'
    } else {
        '?'
    };
    short_link + seq![sep] + seq!['p', 'u', 'i', 'd', '='] + url_encode_spec(token)
}

/// Every character that base64 produces lies in the URL-safe alphabet.
proof fn lemma_b64_url_char(n: int)
    requires
        0 <= n < 64,
    ensures
        is_url_safe_token_char(b64_url_char(n)),
{
}

/// The URL-safe base64 of `b` has `(4 * len + 2) / 3` characters, all of
/// the URL-safe alphabet.
pub proof fn lemma_base64_url_nopad_shape(b: Seq<u8>)
    ensures
        base64_url_nopad_spec(b).len() == (4 * b.len() + 2) / 3,
        forall|i: int|
            0 <= i < base64_url_nopad_spec(b).len() ==> is_url_safe_token_char(
                #[trigger] base64_url_nopad_spec(b)[i],
            ),
    decreases b.len(),
{
    let e = base64_url_nopad_spec(b);
    if b.len() >= 3 {
        let rest = b.subrange(3, b.len() as int);
        lemma_base64_url_nopad_shape(rest);
        let b0 = b[0] as int;
        let b1 = b[1] as int;
        let b2 = b[2] as int;
        lemma_b64_url_char(b0 / 4);
        lemma_b64_url_char((b0 % 4) * 16 + b1 / 16);
        lemma_b64_url_char((b1 % 16) * 4 + b2 / 64);
        lemma_b64_url_char(b2 % 64);
        let head = seq![
            b64_url_char(b0 / 4),
            b64_url_char((b0 % 4) * 16 + b1 / 16),
            b64_url_char((b1 % 16) * 4 + b2 / 64),
            b64_url_char(b2 % 64),
        ];
        assert(e == head + base64_url_nopad_spec(rest));
        assert forall|i: int| 0 <= i < e.len() implies is_url_safe_token_char(#[trigger] e[i]) by {
            if i >= 4 {
                assert(e[i] == base64_url_nopad_spec(rest)[i - 4]);
            }
        }
    } else if b.len() == 2 {
        let b0 = b[0] as int;
        let b1 = b[1] as int;
        lemma_b64_url_char(b0 / 4);
        lemma_b64_url_char((b0 % 4) * 16 + b1 / 16);
        lemma_b64_url_char((b1 % 16) * 4);
    } else if b.len() == 1 {
        let b0 = b[0] as int;
        lemma_b64_url_char(b0 / 4);
        lemma_b64_url_char((b0 % 4) * 16);
    }
}

/// Percent-encoding leaves a string of unreserved bytes as it is.
proof fn lemma_url_encode_unreserved_bytes(b: Seq<u8>)
    requires
        forall|i: int| 0 <= i < b.len() ==> is_url_unreserved(#[trigger] b[i]),
    ensures
        url_encode_bytes(b) == b.map_values(|x: u8| x as char),
    decreases b.len(),
{
    if b.len() > 0 {
        lemma_url_encode_unreserved_bytes(b.drop_last());
        assert(url_encode_byte(b.last()) == seq![b.last() as char]);
        assert(b.map_values(|x: u8| x as char) =~= b.drop_last().map_values(|x: u8| x as char)
            + seq![b.last() as char]);
    } else {
        assert(b.map_values(|x: u8| x as char) =~= seq![]);
    }
}

/// A character of the URL-safe alphabet is one unreserved byte of UTF-8.
proof fn lemma_token_char_byte(c: char)
    requires
        is_url_safe_token_char(c),
    ensures
        is_url_unreserved(c as u8),
        (c as u8) as char == c,
{
    let u = c as u32;
    assert(u < 128);
    assert(u < 128 ==> (u as u8) as u32 == u) by (bit_vector);
}

/// Percent-encoding leaves a token of the URL-safe alphabet as it is.
pub proof fn lemma_url_encode_token(t: Seq<char>)
    requires
        forall|i: int| 0 <= i < t.len() ==> is_url_safe_token_char(#[trigger] t[i]),
    ensures
        url_encode_spec(t) == t,
{
    assert(vstd::utf8::is_ascii_chars(t)) by {
        assert forall|i: int| 0 <= i < t.len() implies '\0' <= #[trigger] t[i] <= '\u{7f}' by {
            assert(is_url_safe_token_char(t[i]));
        }
    }
    vstd::utf8::is_ascii_chars_encode_utf8(t);
    let b = vstd::utf8::encode_utf8(t);
    assert forall|i: int| 0 <= i < b.len() implies is_url_unreserved(#[trigger] b[i]) by {
        lemma_token_char_byte(t[i]);
    }
    lemma_url_encode_unreserved_bytes(b);
    assert forall|i: int| 0 <= i < t.len() implies b.map_values(|x: u8| x as char)[i] == t[i] by {
        lemma_token_char_byte(t[i]);
    }
    assert(b.map_values(|x: u8| x as char) =~= t);
}

/// A token made by `random_token` reaches Loot Labs verbatim: the link is the
/// short link, the separator, `puid=` and the token itself, so the `CLICK_ID`
/// that Loot Labs echoes back is the token that was stored.
pub proof fn lemma_append_puid_keeps_token(short_link: Seq<char>, token: Seq<char>)
    requires
        is_token_shape(token),
    ensures
        append_puid_spec(short_link, token) == short_link + seq![
            if short_link.contains('?') {
                '&'
            } else {
                '?'
            },
        ] + seq!['p', 'u', 'i', 'd', '='] + token,
{
    lemma_url_encode_token(token);
}

/// 32-byte (256-bit) URL-safe random token. Used for both per-claim `puid`
/// tokens and per-guild postback secrets (`?k=`). The result is the URL-safe
/// base64, without padding, of some 32 bytes: 43 characters of `A-Za-z0-9-_`.
pub fn random_token() -> (res: String)
    ensures
        exists|b: Seq<u8>| b.len() == 32 && res@ == base64_url_nopad_spec(b),
        is_token_shape(res@),
{
    let buf = random_bytes_32();
    let res = base64_url_nopad(buf.as_slice());
    proof {
        lemma_base64_url_nopad_shape(buf@);
    }
    res
}

/// Injects the puid into the admin-supplied Loot Labs short link, which
/// looks like `https://links.lootlabs.gg/s?ABCDEF`: Loot Labs reads `puid`
/// as user passthrough and echoes it back in the postback's `{CLICK_ID}`.
pub fn append_puid(short_link: &str, token: &str) -> (res: String)
    ensures
        res@ == append_puid_spec(short_link@, token@),
{
    let sep = if contains_char(short_link, '?') {
        '&'
    } else {
        '?'
    };
    let mut res = short_link.to_owned();
    push_char(&mut res, sep);
    append_str(&mut res, "puid=");
    proof {
        reveal_strlit("puid=");
    }
    let encoded = url_encode(token);
    append_str(&mut res, encoded.as_str());
    proof {
        assert(res@ =~= append_puid_spec(short_link@, token@));
    }
    res
}

} // verus!
