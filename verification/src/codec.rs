//! Encodings and primitives provided by outside crates, each behind a
//! trusted wrapper whose contract is stated below.
//!
//! Every function marked `#[verifier::external_body]` here is believed by
//! Verus, not proved: its contract restates what the outside crate's source
//! shows.

use base64::Engine;
use hmac::Mac;
use rand::RngCore;
use subtle::ConstantTimeEq;
use vstd::prelude::*;

verus! {

// ---------------------------------------------------------------------------
// Percent-encoding (urlencoding)
// ---------------------------------------------------------------------------

/// The bytes that percent-encoding leaves as they are: ASCII letters,
/// digits, `-`, `.`, `_` and `~`.
pub open spec fn is_url_unreserved(b: u8) -> bool {
    ||| 0x30 <= b <= 0x39
    ||| 0x41 <= b <= 0x5a
    ||| 0x61 <= b <= 0x7a
    ||| b == 0x2d
    ||| b == 0x2e
    ||| b == 0x5f
    ||| b == 0x7e
}

/// Upper-case hexadecimal digit for `n < 16`.
pub open spec fn hex_upper_digit(n: int) -> char {
    if n < 10 {
        (0x30 + n) as char
    } else {
        (0x41 + n - 10) as char
    }
}

/// Lower-case hexadecimal digit for `n < 16`.
pub open spec fn hex_lower_digit(n: int) -> char {
    if n < 10 {
        (0x30 + n) as char
    } else {
        (0x61 + n - 10) as char
    }
}

/// Percent-encoding of one byte.
pub open spec fn url_encode_byte(b: u8) -> Seq<char> {
    if is_url_unreserved(b) {
        seq![b as char]
    } else {
        seq!['%', hex_upper_digit((b as int) / 16), hex_upper_digit((b as int) % 16)]
    }
}

/// Percent-encoding of a byte string: every byte but the unreserved ones
/// becomes `%` and two upper-case hex digits.
pub open spec fn url_encode_bytes(b: Seq<u8>) -> Seq<char>
    decreases b.len(),
{
    if b.len() == 0 {
        seq![]
    } else {
        url_encode_bytes(b.drop_last()) + url_encode_byte(b.last())
    }
}

/// Percent-encoding of a string: of the bytes of its UTF-8 encoding.
pub open spec fn url_encode_spec(s: Seq<char>) -> Seq<char> {
    url_encode_bytes(vstd::utf8::encode_utf8(s))
}

/// Value of a hexadecimal digit byte (either case).
pub open spec fn hex_value(b: u8) -> Option<int> {
    if 0x30 <= b <= 0x39 {
        Some(b - 0x30)
    } else if 0x41 <= b <= 0x46 {
        Some(b - 0x41 + 10)
    } else if 0x61 <= b <= 0x66 {
        Some(b - 0x61 + 10)
    } else {
        None
    }
}

/// Percent-decoding of bytes: each `%` followed by two hex digits becomes
/// the byte they spell; every other byte, a lone `%` included, stays.
pub open spec fn percent_decode(b: Seq<u8>) -> Seq<u8>
    decreases b.len(),
{
    if b.len() == 0 {
        seq![]
    } else if b[0] == 0x25 && b.len() >= 3 && hex_value(b[1]) is Some && hex_value(b[2]) is Some {
        seq![(hex_value(b[1])->0 * 16 + hex_value(b[2])->0) as u8] + percent_decode(
            b.subrange(3, b.len() as int),
        )
    } else {
        seq![b[0]] + percent_decode(b.drop_first())
    }
}

/// Percent-decoding of a string, then reading the bytes as UTF-8; `None`
/// where they are not valid UTF-8.
pub open spec fn url_decode_spec(s: Seq<char>) -> Option<Seq<char>> {
    let bytes = percent_decode(vstd::utf8::encode_utf8(s));
    if vstd::utf8::valid_utf8(bytes) {
        Some(vstd::utf8::decode_utf8(bytes))
    } else {
        None
    }
}

/// `urlencoding::encode`: percent-encodes every byte of the UTF-8 encoding
/// of `s` except ASCII alphanumerics and `-`, `.`, `_`, `~`, with upper-case
/// hex digits.
#[verifier::external_body]
pub(crate) fn url_encode(s: &str) -> (res: String)
    ensures
        res@ == url_encode_spec(s@),
{
    urlencoding::encode(s).into_owned()
}

/// `urlencoding::decode`: percent-decodes `s` as `percent_decode` states and
/// returns the result where it is valid UTF-8, else an error (here `None`).
#[verifier::external_body]
pub(crate) fn url_decode(s: &str) -> (res: Option<String>)
    ensures
        match res {
            Some(r) => url_decode_spec(s@) == Some(r@),
            None => url_decode_spec(s@) is None,
        },
{
    match urlencoding::decode(s) {
        Ok(decoded) => Some(decoded.into_owned()),
        Err(_) => None,
    }
}

// ---------------------------------------------------------------------------
// Percent-encoding round trip
// ---------------------------------------------------------------------------

/// The byte of an ASCII character.
proof fn lemma_ascii_char_byte(c: char)
    requires
        (c as u32) < 128,
    ensures
        (c as u8) as u32 == c as u32,
{
    let u = c as u32;
    assert(u < 128 ==> (u as u8) as u32 == u) by (bit_vector);
}

/// The characters one byte is percent-encoded to are ASCII, and reading
/// them back as bytes gives `b` or `%`, `H`, `L`.
proof fn lemma_url_encode_byte_ascii(b: u8)
    ensures
        vstd::utf8::is_ascii_chars(url_encode_byte(b)),
        vstd::utf8::encode_utf8(url_encode_byte(b)) == if is_url_unreserved(b) {
            seq![b]
        } else {
            seq![
                0x25u8,
                hex_upper_digit((b as int) / 16) as u8,
                hex_upper_digit((b as int) % 16) as u8,
            ]
        },
{
    let e = url_encode_byte(b);
    let hi = hex_upper_digit((b as int) / 16);
    let lo = hex_upper_digit((b as int) % 16);
    if is_url_unreserved(b) {
        assert((b as char) as u32 == b as u32);
    } else {
        assert((hi as u32) < 128);
        assert((lo as u32) < 128);
    }
    assert(vstd::utf8::is_ascii_chars(e));
    vstd::utf8::is_ascii_chars_encode_utf8(e);
    let bytes = vstd::utf8::encode_utf8(e);
    if is_url_unreserved(b) {
        lemma_ascii_char_byte(e[0]);
        assert(bytes =~= seq![b]);
    } else {
        lemma_ascii_char_byte(e[0]);
        assert(bytes =~= seq![0x25u8, hi as u8, lo as u8]);
    }
}

/// UTF-8 encoding distributes over concatenation.
proof fn lemma_encode_utf8_concat(a: Seq<char>, c: Seq<char>)
    ensures
        vstd::utf8::encode_utf8(a + c) == vstd::utf8::encode_utf8(a) + vstd::utf8::encode_utf8(c),
    decreases a.len(),
{
    if a.len() == 0 {
        assert(a + c =~= c);
    } else {
        lemma_encode_utf8_concat(a.drop_first(), c);
        assert((a + c).drop_first() =~= a.drop_first() + c);
        assert((a + c)[0] == a[0]);
    }
}

/// Percent-encoding, unfolded from the front.
proof fn lemma_url_encode_bytes_front(b: Seq<u8>)
    requires
        b.len() > 0,
    ensures
        url_encode_bytes(b) == url_encode_byte(b[0]) + url_encode_bytes(b.drop_first()),
    decreases b.len(),
{
    if b.len() == 1 {
        assert(b.drop_last() =~= Seq::<u8>::empty());
        assert(b.drop_first() =~= Seq::<u8>::empty());
        assert(url_encode_bytes(b.drop_first()) =~= Seq::<char>::empty());
        assert(url_encode_bytes(b.drop_last()) =~= Seq::<char>::empty());
        assert(url_encode_bytes(b) =~= url_encode_byte(b[0]));
    } else {
        lemma_url_encode_bytes_front(b.drop_last());
        assert(b.drop_last().drop_first() =~= b.drop_first().drop_last());
        assert(b.drop_first().last() == b.last());
        assert(b.drop_last()[0] == b[0]);
        assert(url_encode_bytes(b) =~= url_encode_byte(b[0]) + url_encode_bytes(b.drop_first()));
    }
}

/// The value of an upper-case hex digit's byte.
proof fn lemma_hex_upper_value(n: int)
    requires
        0 <= n < 16,
    ensures
        hex_value(hex_upper_digit(n) as u8) == Some(n),
{
    let c = hex_upper_digit(n);
    assert((c as u32) < 128);
    lemma_ascii_char_byte(c);
}

/// Percent-decoding undoes the encoding of the first byte.
proof fn lemma_percent_decode_step(b: u8, rest: Seq<u8>)
    ensures
        percent_decode(vstd::utf8::encode_utf8(url_encode_byte(b)) + rest) == seq![b] + percent_decode(rest),
{
    lemma_url_encode_byte_ascii(b);
    let e = vstd::utf8::encode_utf8(url_encode_byte(b));
    let all = e + rest;
    if is_url_unreserved(b) {
        assert(all[0] == b);
        assert(all.drop_first() =~= rest);
    } else {
        let h = (b as int) / 16;
        let l = (b as int) % 16;
        lemma_hex_upper_value(h);
        lemma_hex_upper_value(l);
        assert(all[0] == 0x25u8);
        assert(all[1] == hex_upper_digit(h) as u8);
        assert(all[2] == hex_upper_digit(l) as u8);
        assert(all.subrange(3, all.len() as int) =~= rest);
        assert((h * 16 + l) as u8 == b);
    }
}

/// Percent-decoding undoes percent-encoding, byte for byte.
proof fn lemma_percent_decode_encode(b: Seq<u8>)
    ensures
        percent_decode(vstd::utf8::encode_utf8(url_encode_bytes(b))) == b,
    decreases b.len(),
{
    if b.len() == 0 {
        assert(url_encode_bytes(b) =~= Seq::<char>::empty());
        assert(vstd::utf8::encode_utf8(Seq::<char>::empty()) =~= Seq::<u8>::empty());
    } else {
        lemma_url_encode_bytes_front(b);
        lemma_encode_utf8_concat(url_encode_byte(b[0]), url_encode_bytes(b.drop_first()));
        lemma_percent_decode_step(b[0], vstd::utf8::encode_utf8(url_encode_bytes(b.drop_first())));
        lemma_percent_decode_encode(b.drop_first());
        assert(seq![b[0]] + b.drop_first() =~= b);
    }
}

/// Decoding a percent-encoded string gives the string back.
pub proof fn lemma_url_decode_encode(s: Seq<char>)
    ensures
        url_decode_spec(url_encode_spec(s)) == Some(s),
{
    lemma_percent_decode_encode(vstd::utf8::encode_utf8(s));
    vstd::utf8::encode_utf8_valid_utf8(s);
    vstd::utf8::encode_utf8_decode_utf8(s);
}

/// Percent-encoded text holds no `:` (it is encoded as `%3A`).
pub proof fn lemma_url_encode_no_colon(s: Seq<char>)
    ensures
        !url_encode_spec(s).contains(':'),
{
    lemma_url_encode_bytes_no_colon(vstd::utf8::encode_utf8(s));
}

proof fn lemma_url_encode_bytes_no_colon(b: Seq<u8>)
    ensures
        !url_encode_bytes(b).contains(':'),
    decreases b.len(),
{
    if b.len() > 0 {
        lemma_url_encode_bytes_no_colon(b.drop_last());
        let prev = url_encode_bytes(b.drop_last());
        let last = url_encode_byte(b.last());
        let all = url_encode_bytes(b);
        assert(all == prev + last);
        if all.contains(':') {
            let j = choose|j: int| 0 <= j < all.len() && all[j] == ':';
            if j < prev.len() {
                assert(prev[j] == all[j]);
            } else {
                assert(last[j - prev.len()] == all[j]);
                if is_url_unreserved(b.last()) {
                    assert((b.last() as char) as u32 == b.last() as u32);
                }
            }
        }
    }
}

// ---------------------------------------------------------------------------
// Hexadecimal (hex)
// ---------------------------------------------------------------------------

/// Lower-case hexadecimal rendering of bytes, two digits per byte.
pub open spec fn hex_lower_spec(b: Seq<u8>) -> Seq<char>
    decreases b.len(),
{
    if b.len() == 0 {
        seq![]
    } else {
        hex_lower_spec(b.drop_last()) + seq![
            hex_lower_digit((b.last() as int) / 16),
            hex_lower_digit((b.last() as int) % 16),
        ]
    }
}

/// `hex::encode`: two lower-case hex digits per byte, high nibble first.
#[verifier::external_body]
pub(crate) fn hex_encode(b: &[u8]) -> (res: String)
    ensures
        res@ == hex_lower_spec(b@),
{
    hex::encode(b)
}

// ---------------------------------------------------------------------------
// Base64, URL-safe alphabet, no padding (base64)
// ---------------------------------------------------------------------------

/// The character of the URL-safe base64 alphabet for `n < 64`:
/// `A`-`Z`, `a`-`z`, `0`-`9`, `-`, `_`.
pub open spec fn b64_url_char(n: int) -> char {
    if n < 26 {
        (0x41 + n) as char
    } else if n < 52 {
        (0x61 + n - 26) as char
    } else if n < 62 {
        (0x30 + n - 52) as char
    } else if n == 62 {
        '-'
    } else {
        '_'
    }
}

/// Base64 of bytes with the URL-safe alphabet and no padding: every three
/// bytes become four characters; a last group of two bytes becomes three
/// characters and one of one byte two.
pub open spec fn base64_url_nopad_spec(b: Seq<u8>) -> Seq<char>
    decreases b.len(),
{
    if b.len() >= 3 {
        seq![
            b64_url_char((b[0] as int) / 4),
            b64_url_char(((b[0] as int) % 4) * 16 + (b[1] as int) / 16),
            b64_url_char(((b[1] as int) % 16) * 4 + (b[2] as int) / 64),
            b64_url_char((b[2] as int) % 64),
        ] + base64_url_nopad_spec(b.subrange(3, b.len() as int))
    } else if b.len() == 2 {
        seq![
            b64_url_char((b[0] as int) / 4),
            b64_url_char(((b[0] as int) % 4) * 16 + (b[1] as int) / 16),
            b64_url_char(((b[1] as int) % 16) * 4),
        ]
    } else if b.len() == 1 {
        seq![b64_url_char((b[0] as int) / 4), b64_url_char(((b[0] as int) % 4) * 16)]
    } else {
        seq![]
    }
}

/// `base64::engine::general_purpose::URL_SAFE_NO_PAD.encode`: base64 with
/// the alphabet `A-Za-z0-9-_` and no `=` padding.
#[verifier::external_body]
pub(crate) fn base64_url_nopad(b: &[u8]) -> (res: String)
    ensures
        res@ == base64_url_nopad_spec(b@),
{
    base64::engine::general_purpose::URL_SAFE_NO_PAD.encode(b)
}

// ---------------------------------------------------------------------------
// HMAC-SHA256 (hmac, sha2)
// ---------------------------------------------------------------------------

/// The HMAC-SHA256 tag of `msg` under `key`.
pub uninterp spec fn hmac_sha256_spec(key: Seq<u8>, msg: Seq<u8>) -> Seq<u8>;

/// `hmac::Hmac<sha2::Sha256>`: `new_from_slice(key)` (which accepts a key
/// of any length), `update(msg)`, `finalize().into_bytes()`. The tag is a
/// function of the key and the message alone; its value is not stated.
#[verifier::external_body]
pub(crate) fn hmac_sha256(key: &[u8], msg: &[u8]) -> (res: Vec<u8>)
    ensures
        res@ == hmac_sha256_spec(key@, msg@),
{
    let mut mac = hmac::Hmac::<sha2::Sha256>::new_from_slice(key).expect("HMAC takes any key length");
    mac.update(msg);
    mac.finalize().into_bytes().to_vec()
}

// ---------------------------------------------------------------------------
// Constant-time comparison (subtle)
// ---------------------------------------------------------------------------

/// `subtle::ConstantTimeEq::ct_eq` on byte slices, turned into a `bool`:
/// true exactly when the slices have the same length and the same bytes.
#[verifier::external_body]
pub(crate) fn ct_eq_bytes(a: &[u8], b: &[u8]) -> (res: bool)
    ensures
        res == (a@ == b@),
{
    bool::from(a.ct_eq(b))
}

// ---------------------------------------------------------------------------
// Randomness (rand) and time (chrono)
// ---------------------------------------------------------------------------

/// `rand::thread_rng().fill_bytes` on a 32-byte buffer. The bytes are random:
/// nothing is stated of them.
#[verifier::external_body]
pub(crate) fn random_bytes_32() -> (res: [u8; 32]) {
    let mut buf = [0u8; 32];
    rand::thread_rng().fill_bytes(&mut buf);
    buf
}

/// `chrono::Utc::now().timestamp_micros()`: the current time in microseconds
/// since the Unix epoch. It depends on the clock: nothing is stated of it.
#[verifier::external_body]
pub(crate) fn unix_time_micros() -> (res: i64) {
    chrono::Utc::now().timestamp_micros()
}

} // verus!
