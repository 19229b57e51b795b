//! Nostr keys as plain text: public keys are 64 lower-case hex digits.

use crate::text::case::ascii_lower;
use crate::text::pattern::begins_with;
use crate::text::{byte_len, opt_text};
use nostr_sdk::nips::nip44;
use nostr_sdk::{FromBech32, Keys, PublicKey, ToBech32};
use vstd::prelude::*;
use vstd::utf8::is_ascii_chars;

verus! {

/// Whether `c` is a hex digit, in either letter case.
pub open spec fn is_hex_digit(c: char) -> bool {
    ('0' <= c <= '9') || ('a' <= c <= 'f') || ('A' <= c <= 'F')
}

/// The public key that 64 hex digits write, in lower case.
pub open spec fn hex_key(s: Seq<char>) -> Option<Seq<char>> {
    if s.len() == 64 && (forall|i: int| 0 <= i < s.len() ==> is_hex_digit(#[trigger] s[i])) {
        Some(ascii_lower(s))
    } else {
        None
    }
}

/// Whether `s` is a public key: 64 lower-case hex digits.
pub open spec fn is_key(s: Seq<char>) -> bool {
    hex_key(s) == Some(s)
}

/// The `npub1` form of a public key given in hex.
pub uninterp spec fn npub_text(hex: Seq<char>) -> Seq<char>;

/// The public key that an `npub1` text stands for, or what is wrong with the text.
pub uninterp spec fn npub_reading(npub: Seq<char>) -> Result<Seq<char>, Seq<char>>;

/// The public key that an `npub1` text stands for.
pub open spec fn npub_key(npub: Seq<char>) -> Option<Seq<char>> {
    match npub_reading(npub) {
        Ok(k) => Some(k),
        Err(_) => None,
    }
}

/// The public key that a text stands for in any accepted form.
pub uninterp spec fn parsed_key(s: Seq<char>) -> Option<Seq<char>>;

/// The public key that belongs to a secret key given in text.
pub uninterp spec fn secret_key_owner(secret: Seq<char>) -> Option<Seq<char>>;

/// The plain text of a payload sealed between a secret key and a public key.
pub uninterp spec fn unsealed(
    secret: Seq<char>,
    public: Seq<char>,
    payload: Seq<char>,
) -> Option<Seq<char>>;

/// Calls `PublicKey::from_hex`: reads 64 hex digits, in either letter case, and nothing else. The
/// key is handed back as `PublicKey::to_hex` writes it, in lower case.
#[verifier::external_body]
pub(crate) fn key_from_hex(s: &str) -> (r: Option<String>)
    ensures
        opt_text(r) == hex_key(s@),
{
    PublicKey::from_hex(s).ok().map(|k| k.to_hex())
}

/// Calls `PublicKey::to_bech32` on the key that `hex` writes. The text is named; it is ASCII, has
/// 63 characters, begins with `npub1` and reads back as the same key.
#[verifier::external_body]
pub(crate) fn key_to_npub(hex: &str) -> (r: Option<String>)
    ensures
        match r {
            Some(n) => {
                &&& hex_key(hex@) is Some
                &&& n@ == npub_text(hex@)
                &&& is_ascii_chars(n@)
                &&& n@.len() == 63
                &&& begins_with(n@, "npub1"@)
                &&& npub_key(n@) == hex_key(hex@)
            },
            None => hex_key(hex@) is None,
        },
{
    PublicKey::from_hex(hex).ok().and_then(|k| k.to_bech32().ok())
}

/// Calls `PublicKey::from_bech32`. The result, with the text of the error, is named; where there is
/// a key it is in lower-case hex.
#[verifier::external_body]
pub(crate) fn read_npub(npub: &str) -> (r: Result<String, String>)
    ensures
        match r {
            Ok(k) => npub_reading(npub@) == Ok::<Seq<char>, Seq<char>>(k@) && is_key(k@),
            Err(e) => npub_reading(npub@) == Err::<Seq<char>, Seq<char>>(e@),
        },
{
    PublicKey::from_bech32(npub).map(|k| k.to_hex()).map_err(|e| e.to_string())
}

/// The public key that an `npub1` text stands for.
pub fn key_from_npub(npub: &str) -> (r: Option<String>)
    ensures
        opt_text(r) == npub_key(npub@),
        r matches Some(k) ==> is_key(k@),
{
    match read_npub(npub) {
        Ok(k) => Some(k),
        Err(_) => None,
    }
}

/// Calls `PublicKey::parse`: hex first, then `npub1`, then a `nostr:` address. The result is named;
/// where there is one it is a key in lower-case hex.
#[verifier::external_body]
pub(crate) fn parse_key(s: &str) -> (r: Option<String>)
    ensures
        opt_text(r) == parsed_key(s@),
        r matches Some(k) ==> is_key(k@),
        hex_key(s@) is Some ==> opt_text(r) == hex_key(s@),
        hex_key(s@) is None && npub_key(s@) is Some ==> opt_text(r) == npub_key(s@),
{
    PublicKey::parse(s).ok().map(|k| k.to_hex())
}

/// Calls `Keys::parse` and takes the public key of the pair. The result is named; where there is one
/// it is a key in lower-case hex.
#[verifier::external_body]
pub(crate) fn key_of_secret(secret: &str) -> (r: Option<String>)
    ensures
        opt_text(r) == secret_key_owner(secret@),
        r matches Some(k) ==> is_key(k@),
{
    Keys::parse(secret).ok().map(|k| k.public_key().to_hex())
}

/// The `nsec1` form of a secret key given in text.
pub uninterp spec fn nsec_text(secret: Seq<char>) -> Option<Seq<char>>;

/// Calls `SecretKey::to_bech32` on the secret key that `secret` writes. The text is named; there is
/// one for every secret key that reads, and it reads as the same key.
#[verifier::external_body]
pub(crate) fn secret_to_nsec(secret: &str) -> (r: Option<String>)
    ensures
        opt_text(r) == nsec_text(secret@),
        r is Some == secret_key_owner(secret@) is Some,
        r matches Some(n) ==> secret_key_owner(n@) == secret_key_owner(secret@),
{
    Keys::parse(secret).ok().and_then(|k| k.secret_key().to_bech32().ok())
}

/// Calls `Keys::generate` and hands out the secret key in hex. It is random, so nothing names it;
/// whatever it is, it reads as a secret key.
#[verifier::external_body]
pub(crate) fn fresh_secret() -> (r: String)
    ensures
        secret_key_owner(r@) is Some,
{
    Keys::generate().secret_key().to_secret_hex()
}

/// Calls `nip44::decrypt` with the secret key that `secret` writes and the public key that `public`
/// writes. The result is named. `None` where a key does not read or the payload does not open.
#[verifier::external_body]
pub(crate) fn unseal(secret: &str, public: &str, payload: &str) -> (r: Option<String>)
    ensures
        opt_text(r) == unsealed(secret@, public@, payload@),
        secret_key_owner(secret@) is None ==> r is None,
{
    let keys = Keys::parse(secret).ok()?;
    let other = PublicKey::from_hex(public).ok()?;
    nip44::decrypt(keys.secret_key(), &other, payload).ok()
}

/// The most bytes that can be sealed.
pub const SEAL_LIMIT: usize = 65_408;

/// Whether a text can be sealed: it is not empty and not too long.
pub open spec fn fits_seal(content: Seq<char>) -> bool {
    1 <= byte_len(content) <= SEAL_LIMIT
}

/// Whether a public key belongs to some secret key.
pub open spec fn has_secret(public: Seq<char>) -> bool {
    exists|s: Seq<char>| #[trigger] secret_key_owner(s) == Some(public)
}

/// Calls `nip44::encrypt` with the secret key that `secret` writes and the public key that `public`
/// writes. The payload holds a random nonce, so nothing names it; whatever it is, it opens under the
/// same two keys as the content that was sealed. Empty and overlong contents are refused, and so are
/// keys that do not read; between keys that both belong to secret keys all other contents are
/// sealed. Of 64 hex digits that are no point of the curve nothing is said.
#[verifier::external_body]
pub(crate) fn seal(secret: &str, public: &str, content: &str) -> (r: Option<String>)
    ensures
        r matches Some(p) ==> unsealed(secret@, public@, p@) == Some(content@),
        r is Some ==> secret_key_owner(secret@) is Some && hex_key(public@) is Some && fits_seal(
            content@,
        ),
        secret_key_owner(secret@) is Some && has_secret(public@) && fits_seal(content@)
            ==> r is Some,
{
    let keys = Keys::parse(secret).ok()?;
    let other = PublicKey::from_hex(public).ok()?;
    nip44::encrypt(keys.secret_key(), &other, content, nip44::Version::V2).ok()
}

/// The `npub1` form of a key, or the text itself where it is no key.
pub open spec fn npub_or_hex_text(hex: Seq<char>) -> Seq<char> {
    if hex_key(hex) is Some {
        npub_text(hex)
    } else {
        hex
    }
}

/// The `npub1` form of a key, or the text itself where it is no key.
pub fn npub_or_hex(hex: &str) -> (r: String)
    ensures
        r@ == npub_or_hex_text(hex@),
        is_ascii_chars(hex@) ==> is_ascii_chars(r@),
{
    match key_to_npub(hex) {
        Some(n) => n,
        None => hex.to_owned(),
    }
}

/// A key in hex is sixty-four hex digits, in any letter case; it is handed on in lower case, and read
/// again it is the same.
pub proof fn keys_in_hex(s: Seq<char>)
    ensures
        hex_key(s) is Some <==> s.len() == 64 && forall|i: int|
            0 <= i < s.len() ==> ('0' <= #[trigger] s[i] <= '9') || ('a' <= s[i] <= 'f') || ('A' <= s[i]
                <= 'F'),
        hex_key(s) matches Some(k) ==> k == ascii_lower(s) && is_key(k),
        is_key(s) <==> s.len() == 64 && forall|i: int|
            0 <= i < s.len() ==> ('0' <= #[trigger] s[i] <= '9') || ('a' <= s[i] <= 'f'),
        hex_key(s) is Some ==> npub_or_hex_text(s) == npub_text(s),
        hex_key(s) is None ==> npub_or_hex_text(s) == s,
{
    let l = ascii_lower(s);
    assert(l.len() == s.len());
    if s.len() == 64 && forall|i: int| 0 <= i < s.len() ==> is_hex_digit(#[trigger] s[i]) {
        assert forall|i: int| 0 <= i < l.len() implies is_hex_digit(#[trigger] l[i]) && !('A' <= l[i]
            <= 'F') by {
            assert(is_hex_digit(s[i]));
        }
        assert(ascii_lower(l) =~= l);
        if l == s {
            assert forall|i: int| 0 <= i < s.len() implies ('0' <= #[trigger] s[i] <= '9') || ('a'
                <= s[i] <= 'f') by {
                assert(is_hex_digit(l[i]) && !('A' <= l[i] <= 'F'));
            }
        }
    }
    if s.len() == 64 && forall|i: int|
        0 <= i < s.len() ==> ('0' <= #[trigger] s[i] <= '9') || ('a' <= s[i] <= 'f') {
        assert(l =~= s);
        assert forall|i: int| 0 <= i < s.len() implies is_hex_digit(#[trigger] s[i]) by {}
    }
}

/// What can be sealed: any text but an empty or an overlong one.
pub proof fn texts_that_can_be_sealed(content: Seq<char>)
    ensures
        byte_len(content) == 0 ==> !fits_seal(content),
        byte_len(content) > 65535 ==> !fits_seal(content),
        1 <= byte_len(content) <= SEAL_LIMIT ==> fits_seal(content),
        npub_reading(content) matches Ok(k) ==> npub_key(content) == Some(k),
        npub_reading(content) is Err ==> npub_key(content) is None,
{
}

} // verus!
