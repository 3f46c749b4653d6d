//! The token codec: a stateless transform between a session's identifier with
//! its expiry and the signed text that a client carries.
//!
//! A token is the claims, a dot, and the signature of the claims. The claims
//! are the session identifier and the expiry, sixteen lower-case hexadecimal
//! digits each. The signature is what a signed cookie jar keyed with the
//! server's secret stores for a cookie whose value is the claims.

use crate::encoding::{
    decode_word, encode_word, hex_text, lemma_word_canonical, lemma_word_round_trip, word_value,
};
use axum::http::header::SET_COOKIE;
use axum::response::IntoResponse;
use axum_extra::extract::cookie::{Cookie, Key, SignedCookieJar};
use vstd::prelude::*;
use vstd::string::*;

verus! {

/// The least number of bytes that a signing secret holds.
pub const KEY_BYTES: usize = 64;

/// The number of characters that the claims take.
pub const CLAIMS_CHARS: usize = 32;

/// Why a token was turned down.
#[derive(Clone, Copy, Debug, PartialEq, Eq, Structural)]
pub enum TokenError {
    /// The signature is not the one that the server's key gives the claims.
    InvalidSignature,
    /// The expiry that the token carries has passed.
    Expired,
    /// The text is not claims, a dot and a signature.
    Malformed,
}

/// The name of the cookie that carries a token, under which the claims are
/// signed.
pub open spec fn cookie_name() -> Seq<char> {
    "session"@
}

/// The name of the cookie that carries a token.
pub fn session_cookie() -> (name: &'static str)
    ensures
        name@ == cookie_name(),
{
    "session"
}

/// The value that a signed cookie jar keyed with `secret` stores for the
/// cookie `name` when it is given `value`.
pub uninterp spec fn signed_cookie_text(
    secret: Seq<u8>,
    name: Seq<char>,
    value: Seq<char>,
) -> Seq<char>;

/// Signs one cookie value. The call is `SignedCookieJar::add` of axum-extra
/// on an empty jar made by `SignedCookieJar::new` from `Key::from(secret)`;
/// the stored value is read back from the `Set-Cookie` header of the jar's
/// response with `Cookie::parse_encoded`. The contract claims that the
/// outcome depends on the three arguments alone, and nothing of its shape.
/// `Key::from` panics on fewer than 64 bytes.
#[verifier::external_body]
fn sign_cookie_value(secret: &[u8], name: &str, value: &str) -> (signed: String)
    requires
        secret@.len() >= 64,
    ensures
        signed@ == signed_cookie_text(secret@, name@, value@),
{
    let jar = SignedCookieJar::new(Key::from(secret));
    let response = jar.add(Cookie::new(name.to_owned(), value.to_owned())).into_response();
    let header = match response.headers().get(SET_COOKIE) {
        Some(line) => line.to_str().unwrap_or_default().to_owned(),
        None => String::new(),
    };
    match Cookie::parse_encoded(header) {
        Ok(cookie) => cookie.value().to_owned(),
        Err(_) => String::new(),
    }
}

/// The claims of a token: the session's identifier, then its expiry.
pub open spec fn claims_text(session_id: u64, expires_at: u64) -> Seq<char> {
    hex_text(session_id as nat, 16) + hex_text(expires_at as nat, 16)
}

/// The token that the key `secret` gives a session and its expiry.
pub open spec fn token_text(secret: Seq<u8>, session_id: u64, expires_at: u64) -> Seq<char> {
    claims_text(session_id, expires_at) + seq!['.'] + signed_cookie_text(
        secret,
        cookie_name(),
        claims_text(session_id, expires_at),
    )
}

/// The part of a token that holds the claims.
pub open spec fn claims_of(token: Seq<char>) -> Seq<char> {
    token.subrange(0, 32)
}

/// The part of a token that holds the signature.
pub open spec fn signature_of(token: Seq<char>) -> Seq<char> {
    token.subrange(33, token.len() as int)
}

/// Whether `token` can be decoded: thirty-two digits, a dot, and any text.
pub open spec fn well_formed(token: Seq<char>) -> bool {
    &&& token.len() >= 33
    &&& word_value(token.subrange(0, 16)) is Some
    &&& word_value(token.subrange(16, 32)) is Some
    &&& token[32] == '.'
}

/// The session that a well-formed token names.
pub open spec fn session_of(token: Seq<char>) -> u64 {
    word_value(token.subrange(0, 16))->0
}

/// The expiry that a well-formed token carries.
pub open spec fn expiry_of(token: Seq<char>) -> u64 {
    word_value(token.subrange(16, 32))->0
}

/// The signature that the key `secret` gives the claims of `token`.
pub open spec fn expected_signature(secret: Seq<u8>, token: Seq<char>) -> Seq<char> {
    signed_cookie_text(secret, cookie_name(), claims_of(token))
}

/// Whether the signature of a well-formed token is the one that `secret`
/// gives its claims.
pub open spec fn authentic(secret: Seq<u8>, token: Seq<char>) -> bool {
    signature_of(token) == expected_signature(secret, token)
}

/// What `token` is judged to be at the time `now`, given the signature that
/// its claims should carry. A text that cannot be decoded is malformed
/// whatever else holds of it; a forged token is told nothing of its expiry.
pub open spec fn judged(token: Seq<char>, expected: Seq<char>, now: u64) -> Result<
    u64,
    TokenError,
> {
    if !well_formed(token) {
        Err(TokenError::Malformed)
    } else if signature_of(token) != expected {
        Err(TokenError::InvalidSignature)
    } else if now >= expiry_of(token) {
        Err(TokenError::Expired)
    } else {
        Ok(session_of(token))
    }
}

/// What verifying `token` at the time `now` under the key `secret` gives.
pub open spec fn verdict(secret: Seq<u8>, token: Seq<char>, now: u64) -> Result<u64, TokenError> {
    judged(token, expected_signature(secret, token), now)
}

/// The claims of a token: the session's identifier, then its expiry.
pub fn write_claims(session_id: u64, expires_at: u64) -> (claims: String)
    ensures
        claims@ == claims_text(session_id, expires_at),
{
    let mut claims = encode_word(session_id);
    let expiry = encode_word(expires_at);
    claims.append(expiry.as_str());
    claims
}

/// The token made of `claims` and `signature`: the two with a dot between.
pub fn seal(claims: &str, signature: &str) -> (token: String)
    ensures
        token@ == claims@ + seq!['.'] + signature@,
{
    let mut token = claims.to_owned();
    proof {
        reveal_strlit(".");
        assert("."@ =~= seq!['.']);
    }
    token.append(".");
    token.append(signature);
    token
}

/// Judges `token` at the time `now` against `expected`, the signature that
/// its claims should carry, and gives the session that it names.
pub fn judge(token: &str, expected: &str, now: u64) -> (outcome: Result<u64, TokenError>)
    ensures
        outcome == judged(token@, expected@, now),
{
    let length = token.unicode_len();
    if length < CLAIMS_CHARS + 1 {
        return Err(TokenError::Malformed);
    }
    let session_id = match decode_word(token.substring_char(0, 16)) {
        Some(word) => word,
        None => {
            return Err(TokenError::Malformed);
        },
    };
    let expires_at = match decode_word(token.substring_char(16, 32)) {
        Some(word) => word,
        None => {
            return Err(TokenError::Malformed);
        },
    };
    if token.get_char(CLAIMS_CHARS) != '.' {
        return Err(TokenError::Malformed);
    }
    let given = token.substring_char(CLAIMS_CHARS + 1, length).to_owned();
    if !(given == expected.to_owned()) {
        return Err(TokenError::InvalidSignature);
    }
    if now >= expires_at {
        return Err(TokenError::Expired);
    }
    Ok(session_id)
}

/// Issues and verifies tokens under one secret key.
pub struct TokenCodec {
    secret: Vec<u8>,
}

impl TokenCodec {
    #[verifier::type_invariant]
    spec fn keyed(self) -> bool {
        self.secret@.len() >= 64
    }

    /// The secret that this codec signs with.
    pub closed spec fn key(&self) -> Seq<u8> {
        self.secret@
    }

    /// A codec for `secret`, which must hold at least 64 bytes.
    pub fn new(secret: Vec<u8>) -> (codec: Option<TokenCodec>)
        ensures
            codec is Some <==> secret@.len() >= 64,
            codec matches Some(c) ==> c.key() == secret@,
    {
        if secret.len() >= KEY_BYTES {
            Some(TokenCodec { secret })
        } else {
            None
        }
    }

    /// The token for the session `session_id` that expires at `expires_at`.
    pub fn issue(&self, session_id: u64, expires_at: u64) -> (token: String)
        ensures
            token@ == token_text(self.key(), session_id, expires_at),
    {
        proof {
            use_type_invariant(self);
        }
        let claims = write_claims(session_id, expires_at);
        let signature = sign_cookie_value(
            self.secret.as_slice(),
            session_cookie(),
            claims.as_str(),
        );
        seal(claims.as_str(), signature.as_str())
    }

    /// Verifies `token` at the time `now` and gives the session that it names.
    pub fn verify(&self, token: &str, now: u64) -> (outcome: Result<u64, TokenError>)
        ensures
            outcome == verdict(self.key(), token@, now),
    {
        proof {
            use_type_invariant(self);
        }
        if token.unicode_len() < CLAIMS_CHARS {
            return Err(TokenError::Malformed);
        }
        let expected = sign_cookie_value(
            self.secret.as_slice(),
            session_cookie(),
            token.substring_char(0, CLAIMS_CHARS),
        );
        judge(token, expected.as_str(), now)
    }
}

/// An issued token verifies to its session for as long as its expiry has not
/// passed, and is expired from then on.
pub proof fn law_issued_token_verifies(
    secret: Seq<u8>,
    session_id: u64,
    expires_at: u64,
    now: u64,
)
    ensures
        well_formed(token_text(secret, session_id, expires_at)),
        authentic(secret, token_text(secret, session_id, expires_at)),
        session_of(token_text(secret, session_id, expires_at)) == session_id,
        expiry_of(token_text(secret, session_id, expires_at)) == expires_at,
        verdict(secret, token_text(secret, session_id, expires_at), now) == (if now < expires_at {
            Ok::<u64, TokenError>(session_id)
        } else {
            Err::<u64, TokenError>(TokenError::Expired)
        }),
{
    let token = token_text(secret, session_id, expires_at);
    let claims = claims_text(session_id, expires_at);
    lemma_word_round_trip(session_id);
    lemma_word_round_trip(expires_at);
    assert(token.subrange(0, 16) =~= hex_text(session_id as nat, 16));
    assert(token.subrange(16, 32) =~= hex_text(expires_at as nat, 16));
    assert(claims_of(token) =~= claims);
    assert(signature_of(token) =~= signed_cookie_text(secret, cookie_name(), claims));
}

/// A token that verifies is the very text that the codec issues for its
/// session and expiry: no other spelling of the same claims passes.
pub proof fn law_verified_token_was_issued(secret: Seq<u8>, token: Seq<char>, now: u64)
    requires
        verdict(secret, token, now) is Ok,
    ensures
        token == token_text(secret, session_of(token), expiry_of(token)),
        now < expiry_of(token),
{
    lemma_word_canonical(token.subrange(0, 16));
    lemma_word_canonical(token.subrange(16, 32));
    let claims = claims_text(session_of(token), expiry_of(token));
    assert(claims_of(token) =~= claims);
    assert(token =~= claims + seq!['.'] + signature_of(token));
}

} // verus!
