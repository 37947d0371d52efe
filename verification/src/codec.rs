//! The claims codec: encoding and decoding signed claim sets under a
//! symmetric secret.
//!
//! The codec deliberately performs no expiry check: a token past its logical
//! expiry but not yet swept remains cryptographically valid, and expiry is
//! enforced by deleting the stored copy instead.

use std::collections::HashSet;

use jsonwebtoken::errors::ErrorKind as JwtFailure;
use jsonwebtoken::{decode, encode, Algorithm, DecodingKey, EncodingKey, Header, Validation};
use serde_json::Value;
use vstd::prelude::*;

use crate::errors::ErrorKind;

verus! {

/// The structured payload embedded in a signed token.
#[derive(Clone, Debug, PartialEq)]
pub struct Claims {
    /// The configured token subject label.
    pub subject: String,
    /// The principal the token was issued to.
    pub principal: String,
    /// Absolute expiry, in unix seconds.
    pub expires_at: i64,
}

/// The mathematical value of a claim set.
pub struct ClaimsView {
    pub subject: Seq<char>,
    pub principal: Seq<char>,
    pub expires_at: int,
}

impl View for Claims {
    type V = ClaimsView;

    open spec fn view(&self) -> ClaimsView {
        ClaimsView {
            subject: self.subject@,
            principal: self.principal@,
            expires_at: self.expires_at as int,
        }
    }
}

/// The signed token that encoding a claim set under a secret produces.
pub uninterp spec fn token_of(claims: ClaimsView, secret: Seq<char>) -> Seq<char>;

/// The outcome of decoding a token under a secret: the embedded claim set, or
/// the failure (`InvalidSignature` or `Malformed`) the decoder reports.
pub uninterp spec fn decoded_claims(token: Seq<char>, secret: Seq<char>) -> Result<
    ClaimsView,
    ErrorKind,
>;

/// Relies on `jsonwebtoken::encode` with an HS256 header and a plain secret:
/// the token is a deterministic function of the claim fields and the secret
/// alone, encoding a string/string/integer claim set never fails for this
/// algorithm, and `jsonwebtoken::decode` of the produced token under the same
/// secret yields the same claim set back.
#[verifier::external_body]
fn jwt_encode(claims: &Claims, secret: &str) -> (r: Result<String, ErrorKind>)
    ensures
        r is Ok,
        ((r->Ok_0)@ == token_of(claims@, secret@)),
        (decoded_claims((r->Ok_0)@, secret@) == Ok::<ClaimsView, ErrorKind>(claims@)),
{
    let mut body = serde_json::Map::new();
    body.insert("sub".to_owned(), Value::String(claims.subject.clone()));
    body.insert("company".to_owned(), Value::String(claims.principal.clone()));
    body.insert("exp".to_owned(), Value::from(claims.expires_at));
    let key = EncodingKey::from_secret(secret.as_bytes());
    match encode(&Header::new(Algorithm::HS256), &Value::Object(body), &key) {
        Ok(token) => Ok(token),
        Err(_) => Err(ErrorKind::ConfigurationMissing),
    }
}

/// Relies on `jsonwebtoken::decode` with HS256, the signature checked and
/// expiry validation disabled: the outcome is a deterministic function of the
/// token and the secret; every failure is a signature failure or a parse
/// failure; and a token minted under a different secret fails signature
/// verification (distinct secrets are taken to give distinct HMAC-SHA256
/// tags, the standard idealization of the authentication scheme).
#[verifier::external_body]
fn jwt_decode(token: &str, secret: &str) -> (r: Result<Claims, ErrorKind>)
    ensures
        (decoded_claims(token@, secret@) is Ok ==> r is Ok && (r->Ok_0)@ == decoded_claims(
            token@,
            secret@,
        )->Ok_0),
        (decoded_claims(token@, secret@) is Err ==> r is Err && r->Err_0 == decoded_claims(
            token@,
            secret@,
        )->Err_0),
        r is Err ==> r->Err_0 == ErrorKind::InvalidSignature || r->Err_0 == ErrorKind::Malformed,
        (forall|c: ClaimsView, s2: Seq<char>|
            token@ == token_of(c, s2) && s2 != secret@ ==> r is Err && r->Err_0
                == ErrorKind::InvalidSignature),
{
    let key = DecodingKey::from_secret(secret.as_bytes());
    let mut validation = Validation::new(Algorithm::HS256);
    validation.validate_exp = false;
    validation.required_spec_claims = HashSet::new();
    let data = decode::<Value>(token, &key, &validation).map_err(|e| match e.kind() {
        JwtFailure::InvalidSignature => ErrorKind::InvalidSignature,
        _ => ErrorKind::Malformed,
    })?;
    let sub = data.claims.get("sub").and_then(Value::as_str).ok_or(ErrorKind::Malformed)?;
    let com = data.claims.get("company").and_then(Value::as_str).ok_or(ErrorKind::Malformed)?;
    let exp = data.claims.get("exp").and_then(Value::as_i64).ok_or(ErrorKind::Malformed)?;
    Ok(Claims { subject: sub.to_owned(), principal: com.to_owned(), expires_at: exp })
}

/// Encode a claim set under the configured secret. Fails exactly when the
/// secret is absent.
pub fn encode_claims(claims: &Claims, secret: Option<&str>) -> (r: Result<String, ErrorKind>)
    ensures
        secret is None ==> r == Err::<String, ErrorKind>(ErrorKind::ConfigurationMissing),
        secret matches Some(s) ==> r matches Ok(t) && t@ == token_of(claims@, s@)
            && decoded_claims(t@, s@) == Ok::<ClaimsView, ErrorKind>(claims@),
{
    match secret {
        None => Err(ErrorKind::ConfigurationMissing),
        Some(s) => jwt_encode(claims, s),
    }
}

/// Decode a signed token under the configured secret. Fails exactly when the
/// secret is absent or when the decoder reports a failure.
pub fn handle_decode(token: &str, secret: Option<&str>) -> (r: Result<Claims, ErrorKind>)
    ensures
        secret is None ==> r == Err::<Claims, ErrorKind>(ErrorKind::ConfigurationMissing),
        secret matches Some(s) ==> match decoded_claims(token@, s@) {
            Ok(cv) => r matches Ok(c) && c@ == cv,
            Err(e) => r == Err::<Claims, ErrorKind>(e),
        },
        secret matches Some(s) ==> forall|c: ClaimsView, s2: Seq<char>|
            token@ == token_of(c, s2) && s2 != s@ ==> r == Err::<Claims, ErrorKind>(
                ErrorKind::InvalidSignature,
            ),
{
    match secret {
        None => Err(ErrorKind::ConfigurationMissing),
        Some(s) => jwt_decode(token, s),
    }
}

/// Whether two claim sets are equal, field for field.
pub fn claims_equal(a: &Claims, b: &Claims) -> (r: bool)
    ensures
        r == (a@ == b@),
{
    let r = a.subject == b.subject && a.principal == b.principal && a.expires_at == b.expires_at;
    proof {
        if r {
            assert(a@ == b@);
        }
    }
    r
}

/// The pair of signed tokens a verification compares: the client-submitted
/// one and the server-stored one.
pub struct TokensEncodeHandler {
    pub client: String,
    pub server: String,
}

/// The outcome of comparing a client token against a stored server token
/// under a secret: the first decode failure, or whether the claim sets match.
pub open spec fn valid_pair(client: Seq<char>, server: Seq<char>, secret: Seq<char>) -> Result<
    bool,
    ErrorKind,
> {
    match decoded_claims(client, secret) {
        Err(e) => Err(e),
        Ok(c) => match decoded_claims(server, secret) {
            Err(e) => Err(e),
            Ok(s) => Ok(c == s),
        },
    }
}

/// Decode both tokens of a pair and compare the embedded claim sets for full
/// structural equality.
pub fn is_valid(encode_handler: &TokensEncodeHandler, secret: Option<&str>) -> (r: Result<
    bool,
    ErrorKind,
>)
    ensures
        secret is None ==> r == Err::<bool, ErrorKind>(ErrorKind::ConfigurationMissing),
        secret matches Some(s) ==> r == valid_pair(encode_handler.client@, encode_handler.server@, s@),
{
    match secret {
        None => Err(ErrorKind::ConfigurationMissing),
        Some(s) => {
            let client = match handle_decode(encode_handler.client.as_str(), Some(s)) {
                Ok(c) => c,
                Err(e) => {
                    return Err(e);
                },
            };
            let server = match handle_decode(encode_handler.server.as_str(), Some(s)) {
                Ok(c) => c,
                Err(e) => {
                    return Err(e);
                },
            };
            Ok(claims_equal(&client, &server))
        },
    }
}

/// Round-trip law: decoding a freshly encoded token under the same secret
/// yields the original claim set, for every claim set and every secret.
pub fn encode_decode_round_trip(claims: &Claims, secret: &str) -> (r: Result<Claims, ErrorKind>)
    ensures
        r matches Ok(c) && c@ == claims@,
{
    let token = encode_claims(claims, Some(secret)).unwrap();
    handle_decode(token.as_str(), Some(secret))
}

/// Wrong-secret law: a token decoded under a secret other than the one it was
/// encoded under fails with `InvalidSignature`, for every claim set and every
/// such pair of secrets.
pub fn decode_with_other_secret(claims: &Claims, secret: &str, other: &str) -> (r: Result<
    Claims,
    ErrorKind,
>)
    requires
        other@ != secret@,
    ensures
        r == Err::<Claims, ErrorKind>(ErrorKind::InvalidSignature),
{
    let token = encode_claims(claims, Some(secret)).unwrap();
    handle_decode(token.as_str(), Some(other))
}

} // verus!
