//! The token issuer and the token verifier.
//!
//! Issuing checks the submitted credentials against the configured admin
//! identity, mints a claim set, signs it, persists a row and returns the
//! signed content with its absolute expiry. Verifying compares a
//! client-submitted token against the server-stored copy for the same id by
//! decoding both and requiring full claims equality, so a token can be
//! invalidated server-side by deleting its row.

use vstd::prelude::*;

use crate::codec::{
    decoded_claims, encode_claims, is_valid, token_of, valid_pair, Claims, ClaimsView,
    TokensEncodeHandler,
};
use crate::errors::ErrorKind;
use crate::store::{contains_id, index_of_id, row_for_id, Token, TokenRowView, TokenStore};

verus! {

/// The configuration an operation reads at call time; `None` stands for a
/// value that is not set.
pub struct Config {
    pub admin_username: Option<String>,
    pub admin_password: Option<String>,
    pub jwt_secret: Option<String>,
    pub jwt_subject: Option<String>,
    pub token_expiration_hours: Option<i64>,
}

/// A login request: the submitted credential pair.
pub struct LoginRequest {
    pub username: String,
    pub pw: String,
}

/// A successful login: the generated row id, the signed content and its
/// absolute expiry in unix seconds.
#[derive(Debug, PartialEq)]
pub struct LoginResponse {
    pub id: i32,
    pub content: String,
    pub expires: i64,
}

/// A verification request: the row id and the client-submitted token.
pub struct TokenValidationRequest {
    pub id: i32,
    pub client: String,
}

/// Whether both configured admin credentials are set.
pub open spec fn admin_present(cfg: &Config) -> bool {
    cfg.admin_username is Some && cfg.admin_password is Some
}

/// Whether the submitted credentials equal the configured admin identity.
pub open spec fn creds_match(cfg: &Config, username: Seq<char>, pw: Seq<char>) -> bool {
    &&& admin_present(cfg)
    &&& username == cfg.admin_username->0@
    &&& pw == cfg.admin_password->0@
}

/// Whether the values issuing needs beyond the admin identity are all set.
pub open spec fn issue_config_ok(cfg: &Config) -> bool {
    cfg.token_expiration_hours is Some && cfg.jwt_subject is Some && cfg.jwt_secret is Some
}

/// The absolute expiry of a token issued at `now` with a TTL of `hours`.
pub open spec fn expiry_of(now: int, hours: int) -> int {
    now + hours * 3600
}

/// Whether the expiry arithmetic stays within the machine's integer range.
pub open spec fn expiry_fits(now: int, hours: int) -> bool {
    i64::MIN <= hours * 3600 <= i64::MAX && i64::MIN <= expiry_of(now, hours) <= i64::MAX
}

/// The claim set minted for a successful login at `now`.
pub open spec fn minted_claims(cfg: &Config, username: Seq<char>, now: int) -> ClaimsView {
    ClaimsView {
        subject: cfg.jwt_subject->0@,
        principal: username,
        expires_at: expiry_of(now, cfg.token_expiration_hours->0 as int),
    }
}

/// All conditions under which issuing is owed success: admin credentials
/// configured and matched, the rest of the configuration set, the expiry
/// arithmetic in range, and the store able to assign an id.
pub open spec fn issue_succeeds(cfg: &Config, store: TokenStore, username: Seq<char>, pw: Seq<char>, now: int) -> bool {
    &&& creds_match(cfg, username, pw)
    &&& issue_config_ok(cfg)
    &&& expiry_fits(now, cfg.token_expiration_hours->0 as int)
    &&& store.has_room()
}

/// Issue a token: check the credentials, mint and sign the claim set,
/// persist one row, and return the id, content and expiry. On failure no row
/// is written and the store is unchanged.
pub fn issue_token(store: &mut TokenStore, cfg: &Config, req: LoginRequest, now: i64) -> (r:
    Result<LoginResponse, ErrorKind>)
    ensures
        !admin_present(cfg) ==> r == Err::<LoginResponse, ErrorKind>(
            ErrorKind::ConfigurationMissing,
        ) && *final(store) == *old(store),
        (admin_present(cfg) && !creds_match(cfg, req.username@, req.pw@)) ==> r == Err::<
            LoginResponse,
            ErrorKind,
        >(ErrorKind::Unauthorized) && *final(store) == *old(store),
        (creds_match(cfg, req.username@, req.pw@) && !issue_config_ok(cfg)) ==> r == Err::<
            LoginResponse,
            ErrorKind,
        >(ErrorKind::ConfigurationMissing) && *final(store) == *old(store),
        (creds_match(cfg, req.username@, req.pw@) && issue_config_ok(cfg)
            && !expiry_fits(now as int, cfg.token_expiration_hours->0 as int)) ==> r == Err::<
            LoginResponse,
            ErrorKind,
        >(ErrorKind::ConfigurationMissing) && *final(store) == *old(store),
        (creds_match(cfg, req.username@, req.pw@) && issue_config_ok(cfg) && expiry_fits(
            now as int,
            cfg.token_expiration_hours->0 as int,
        ) && !old(store).has_room()) ==> r == Err::<LoginResponse, ErrorKind>(
            ErrorKind::StorageFailure,
        ) && *final(store) == *old(store),
        issue_succeeds(cfg, *old(store), req.username@, req.pw@, now as int) ==> r is Ok
            && (r->Ok_0).id == old(store).spec_next_id() && (r->Ok_0).content@ == token_of(
            minted_claims(cfg, req.username@, now as int),
            cfg.jwt_secret->0@,
        ) && (r->Ok_0).expires == expiry_of(
            now as int,
            cfg.token_expiration_hours->0 as int,
        ) && final(store)@ == old(store)@.push(
            (TokenRowView {
                id: old(store).spec_next_id(),
                content: token_of(minted_claims(cfg, req.username@, now as int), cfg.jwt_secret->0@),
                created_at: now as int,
                expires: expiry_of(now as int, cfg.token_expiration_hours->0 as int),
            }),
        ) && final(store).spec_next_id() == old(store).spec_next_id() + 1 && !contains_id(
            old(store)@,
            old(store).spec_next_id(),
        ) && decoded_claims(
            token_of(minted_claims(cfg, req.username@, now as int), cfg.jwt_secret->0@),
            cfg.jwt_secret->0@,
        ) == Ok::<ClaimsView, ErrorKind>(minted_claims(cfg, req.username@, now as int)),
{
    let admin_u = match &cfg.admin_username {
        Some(u) => u,
        None => {
            return Err(ErrorKind::ConfigurationMissing);
        },
    };
    let admin_p = match &cfg.admin_password {
        Some(p) => p,
        None => {
            return Err(ErrorKind::ConfigurationMissing);
        },
    };
    if !(req.username == *admin_u) || !(req.pw == *admin_p) {
        return Err(ErrorKind::Unauthorized);
    }
    let hours = match cfg.token_expiration_hours {
        Some(h) => h,
        None => {
            return Err(ErrorKind::ConfigurationMissing);
        },
    };
    let subject = match &cfg.jwt_subject {
        Some(s) => s,
        None => {
            return Err(ErrorKind::ConfigurationMissing);
        },
    };
    let secret = match &cfg.jwt_secret {
        Some(s) => s,
        None => {
            return Err(ErrorKind::ConfigurationMissing);
        },
    };
    let ttl_seconds = match hours.checked_mul(3600) {
        Some(s) => s,
        None => {
            return Err(ErrorKind::ConfigurationMissing);
        },
    };
    let expires = match now.checked_add(ttl_seconds) {
        Some(e) => e,
        None => {
            return Err(ErrorKind::ConfigurationMissing);
        },
    };
    let claims = Claims {
        subject: subject.clone(),
        principal: req.username.clone(),
        expires_at: expires,
    };
    let content = encode_claims(&claims, Some(secret.as_str())).unwrap();
    let token = Token { content: content.clone(), created_at: now, expires };
    match store.insert(token) {
        Ok(id) => Ok(LoginResponse { id, content, expires }),
        Err(e) => Err(e),
    }
}

/// The exact outcome verification owes for a store, an id, a submitted token
/// and a configuration.
pub open spec fn verify_outcome(
    rows: Seq<TokenRowView>,
    id: int,
    client: Seq<char>,
    cfg: &Config,
) -> Result<(), ErrorKind> {
    if !contains_id(rows, id) {
        Err(ErrorKind::NotFound)
    } else if cfg.jwt_secret is None {
        Err(ErrorKind::ConfigurationMissing)
    } else {
        match valid_pair(client, row_for_id(rows, id).content, cfg.jwt_secret->0@) {
            Err(e) => Err(e),
            Ok(b) => if b {
                Ok(())
            } else {
                Err(ErrorKind::Unauthorized)
            },
        }
    }
}

/// Verify a client-submitted token against the stored token with the same
/// id. Read-only: fails with `NotFound` when no row carries the id, with the
/// codec's failure when either token does not decode, and with
/// `Unauthorized` when the claim sets differ.
pub fn verify_token(store: &TokenStore, cfg: &Config, req: &TokenValidationRequest) -> (r: Result<
    (),
    ErrorKind,
>)
    ensures
        r == verify_outcome(store@, req.id as int, req.client@, cfg),
{
    let server = match store.find_by_id(req.id) {
        Some(t) => t,
        None => {
            return Err(ErrorKind::NotFound);
        },
    };
    let handler = TokensEncodeHandler { client: req.client.clone(), server: server.content };
    let secret_opt = match &cfg.jwt_secret {
        Some(s) => Some(s.as_str()),
        None => None,
    };
    match is_valid(&handler, secret_opt) {
        Ok(b) => {
            if b {
                Ok(())
            } else {
                Err(ErrorKind::Unauthorized)
            }
        },
        Err(e) => Err(e),
    }
}

/// Law: issuing with valid admin credentials and a complete configuration,
/// then immediately verifying the returned content under the returned id,
/// succeeds.
pub fn issue_then_verify(store: &mut TokenStore, cfg: &Config, req: LoginRequest, now: i64) -> (r:
    Result<(), ErrorKind>)
    ensures
        issue_succeeds(cfg, *old(store), req.username@, req.pw@, now as int) ==> r is Ok,
{
    let ghost req0 = req;
    let resp = match issue_token(store, cfg, req, now) {
        Ok(resp) => resp,
        Err(e) => {
            return Err(e);
        },
    };
    let vreq = TokenValidationRequest { id: resp.id, client: resp.content };
    let out = verify_token(store, cfg, &vreq);
    proof {
        if issue_succeeds(cfg, *old(store), req0.username@, req0.pw@, now as int) {
            let rows = store@;
            let n = rows.len() as int;
            assert(rows[n - 1].id == resp.id as int);
            assert(contains_id(rows, resp.id as int));
            let k = index_of_id(rows, resp.id as int);
            assert(rows[k].id == resp.id as int);
            if k < n - 1 {
                assert(rows[k] == old(store)@[k]);
                assert(contains_id(old(store)@, resp.id as int));
            }
            assert(row_for_id(rows, resp.id as int) == rows[n - 1]);
        }
    }
    out
}

/// Law: a well-formed token whose claim set differs from the stored token's
/// claim set is rejected as unauthorized.
pub fn issue_then_verify_mismatch(
    store: &mut TokenStore,
    cfg: &Config,
    req: LoginRequest,
    now: i64,
    other: &Claims,
) -> (r: Result<(), ErrorKind>)
    ensures
        (issue_succeeds(cfg, *old(store), req.username@, req.pw@, now as int) && other@
            != minted_claims(cfg, req.username@, now as int)) ==> r == Err::<(), ErrorKind>(
            ErrorKind::Unauthorized,
        ),
{
    let ghost req0 = req;
    let resp = match issue_token(store, cfg, req, now) {
        Ok(resp) => resp,
        Err(e) => {
            return Err(e);
        },
    };
    let secret = match &cfg.jwt_secret {
        Some(s) => s,
        None => {
            return Err(ErrorKind::ConfigurationMissing);
        },
    };
    let client = encode_claims(other, Some(secret.as_str())).unwrap();
    let vreq = TokenValidationRequest { id: resp.id, client };
    let out = verify_token(store, cfg, &vreq);
    proof {
        if issue_succeeds(cfg, *old(store), req0.username@, req0.pw@, now as int) {
            let rows = store@;
            let n = rows.len() as int;
            assert(rows[n - 1].id == resp.id as int);
            assert(contains_id(rows, resp.id as int));
            let k = index_of_id(rows, resp.id as int);
            assert(rows[k].id == resp.id as int);
            if k < n - 1 {
                assert(rows[k] == old(store)@[k]);
                assert(contains_id(old(store)@, resp.id as int));
            }
            assert(row_for_id(rows, resp.id as int) == rows[n - 1]);
        }
    }
    out
}

} // verus!
