//! Who may call: the bearer credential of an inbound request, and the signed
//! session of an administrator.
//!
//! A session token is signed and read by the `jsonwebtoken` crate. What is
//! decided here is everything around that: whether a header carries a bearer
//! value, whether a login is accepted and how long its session lasts, and
//! whether the claims read from a token still stand.

use vstd::prelude::*;
use crate::ambient::since_epoch;
use crate::error::{agrees, AppError, AppErrorView};
use crate::text::{has_prefix, same_text, strip_prefix, without_prefix};

verus! {

/// How long a session lasts from its login, in seconds: 24 hours.
pub const SESSION_LIFETIME_SECS: u64 = 86_400;

/// How far behind its expiry a session is still accepted, in seconds, to
/// allow for clocks that disagree.
pub const EXPIRY_LEEWAY_SECS: u64 = 60;

/// What a session token states: who the administrator is, and until when the
/// session lasts, in seconds since the Unix epoch.
#[derive(Debug, Clone, PartialEq, Eq)]
pub struct Claims {
    pub sub: String,
    pub exp: usize,
}

/// View of [`Claims`].
pub struct ClaimsView {
    pub sub: Seq<char>,
    pub exp: usize,
}

impl View for Claims {
    type V = ClaimsView;

    open spec fn view(&self) -> ClaimsView {
        ClaimsView { sub: self.sub@, exp: self.exp }
    }
}

/// The configured name and password of the administrator.
#[derive(Debug, Clone, PartialEq, Eq)]
pub struct AdminCredentials {
    pub username: String,
    pub password: String,
}

/// The header's value as a sequence of characters.
pub open spec fn header_view(authorization: Option<&str>) -> Option<Seq<char>> {
    match authorization {
        Some(header) => Some(header@),
        None => None,
    }
}

/// The view of the claims read from a token.
pub open spec fn claims_view(decoded: Option<Claims>) -> Option<ClaimsView> {
    match decoded {
        Some(claims) => Some(claims@),
        None => None,
    }
}

/// A bearer value and a result over views say the same.
pub open spec fn same_bearer(result: Result<&str, AppError>, expected: Result<Seq<char>, AppErrorView>) -> bool {
    match (result, expected) {
        (Ok(token), Ok(wanted)) => token@ == wanted,
        (Err(error), Err(wanted)) => error@ == wanted,
        _ => false,
    }
}

/// The value behind the bearer scheme of an authorization header.
///
/// A request without the header is refused, and so is a header that does not
/// begin with the scheme; the second refusal carries `malformed`.
pub open spec fn bearer_of(authorization: Option<Seq<char>>, malformed: Seq<char>) -> Result<
    Seq<char>,
    AppErrorView,
> {
    match authorization {
        None => Err(AppErrorView::BadRequest("Missing Authorization header"@)),
        Some(header) => if has_prefix(header, "Bearer "@) {
            Ok(without_prefix(header, "Bearer "@))
        } else {
            Err(AppErrorView::BadRequest(malformed))
        },
    }
}

/// What an inbound gateway request is told when its header is malformed.
pub open spec fn caller_malformed_message() -> Seq<char> {
    "Invalid Authorization header format. Expected: Bearer <api_key>"@
}

/// What an administrator's request is told when its header is malformed.
pub open spec fn admin_malformed_message() -> Seq<char> {
    "Invalid Authorization header format"@
}

/// Takes the bearer value out of an authorization header. `authorization` is
/// the header's value where the request has one that is text.
pub fn bearer_token<'a>(authorization: Option<&'a str>, malformed: &str) -> (result: Result<
    &'a str,
    AppError,
>)
    ensures
        same_bearer(result, bearer_of(header_view(authorization), malformed@)),
{
    match authorization {
        None => Err(AppError::bad_request("Missing Authorization header")),
        Some(header) => match strip_prefix(header, "Bearer ") {
            Some(token) => Ok(token),
            None => Err(AppError::bad_request(malformed)),
        },
    }
}

/// The credential that an inbound gateway request presents.
pub fn caller_key<'a>(authorization: Option<&'a str>) -> (result: Result<&'a str, AppError>)
    ensures
        same_bearer(result, bearer_of(header_view(authorization), caller_malformed_message())),
{
    bearer_token(authorization, "Invalid Authorization header format. Expected: Bearer <api_key>")
}

/// The session token that an administrator's request presents.
pub fn admin_token<'a>(authorization: Option<&'a str>) -> (result: Result<&'a str, AppError>)
    ensures
        same_bearer(result, bearer_of(header_view(authorization), admin_malformed_message())),
{
    bearer_token(authorization, "Invalid Authorization header format")
}

/// Decides on an inbound gateway request from what the credential directory
/// holds for its credential. `found` is the identifier of the active entry
/// with that credential, where there is one. A credential that is unknown or
/// inactive is refused.
pub fn admit_caller(found: Option<String>) -> (result: Result<String, AppError>)
    ensures
        match found {
            Some(id) => result == Ok::<String, AppError>(id),
            None => result matches Err(error) && error@ == AppErrorView::BadRequest(
                "Invalid or inactive API key"@,
            ),
        },
{
    match found {
        Some(id) => Ok(id),
        None => Err(AppError::bad_request("Invalid or inactive API key")),
    }
}

/// The instant at which a session that begins at `now` ends, where that
/// instant can be written into a claim.
pub open spec fn expiry_of(now: u64) -> Option<usize> {
    if now + SESSION_LIFETIME_SECS <= usize::MAX {
        Some((now + SESSION_LIFETIME_SECS) as usize)
    } else {
        None
    }
}

/// The instant at which a session that begins at `now` ends.
pub fn session_expiry(now: u64) -> (expiry: Option<usize>)
    ensures
        expiry == expiry_of(now),
{
    if now > u64::MAX - SESSION_LIFETIME_SECS {
        return None;
    }
    let end: u64 = now + SESSION_LIFETIME_SECS;
    if end > usize::MAX as u64 {
        return None;
    }
    Some(end as usize)
}

/// Name and password are those of the administrator.
pub open spec fn credentials_match(admin: &AdminCredentials, username: Seq<char>, password: Seq<char>) -> bool {
    username == admin.username@ && password == admin.password@
}

/// Whether name and password are those of the administrator.
pub fn credentials_are(admin: &AdminCredentials, username: &str, password: &str) -> (same: bool)
    ensures
        same == credentials_match(admin, username@, password@),
{
    same_text(username, admin.username.as_str()) && same_text(password, admin.password.as_str())
}

/// What a login at the instant `now` leads to.
///
/// A name or password that is not the administrator's is refused. Otherwise
/// the session is the administrator's and lasts 24 hours from `now`.
pub open spec fn login_at(
    admin: &AdminCredentials,
    username: Seq<char>,
    password: Seq<char>,
    now: u64,
) -> Result<ClaimsView, AppErrorView> {
    if !credentials_match(admin, username, password) {
        Err(AppErrorView::BadRequest("Invalid credentials"@))
    } else {
        match expiry_of(now) {
            Some(exp) => Ok(ClaimsView { sub: username, exp }),
            None => Err(AppErrorView::Internal("Session expiry out of range"@)),
        }
    }
}

/// Decides on a login at the instant `now`, in seconds since the Unix epoch.
pub fn login_claims(admin: &AdminCredentials, username: String, password: &str, now: u64) -> (result:
    Result<Claims, AppError>)
    ensures
        agrees(result, login_at(admin, username@, password@, now)),
{
    if !credentials_are(admin, username.as_str(), password) {
        return Err(AppError::bad_request("Invalid credentials"));
    }
    match session_expiry(now) {
        Some(exp) => Ok(Claims { sub: username, exp }),
        None => Err(AppError::internal("Session expiry out of range")),
    }
}

/// A session that ended at `exp` is over at `now`: its end lies further back
/// than the leeway allows.
pub open spec fn is_expired(exp: usize, now: u64) -> bool {
    exp + EXPIRY_LEEWAY_SECS < now
}

/// What the claims read from a token are worth at the instant `now`.
/// `decoded` is `None` where the token could not be read or its signature is
/// not ours. Such a token is refused, and so is one whose session is over;
/// both refusals carry `refusal`.
pub open spec fn session_at(decoded: Option<ClaimsView>, now: u64, refusal: Seq<char>) -> Result<
    ClaimsView,
    AppErrorView,
> {
    match decoded {
        Some(claims) => if is_expired(claims.exp, now) {
            Err(AppErrorView::BadRequest(refusal))
        } else {
            Ok(claims)
        },
        None => Err(AppErrorView::BadRequest(refusal)),
    }
}

/// Whether a session that ended at `exp` is over at `now`.
pub fn session_is_expired(exp: usize, now: u64) -> (expired: bool)
    ensures
        expired == is_expired(exp, now),
{
    now >= EXPIRY_LEEWAY_SECS && (exp as u64) < now - EXPIRY_LEEWAY_SECS
}

/// Decides on the claims read from a token at the instant `now`, in seconds
/// since the Unix epoch.
pub fn verify_claims(decoded: Option<Claims>, now: u64, refusal: &str) -> (result: Result<
    Claims,
    AppError,
>)
    ensures
        agrees(
            result,
            session_at(
                claims_view(decoded),
                now,
                refusal@,
            ),
        ),
{
    match decoded {
        Some(claims) => if session_is_expired(claims.exp, now) {
            Err(AppError::bad_request(refusal))
        } else {
            Ok(claims)
        },
        None => Err(AppError::bad_request(refusal)),
    }
}

/// Trusted: the error type of the `jsonwebtoken` crate. Nothing is known of
/// what an error holds.
#[verifier::external_type_specification]
#[verifier::external_body]
pub struct ExTokenError(jsonwebtoken::errors::Error);

/// The token that `jsonwebtoken::encode` gives for the claims `sub` and `exp`
/// under the default header, signed with `secret`.
pub uninterp spec fn signed_token(sub: Seq<char>, exp: usize, secret: Seq<char>) -> Seq<char>;

/// The claims `sub` and `exp` that `jsonwebtoken::decode` reads from `token`
/// when it checks the signature against `secret` and leaves the expiry
/// alone; `None` where it refuses the token or a claim is missing.
pub uninterp spec fn token_claims(token: Seq<char>, secret: Seq<char>) -> Option<(Seq<char>, usize)>;

/// Trusted: wraps `jsonwebtoken::encode` with the default header (HS256) and
/// `secret` as the key. The claims go in as a JSON object with the members
/// `sub` and `exp`. The token is a function of the three arguments, and the
/// call succeeds: the key is of the header's family, a string and a number
/// always serialise, and signing with a secret has no way to fail.
#[verifier::external_body]
fn encode_claims(sub: &str, exp: usize, secret: &str) -> (token: Result<
    String,
    jsonwebtoken::errors::Error,
>)
    ensures
        token is Ok,
        token->Ok_0@ == signed_token(sub@, exp, secret@),
{
    let mut claims = serde_json::Map::new();
    claims.insert("sub".to_string(), serde_json::Value::from(sub));
    claims.insert("exp".to_string(), serde_json::Value::from(exp));
    let key = jsonwebtoken::EncodingKey::from_secret(secret.as_bytes());
    jsonwebtoken::encode(&jsonwebtoken::Header::default(), &claims, &key)
}

/// Trusted: wraps `jsonwebtoken::decode` with the default validation (HS256,
/// the claim `exp` required) and `secret` as the key, but with the check of
/// the expiry switched off: that check is made by [`verify_claims`]. What
/// comes back are the members `sub`, a string, and `exp`, an unsigned number
/// that fits `usize`, of the token's claims. The result is a function of the
/// two arguments.
#[verifier::external_body]
fn decode_claims(token: &str, secret: &str) -> (claims: Result<Option<Claims>, jsonwebtoken::errors::Error>)
    ensures
        match claims {
            Ok(Some(read)) => token_claims(token@, secret@) == Some((read.sub@, read.exp)),
            _ => token_claims(token@, secret@) is None,
        },
{
    let mut validation = jsonwebtoken::Validation::default();
    validation.validate_exp = false;
    let key = jsonwebtoken::DecodingKey::from_secret(secret.as_bytes());
    let data = jsonwebtoken::decode::<serde_json::Value>(token, &key, &validation)?;
    let sub = data.claims.get("sub").and_then(|v| v.as_str());
    let exp = data.claims.get("exp").and_then(|v| v.as_u64()).and_then(|e| usize::try_from(e).ok());
    Ok(sub.zip(exp).map(|(sub, exp)| Claims { sub: sub.to_string(), exp }))
}

/// The claims that a token carries under `secret`, as a view.
pub open spec fn claims_of(token: Seq<char>, secret: Seq<char>) -> Option<ClaimsView> {
    match token_claims(token, secret) {
        Some((sub, exp)) => Some(ClaimsView { sub, exp }),
        None => None,
    }
}

/// What a login at the instant `now` gives back: the signed token for the
/// claims of [`login_at`].
pub open spec fn login_token_at(
    admin: &AdminCredentials,
    secret: Seq<char>,
    username: Seq<char>,
    password: Seq<char>,
    now: u64,
) -> Result<Seq<char>, AppErrorView> {
    match login_at(admin, username, password, now) {
        Err(error) => Err(error),
        Ok(claims) => Ok(signed_token(claims.sub, claims.exp, secret)),
    }
}

/// Signs the claims of a session with `secret`. Signing does not fail.
pub fn sign_claims(claims: &Claims, secret: &str) -> (result: Result<String, AppError>)
    ensures
        result matches Ok(token) && token@ == signed_token(claims.sub@, claims.exp, secret@),
{
    match encode_claims(claims.sub.as_str(), claims.exp, secret) {
        Ok(token) => Ok(token),
        Err(_) => Err(AppError::internal("Failed to sign session token")),
    }
}

/// Reads the claims of a session from `token`, where its signature is that
/// of `secret`. The expiry is not looked at.
pub fn read_claims(token: &str, secret: &str) -> (claims: Option<Claims>)
    ensures
        claims_view(claims) == claims_of(token@, secret@),
{
    match decode_claims(token, secret) {
        Ok(claims) => claims,
        Err(_) => None,
    }
}

/// Logs an administrator in at the instant `now`, in seconds since the Unix
/// epoch, and gives the session token.
pub fn admin_login_at(
    admin: &AdminCredentials,
    secret: &str,
    username: String,
    password: &str,
    now: u64,
) -> (result: Result<String, AppError>)
    ensures
        agrees(result, login_token_at(admin, secret@, username@, password@, now)),
{
    match login_claims(admin, username, password, now) {
        Err(error) => Err(error),
        Ok(claims) => sign_claims(&claims, secret),
    }
}

/// What is answered where the time is needed and the system clock reads
/// before the Unix epoch.
pub open spec fn clock_failure() -> AppErrorView {
    AppErrorView::Internal("System clock reads before the Unix epoch"@)
}

/// What a login leads to while the system clock reads before the Unix epoch:
/// a name or password that is not the administrator's is refused as ever,
/// and no session is issued for the administrator.
pub open spec fn login_without_clock(admin: &AdminCredentials, username: Seq<char>, password: Seq<char>) -> Result<
    Seq<char>,
    AppErrorView,
> {
    if !credentials_match(admin, username, password) {
        Err(AppErrorView::BadRequest("Invalid credentials"@))
    } else {
        Err(clock_failure())
    }
}

/// Logs an administrator in at the current time and gives the session
/// token. A name or password that is not the administrator's is refused
/// whatever the clock reads. The administrator gets the token of
/// [`login_token_at`] for the instant the clock gave, and an internal error
/// where the clock reads before the Unix epoch.
pub fn admin_login(admin: &AdminCredentials, secret: &str, username: String, password: &str) -> (result:
    Result<String, AppError>)
    ensures
        (exists|now: u64|
            agrees(result, #[trigger] login_token_at(admin, secret@, username@, password@, now)))
            || agrees(result, login_without_clock(admin, username@, password@)),
        !credentials_match(admin, username@, password@) ==> (result matches Err(error) && error@
            == AppErrorView::BadRequest("Invalid credentials"@)),
{
    match since_epoch() {
        Some(now) => admin_login_at(admin, secret, username, password, now),
        None => if credentials_are(admin, username.as_str(), password) {
            Err(AppError::internal("System clock reads before the Unix epoch"))
        } else {
            Err(AppError::bad_request("Invalid credentials"))
        },
    }
}

/// What an administrator's request is worth at the instant `now`: the header
/// has to carry a bearer token, the token has to be signed with `secret`,
/// and its session must not be over.
pub open spec fn verified_at(
    authorization: Option<Seq<char>>,
    secret: Seq<char>,
    refusal: Seq<char>,
    now: u64,
) -> Result<ClaimsView, AppErrorView> {
    match bearer_of(authorization, admin_malformed_message()) {
        Err(error) => Err(error),
        Ok(token) => session_at(claims_of(token, secret), now, refusal),
    }
}

/// Checks an administrator's request at the instant `now`, in seconds since
/// the Unix epoch. A token that is refused is answered with `refusal`.
pub fn verify_admin_request_at(authorization: Option<&str>, secret: &str, refusal: &str, now: u64) -> (result:
    Result<Claims, AppError>)
    ensures
        agrees(result, verified_at(header_view(authorization), secret@, refusal@, now)),
{
    match admin_token(authorization) {
        Err(error) => Err(error),
        Ok(token) => verify_claims(read_claims(token, secret), now, refusal),
    }
}

/// What the verify endpoint answers a token that it refuses.
pub open spec fn invalid_token_message() -> Seq<char> {
    "Invalid token"@
}

/// What the guard of the management endpoints answers a token that it
/// refuses.
pub open spec fn expired_token_message() -> Seq<char> {
    "Invalid or expired token"@
}

/// What an administrator's request is worth while the system clock reads
/// before the Unix epoch: a header without a bearer token and a token that
/// cannot be read are refused as ever, and no token is accepted.
pub open spec fn verified_without_clock(
    authorization: Option<Seq<char>>,
    secret: Seq<char>,
    refusal: Seq<char>,
) -> Result<ClaimsView, AppErrorView> {
    match bearer_of(authorization, admin_malformed_message()) {
        Err(error) => Err(error),
        Ok(token) => match claims_of(token, secret) {
            None => Err(AppErrorView::BadRequest(refusal)),
            Some(_) => Err(clock_failure()),
        },
    }
}

/// Checks an administrator's request at the current time. The request gets
/// what [`verified_at`] says for the instant the clock gave. Where the clock
/// reads before the Unix epoch no token is accepted.
pub fn verify_admin_request(authorization: Option<&str>, secret: &str, refusal: &str) -> (result: Result<
    Claims,
    AppError,
>)
    ensures
        (exists|now: u64|
            agrees(result, #[trigger] verified_at(header_view(authorization), secret@, refusal@, now)))
            || agrees(result, verified_without_clock(header_view(authorization), secret@, refusal@)),
{
    match since_epoch() {
        Some(now) => verify_admin_request_at(authorization, secret, refusal, now),
        None => match admin_token(authorization) {
            Err(error) => Err(error),
            Ok(token) => match read_claims(token, secret) {
                None => Err(AppError::bad_request(refusal)),
                Some(_) => Err(AppError::internal("System clock reads before the Unix epoch")),
            },
        },
    }
}

/// The verify endpoint: checks the session token of a request at the current
/// time.
pub fn admin_verify_token(authorization: Option<&str>, secret: &str) -> (result: Result<Claims, AppError>)
    ensures
        (exists|now: u64|
            agrees(
                result,
                #[trigger] verified_at(header_view(authorization), secret@, invalid_token_message(), now),
            )) || agrees(
            result,
            verified_without_clock(header_view(authorization), secret@, invalid_token_message()),
        ),
{
    verify_admin_request(authorization, secret, "Invalid token")
}

/// The guard of the management endpoints: checks the session token of a
/// request at the current time.
pub fn admin_auth_middleware(authorization: Option<&str>, secret: &str) -> (result: Result<
    Claims,
    AppError,
>)
    ensures
        (exists|now: u64|
            agrees(
                result,
                #[trigger] verified_at(header_view(authorization), secret@, expired_token_message(), now),
            )) || agrees(
            result,
            verified_without_clock(header_view(authorization), secret@, expired_token_message()),
        ),
{
    verify_admin_request(authorization, secret, "Invalid or expired token")
}

/// A session is refused once it has been over for longer than it lasted,
/// however good the signature of its token.
pub proof fn lemma_long_expired_session_is_refused(
    authorization: Option<Seq<char>>,
    secret: Seq<char>,
    refusal: Seq<char>,
    now: u64,
)
    requires
        bearer_of(authorization, admin_malformed_message()) matches Ok(token) && claims_of(
            token,
            secret,
        ) matches Some(claims) && claims.exp + SESSION_LIFETIME_SECS < now,
    ensures
        verified_at(authorization, secret, refusal, now) == Err::<ClaimsView, AppErrorView>(
            AppErrorView::BadRequest(refusal),
        ),
{
}

/// A session is accepted for 24 hours from its login: the claims of a login
/// at the instant `login` stand at every instant `now` up to the end of the
/// session.
pub proof fn lemma_session_lasts_a_day(
    admin: &AdminCredentials,
    username: Seq<char>,
    password: Seq<char>,
    login: u64,
    now: u64,
    refusal: Seq<char>,
)
    requires
        login_at(admin, username, password, login) is Ok,
        now <= login + SESSION_LIFETIME_SECS,
    ensures
        login_at(admin, username, password, login)->Ok_0.sub == admin.username@,
        login_at(admin, username, password, login)->Ok_0.exp == login + SESSION_LIFETIME_SECS,
        session_at(Some(login_at(admin, username, password, login)->Ok_0), now, refusal) == Ok::<
            ClaimsView,
            AppErrorView,
        >(login_at(admin, username, password, login)->Ok_0),
{
}

} // verus!
