//! Sign-in through a forge and the credentials of users and agents: the
//! claims of the tokens, where the browser is sent, how a forge profile
//! becomes a user, and how API keys and agent tokens are read.
use vstd::prelude::*;
use vstd::string::*;
use vstd::utf8::encode_utf8;

use crate::codec::{
    hex_encode, hex_lower_spec, random_bytes, sha256, sha256_spec, url_encode, url_encode_spec,
    uuid_hyphenated, uuid_parse, uuid_parse_spec, uuid_to_string,
};
use crate::error::{app_error_message, AppError};
use crate::status::AgentStatus;
use crate::text::{decimal, strip_prefix, strip_prefix_spec, str_eq, u64_to_decimal};

verus! {

/// The issuer of every token of the service.
pub const JWT_ISS: &'static str = "kanade";

/// The audience of the short-lived token that carries a sign-in through
/// the forge.
pub const AUD_LOGIN: &'static str = "login";

/// The audience of a user's API token.
pub const AUD_USER: &'static str = "user";

/// How long a sign-in may take, in seconds.
pub const LOGIN_TOKEN_LIFETIME: i64 = 300;

/// How long a user's API token lasts, in seconds.
pub const USER_TOKEN_LIFETIME: i64 = 28800;

/// The claims of the token that carries a sign-in through the forge.
pub struct LoginClaims {
    pub forge_id: String,
    pub aud: String,
    pub exp: u64,
    pub iss: String,
}

/// The claims of a user's API token.
pub struct UserTokenClaims {
    pub sub: u128,
    pub iss: String,
    pub aud: String,
    pub exp: u64,
}

/// `t as u64`, which wraps a negative time stamp.
pub open spec fn as_u64_wrapping(t: int) -> int {
    if t >= 0 {
        t
    } else {
        t + 0x1_0000_0000_0000_0000
    }
}

fn to_u64_wrapping(t: i64) -> (r: u64)
    ensures
        r as int == as_u64_wrapping(t as int),
{
    if t >= 0 {
        t as u64
    } else {
        let m: i128 = (t as i128) + 0x1_0000_0000_0000_0000i128;
        m as u64
    }
}

impl LoginClaims {
    /// The claims for a sign-in through forge `forge_id` begun at time
    /// `now`: the forge id in hyphenated form, five minutes to complete it.
    pub fn for_forge(forge_id: u128, now: i64) -> (c: LoginClaims)
        requires
            now + LOGIN_TOKEN_LIFETIME <= i64::MAX,
        ensures
            c.forge_id@ == uuid_hyphenated(forge_id),
            c.aud@ == AUD_LOGIN@,
            c.iss@ == JWT_ISS@,
            c.exp as int == as_u64_wrapping(now + LOGIN_TOKEN_LIFETIME),
    {
        LoginClaims {
            forge_id: uuid_to_string(forge_id),
            aud: String::from_str(AUD_LOGIN),
            exp: to_u64_wrapping(now + LOGIN_TOKEN_LIFETIME),
            iss: String::from_str(JWT_ISS),
        }
    }

    /// The forge a sign-in went through, read back from its claims; an id
    /// that does not parse is an internal error. The id that
    /// [`LoginClaims::for_forge`] wrote is read back as it was.
    pub fn forge(&self) -> (r: Result<u128, AppError>)
        ensures
            match uuid_parse_spec(self.forge_id@) {
                Some(x) => r matches Ok(y) && y == x,
                None => r matches Err(e) && e is InternalError,
            },
            forall|x: u128| self.forge_id@ == uuid_hyphenated(x) ==> (r matches Ok(y) && y == x),
    {
        match uuid_parse(self.forge_id.as_str()) {
            Some(x) => Ok(x),
            None => Err(AppError::InternalError(String::from_str("invalid forge id"))),
        }
    }
}

impl UserTokenClaims {
    /// The claims of the API token of `user_id` signed in at time `now`:
    /// valid for eight hours.
    pub fn for_user(user_id: u128, now: i64) -> (c: UserTokenClaims)
        requires
            now + USER_TOKEN_LIFETIME <= i64::MAX,
        ensures
            c.sub == user_id,
            c.aud@ == AUD_USER@,
            c.iss@ == JWT_ISS@,
            c.exp as int == as_u64_wrapping(now + USER_TOKEN_LIFETIME),
    {
        UserTokenClaims {
            sub: user_id,
            iss: String::from_str(JWT_ISS),
            aud: String::from_str(AUD_USER),
            exp: to_u64_wrapping(now + USER_TOKEN_LIFETIME),
        }
    }
}

// ---------------------------------------------------------------------
// Where the browser is sent
// ---------------------------------------------------------------------

/// The sign-in page showing `message` as the error.
pub open spec fn login_error_location_spec(message: Seq<char>) -> Seq<char> {
    "/login?error="@ + url_encode_spec(message)
}

/// The page that receives the API token of a completed sign-in.
pub open spec fn login_success_location_spec(token: Seq<char>) -> Seq<char> {
    "/login/success?token="@ + url_encode_spec(token)
}

/// The message shown when the forge returns with a state token that does
/// not verify.
pub open spec fn invalid_state_message() -> Seq<char> {
    "잘못된 인증 토큰입니다. 다시  시도해주세요."@
}

/// The message shown when a sign-in fails after the forge returned.
pub open spec fn sign_in_failed_message(error: Seq<char>) -> Seq<char> {
    "인증에 실패했습니다: "@ + error
}

/// What the forge sends the browser back with.
pub enum CallbackQuery {
    Successful { code: String, state: String },
    Failed { error: String, error_description: Option<String> },
}

/// The sign-in callback.
pub struct Callback;

impl Callback {
    /// The sign-in page showing `message` as the error.
    pub fn login_error_location(message: &str) -> (l: String)
        ensures
            l@ == login_error_location_spec(message@),
    {
        let mut l = String::from_str("/login?error=");
        let e = url_encode(message);
        l.append(e.as_str());
        l
    }

    /// The page that receives the API token of a completed sign-in.
    pub fn success_location(token: &str) -> (l: String)
        ensures
            l@ == login_success_location_spec(token@),
    {
        let mut l = String::from_str("/login/success?token=");
        let e = url_encode(token);
        l.append(e.as_str());
        l
    }

    /// Where the browser goes when the forge refused the sign-in: the
    /// sign-in page with the forge's description of the error, or the error
    /// code when it gave none. Answers nothing for a successful return.
    pub fn refused_location(query: &CallbackQuery) -> (l: Option<String>)
        ensures
            match query {
                CallbackQuery::Failed { error, error_description } => l matches Some(s) && s@
                    == login_error_location_spec(
                    match error_description {
                        Some(d) => d@,
                        None => error@,
                    },
                ),
                CallbackQuery::Successful { .. } => l is None,
            },
    {
        match query {
            CallbackQuery::Failed { error, error_description } => {
                let shown = match error_description {
                    Some(d) => d.as_str(),
                    None => error.as_str(),
                };
                Some(Callback::login_error_location(shown))
            },
            CallbackQuery::Successful { .. } => None,
        }
    }

    /// Where the browser goes when the state token does not verify.
    pub fn invalid_state_location() -> (l: String)
        ensures
            l@ == login_error_location_spec(invalid_state_message()),
    {
        Callback::login_error_location("잘못된 인증 토큰입니다. 다시  시도해주세요.")
    }

    /// The first decision on a return from the forge at time `now`: a
    /// refusal by the forge leads to the sign-in page with its error; a
    /// state token that the service does not accept (see
    /// [`LoginClaims::from_state`]) leads to the sign-in page with the
    /// invalid-token message; otherwise the sign-in goes on with the code
    /// and the claims of the state token.
    pub fn begin(secret: &[u8], query: CallbackQuery, now: i64) -> (r: Result<
        (String, LoginClaims),
        String,
    >)
        ensures
            match query {
                CallbackQuery::Failed { error, error_description } => r matches Err(l) && l@
                    == login_error_location_spec(
                    match error_description {
                        Some(d) => d@,
                        None => error@,
                    },
                ),
                CallbackQuery::Successful { code, state } => if login_state_accepted(
                    secret@,
                    state@,
                    now,
                ) {
                    r matches Ok((c, x)) && c@ == code@ && jwt_login_claims(state@) == Some(
                        (x.forge_id@, x.aud@, x.exp, x.iss@),
                    )
                } else {
                    r matches Err(l) && l@ == login_error_location_spec(invalid_state_message())
                },
            },
    {
        if let Some(l) = Callback::refused_location(&query) {
            return Err(l);
        }
        match query {
            CallbackQuery::Successful { code, state } => {
                match LoginClaims::from_state(secret, state.as_str(), now) {
                    Some(x) => Ok((code, x)),
                    None => Err(Callback::invalid_state_location()),
                }
            },
            CallbackQuery::Failed { .. } => Err(Callback::invalid_state_location()),
        }
    }

    /// Where the browser goes once the sign-in has run: the location it
    /// produced, or the sign-in page with the failure.
    pub fn finish(outcome: Result<String, AppError>) -> (l: String)
        ensures
            match outcome {
                Ok(location) => l@ == location@,
                Err(e) => l@ == login_error_location_spec(sign_in_failed_message(app_error_message(e))),
            },
    {
        match outcome {
            Ok(location) => location,
            Err(e) => Callback::failed_location(&e),
        }
    }

    /// Where the browser goes when the sign-in failed with `err`.
    pub fn failed_location(err: &AppError) -> (l: String)
        ensures
            l@ == login_error_location_spec(sign_in_failed_message(app_error_message(*err))),
    {
        let mut text = String::from_str("인증에 실패했습니다: ");
        let m = err.message();
        text.append(m.as_str());
        Callback::login_error_location(text.as_str())
    }
}

// ---------------------------------------------------------------------
// From a forge profile to a user
// ---------------------------------------------------------------------

/// The profile the forge reports for the signed-in user.
pub struct ForgejoProfile {
    pub id: u32,
    pub login: String,
    /// Empty if none.
    pub full_name: String,
    /// Empty if none.
    pub avatar_url: String,
    pub email: String,
}

/// What a sign-in through a forge learns of the user.
pub struct ForgeAuthResult {
    pub access_token: String,
    pub refresh_token: String,
    pub access_token_expires_at: i64,
    pub sub: String,
    pub login: String,
    pub nick: String,
    pub email: Option<String>,
    pub avatar_url: Option<String>,
}

/// An empty string stands for a missing value.
pub open spec fn non_empty(s: Seq<char>) -> Option<Seq<char>> {
    if s.len() == 0 {
        None
    } else {
        Some(s)
    }
}

/// The view of an optional string.
pub open spec fn opt_str(o: Option<String>) -> Option<Seq<char>> {
    match o {
        Some(s) => Some(s@),
        None => None,
    }
}

impl ForgeAuthResult {
    /// The user a forge profile describes: the forge's numeric id in
    /// decimal is the subject, the full name is the nickname (the login when
    /// the name is empty), and an empty avatar is no avatar.
    pub fn from_profile(
        profile: ForgejoProfile,
        access_token: String,
        refresh_token: String,
        access_token_expires_at: i64,
    ) -> (r: ForgeAuthResult)
        ensures
            r.access_token == access_token,
            r.refresh_token == refresh_token,
            r.access_token_expires_at == access_token_expires_at,
            r.sub@ == decimal(profile.id as nat),
            r.login@ == profile.login@,
            r.nick@ == (if profile.full_name@.len() == 0 {
                profile.login@
            } else {
                profile.full_name@
            }),
            opt_str(r.email) == Some(profile.email@),
            opt_str(r.avatar_url) == non_empty(profile.avatar_url@),
    {
        let ForgejoProfile { id, login, full_name, avatar_url, email } = profile;
        let nick = if full_name.as_str().unicode_len() == 0 {
            login.clone()
        } else {
            full_name
        };
        let avatar = if avatar_url.as_str().unicode_len() == 0 {
            None
        } else {
            Some(avatar_url)
        };
        ForgeAuthResult {
            access_token,
            refresh_token,
            access_token_expires_at,
            sub: u64_to_decimal(id as u64),
            login,
            nick,
            email: Some(email),
            avatar_url: avatar,
        }
    }
}

/// The unique constraint on user names.
pub open spec fn username_constraint() -> Seq<char> {
    "user_username_key"@
}

/// The user registration decisions.
pub struct Registration;

impl Registration {
    /// A new user's insert is retried under another name only when it broke
    /// the uniqueness of user names.
    pub fn is_username_taken(is_unique_violation: bool, constraint: Option<&str>) -> (b: bool)
        ensures
            b == (is_unique_violation && match constraint {
                Some(c) => c@ == username_constraint(),
                None => false,
            }),
    {
        if !is_unique_violation {
            return false;
        }
        match constraint {
            Some(c) => str_eq(c, "user_username_key"),
            None => false,
        }
    }

    /// The name tried when the login is taken: the login, an underscore,
    /// and a random suffix.
    pub fn suffixed_username(login: &str, suffix: &str) -> (u: String)
        ensures
            u@ == login@ + "_"@ + suffix@,
    {
        let mut u = String::from_str(login);
        u.append("_");
        u.append(suffix);
        u
    }
}

// ---------------------------------------------------------------------
// API keys and agent tokens
// ---------------------------------------------------------------------

/// The user API key check.
pub struct ApiKeyAuth;

/// The scheme prefix of a user's API key header.
pub open spec fn bearer_prefix() -> Seq<char> {
    "Bearer "@
}

impl ApiKeyAuth {
    /// The token of an `Authorization` header, which must start with
    /// `Bearer `.
    pub fn bearer_token(header: &str) -> (t: Option<String>)
        ensures
            match t {
                Some(s) => strip_prefix_spec(header@, bearer_prefix()) == Some(s@),
                None => strip_prefix_spec(header@, bearer_prefix()) is None,
            },
    {
        strip_prefix(header, "Bearer ")
    }

    /// The user an `Authorization` header signs in at time `now`: its
    /// bearer token must be an API token of this service signed with
    /// `secret` (issuer `kanade`, audience `user`) that has not expired; the
    /// answer is the token's subject. A header without the `Bearer ` prefix
    /// is refused without looking at the token.
    pub fn check(secret: &[u8], header: &str, now: i64) -> (r: Option<u128>)
        ensures
            r == api_key_user(secret@, header@, now),
    {
        let token = match ApiKeyAuth::bearer_token(header) {
            Some(t) => t,
            None => return None,
        };
        match UserTokenClaims::from_token(secret, token.as_str(), now) {
            Some(c) => Some(c.sub),
            None => None,
        }
    }
}

/// The user that the `Authorization` header `header` signs in at time
/// `now`, given the signing secret.
pub open spec fn api_key_user(secret: Seq<u8>, header: Seq<char>, now: i64) -> Option<u128> {
    match strip_prefix_spec(header, bearer_prefix()) {
        Some(token) => if user_token_accepted(secret, token, now) {
            Some(jwt_user_claims(token).unwrap().0)
        } else {
            None
        },
        None => None,
    }
}

// ---------------------------------------------------------------------
// Signed tokens
// ---------------------------------------------------------------------

/// How long after its expiry a token is still accepted, in seconds.
pub const JWT_LEEWAY: i64 = 60;

/// A token that expires at `exp` is still accepted at time `now`: its
/// expiry is at most the leeway in the past.
pub open spec fn token_fresh(exp: u64, now: i64) -> bool {
    now - JWT_LEEWAY <= exp
}

fn is_fresh(exp: u64, now: i64) -> (b: bool)
    ensures
        b == token_fresh(exp, now),
{
    (now as i128) - (JWT_LEEWAY as i128) <= (exp as i128)
}

/// The token that `jsonwebtoken::encode` writes, with an HS512 header,
/// for sign-in claims with these fields under `secret`.
pub uninterp spec fn login_token_spec(
    secret: Seq<u8>,
    forge_id: Seq<char>,
    aud: Seq<char>,
    iss: Seq<char>,
    exp: u64,
) -> Seq<char>;

/// The token that `jsonwebtoken::encode` writes, with an HS512 header,
/// for API-token claims with these fields under `secret`.
pub uninterp spec fn user_token_spec(
    secret: Seq<u8>,
    sub: u128,
    iss: Seq<char>,
    aud: Seq<char>,
    exp: u64,
) -> Seq<char>;

/// Whether `token` passes the signature check of `jsonwebtoken::decode`
/// with `DecodingKey::from_secret(secret)` and HS512 as the only algorithm:
/// split at its last two dots, its first part is a JWT header naming
/// HS512, and its last part, base64url-decoded, is the HMAC-SHA512 under
/// `secret` of the first two parts joined by the dot.
pub uninterp spec fn hs512_valid(secret: Seq<u8>, token: Seq<char>) -> bool;

/// The sign-in claims that `jsonwebtoken::decode` reads from the payload
/// of `token` (its middle part, base64url-decoded, as a JSON object):
/// the strings `forge_id` and `aud`, the unsigned integer `exp` and the
/// string `iss`. Nothing when the payload is not such an object.
pub uninterp spec fn jwt_login_claims(token: Seq<char>) -> Option<
    (Seq<char>, Seq<char>, u64, Seq<char>),
>;

/// The API-token claims that `jsonwebtoken::decode` reads from the payload
/// of `token`: the identifier in the string `sub` (as
/// `uuid::Uuid::parse_str` reads it), the strings `iss` and `aud` and the
/// unsigned integer `exp`. Nothing when the payload is not such an object.
pub uninterp spec fn jwt_user_claims(token: Seq<char>) -> Option<
    (u128, Seq<char>, Seq<char>, u64),
>;

/// Whether `state` is a sign-in token of this service under `secret` that
/// is still accepted at time `now`.
pub open spec fn login_state_accepted(secret: Seq<u8>, state: Seq<char>, now: i64) -> bool {
    &&& hs512_valid(secret, state)
    &&& jwt_login_claims(state) matches Some((f, a, e, i))
    &&& a == AUD_LOGIN@
    &&& i == JWT_ISS@
    &&& token_fresh(e, now)
}

/// Whether `token` is an API token of this service under `secret` that is
/// still accepted at time `now`.
pub open spec fn user_token_accepted(secret: Seq<u8>, token: Seq<char>, now: i64) -> bool {
    &&& hs512_valid(secret, token)
    &&& jwt_user_claims(token) matches Some((s, i, a, e))
    &&& i == JWT_ISS@
    &&& a == AUD_USER@
    &&& token_fresh(e, now)
}

/// `jsonwebtoken::encode` with `Header::new(Algorithm::HS512)` and
/// `EncodingKey::from_secret(secret)`, on the claims as a JSON object with
/// the fields `forge_id`, `aud`, `exp` and `iss`. HMAC signing takes a key
/// of any length and does not fail; the token carries an HS512 header, the
/// HMAC-SHA512 of its first two parts under `secret`, and the claims as
/// written.
#[verifier::external_body]
pub(crate) fn sign_login_token(secret: &[u8], claims: &LoginClaims) -> (t: String)
    ensures
        t@ == login_token_spec(secret@, claims.forge_id@, claims.aud@, claims.iss@, claims.exp),
        hs512_valid(secret@, t@),
        jwt_login_claims(t@) == Some((claims.forge_id@, claims.aud@, claims.exp, claims.iss@)),
{
    let mut m = serde_json::Map::new();
    m.insert("forge_id".to_string(), serde_json::Value::from(claims.forge_id.as_str()));
    m.insert("aud".to_string(), serde_json::Value::from(claims.aud.as_str()));
    m.insert("exp".to_string(), serde_json::Value::from(claims.exp));
    m.insert("iss".to_string(), serde_json::Value::from(claims.iss.as_str()));
    let header = jsonwebtoken::Header::new(jsonwebtoken::Algorithm::HS512);
    let key = jsonwebtoken::EncodingKey::from_secret(secret);
    jsonwebtoken::encode(&header, &m, &key).expect("HS512 signing with a secret key does not fail")
}

/// `jsonwebtoken::decode` with `DecodingKey::from_secret(secret)` and an
/// HS512 `Validation` whose only issuer is `iss` and only audience is
/// `aud`, with the expiry not checked against the clock (`exp` is still
/// required); the claims are read from the decoded JSON object. Some
/// exactly when the signature check passes, the payload holds the claims
/// and their issuer and audience are the ones asked for.
#[verifier::external_body]
pub(crate) fn verify_login_token(secret: &[u8], token: &str, iss: &str, aud: &str) -> (c: Option<
    LoginClaims,
>)
    ensures
        match c {
            Some(x) => {
                &&& hs512_valid(secret@, token@)
                &&& jwt_login_claims(token@) == Some((x.forge_id@, x.aud@, x.exp, x.iss@))
                &&& x.iss@ == iss@
                &&& x.aud@ == aud@
            },
            None => !(hs512_valid(secret@, token@) && (jwt_login_claims(token@) matches Some(
                (f, a, e, i),
            ) && i == iss@ && a == aud@)),
        },
{
    let mut v = jsonwebtoken::Validation::new(jsonwebtoken::Algorithm::HS512);
    v.set_issuer(&[iss]);
    v.set_audience(&[aud]);
    v.validate_exp = false;
    let key = jsonwebtoken::DecodingKey::from_secret(secret);
    let c = jsonwebtoken::decode::<serde_json::Map<String, serde_json::Value>>(token, &key, &v).ok()?.claims;
    let forge_id = c.get("forge_id")?.as_str()?.to_string();
    let exp = c.get("exp")?.as_u64()?;
    Some(LoginClaims { forge_id, aud: c.get("aud")?.as_str()?.to_string(), exp, iss: c.get("iss")?.as_str()?.to_string() })
}

/// `jsonwebtoken::encode` with `Header::new(Algorithm::HS512)` and
/// `EncodingKey::from_secret(secret)`, on the claims as a JSON object with
/// the fields `sub` (the hyphenated identifier), `iss`, `aud` and `exp`.
/// HMAC signing takes a key of any length and does not fail; the token
/// carries an HS512 header, the HMAC-SHA512 of its first two parts under
/// `secret`, and the claims as written.
#[verifier::external_body]
pub(crate) fn sign_user_token(secret: &[u8], claims: &UserTokenClaims) -> (t: String)
    ensures
        t@ == user_token_spec(secret@, claims.sub, claims.iss@, claims.aud@, claims.exp),
        hs512_valid(secret@, t@),
        jwt_user_claims(t@) == Some((claims.sub, claims.iss@, claims.aud@, claims.exp)),
{
    let mut m = serde_json::Map::new();
    m.insert("sub".to_string(), serde_json::Value::from(uuid::Uuid::from_u128(claims.sub).to_string()));
    m.insert("iss".to_string(), serde_json::Value::from(claims.iss.as_str()));
    m.insert("aud".to_string(), serde_json::Value::from(claims.aud.as_str()));
    m.insert("exp".to_string(), serde_json::Value::from(claims.exp));
    let header = jsonwebtoken::Header::new(jsonwebtoken::Algorithm::HS512);
    let key = jsonwebtoken::EncodingKey::from_secret(secret);
    jsonwebtoken::encode(&header, &m, &key).expect("HS512 signing with a secret key does not fail")
}

/// `jsonwebtoken::decode` as [`verify_login_token`] does, reading the
/// fields `sub` (an identifier, as `uuid::Uuid::parse_str` reads it),
/// `iss`, `aud` and `exp`. Some exactly when the signature check passes,
/// the payload holds the claims and their issuer and audience are the ones
/// asked for.
#[verifier::external_body]
pub(crate) fn verify_user_token(secret: &[u8], token: &str, iss: &str, aud: &str) -> (c: Option<
    UserTokenClaims,
>)
    ensures
        match c {
            Some(x) => {
                &&& hs512_valid(secret@, token@)
                &&& jwt_user_claims(token@) == Some((x.sub, x.iss@, x.aud@, x.exp))
                &&& x.iss@ == iss@
                &&& x.aud@ == aud@
            },
            None => !(hs512_valid(secret@, token@) && (jwt_user_claims(token@) matches Some(
                (s, i, a, e),
            ) && i == iss@ && a == aud@)),
        },
{
    let mut v = jsonwebtoken::Validation::new(jsonwebtoken::Algorithm::HS512);
    v.set_issuer(&[iss]);
    v.set_audience(&[aud]);
    v.validate_exp = false;
    let key = jsonwebtoken::DecodingKey::from_secret(secret);
    let c = jsonwebtoken::decode::<serde_json::Map<String, serde_json::Value>>(token, &key, &v).ok()?.claims;
    let sub = uuid::Uuid::parse_str(c.get("sub")?.as_str()?).ok()?.as_u128();
    let exp = c.get("exp")?.as_u64()?;
    Some(UserTokenClaims { sub, iss: c.get("iss")?.as_str()?.to_string(), aud: c.get("aud")?.as_str()?.to_string(), exp })
}

impl LoginClaims {
    /// The signed state token that carries a sign-in through forge
    /// `forge_id`, begun at time `now`, to the forge and back: the claims of
    /// [`LoginClaims::for_forge`] signed with `secret`. The callback accepts
    /// it, with the forge it names, until five minutes and the leeway have
    /// passed, and refuses it after.
    pub fn state_token(secret: &[u8], forge_id: u128, now: i64) -> (t: String)
        requires
            now + LOGIN_TOKEN_LIFETIME <= i64::MAX,
        ensures
            t@ == login_token_spec(
                secret@,
                uuid_hyphenated(forge_id),
                AUD_LOGIN@,
                JWT_ISS@,
                as_u64_wrapping(now + LOGIN_TOKEN_LIFETIME) as u64,
            ),
            forall|later: i64|
                later <= now + LOGIN_TOKEN_LIFETIME + JWT_LEEWAY ==> #[trigger] login_state_accepted(
                    secret@,
                    t@,
                    later,
                ),
            forall|later: i64|
                0 <= now + LOGIN_TOKEN_LIFETIME && now + LOGIN_TOKEN_LIFETIME + JWT_LEEWAY < later
                    ==> !#[trigger] login_state_accepted(secret@, t@, later),
            jwt_login_claims(t@) matches Some((f, a, e, i)) && f == uuid_hyphenated(forge_id),
    {
        let claims = LoginClaims::for_forge(forge_id, now);
        sign_login_token(secret, &claims)
    }

    /// The claims of the state token the forge sends the browser back
    /// with, at time `now`, when it is a sign-in token of this service
    /// signed with `secret` (issuer `kanade`, audience `login`) that has not
    /// expired.
    pub fn from_state(secret: &[u8], state: &str, now: i64) -> (c: Option<LoginClaims>)
        ensures
            c is Some <==> login_state_accepted(secret@, state@, now),
            c matches Some(x) ==> jwt_login_claims(state@) == Some(
                (x.forge_id@, x.aud@, x.exp, x.iss@),
            ),
    {
        match verify_login_token(secret, state, JWT_ISS, AUD_LOGIN) {
            Some(x) => if is_fresh(x.exp, now) {
                Some(x)
            } else {
                None
            },
            None => None,
        }
    }
}

impl UserTokenClaims {
    /// The API token of `user_id` signed in at time `now`: the claims of
    /// [`UserTokenClaims::for_user`] signed with `secret`. It signs in its
    /// user until eight hours and the leeway have passed, and not after.
    pub fn api_token(secret: &[u8], user_id: u128, now: i64) -> (t: String)
        requires
            now + USER_TOKEN_LIFETIME <= i64::MAX,
        ensures
            t@ == user_token_spec(
                secret@,
                user_id,
                JWT_ISS@,
                AUD_USER@,
                as_u64_wrapping(now + USER_TOKEN_LIFETIME) as u64,
            ),
            forall|later: i64|
                later <= now + USER_TOKEN_LIFETIME + JWT_LEEWAY ==> #[trigger] api_key_user(
                    secret@,
                    bearer_prefix() + t@,
                    later,
                ) == Some(user_id),
            forall|later: i64|
                0 <= now + USER_TOKEN_LIFETIME && now + USER_TOKEN_LIFETIME + JWT_LEEWAY < later
                    ==> #[trigger] api_key_user(secret@, bearer_prefix() + t@, later) is None,
    {
        let claims = UserTokenClaims::for_user(user_id, now);
        let t = sign_user_token(secret, &claims);
        proof {
            let h = bearer_prefix() + t@;
            assert(bearer_prefix().is_prefix_of(h));
            assert(h.skip(bearer_prefix().len() as int) =~= t@);
        }
        t
    }

    /// The claims of an API token of this service signed with `secret`
    /// (issuer `kanade`, audience `user`) that has not expired at time
    /// `now`.
    pub fn from_token(secret: &[u8], token: &str, now: i64) -> (c: Option<UserTokenClaims>)
        ensures
            c is Some <==> user_token_accepted(secret@, token@, now),
            c matches Some(x) ==> jwt_user_claims(token@) == Some((x.sub, x.iss@, x.aud@, x.exp)),
    {
        match verify_user_token(secret, token, JWT_ISS, AUD_USER) {
            Some(x) => if is_fresh(x.exp, now) {
                Some(x)
            } else {
                None
            },
            None => None,
        }
    }
}

/// The agent token check.
pub struct AgentTokenAuth;

impl AgentTokenAuth {
    /// What is stored of an agent token: the SHA-256 digest of its UTF-8
    /// bytes.
    pub fn token_hash(token: &str) -> (h: Vec<u8>)
        ensures
            h@ == sha256_spec(encode_utf8(token@)),
    {
        sha256(token.as_bytes())
    }
}

/// A freshly issued agent token and what is stored of it.
pub struct IssuedAgentToken {
    pub token: String,
    pub token_sha256: Vec<u8>,
}

/// The number of random bytes in an agent token.
pub const AGENT_TOKEN_BYTES: usize = 64;

/// The agent management endpoints.
pub struct AgentManagementApi;

impl AgentManagementApi {
    /// Issues a token for a new agent: 64 random bytes in lower-case
    /// hexadecimal, stored as the digest that [`AgentTokenAuth::token_hash`]
    /// computes. Nothing when the system random generator fails.
    pub fn issue_token() -> (r: Option<IssuedAgentToken>)
        ensures
            r matches Some(t) ==> (exists|b: Seq<u8>|
                b.len() == AGENT_TOKEN_BYTES && t.token@ == hex_lower_spec(b)) && t.token_sha256@
                == sha256_spec(encode_utf8(t.token@)),
    {
        let raw = match random_bytes(AGENT_TOKEN_BYTES) {
            Some(b) => b,
            None => return None,
        };
        Some(AgentManagementApi::token_from_bytes(raw.as_slice()))
    }

    /// The agent token made of `raw`: its bytes in lower-case hexadecimal,
    /// stored as the digest that [`AgentTokenAuth::token_hash`] computes.
    pub fn token_from_bytes(raw: &[u8]) -> (t: IssuedAgentToken)
        ensures
            t.token@ == hex_lower_spec(raw@),
            t.token_sha256@ == sha256_spec(encode_utf8(t.token@)),
    {
        let token = hex_encode(raw);
        let hash = AgentTokenAuth::token_hash(token.as_str());
        IssuedAgentToken { token, token_sha256: hash }
    }

    /// The status a newly created agent is registered with: offline until
    /// it first reports.
    pub fn initial_status() -> (s: AgentStatus)
        ensures
            s == AgentStatus::Offline,
    {
        AgentStatus::Offline
    }

    /// An agent created without a team is available to every team.
    pub fn is_global(team_id: u128) -> (b: bool)
        ensures
            b == (team_id == 0),
    {
        team_id == 0
    }
}

} // verus!
