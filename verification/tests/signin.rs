use kanade::auth::{
    AgentManagementApi, AgentTokenAuth, ApiKeyAuth, Callback, CallbackQuery, ForgeAuthResult,
    ForgejoProfile, LoginClaims, Registration, UserTokenClaims, AUD_LOGIN, AUD_USER, JWT_ISS,
};
use kanade::error::AppError;

#[test]
fn login_claims_carry_the_forge_for_five_minutes() {
    let forge = 0x0123_4567_89ab_cdef_0123_4567_89ab_cdefu128;
    let c = LoginClaims::for_forge(forge, 1_000);
    assert_eq!(c.forge_id, "01234567-89ab-cdef-0123-456789abcdef");
    assert_eq!(c.aud, "login");
    assert_eq!(c.iss, "kanade");
    assert_eq!(c.exp, 1_300);
    assert_eq!(c.forge().unwrap(), forge);
    assert_eq!(AUD_LOGIN, "login");
    assert_eq!(JWT_ISS, "kanade");
}

#[test]
fn an_unreadable_forge_id_is_an_internal_error() {
    let c = LoginClaims {
        forge_id: "not-a-uuid".to_string(),
        aud: "login".to_string(),
        exp: 0,
        iss: "kanade".to_string(),
    };
    assert!(matches!(c.forge(), Err(AppError::InternalError(_))));
    let upper = LoginClaims {
        forge_id: "01234567-89AB-CDEF-0123-456789ABCDEF".to_string(),
        aud: "login".to_string(),
        exp: 0,
        iss: "kanade".to_string(),
    };
    assert_eq!(upper.forge().unwrap(), 0x0123_4567_89ab_cdef_0123_4567_89ab_cdefu128);
}

#[test]
fn user_tokens_last_eight_hours() {
    let c = UserTokenClaims::for_user(42, 100);
    assert_eq!(c.sub, 42);
    assert_eq!(c.aud, "user");
    assert_eq!(c.iss, "kanade");
    assert_eq!(c.exp, 28_900);
    assert_eq!(AUD_USER, "user");
    let early = UserTokenClaims::for_user(1, -30_000);
    assert_eq!(early.exp, (-1_200i64) as u64);
}

#[test]
fn the_browser_is_sent_back_with_encoded_messages() {
    assert_eq!(Callback::login_error_location("a b&c"), "/login?error=a%20b%26c");
    assert_eq!(Callback::success_location("x.y-z_~"), "/login/success?token=x.y-z_~");
    assert_eq!(
        Callback::invalid_state_location(),
        format!("/login?error={}", urlencoding::encode("잘못된 인증 토큰입니다. 다시  시도해주세요."))
    );
    assert_eq!(
        Callback::failed_location(&AppError::InvalidTokenResponse),
        format!("/login?error={}", urlencoding::encode("인증에 실패했습니다: invalid token response"))
    );
}

#[test]
fn a_refused_sign_in_shows_the_forge_description() {
    let with_description = CallbackQuery::Failed {
        error: "access_denied".to_string(),
        error_description: Some("user said no".to_string()),
    };
    assert_eq!(
        Callback::refused_location(&with_description).unwrap(),
        "/login?error=user%20said%20no"
    );
    let bare = CallbackQuery::Failed { error: "access_denied".to_string(), error_description: None };
    assert_eq!(Callback::refused_location(&bare).unwrap(), "/login?error=access_denied");
    let ok = CallbackQuery::Successful { code: "c".to_string(), state: "s".to_string() };
    assert_eq!(Callback::refused_location(&ok), None);
}

fn profile(full_name: &str, avatar: &str) -> ForgejoProfile {
    ForgejoProfile {
        id: 1234,
        login: "alice".to_string(),
        full_name: full_name.to_string(),
        avatar_url: avatar.to_string(),
        email: "a@example.com".to_string(),
    }
}

#[test]
fn a_forge_profile_becomes_a_user() {
    let r = ForgeAuthResult::from_profile(profile("Alice A.", "https://img"), "at".into(), "rt".into(), 99);
    assert_eq!(r.sub, "1234");
    assert_eq!(r.login, "alice");
    assert_eq!(r.nick, "Alice A.");
    assert_eq!(r.email.as_deref(), Some("a@example.com"));
    assert_eq!(r.avatar_url.as_deref(), Some("https://img"));
    assert_eq!(r.access_token, "at");
    assert_eq!(r.refresh_token, "rt");
    assert_eq!(r.access_token_expires_at, 99);
    let r = ForgeAuthResult::from_profile(profile("", ""), "at".into(), "rt".into(), 99);
    assert_eq!(r.nick, "alice");
    assert_eq!(r.avatar_url, None);
}

#[test]
fn taken_usernames_are_retried_with_a_suffix() {
    assert!(Registration::is_username_taken(true, Some("user_username_key")));
    assert!(!Registration::is_username_taken(true, Some("user_email_key")));
    assert!(!Registration::is_username_taken(true, None));
    assert!(!Registration::is_username_taken(false, Some("user_username_key")));
    assert_eq!(Registration::suffixed_username("alice", "x1y2"), "alice_x1y2");
}

#[test]
fn api_keys_are_bearer_tokens() {
    assert_eq!(ApiKeyAuth::bearer_token("Bearer abc.def").as_deref(), Some("abc.def"));
    assert_eq!(ApiKeyAuth::bearer_token("bearer abc"), None);
    assert_eq!(ApiKeyAuth::bearer_token("abc"), None);
    assert_eq!(ApiKeyAuth::bearer_token("Bearer ").as_deref(), Some(""));
}

#[test]
fn agent_tokens_are_stored_as_sha256() {
    assert_eq!(
        hex::encode(AgentTokenAuth::token_hash("abc")),
        "ba7816bf8f01cfea414140de5dae2223b00361a396177a9cb410ff61f20015ad"
    );
}

#[test]
fn an_issued_agent_token_authenticates() {
    let t = AgentManagementApi::issue_token().unwrap();
    assert_eq!(t.token.len(), 128);
    assert!(t.token.bytes().all(|b| b.is_ascii_digit() || (b'a'..=b'f').contains(&b)));
    assert_eq!(AgentTokenAuth::token_hash(&t.token), t.token_sha256);
    let u = AgentManagementApi::issue_token().unwrap();
    assert_ne!(t.token, u.token);
}

#[test]
fn agents_without_a_team_are_global() {
    assert!(AgentManagementApi::is_global(0));
    assert!(!AgentManagementApi::is_global(5));
}

#[test]
fn new_agents_start_offline() {
    assert_eq!(AgentManagementApi::initial_status(), kanade::status::AgentStatus::Offline);
}

#[test]
fn agent_tokens_are_hex_of_their_bytes_and_stored_hashed() {
    let t = AgentManagementApi::token_from_bytes(&[0xde, 0xad, 0xbe, 0xef]);
    assert_eq!(t.token, "deadbeef");
    assert_eq!(t.token_sha256, AgentTokenAuth::token_hash("deadbeef"));
}

#[test]
fn api_tokens_sign_in_their_user() {
    let now = chrono::Utc::now().timestamp();
    let token = UserTokenClaims::api_token(b"jwt-secret", 42, now);
    assert_eq!(token.split('.').count(), 3);
    assert_eq!(ApiKeyAuth::check(b"jwt-secret", &format!("Bearer {token}"), now), Some(42));
    assert_eq!(ApiKeyAuth::check(b"other-secret", &format!("Bearer {token}"), now), None);
    assert_eq!(ApiKeyAuth::check(b"jwt-secret", &token, now), None);
    let claims = UserTokenClaims::from_token(b"jwt-secret", &token, now).unwrap();
    assert_eq!((claims.sub, claims.aud.as_str(), claims.iss.as_str()), (42, "user", "kanade"));
    let expired = UserTokenClaims::api_token(b"jwt-secret", 42, 1_000);
    assert_eq!(ApiKeyAuth::check(b"jwt-secret", &format!("Bearer {expired}"), now), None);
}

#[test]
fn api_tokens_last_eight_hours_and_the_leeway() {
    let token = UserTokenClaims::api_token(b"k", 9, 1_000);
    let header = format!("Bearer {token}");
    assert_eq!(ApiKeyAuth::check(b"k", &header, 1_000 + 28_800 + 60), Some(9));
    assert_eq!(ApiKeyAuth::check(b"k", &header, 1_000 + 28_800 + 61), None);
    assert_eq!(UserTokenClaims::from_token(b"k", &token, 0).unwrap().exp, 29_800);
}

#[test]
fn state_tokens_carry_the_forge_and_are_not_api_keys() {
    let forge = 0x0123_4567_89ab_cdef_0123_4567_89ab_cdefu128;
    let now = chrono::Utc::now().timestamp();
    let state = LoginClaims::state_token(b"s", forge, now);
    assert_eq!(state, LoginClaims::state_token(b"s", forge, now));
    let claims = LoginClaims::from_state(b"s", &state, now).unwrap();
    assert_eq!(claims.forge().unwrap(), forge);
    assert_eq!(claims.aud, "login");
    assert_eq!(claims.exp, (now + 300) as u64);
    assert!(LoginClaims::from_state(b"t", &state, now).is_none());
    assert_eq!(ApiKeyAuth::check(b"s", &format!("Bearer {state}"), now), None);
    let api = UserTokenClaims::api_token(b"s", 7, now);
    assert!(LoginClaims::from_state(b"s", &api, now).is_none());
}

#[test]
fn state_tokens_are_accepted_for_five_minutes_and_the_leeway() {
    let state = LoginClaims::state_token(b"s", 5, 1_000);
    assert!(LoginClaims::from_state(b"s", &state, 1_000).is_some());
    assert!(LoginClaims::from_state(b"s", &state, 1_360).is_some());
    assert!(LoginClaims::from_state(b"s", &state, 1_361).is_none());
    assert!(LoginClaims::from_state(b"s", "not.a.token", 1_000).is_none());
}

#[test]
fn the_callback_refuses_bad_state_and_goes_on_with_good_state() {
    let state = LoginClaims::state_token(b"s", 5, 1_000);
    let ok = CallbackQuery::Successful { code: "c0de".to_string(), state: state.clone() };
    let (code, claims) = Callback::begin(b"s", ok, 1_100).unwrap();
    assert_eq!(code, "c0de");
    assert_eq!(claims.forge().unwrap(), 5);
    let forged = CallbackQuery::Successful { code: "c0de".to_string(), state: state.clone() };
    assert_eq!(Callback::begin(b"x", forged, 1_100).err().unwrap(), Callback::invalid_state_location());
    let late = CallbackQuery::Successful { code: "c0de".to_string(), state };
    assert_eq!(Callback::begin(b"s", late, 2_000).err().unwrap(), Callback::invalid_state_location());
    let refused = CallbackQuery::Failed { error: "access_denied".to_string(), error_description: None };
    assert_eq!(Callback::begin(b"s", refused, 1_100).err().unwrap(), "/login?error=access_denied");
    assert_eq!(Callback::finish(Ok("/login/success?token=t".to_string())), "/login/success?token=t");
    assert_eq!(
        Callback::finish(Err(AppError::InvalidTokenResponse)),
        Callback::failed_location(&AppError::InvalidTokenResponse)
    );
}
