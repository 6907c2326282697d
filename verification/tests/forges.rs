use kanade::crypto::CryptoEngine;
use kanade::error::AppError;
use kanade::forge::{
    AllForges, ForgeAccess, ForgeRepository, ForgejoApi, ForgejoForgeConfig, StoredTokens,
    TokenGrant, TokenResponse, UpstreamRepositoryInfo,
};

fn forgejo() -> ForgejoForgeConfig {
    ForgejoForgeConfig {
        url: "https://forge.example".to_string(),
        client_id: "cid".to_string(),
        client_secret: "csecret".to_string(),
    }
}

fn repo(id: i64, name: &str, admin: bool) -> ForgeRepository {
    ForgeRepository {
        id,
        full_name: name.to_string(),
        admin,
        html_url: format!("https://forge.example/{name}"),
        ssh_url: format!("git@forge.example:{name}.git"),
    }
}

#[test]
fn the_oauth_client_uses_the_forge_and_callback_addresses() {
    let e = forgejo().oauth2_client("https://ci.example").unwrap();
    assert_eq!(e.client_id, "cid");
    assert_eq!(e.client_secret, "csecret");
    assert_eq!(e.auth_url, "https://forge.example/login/oauth/authorize");
    assert_eq!(e.token_url, "https://forge.example/login/oauth/access_token");
    assert_eq!(e.redirect_url, "https://ci.example/_/auth/callback");
}

#[test]
fn an_unparsable_address_fails_the_oauth_client() {
    let mut bad = forgejo();
    bad.url = "not a url".to_string();
    assert!(matches!(bad.oauth2_client("https://ci.example"), Err(AppError::UrlParse)));
    assert!(matches!(forgejo().oauth2_client("relative/path"), Err(AppError::UrlParse)));
}

#[test]
fn forge_api_addresses() {
    assert_eq!(ForgejoApi::authorization("tok"), "token tok");
    assert_eq!(
        ForgejoApi::search_url(&forgejo(), "12", "my repo"),
        "https://forge.example/api/v1/repos/search?q=my%20repo&uid=12&sort=alpha&limit=30"
    );
    let r = UpstreamRepositoryInfo {
        id: "7".to_string(),
        full_name: "org/app".to_string(),
        url: "u".to_string(),
        ssh_url: "s".to_string(),
    };
    assert_eq!(ForgejoApi::keys_url(&forgejo(), &r), "https://forge.example/api/v1/repos/org/app/keys");
    assert_eq!(ForgejoApi::hooks_url(&forgejo(), &r), "https://forge.example/api/v1/repos/org/app/hooks");
    assert_eq!(
        ForgejoApi::script_url(&forgejo(), &r, "main/x y"),
        "https://forge.example/api/v1/repos/org/app/raw/.kanade/pipeline.ts?ref=main%2Fx%20y"
    );
    assert_eq!(
        ForgejoApi::webhook_target("https://ci.example", 0xffu128),
        "https://ci.example/_/webhook/forgejo?repo=00000000-0000-0000-0000-0000000000ff"
    );
    assert_eq!(
        ForgejoApi::repository_url(&forgejo(), "4 2"),
        "https://forge.example/api/v1/repositories/4%202"
    );
    assert_eq!(ForgejoApi::user_url(&forgejo()), "https://forge.example/api/v1/user");
}

#[test]
fn search_keeps_administered_repositories_in_order() {
    let found = ForgejoApi::search_results(vec![
        repo(3, "a/one", true),
        repo(-4, "a/two", false),
        repo(15, "a/three", true),
    ]);
    assert_eq!(found.len(), 2);
    assert_eq!(found[0].id, "3");
    assert_eq!(found[0].full_name, "a/one");
    assert_eq!(found[0].url, "https://forge.example/a/one");
    assert_eq!(found[0].ssh_url, "git@forge.example:a/one.git");
    assert_eq!(found[1].id, "15");
    assert!(ForgejoApi::search_results(vec![]).is_empty());
}

#[test]
fn creation_succeeds_only_with_201() {
    assert!(ForgejoApi::creation_succeeded(201));
    assert!(!ForgejoApi::creation_succeeded(200));
    assert!(!ForgejoApi::creation_succeeded(422));
}

#[test]
fn repository_lookups_read_the_status() {
    assert!(matches!(ForgejoApi::repository_lookup(404, None), Ok(None)));
    assert!(matches!(ForgejoApi::repository_lookup(500, Some(repo(1, "x/y", true))), Err(_)));
    assert!(matches!(ForgejoApi::repository_lookup(200, None), Err(_)));
    let found = ForgejoApi::repository_lookup(200, Some(repo(-9, "x/y", false))).unwrap().unwrap();
    assert_eq!(found.id, "-9");
    assert_eq!(found.full_name, "x/y");
}

#[test]
fn tokens_are_refreshed_once_expired() {
    assert!(!AllForges::needs_refresh(100, 100));
    assert!(AllForges::needs_refresh(101, 100));
    assert!(!AllForges::needs_refresh(99, 100));
}

#[test]
fn token_answers_need_a_refresh_token_and_expiry() {
    let g = AllForges::token_grant(
        TokenResponse {
            access_token: "a".to_string(),
            refresh_token: Some("r".to_string()),
            expires_in: Some(3600),
        },
        1_000,
    )
    .unwrap();
    assert_eq!(g.access_token, "a");
    assert_eq!(g.refresh_token, "r");
    assert_eq!(g.access_token_expires_at, 4_600);
    let missing_refresh = TokenResponse {
        access_token: "a".to_string(),
        refresh_token: None,
        expires_in: Some(3600),
    };
    assert!(matches!(AllForges::token_grant(missing_refresh, 0), Err(AppError::InvalidTokenResponse)));
    let missing_expiry = TokenResponse {
        access_token: "a".to_string(),
        refresh_token: Some("r".to_string()),
        expires_in: None,
    };
    assert!(matches!(AllForges::token_grant(missing_expiry, 0), Err(AppError::InvalidTokenResponse)));
}

#[test]
fn errors_map_to_statuses_and_messages() {
    assert_eq!(AppError::UnknownForge(1).status(), 404);
    assert_eq!(AppError::UpstreamRepoNotFound.status(), 404);
    assert_eq!(AppError::ForgeNotLinked.status(), 400);
    assert_eq!(AppError::UrlParse.status(), 500);
    assert_eq!(AppError::Sqlx("x".to_string()).status(), 500);
    assert_eq!(
        AppError::UnknownForge(1).message(),
        "unknown forge: 00000000-0000-0000-0000-000000000001"
    );
    assert_eq!(AppError::InternalError("boom".to_string()).message(), "internal error: boom");
    assert_eq!(AppError::Json("eof".to_string()).message(), "serde json error: eof");
    assert_eq!(AppError::Sqlx("x".to_string()).message(), "db err");
    assert_eq!(AppError::Jwt.message(), "jwt error");
}

#[test]
fn stored_tokens_read_back_until_they_expire() {
    let engine = CryptoEngine::new(vec![5u8; 32]).unwrap();
    let grant = TokenGrant {
        access_token: "access".to_string(),
        refresh_token: "refresh".to_string(),
        access_token_expires_at: 500,
    };
    let stored = AllForges::store_grant(&engine, &grant).unwrap();
    assert_eq!(stored.expires_at, 500);
    match AllForges::stored_access(&engine, &stored, 500).unwrap() {
        ForgeAccess::Current(a) => assert_eq!(a, "access"),
        ForgeAccess::Refresh(_) => panic!("not expired yet"),
    }
    match AllForges::stored_access(&engine, &stored, 501).unwrap() {
        ForgeAccess::Refresh(r) => assert_eq!(r, "refresh"),
        ForgeAccess::Current(_) => panic!("expired"),
    }
    let broken = StoredTokens { access_token: vec![0; 40], refresh_token: stored.refresh_token.clone(), expires_at: 0 };
    match AllForges::stored_access(&engine, &broken, 1) {
        Err(AppError::InternalError(m)) => assert_eq!(m, "aead::Error"),
        _ => panic!("an undecryptable token is an internal error"),
    }
}

#[test]
fn forge_requests_for_keys_and_hooks() {
    let k = ForgejoApi::deploy_key_request("ssh-ed25519 AAAA kanade");
    assert_eq!(k.title, "Kanade CI");
    assert!(!k.read_only);
    assert_eq!(k.key, "ssh-ed25519 AAAA kanade");
    let h = ForgejoApi::hook_request("https://ci.example", 0x10u128, "s3");
    assert!(h.active);
    assert_eq!(h.kind, "forgejo");
    assert_eq!(h.config.url, "https://ci.example/_/webhook/forgejo?repo=00000000-0000-0000-0000-000000000010");
    assert_eq!(h.config.content_type, "json");
    assert_eq!(h.config.secret, "s3");
    assert_eq!(h.events, vec!["push", "create", "pull_request", "issues", "release"]);
}

#[test]
fn sign_in_redirects_to_the_forge_authorization() {
    assert_eq!(
        forgejo().login_redirect("https://ci.example", "a.b c").unwrap(),
        "https://forge.example/login/oauth/authorize?response_type=code&client_id=cid&state=a.b+c&redirect_uri=https%3A%2F%2Fci.example%2F_%2Fauth%2Fcallback"
    );
    let mut bad = forgejo();
    bad.url = "::".to_string();
    assert!(matches!(bad.login_redirect("https://ci.example", "s"), Err(AppError::UrlParse)));
}

#[test]
fn search_answers_name_repositories_by_full_name() {
    let found = kanade::forge::ForgeApi::search_answer(vec![UpstreamRepositoryInfo {
        id: "5".to_string(),
        full_name: "org/tool".to_string(),
        url: "u".to_string(),
        ssh_url: "s".to_string(),
    }]);
    assert_eq!(found.len(), 1);
    assert_eq!(found[0].id, "5");
    assert_eq!(found[0].name, "org/tool");
}

#[test]
fn informational_and_redirect_statuses_carry_the_repository() {
    let found = ForgejoApi::repository_lookup(101, Some(repo(3, "a/b", true))).unwrap().unwrap();
    assert_eq!(found.id, "3");
    assert!(matches!(ForgejoApi::repository_lookup(302, Some(repo(4, "a/c", true))), Ok(Some(_))));
    assert!(matches!(ForgejoApi::repository_lookup(403, Some(repo(4, "a/c", true))), Err(_)));
    assert!(matches!(ForgejoApi::repository_lookup(600, Some(repo(4, "a/c", true))), Ok(Some(_))));
}
