//! The forge integration (Forgejo): the configuration of a forge, the
//! addresses of its API, how its answers are read, and when a stored access
//! token must be refreshed.
use vstd::prelude::*;
use vstd::string::*;

use crate::codec::{
    lemma_url_encode_uuid, oauth2_authorize_url, oauth2_authorize_url_spec, parses_as_url,
    url_encode, url_encode_spec, url_parses, uuid_hyphenated, uuid_to_string,
};
use crate::crypto::{
    decrypt_spec, lemma_decrypt_reverses_encrypt, sealed_for, CryptoEngine, CryptoError,
};
use crate::error::{crypto_error_text, AppError};
use crate::text::{i64_to_decimal, signed_decimal};

verus! {

/// How to reach a Forgejo instance as an OAuth client.
pub struct ForgejoForgeConfig {
    pub url: String,
    pub client_id: String,
    pub client_secret: String,
}

/// The configuration of a forge, by kind.
pub enum ForgeConfig {
    Forgejo(ForgejoForgeConfig),
}

/// The OAuth addresses of a forge as this service uses them.
pub struct OAuthEndpoints {
    pub client_id: String,
    pub client_secret: String,
    pub auth_url: String,
    pub token_url: String,
    pub redirect_url: String,
}

/// A repository on a forge.
pub struct UpstreamRepositoryInfo {
    pub id: String,
    pub full_name: String,
    pub url: String,
    pub ssh_url: String,
}

/// A repository as the forge's search lists it.
pub struct ForgeRepository {
    pub id: i64,
    pub full_name: String,
    pub admin: bool,
    pub html_url: String,
    pub ssh_url: String,
}

/// The body of a request that adds a deploy key to a repository.
pub struct DeployKeyRequest {
    pub title: String,
    pub read_only: bool,
    pub key: String,
}

/// Where and how a forge webhook delivers.
pub struct HookConfig {
    pub url: String,
    pub content_type: String,
    pub secret: String,
}

/// The body of a request that adds a webhook to a repository.
pub struct HookRequest {
    pub active: bool,
    pub config: HookConfig,
    pub events: Vec<String>,
    /// The hook type (`type` on the wire).
    pub kind: String,
}

/// `{base}{path}`.
pub open spec fn join(base: Seq<char>, path: Seq<char>) -> Seq<char> {
    base + path
}

/// The OAuth endpoints for a Forgejo instance, given the public URL of
/// this service.
pub open spec fn oauth_endpoints_ok(
    e: OAuthEndpoints,
    config: ForgejoForgeConfig,
    public_url: Seq<char>,
) -> bool {
    &&& e.client_id@ == config.client_id@
    &&& e.client_secret@ == config.client_secret@
    &&& e.auth_url@ == config.url@ + "/login/oauth/authorize"@
    &&& e.token_url@ == config.url@ + "/login/oauth/access_token"@
    &&& e.redirect_url@ == public_url + "/_/auth/callback"@
}

/// All the addresses an OAuth client for the forge is built from parse.
pub open spec fn oauth_urls_parse(config_url: Seq<char>, public_url: Seq<char>) -> bool {
    &&& parses_as_url(config_url)
    &&& parses_as_url(config_url + "/login/oauth/authorize"@)
    &&& parses_as_url(public_url + "/_/auth/callback"@)
    &&& parses_as_url(config_url + "/login/oauth/access_token"@)
}

/// `base` followed by `suffix`, as a new string.
fn append_new(base: &str, suffix: &str) -> (r: String)
    ensures
        r@ == base@ + suffix@,
{
    let mut r = String::from_str(base);
    r.append(suffix);
    r
}

impl ForgejoForgeConfig {
    /// The addresses of an OAuth client for the forge: it authorises at
    /// `{url}/login/oauth/authorize`, exchanges codes at
    /// `{url}/login/oauth/access_token`, and sends users back to
    /// `{public_url}/_/auth/callback`. Fails when one of these, or the
    /// forge URL itself, does not parse.
    pub fn oauth2_client(&self, public_url: &str) -> (r: Result<OAuthEndpoints, AppError>)
        ensures
            r is Ok <==> oauth_urls_parse(self.url@, public_url@),
            r matches Ok(e) ==> oauth_endpoints_ok(e, *self, public_url@),
            r matches Err(e) ==> e is UrlParse,
    {
        if !url_parses(self.url.as_str()) {
            return Err(AppError::UrlParse);
        }
        let auth_url = append_new(self.url.as_str(), "/login/oauth/authorize");
        if !url_parses(auth_url.as_str()) {
            return Err(AppError::UrlParse);
        }
        let redirect_url = append_new(public_url, "/_/auth/callback");
        if !url_parses(redirect_url.as_str()) {
            return Err(AppError::UrlParse);
        }
        let token_url = append_new(self.url.as_str(), "/login/oauth/access_token");
        if !url_parses(token_url.as_str()) {
            return Err(AppError::UrlParse);
        }
        Ok(
            OAuthEndpoints {
                client_id: self.client_id.clone(),
                client_secret: self.client_secret.clone(),
                auth_url,
                token_url,
                redirect_url,
            },
        )
    }
}

impl ForgejoForgeConfig {
    /// Where the browser is sent to sign in through the forge: the forge's
    /// authorization address for this service as a client, carrying `state`
    /// (the signed sign-in token). Fails as [`ForgejoForgeConfig::oauth2_client`]
    /// does.
    pub fn login_redirect(&self, public_url: &str, state: &str) -> (r: Result<String, AppError>)
        ensures
            r is Ok <==> oauth_urls_parse(self.url@, public_url@),
            r matches Ok(u) ==> u@ == oauth2_authorize_url_spec(
                self.url@ + "/login/oauth/authorize"@,
                self.client_id@,
                public_url@ + "/_/auth/callback"@,
                state@,
            ),
            r matches Err(e) ==> e is UrlParse,
    {
        let client = match self.oauth2_client(public_url) {
            Ok(c) => c,
            Err(e) => return Err(e),
        };
        match oauth2_authorize_url(
            client.auth_url.as_str(),
            client.client_id.as_str(),
            client.redirect_url.as_str(),
            state,
        ) {
            Some(u) => Ok(u),
            None => Err(AppError::UrlParse),
        }
    }
}

/// The forge API.
pub struct ForgejoApi;

/// `token {access_token}`: how the forge API is authorised.
pub open spec fn authorization_spec(token: Seq<char>) -> Seq<char> {
    "token "@ + token
}

/// The search address for repositories matching `search` owned by `uid`.
pub open spec fn search_url_spec(base: Seq<char>, uid: Seq<char>, search: Seq<char>) -> Seq<char> {
    base + "/api/v1/repos/search?q="@ + url_encode_spec(search) + "&uid="@ + url_encode_spec(uid)
        + "&sort=alpha&limit=30"@
}

/// The repository an entry of the search answers stands for.
pub open spec fn upstream_of(r: ForgeRepository) -> (Seq<char>, Seq<char>, Seq<char>, Seq<char>) {
    (signed_decimal(r.id as int), r.full_name@, r.html_url@, r.ssh_url@)
}

/// The view of an upstream repository: id, full name, web URL, SSH URL.
pub open spec fn upstream_view(u: UpstreamRepositoryInfo) -> (Seq<char>, Seq<char>, Seq<char>, Seq<char>) {
    (u.id@, u.full_name@, u.url@, u.ssh_url@)
}

/// The repositories of a search answer that the user administers, in
/// order.
pub open spec fn admin_repos(repos: Seq<ForgeRepository>) -> Seq<ForgeRepository>
    decreases repos.len(),
{
    if repos.len() == 0 {
        seq![]
    } else {
        let rest = admin_repos(repos.drop_last());
        if repos.last().admin {
            rest.push(repos.last())
        } else {
            rest
        }
    }
}

/// The path of the pipeline script in a repository.
pub const SCRIPT_PATH: &'static str = ".kanade/pipeline.ts";

impl ForgejoApi {
    /// The `Authorization` header value for an access token.
    pub fn authorization(access_token: &str) -> (h: String)
        ensures
            h@ == authorization_spec(access_token@),
    {
        append_new("token ", access_token)
    }

    /// The address that searches the forge for repositories.
    pub fn search_url(config: &ForgejoForgeConfig, uid: &str, search: &str) -> (u: String)
        ensures
            u@ == search_url_spec(config.url@, uid@, search@),
    {
        let mut u = String::from_str(config.url.as_str());
        u.append("/api/v1/repos/search?q=");
        let s = url_encode(search);
        u.append(s.as_str());
        u.append("&uid=");
        let i = url_encode(uid);
        u.append(i.as_str());
        u.append("&sort=alpha&limit=30");
        u
    }

    /// The repositories of a search answer that can be linked: those the
    /// user administers, in order, with the numeric id written in decimal.
    pub fn search_results(repos: Vec<ForgeRepository>) -> (r: Vec<UpstreamRepositoryInfo>)
        ensures
            r@.map_values(|u: UpstreamRepositoryInfo| upstream_view(u)) == admin_repos(
                repos@,
            ).map_values(|x: ForgeRepository| upstream_of(x)),
    {
        let mut remaining = repos;
        let ghost all = remaining@;
        let total = remaining.len();
        let mut out: Vec<UpstreamRepositoryInfo> = Vec::new();
        let mut n: usize = 0;
        while remaining.len() > 0
            invariant
                n <= all.len(),
                all.len() == total,
                remaining@ == all.skip(n as int),
                out@.map_values(|u: UpstreamRepositoryInfo| upstream_view(u)) == admin_repos(
                    all.take(n as int),
                ).map_values(|x: ForgeRepository| upstream_of(x)),
            decreases remaining.len(),
        {
            let x = remaining.remove(0);
            assert(x == all[n as int]);
            assert(all.take(n + 1).drop_last() =~= all.take(n as int));
            let ghost before = out@;
            assert(all.take(n + 1).last() == all[n as int]);
            if x.admin {
                let ForgeRepository { id, full_name, admin: _, html_url, ssh_url } = x;
                out.push(
                    UpstreamRepositoryInfo { id: i64_to_decimal(id), full_name, url: html_url, ssh_url },
                );
                assert(out@ =~= before.push(out@.last()));
                assert(upstream_view(out@.last()) == upstream_of(all[n as int]));
                assert(out@.map_values(|u: UpstreamRepositoryInfo| upstream_view(u)) =~= before.map_values(
                    |u: UpstreamRepositoryInfo| upstream_view(u),
                ).push(upstream_of(all[n as int])));
                assert(admin_repos(all.take(n + 1)) == admin_repos(all.take(n as int)).push(all[n as int]));
                assert(admin_repos(all.take(n + 1)).map_values(|x: ForgeRepository| upstream_of(x)) =~= admin_repos(
                    all.take(n as int),
                ).map_values(|x: ForgeRepository| upstream_of(x)).push(upstream_of(all[n as int])));
            } else {
                assert(admin_repos(all.take(n + 1)) == admin_repos(all.take(n as int)));
            }
            n = n + 1;
            assert(remaining@ =~= all.skip(n as int));
            assert(out@.map_values(|u: UpstreamRepositoryInfo| upstream_view(u)) =~= admin_repos(
                all.take(n as int),
            ).map_values(|x: ForgeRepository| upstream_of(x)));
        }
        assert(all.take(all.len() as int) =~= all);
        out
    }

    /// The address where a deploy key is added to a repository.
    pub fn keys_url(config: &ForgejoForgeConfig, repo: &UpstreamRepositoryInfo) -> (u: String)
        ensures
            u@ == config.url@ + "/api/v1/repos/"@ + repo.full_name@ + "/keys"@,
    {
        let mut u = String::from_str(config.url.as_str());
        u.append("/api/v1/repos/");
        u.append(repo.full_name.as_str());
        u.append("/keys");
        u
    }

    /// The address of the raw pipeline script `.kanade/pipeline.ts` of a
    /// repository at `commit`.
    pub fn script_url(config: &ForgejoForgeConfig, repo: &UpstreamRepositoryInfo, commit: &str) -> (u:
        String)
        ensures
            u@ == config.url@ + "/api/v1/repos/"@ + repo.full_name@ + "/raw/"@ + SCRIPT_PATH@
                + "?ref="@ + url_encode_spec(commit@),
    {
        let mut u = String::from_str(config.url.as_str());
        u.append("/api/v1/repos/");
        u.append(repo.full_name.as_str());
        u.append("/raw/");
        u.append(SCRIPT_PATH);
        u.append("?ref=");
        let c = url_encode(commit);
        u.append(c.as_str());
        u
    }

    /// The address where a webhook is added to a repository.
    pub fn hooks_url(config: &ForgejoForgeConfig, repo: &UpstreamRepositoryInfo) -> (u: String)
        ensures
            u@ == config.url@ + "/api/v1/repos/"@ + repo.full_name@ + "/hooks"@,
    {
        let mut u = String::from_str(config.url.as_str());
        u.append("/api/v1/repos/");
        u.append(repo.full_name.as_str());
        u.append("/hooks");
        u
    }

    /// The address the forge delivers the webhooks of repository `repo_id`
    /// to.
    pub fn webhook_target(public_url: &str, repo_id: u128) -> (u: String)
        ensures
            u@ == webhook_target_spec(public_url@, repo_id),
    {
        let mut u = String::from_str(public_url);
        u.append("/_/webhook/forgejo?repo=");
        let id = uuid_to_string(repo_id);
        let e = url_encode(id.as_str());
        u.append(e.as_str());
        u
    }

    /// The deploy key the forge is asked to add: titled `Kanade CI`, with
    /// write access, holding `public_key` (OpenSSH form).
    pub fn deploy_key_request(public_key: &str) -> (r: DeployKeyRequest)
        ensures
            r.title@ == "Kanade CI"@,
            !r.read_only,
            r.key@ == public_key@,
    {
        DeployKeyRequest {
            title: String::from_str("Kanade CI"),
            read_only: false,
            key: String::from_str(public_key),
        }
    }

    /// The webhook the forge is asked to add: active, of type `forgejo`,
    /// delivering JSON signed with `secret` to this service's intake for
    /// repository `repo_id`, for pushes, creations, pull requests, issues
    /// and releases.
    pub fn hook_request(public_url: &str, repo_id: u128, secret: &str) -> (r: HookRequest)
        ensures
            r.active,
            r.kind@ == "forgejo"@,
            r.config.url@ == webhook_target_spec(public_url@, repo_id),
            r.config.content_type@ == "json"@,
            r.config.secret@ == secret@,
            r.events@.map_values(|e: String| e@) == seq![
                "push"@,
                "create"@,
                "pull_request"@,
                "issues"@,
                "release"@,
            ],
    {
        let mut events: Vec<String> = Vec::new();
        events.push(String::from_str("push"));
        events.push(String::from_str("create"));
        events.push(String::from_str("pull_request"));
        events.push(String::from_str("issues"));
        events.push(String::from_str("release"));
        let r = HookRequest {
            active: true,
            config: HookConfig {
                url: ForgejoApi::webhook_target(public_url, repo_id),
                content_type: String::from_str("json"),
                secret: String::from_str(secret),
            },
            events,
            kind: String::from_str("forgejo"),
        };
        assert(r.events@.map_values(|e: String| e@) =~= seq![
            "push"@,
            "create"@,
            "pull_request"@,
            "issues"@,
            "release"@,
        ]);
        r
    }

    /// The address of a repository by its forge id.
    pub fn repository_url(config: &ForgejoForgeConfig, repo_id: &str) -> (u: String)
        ensures
            u@ == config.url@ + "/api/v1/repositories/"@ + url_encode_spec(repo_id@),
    {
        let mut u = String::from_str(config.url.as_str());
        u.append("/api/v1/repositories/");
        let e = url_encode(repo_id);
        u.append(e.as_str());
        u
    }

    /// The address of the signed-in user's profile.
    pub fn user_url(config: &ForgejoForgeConfig) -> (u: String)
        ensures
            u@ == config.url@ + "/api/v1/user"@,
    {
        append_new(config.url.as_str(), "/api/v1/user")
    }

    /// A deploy key or webhook was created only when the forge answers
    /// `201 Created`.
    pub fn creation_succeeded(status: u16) -> (ok: bool)
        ensures
            ok == (status == 201),
    {
        status == 201
    }

    /// How the forge's answer to a repository lookup is read: `404` means
    /// the repository is gone, another client or server error status
    /// (`400` to `599`) is an error, and any other status carries the
    /// repository in its body.
    pub fn repository_lookup(status: u16, repo: Option<ForgeRepository>) -> (r: Result<
        Option<UpstreamRepositoryInfo>,
        AppError,
    >)
        ensures
            status == 404 ==> r matches Ok(None),
            (status != 404 && 400 <= status < 600) ==> r is Err,
            !(400 <= status < 600) ==> match repo {
                Some(x) => r matches Ok(Some(u)) && upstream_view(u) == upstream_of(x),
                None => r is Err,
            },
    {
        if status == 404 {
            return Ok(None);
        }
        if 400 <= status && status < 600 {
            return Err(AppError::InternalError(String::from_str("forge request failed")));
        }
        match repo {
            Some(x) => {
                let ForgeRepository { id, full_name, admin: _, html_url, ssh_url } = x;
                Ok(Some(UpstreamRepositoryInfo { id: i64_to_decimal(id), full_name, url: html_url, ssh_url }))
            },
            None => Err(AppError::InternalError(String::from_str("invalid repository answer"))),
        }
    }
}

/// A repository found on a forge, as the search endpoint answers it.
pub struct ForgeRepoResponse {
    pub id: String,
    pub name: String,
}

/// The forge endpoints.
pub struct ForgeApi;

impl ForgeApi {
    /// The answer to a repository search: each repository found, in order,
    /// by its forge id and full name.
    pub fn search_answer(repos: Vec<UpstreamRepositoryInfo>) -> (r: Vec<ForgeRepoResponse>)
        ensures
            r@.len() == repos@.len(),
            forall|i: int|
                0 <= i < repos@.len() ==> (#[trigger] r@[i]).id == repos@[i].id && r@[i].name
                    == repos@[i].full_name,
    {
        let mut remaining = repos;
        let ghost all = remaining@;
        let total = remaining.len();
        let mut out: Vec<ForgeRepoResponse> = Vec::new();
        let mut n: usize = 0;
        while remaining.len() > 0
            invariant
                n <= all.len(),
                all.len() == total,
                remaining@ == all.skip(n as int),
                out@.len() == n,
                forall|i: int|
                    0 <= i < n ==> (#[trigger] out@[i]).id == all[i].id && out@[i].name
                        == all[i].full_name,
            decreases remaining.len(),
        {
            let x = remaining.remove(0);
            assert(x == all[n as int]);
            let UpstreamRepositoryInfo { id, full_name, url: _, ssh_url: _ } = x;
            out.push(ForgeRepoResponse { id, name: full_name });
            n = n + 1;
            assert(remaining@ =~= all.skip(n as int));
        }
        out
    }
}

// ---------------------------------------------------------------------
// Access tokens
// ---------------------------------------------------------------------

/// A stored access token is refreshed once the current time is past its
/// expiry.
pub open spec fn token_expired(now: i64, expires_at: i64) -> bool {
    now > expires_at
}

/// The tokens a successful token exchange or refresh yields.
pub struct TokenGrant {
    pub access_token: String,
    pub refresh_token: String,
    /// Unix seconds.
    pub access_token_expires_at: i64,
}

/// The forge's token answer as read.
pub struct TokenResponse {
    pub access_token: String,
    pub refresh_token: Option<String>,
    /// Seconds.
    pub expires_in: Option<i64>,
}

/// The grant a token answer gives at time `now`: it must carry a refresh
/// token and an expiry; the access token expires `expires_in` seconds
/// after `now`.
pub open spec fn grant_spec(t: TokenResponse, now: i64) -> Option<(Seq<char>, Seq<char>, int)> {
    match (t.refresh_token, t.expires_in) {
        (Some(rt), Some(e)) => Some((t.access_token@, rt@, now + e)),
        _ => None,
    }
}

/// The forge-access decisions.
pub struct AllForges;

impl AllForges {
    /// Whether the stored access token must be refreshed before use.
    pub fn needs_refresh(now: i64, expires_at: i64) -> (b: bool)
        ensures
            b == token_expired(now, expires_at),
    {
        now > expires_at
    }

    /// Reads a token answer received at time `now`.
    pub fn token_grant(t: TokenResponse, now: i64) -> (r: Result<TokenGrant, AppError>)
        requires
            t.expires_in matches Some(e) ==> i64::MIN <= now + e <= i64::MAX,
        ensures
            match grant_spec(t, now) {
                Some((a, rt, exp)) => r matches Ok(g) && g.access_token@ == a && g.refresh_token@
                    == rt && g.access_token_expires_at == exp,
                None => r matches Err(e) && e is InvalidTokenResponse,
            },
    {
        let TokenResponse { access_token, refresh_token, expires_in } = t;
        let refresh_token = match refresh_token {
            Some(rt) => rt,
            None => return Err(AppError::InvalidTokenResponse),
        };
        let expires_in = match expires_in {
            Some(e) => e,
            None => return Err(AppError::InvalidTokenResponse),
        };
        Ok(TokenGrant { access_token, refresh_token, access_token_expires_at: now + expires_in })
    }

    /// Which token a stored forge link is used with at time `now`: its
    /// access token is decrypted first; while it has not expired it is
    /// used as it is, otherwise the refresh token is decrypted for a
    /// refresh. A value that does not decrypt is an internal error.
    pub fn stored_access(crypto: &CryptoEngine, link: &StoredTokens, now: i64) -> (r: Result<
        ForgeAccess,
        AppError,
    >)
        ensures
            match stored_access_spec(crypto@, link.access_token@, link.refresh_token@, link.expires_at, now) {
                Ok((false, t)) => r matches Ok(ForgeAccess::Current(a)) && a@ == t,
                Ok((true, t)) => r matches Ok(ForgeAccess::Refresh(rt)) && rt@ == t,
                Err(e) => r matches Err(AppError::InternalError(m)) && m@ == crypto_error_text(e),
            },
    {
        let at = match crypto.decrypt(link.access_token.as_slice()) {
            Ok(a) => a,
            Err(e) => return Err(AppError::from_crypto(e)),
        };
        if !AllForges::needs_refresh(now, link.expires_at) {
            return Ok(ForgeAccess::Current(at));
        }
        match crypto.decrypt(link.refresh_token.as_slice()) {
            Ok(rt) => Ok(ForgeAccess::Refresh(rt)),
            Err(e) => Err(AppError::from_crypto(e)),
        }
    }

    /// The stored form of a grant: both tokens encrypted, the access token
    /// first; a failed encryption is an internal error.
    pub fn store_grant(crypto: &CryptoEngine, grant: &TokenGrant) -> (r: Result<StoredTokens, AppError>)
        ensures
            r matches Ok(s) ==> sealed_for(crypto@, s.access_token@, grant.access_token@)
                && sealed_for(crypto@, s.refresh_token@, grant.refresh_token@) && s.expires_at
                == grant.access_token_expires_at,
            r matches Err(e) ==> e is InternalError,
    {
        let access_token = match crypto.encrypt(grant.access_token.as_str()) {
            Ok(c) => c,
            Err(e) => return Err(AppError::from_crypto(e)),
        };
        let refresh_token = match crypto.encrypt(grant.refresh_token.as_str()) {
            Ok(c) => c,
            Err(e) => return Err(AppError::from_crypto(e)),
        };
        Ok(StoredTokens { access_token, refresh_token, expires_at: grant.access_token_expires_at })
    }
}

/// The encrypted tokens of a user's link to a forge and when the access
/// token expires (Unix seconds).
pub struct StoredTokens {
    pub access_token: Vec<u8>,
    pub refresh_token: Vec<u8>,
    pub expires_at: i64,
}

/// The token a forge request is made with.
pub enum ForgeAccess {
    /// The stored access token, still valid.
    Current(String),
    /// The stored refresh token, to get a new access token with.
    Refresh(String),
}

/// What reading a stored link at time `now` gives: whether a refresh is
/// due, and the token decrypted for it; or the first decryption failure.
pub open spec fn stored_access_spec(
    key: Seq<u8>,
    access_token: Seq<u8>,
    refresh_token: Seq<u8>,
    expires_at: i64,
    now: i64,
) -> Result<(bool, Seq<char>), CryptoError> {
    match decrypt_spec(key, access_token) {
        Err(e) => Err(e),
        Ok(at) => if !token_expired(now, expires_at) {
            Ok((false, at))
        } else {
            match decrypt_spec(key, refresh_token) {
                Err(e) => Err(e),
                Ok(rt) => Ok((true, rt)),
            }
        },
    }
}

/// The address the forge delivers the webhooks of repository `repo_id`
/// to.
pub open spec fn webhook_target_spec(public_url: Seq<char>, repo_id: u128) -> Seq<char> {
    public_url + "/_/webhook/forgejo?repo="@ + url_encode_spec(uuid_hyphenated(repo_id))
}

/// The forge intake of this service with `repo` as the repository
/// parameter, written as it is.
pub open spec fn intake_address(public_url: Seq<char>, repo: Seq<char>) -> Seq<char> {
    public_url + "/_/webhook/forgejo?repo="@ + repo
}

/// The webhook registered for a repository is delivered to this service's
/// forge intake with the repository's identifier, in its plain hyphenated
/// form, as the `repo` parameter.
pub proof fn lemma_hook_targets_repository(public_url: Seq<char>, repo_id: u128)
    ensures
        webhook_target_spec(public_url, repo_id) == intake_address(public_url, uuid_hyphenated(repo_id)),
{
    lemma_url_encode_uuid(repo_id);
}

/// Reading back a stored grant gives what was stored: until the access
/// token expires it is used as granted, and afterwards the granted refresh
/// token is used to renew it.
pub proof fn lemma_stored_grant_reads_back(
    key: Seq<u8>,
    stored_access: Seq<u8>,
    stored_refresh: Seq<u8>,
    access_token: Seq<char>,
    refresh_token: Seq<char>,
    expires_at: i64,
    now: i64,
)
    requires
        sealed_for(key, stored_access, access_token),
        sealed_for(key, stored_refresh, refresh_token),
    ensures
        stored_access_spec(key, stored_access, stored_refresh, expires_at, now) == if now
            <= expires_at {
            Ok::<(bool, Seq<char>), CryptoError>((false, access_token))
        } else {
            Ok::<(bool, Seq<char>), CryptoError>((true, refresh_token))
        },
{
    lemma_decrypt_reverses_encrypt(key, stored_access, access_token);
    lemma_decrypt_reverses_encrypt(key, stored_refresh, refresh_token);
}

} // verus!
