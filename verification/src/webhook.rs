//! Intake of forge push webhooks: which requests are accepted, how the
//! signature is checked, and which rows a push produces from the pipelines
//! that the repository's script defines.
use vstd::prelude::*;
use vstd::string::*;

use crate::codec::{
    hex_decode_exact, hex_decode_spec, hex_error_text, hex_error_text_spec, hex_lower_spec, hmac_sha256_spec, hmac_sha256_verify,
    lemma_hex_roundtrip, HexError,
};
use crate::crypto::{decrypt_spec, CryptoEngine};
use crate::lifecycle::JobDependency;
use crate::status::{EventType, JobStatus, PipelineStatus};
use crate::text::{concat4, str_eq, strip_prefix, strip_prefix_spec};

verus! {

/// Why a webhook request was refused.
#[derive(Debug, Clone, Copy, PartialEq, Eq, Structural)]
pub enum WebhookError {
    /// The body is not declared as JSON.
    InvalidContentType,
    /// The signature header is missing.
    MissingSignature,
    /// The event header is missing.
    MissingEvent,
    /// The body is not a push message.
    InvalidBody,
    /// No repository is registered under the id in the query.
    RepositoryNotFound,
    /// A stored secret could not be read, or the database failed.
    Internal,
    /// The signature header is not 32 bytes in hexadecimal.
    BadSignatureEncoding(HexError),
    /// The signature does not match the body.
    SignatureMismatch,
    /// The repository no longer exists on the forge.
    UpstreamRepoNotFound,
    /// The pipeline script failed.
    ScriptFailed,
}

impl WebhookError {
    /// The HTTP status the refusal is answered with.
    pub fn status(&self) -> (code: u16)
        ensures
            code == match self {
                WebhookError::RepositoryNotFound | WebhookError::UpstreamRepoNotFound => 404u16,
                WebhookError::Internal | WebhookError::ScriptFailed => 500u16,
                _ => 400u16,
            },
    {
        match self {
            WebhookError::RepositoryNotFound | WebhookError::UpstreamRepoNotFound => 404,
            WebhookError::Internal | WebhookError::ScriptFailed => 500,
            _ => 400,
        }
    }
}

/// The text a refusal is answered with.
pub open spec fn webhook_error_message(e: WebhookError) -> Seq<char> {
    match e {
        WebhookError::InvalidContentType => "invalid content type"@,
        WebhookError::MissingSignature => "missing signature"@,
        WebhookError::MissingEvent => "missing event"@,
        WebhookError::InvalidBody => "invalid body"@,
        WebhookError::RepositoryNotFound => "repository not found"@,
        WebhookError::Internal => "internal error"@,
        WebhookError::BadSignatureEncoding(h) => hex_error_text_spec(h),
        WebhookError::SignatureMismatch => "signature verification failed"@,
        WebhookError::UpstreamRepoNotFound => "repo not found"@,
        WebhookError::ScriptFailed => "failed to evaluate script"@,
    }
}

impl WebhookError {
    /// The text the refusal is answered with: a badly encoded signature
    /// with the hexadecimal decoder's own text.
    pub fn message(&self) -> (m: String)
        ensures
            m@ == webhook_error_message(*self),
    {
        match self {
            WebhookError::InvalidContentType => String::from_str("invalid content type"),
            WebhookError::MissingSignature => String::from_str("missing signature"),
            WebhookError::MissingEvent => String::from_str("missing event"),
            WebhookError::InvalidBody => String::from_str("invalid body"),
            WebhookError::RepositoryNotFound => String::from_str("repository not found"),
            WebhookError::Internal => String::from_str("internal error"),
            WebhookError::BadSignatureEncoding(h) => hex_error_text(*h),
            WebhookError::SignatureMismatch => String::from_str("signature verification failed"),
            WebhookError::UpstreamRepoNotFound => String::from_str("repo not found"),
            WebhookError::ScriptFailed => String::from_str("failed to evaluate script"),
        }
    }
}

/// The text a refusal is answered with when the failing component gave
/// its own account `detail`: the JSON parser's message for a body that is
/// not a push message, the script evaluator's message after the fixed text
/// for a failed script, the fixed text for any other refusal.
pub open spec fn webhook_error_detail_message(e: WebhookError, detail: Seq<char>) -> Seq<char> {
    match e {
        WebhookError::InvalidBody => detail,
        WebhookError::ScriptFailed => "failed to evaluate script: "@ + detail,
        _ => webhook_error_message(e),
    }
}

impl WebhookError {
    /// The text the refusal is answered with, given the account `detail`
    /// of the component that failed (the JSON parser, the script
    /// evaluator); other refusals keep their own text.
    pub fn message_with(&self, detail: &str) -> (m: String)
        ensures
            m@ == webhook_error_detail_message(*self, detail@),
    {
        match self {
            WebhookError::InvalidBody => String::from_str(detail),
            WebhookError::ScriptFailed => {
                let mut m = String::from_str("failed to evaluate script: ");
                m.append(detail);
                m
            },
            _ => self.message(),
        }
    }
}

/// The only content type a webhook may carry.
pub open spec fn json_content_type() -> Seq<char> {
    seq!['a', 'p', 'p', 'l', 'i', 'c', 'a', 't', 'i', 'o', 'n', '/', 'j', 's', 'o', 'n']
}

/// The order in which the headers of a webhook request are checked: the
/// content type must be JSON, then a signature and an event must be given.
pub open spec fn check_headers_spec(
    content_type: Option<Seq<char>>,
    signature: Option<Seq<char>>,
    event: Option<Seq<char>>,
) -> Result<(), WebhookError> {
    if content_type != Some(json_content_type()) {
        Err(WebhookError::InvalidContentType)
    } else if signature is None {
        Err(WebhookError::MissingSignature)
    } else if event is None {
        Err(WebhookError::MissingEvent)
    } else {
        Ok(())
    }
}

/// The view of an optional header.
pub open spec fn header_view(h: Option<&str>) -> Option<Seq<char>> {
    match h {
        Some(s) => Some(s@),
        None => None,
    }
}

/// Checks the headers of a webhook request.
pub fn check_headers(content_type: Option<&str>, signature: Option<&str>, event: Option<&str>) -> (r:
    Result<(), WebhookError>)
    ensures
        r == check_headers_spec(
            header_view(content_type),
            header_view(signature),
            header_view(event),
        ),
{
    let json = "application/json";
    proof {
        reveal_strlit("application/json");
        assert(json@ =~= json_content_type());
    }
    match content_type {
        Some(ct) => {
            if !str_eq(ct, json) {
                return Err(WebhookError::InvalidContentType);
            }
        },
        None => {
            return Err(WebhookError::InvalidContentType);
        },
    }
    if signature.is_none() {
        return Err(WebhookError::MissingSignature);
    }
    if event.is_none() {
        return Err(WebhookError::MissingEvent);
    }
    Ok(())
}

/// What the signature check answers: the header must hold 32 bytes in
/// hexadecimal, and they must be the HMAC-SHA256 tag of the body under the
/// repository's webhook secret.
pub open spec fn verify_signature_spec(secret: Seq<u8>, body: Seq<u8>, signature: Seq<u8>) -> Result<
    (),
    WebhookError,
> {
    match hex_decode_spec(signature, 32) {
        Err(e) => Err(WebhookError::BadSignatureEncoding(e)),
        Ok(tag) => if tag == hmac_sha256_spec(secret, body) {
            Ok(())
        } else {
            Err(WebhookError::SignatureMismatch)
        },
    }
}

/// Checks the signature header of a webhook against its body.
pub fn verify_signature(secret: &str, body: &str, signature: &str) -> (r: Result<(), WebhookError>)
    ensures
        r == verify_signature_spec(secret.spec_bytes(), body.spec_bytes(), signature.spec_bytes()),
{
    let expected = match hex_decode_exact(signature.as_bytes(), 32) {
        Ok(v) => v,
        Err(e) => return Err(WebhookError::BadSignatureEncoding(e)),
    };
    if hmac_sha256_verify(secret.as_bytes(), body.as_bytes(), expected.as_slice()) {
        Ok(())
    } else {
        Err(WebhookError::SignatureMismatch)
    }
}

/// A webhook whose signature header is the HMAC-SHA256 tag of its body
/// under the repository's secret, written in lower-case hexadecimal, is
/// accepted.
pub proof fn lemma_signed_webhook_accepted(secret: Seq<u8>, body: Seq<u8>)
    requires
        hmac_sha256_spec(secret, body).len() == 32,
    ensures
        verify_signature_spec(
            secret,
            body,
            vstd::utf8::encode_utf8(hex_lower_spec(hmac_sha256_spec(secret, body))),
        ) == Ok::<(), WebhookError>(()),
{
    lemma_hex_roundtrip(hmac_sha256_spec(secret, body));
}

/// A webhook whose signature header is any other 32 bytes, written in
/// lower-case hexadecimal, is refused as a mismatch.
pub proof fn lemma_wrong_signature_refused(secret: Seq<u8>, body: Seq<u8>, other: Seq<u8>)
    requires
        other.len() == 32,
        other != hmac_sha256_spec(secret, body),
    ensures
        verify_signature_spec(secret, body, vstd::utf8::encode_utf8(hex_lower_spec(other)))
            == Err::<(), WebhookError>(WebhookError::SignatureMismatch),
{
    lemma_hex_roundtrip(other);
}

/// What authenticating a webhook answers: the repository's webhook secret
/// is decrypted from its stored form (a failure is an internal error), and
/// the signature must match the body under it.
pub open spec fn authenticate_spec(
    key: Seq<u8>,
    stored_secret: Seq<u8>,
    body: Seq<u8>,
    signature: Seq<u8>,
) -> Result<(), WebhookError> {
    match decrypt_spec(key, stored_secret) {
        Err(_) => Err(WebhookError::Internal),
        Ok(secret) => verify_signature_spec(vstd::utf8::encode_utf8(secret), body, signature),
    }
}

/// Authenticates a webhook body against the repository's stored secret.
pub fn authenticate(crypto: &CryptoEngine, stored_secret: &[u8], body: &str, signature: &str) -> (r:
    Result<(), WebhookError>)
    ensures
        r == authenticate_spec(crypto@, stored_secret@, body.spec_bytes(), signature.spec_bytes()),
{
    let secret = match crypto.decrypt(stored_secret) {
        Ok(s) => s,
        Err(_) => return Err(WebhookError::Internal),
    };
    verify_signature(secret.as_str(), body, signature)
}

/// The events that start pipelines: only pushes; any other event is
/// acknowledged and ignored.
pub open spec fn classify_event_spec(event: Seq<char>) -> Option<EventType> {
    if event == seq!['p', 'u', 's', 'h'] {
        Some(EventType::Push)
    } else {
        None
    }
}

/// The event type a webhook event header starts pipelines for, if any.
pub fn classify_event(event: &str) -> (r: Option<EventType>)
    ensures
        r == classify_event_spec(event@),
{
    let push = "push";
    proof {
        reveal_strlit("push");
        assert(push@ =~= seq!['p', 'u', 's', 'h']);
    }
    if str_eq(event, push) {
        Some(EventType::Push)
    } else {
        None
    }
}

/// Only a push starts pipelines: the header `push` gives the push event
/// type, and every other event name (`create`, `pull_request`, `issues`,
/// `release`, ...) gives nothing.
pub proof fn lemma_only_push_starts_pipelines(event: Seq<char>)
    ensures
        classify_event_spec(event) is Some <==> event =~= seq!['p', 'u', 's', 'h'],
        classify_event_spec(event) is Some ==> classify_event_spec(event) == Some(EventType::Push),
        classify_event_spec(seq!['p', 'u', 's', 'h']) == Some(EventType::Push),
{
}

/// The view of an optional byte string.
pub open spec fn bytes_view(b: Option<&[u8]>) -> Option<Seq<u8>> {
    match b {
        Some(s) => Some(s@),
        None => None,
    }
}

/// What the intake of a webhook answers before any forge is asked, in the
/// order it checks: the headers, that the body reads as a push message,
/// that the repository is registered (its stored secret is given), then
/// the signature under that secret. An accepted request starts pipelines
/// for the event type its event header names, if any.
pub open spec fn intake_spec(
    key: Seq<u8>,
    content_type: Option<Seq<char>>,
    signature: Option<Seq<char>>,
    event: Option<Seq<char>>,
    body: Seq<char>,
    body_is_push: bool,
    stored_secret: Option<Seq<u8>>,
) -> Result<Option<EventType>, WebhookError> {
    match check_headers_spec(content_type, signature, event) {
        Err(e) => Err(e),
        Ok(()) => if !body_is_push {
            Err(WebhookError::InvalidBody)
        } else {
            match stored_secret {
                None => Err(WebhookError::RepositoryNotFound),
                Some(stored) => match authenticate_spec(
                    key,
                    stored,
                    vstd::utf8::encode_utf8(body),
                    vstd::utf8::encode_utf8(signature->0),
                ) {
                    Err(e) => Err(e),
                    Ok(()) => Ok(classify_event_spec(event->0)),
                },
            }
        },
    }
}

/// An accepted webhook starts pipelines only when its event header is
/// `push`, and then for pushes: a signed `create` (or any other) event is
/// acknowledged without starting anything.
pub proof fn lemma_intake_starts_only_pushes(
    key: Seq<u8>,
    content_type: Option<Seq<char>>,
    signature: Option<Seq<char>>,
    event: Option<Seq<char>>,
    body: Seq<char>,
    body_is_push: bool,
    stored_secret: Option<Seq<u8>>,
)
    ensures
        intake_spec(key, content_type, signature, event, body, body_is_push, stored_secret) matches Ok(
            Some(t),
        ) ==> t == EventType::Push && event == Some(seq!['p', 'u', 's', 'h']),
        (intake_spec(key, content_type, signature, event, body, body_is_push, stored_secret) is Ok
            && event != Some(seq!['p', 'u', 's', 'h'])) ==> intake_spec(
            key,
            content_type,
            signature,
            event,
            body,
            body_is_push,
            stored_secret,
        ) == Ok::<Option<EventType>, WebhookError>(None),
{
    if let Some(e) = event {
        lemma_only_push_starts_pipelines(e);
    }
}

/// Decides whether a webhook request is accepted, and for which event
/// type it starts pipelines. `body_is_push` tells whether the body was
/// read as a push message; `stored_secret` is the repository's encrypted
/// webhook secret, none when no repository is registered under the id.
pub fn intake(
    crypto: &CryptoEngine,
    content_type: Option<&str>,
    signature: Option<&str>,
    event: Option<&str>,
    body: &str,
    body_is_push: bool,
    stored_secret: Option<&[u8]>,
) -> (r: Result<Option<EventType>, WebhookError>)
    ensures
        r == intake_spec(
            crypto@,
            header_view(content_type),
            header_view(signature),
            header_view(event),
            body@,
            body_is_push,
            bytes_view(stored_secret),
        ),
{
    match check_headers(content_type, signature, event) {
        Err(e) => return Err(e),
        Ok(()) => {},
    }
    if !body_is_push {
        return Err(WebhookError::InvalidBody);
    }
    let stored = match stored_secret {
        Some(s) => s,
        None => return Err(WebhookError::RepositoryNotFound),
    };
    let sig = match signature {
        Some(s) => s,
        None => return Err(WebhookError::MissingSignature),
    };
    let ev = match event {
        Some(e) => e,
        None => return Err(WebhookError::MissingEvent),
    };
    match authenticate(crypto, stored, body, sig) {
        Err(e) => Err(e),
        Ok(()) => Ok(classify_event(ev)),
    }
}

/// A webhook is accepted only when the repository is registered, its
/// stored secret decrypts, and the signature header is, in hexadecimal,
/// the HMAC-SHA256 tag of the body under that secret.
pub proof fn lemma_accepted_webhook_is_signed(
    key: Seq<u8>,
    content_type: Option<Seq<char>>,
    signature: Option<Seq<char>>,
    event: Option<Seq<char>>,
    body: Seq<char>,
    body_is_push: bool,
    stored_secret: Option<Seq<u8>>,
)
    requires
        intake_spec(key, content_type, signature, event, body, body_is_push, stored_secret) is Ok,
    ensures
        content_type == Some(json_content_type()),
        body_is_push,
        stored_secret is Some,
        signature is Some,
        event is Some,
        decrypt_spec(key, stored_secret->0) is Ok,
        hex_decode_spec(vstd::utf8::encode_utf8(signature->0), 32) == Ok::<Seq<u8>, HexError>(
            hmac_sha256_spec(
                vstd::utf8::encode_utf8(decrypt_spec(key, stored_secret->0)->Ok_0),
                vstd::utf8::encode_utf8(body),
            ),
        ),
{
}

/// What the repository's pipeline script is evaluated with.
pub struct ScriptContext {
    /// The event name (`push`, `tag`, ...).
    pub event: &'static str,
    /// The branch pushed to, when the ref names a branch.
    pub branch: Option<String>,
    /// The tag pushed, when the ref names a tag.
    pub tag: Option<String>,
    /// The full ref.
    pub git_ref: String,
    /// The image a job runs in unless the script names one.
    pub default_image: String,
    /// The shell a step runs in unless the script names one.
    pub default_shell: String,
}

/// The prefix of branch refs.
pub open spec fn heads_prefix() -> Seq<char> {
    seq!['r', 'e', 'f', 's', '/', 'h', 'e', 'a', 'd', 's', '/']
}

/// The prefix of tag refs.
pub open spec fn tags_prefix() -> Seq<char> {
    seq!['r', 'e', 'f', 's', '/', 't', 'a', 'g', 's', '/']
}

/// The view of an optional string.
pub open spec fn opt_view(o: Option<String>) -> Option<Seq<char>> {
    match o {
        Some(s) => Some(s@),
        None => None,
    }
}

/// Builds the script context for `event` on `git_ref`: the branch is the
/// ref without `refs/heads/`, the tag the ref without `refs/tags/`, jobs
/// default to the `oven/bun:latest` image and steps to `/bin/sh`.
pub fn script_context(event: EventType, git_ref: &str) -> (c: ScriptContext)
    ensures
        c.event@ == crate::status::event_name_spec(event),
        opt_view(c.branch) == strip_prefix_spec(git_ref@, heads_prefix()),
        opt_view(c.tag) == strip_prefix_spec(git_ref@, tags_prefix()),
        c.git_ref@ == git_ref@,
        c.default_image@ == "oven/bun:latest"@,
        c.default_shell@ == "/bin/sh"@,
{
    let heads = "refs/heads/";
    let tags = "refs/tags/";
    proof {
        reveal_strlit("refs/heads/");
        reveal_strlit("refs/tags/");
        assert(heads@ =~= heads_prefix());
        assert(tags@ =~= tags_prefix());
    }
    ScriptContext {
        event: event.name(),
        branch: strip_prefix(git_ref, heads),
        tag: strip_prefix(git_ref, tags),
        git_ref: String::from_str(git_ref),
        default_image: String::from_str("oven/bun:latest"),
        default_shell: String::from_str("/bin/sh"),
    }
}

// ---------------------------------------------------------------------
// Rows produced by a push
// ---------------------------------------------------------------------

/// The value of an environment variable: a plain string, or a definition
/// of the script (such as a reference to a secret) that is passed through.
pub enum EnvValue<D> {
    Static(String),
    Defined(D),
}

/// One environment variable of a job or step.
pub struct EnvEntry<D> {
    pub key: String,
    pub value: EnvValue<D>,
}

/// A step as the pipeline script defines it.
pub struct StepPlan<D> {
    pub id: u128,
    pub name: String,
    pub command: String,
    pub env: Vec<EnvEntry<D>>,
}

/// A job as the pipeline script defines it.
pub struct JobPlan<D> {
    pub id: u128,
    pub key: String,
    pub name: String,
    pub image: Option<String>,
    /// Minutes.
    pub timeout: i32,
    pub parents: Vec<u128>,
    pub env: Vec<EnvEntry<D>>,
    pub steps: Vec<StepPlan<D>>,
}

/// A pipeline as the pipeline script defines it.
pub struct PipelinePlan<D> {
    pub id: u128,
    pub name: String,
    pub jobs: Vec<JobPlan<D>>,
}

/// The pipeline row a push inserts.
pub struct PipelineInsert {
    pub id: u128,
    pub repo_id: u128,
    pub title: String,
    pub triggered_by: String,
    pub event_type: EventType,
    pub git_ref: String,
    pub git_commit_id: String,
    pub status: PipelineStatus,
}

/// The job row a push inserts.
pub struct JobInsert<D> {
    pub id: u128,
    pub pipeline_id: u128,
    pub key: String,
    pub name: String,
    pub image: Option<String>,
    pub timeout: i32,
    pub status: JobStatus,
    pub env: Vec<EnvEntry<D>>,
}

/// The step row a push inserts.
pub struct StepInsert<D> {
    pub id: u128,
    pub job_id: u128,
    pub name: String,
    pub ordering: i32,
    pub command: String,
    pub status: JobStatus,
    pub env: Vec<EnvEntry<D>>,
}

/// The rows of one job, in the order they are inserted.
pub struct JobInserts<D> {
    pub job: JobInsert<D>,
    pub depends: Vec<JobDependency>,
    pub steps: Vec<StepInsert<D>>,
}

/// The rows of one pipeline, in the order they are inserted.
pub struct PipelineInserts<D> {
    pub pipeline: PipelineInsert,
    pub jobs: Vec<JobInserts<D>>,
}

/// The longest a job may run, in minutes: six hours.
pub const MAX_JOB_TIMEOUT: i32 = 360;

/// The variable through which a job learns where to clone from.
pub open spec fn clone_url_key() -> Seq<char> {
    seq!['C', 'L', 'O', 'N', 'E', '_', 'U', 'R', 'L']
}

/// `e` sets the clone URL to `url`.
pub open spec fn is_clone_url_entry<D>(e: EnvEntry<D>, url: Seq<char>) -> bool {
    &&& e.key@ == clone_url_key()
    &&& e.value matches EnvValue::Static(s) && s@ == url
}

/// Some entry of `env` is the clone URL.
pub open spec fn has_clone_url_key<D>(env: Seq<EnvEntry<D>>) -> bool {
    exists|k: int| 0 <= k < env.len() && (#[trigger] env[k]).key@ == clone_url_key()
}

/// `new` is `old` with the clone URL set to `url`, as a map insertion does:
/// an entry already under the key gets the new value, otherwise an entry
/// is added.
pub open spec fn sets_clone_url<D>(old: Seq<EnvEntry<D>>, new: Seq<EnvEntry<D>>, url: Seq<char>) -> bool {
    if has_clone_url_key(old) {
        &&& new.len() == old.len()
        &&& forall|k: int|
            0 <= k < old.len() ==> if (#[trigger] old[k]).key@ == clone_url_key() {
                new[k].key == old[k].key && is_clone_url_entry(new[k], url)
            } else {
                new[k] == old[k]
            }
    } else {
        &&& new.len() == old.len() + 1
        &&& forall|k: int| 0 <= k < old.len() ==> #[trigger] new[k] == old[k]
        &&& is_clone_url_entry(new[old.len() as int], url)
    }
}

/// Sets the clone URL of a job's environment.
pub fn set_clone_url<D>(env: &mut Vec<EnvEntry<D>>, url: &str)
    ensures
        sets_clone_url(old(env)@, final(env)@, url@),
{
    let key = "CLONE_URL";
    proof {
        reveal_strlit("CLONE_URL");
        assert(key@ =~= clone_url_key());
    }
    let ghost old_env = env@;
    let mut found = false;
    let mut i: usize = 0;
    while i < env.len()
        invariant
            env@.len() == old_env.len(),
            i <= env.len(),
            key@ == clone_url_key(),
            found <==> exists|k: int| 0 <= k < i && (#[trigger] old_env[k]).key@ == clone_url_key(),
            forall|k: int|
                0 <= k < i ==> if (#[trigger] old_env[k]).key@ == clone_url_key() {
                    env@[k].key == old_env[k].key && is_clone_url_entry(env@[k], url@)
                } else {
                    env@[k] == old_env[k]
                },
            forall|k: int| i <= k < env@.len() ==> #[trigger] env@[k] == old_env[k],
        decreases env.len() - i,
    {
        if str_eq(env[i].key.as_str(), key) {
            let entry = env.remove(i);
            let EnvEntry { key: k, value: _ } = entry;
            let updated = EnvEntry { key: k, value: EnvValue::Static(String::from_str(url)) };
            env.insert(i, updated);
            found = true;
        }
        i = i + 1;
    }
    if !found {
        env.push(EnvEntry { key: String::from_str(key), value: EnvValue::Static(String::from_str(url)) });
    }
}

/// `format!("{} ({})", message, name)`: the title of a pipeline started by
/// a push.
pub open spec fn pipeline_title_spec(message: Seq<char>, name: Seq<char>) -> Seq<char> {
    message + seq![' ', '('] + name + seq![')']
}

/// The title of a pipeline started by a push: the commit message, then
/// the pipeline name in brackets.
pub fn pipeline_title(message: &str, name: &str) -> (t: String)
    ensures
        t@ == pipeline_title_spec(message@, name@),
{
    let open = " (";
    let close = ")";
    proof {
        reveal_strlit(" (");
        reveal_strlit(")");
    }
    concat4(message, open, name, close)
}

/// The timeout stored for a job: what the script asked for, at most six
/// hours.
pub open spec fn capped_timeout(t: i32) -> i32 {
    if t < MAX_JOB_TIMEOUT {
        t
    } else {
        MAX_JOB_TIMEOUT
    }
}

/// The timeout stored for a job is the smaller of what the script asked
/// for and six hours (360 minutes): a request of at most 360 minutes is
/// stored unchanged, a longer one as 360.
pub proof fn lemma_job_timeout_is_min<D>(
    r: JobInserts<D>,
    j: JobPlan<D>,
    pipeline_id: u128,
    ssh_url: Seq<char>,
)
    requires
        job_inserts_match(r, j, pipeline_id, ssh_url),
    ensures
        r.job.timeout <= 360,
        r.job.timeout <= j.timeout,
        r.job.timeout == j.timeout || r.job.timeout == 360,
        j.timeout <= 360 ==> r.job.timeout == j.timeout,
        j.timeout > 360 ==> r.job.timeout == 360,
{
}

/// The step row for step `s` at position `i` (from zero) of job `job_id`.
pub open spec fn step_insert_matches<D>(r: StepInsert<D>, s: StepPlan<D>, job_id: u128, i: int) -> bool {
    &&& r.id == s.id
    &&& r.job_id == job_id
    &&& r.name == s.name
    &&& r.ordering == i + 1
    &&& r.command == s.command
    &&& r.status == JobStatus::Pending
    &&& r.env == s.env
}

/// The rows of job `j` in pipeline `pipeline_id`: the job itself (pending,
/// timeout capped, clone URL set to `ssh_url`), one dependency row per
/// parent, and its steps numbered from one in order.
pub open spec fn job_inserts_match<D>(
    r: JobInserts<D>,
    j: JobPlan<D>,
    pipeline_id: u128,
    ssh_url: Seq<char>,
) -> bool {
    &&& r.job.id == j.id
    &&& r.job.pipeline_id == pipeline_id
    &&& r.job.key == j.key
    &&& r.job.name == j.name
    &&& r.job.image == j.image
    &&& r.job.timeout == capped_timeout(j.timeout)
    &&& r.job.status == JobStatus::Pending
    &&& sets_clone_url(j.env@, r.job.env@, ssh_url)
    &&& r.depends@ == j.parents@.map_values(
        |p: u128| JobDependency { upstream_id: p, downstream_id: j.id },
    )
    &&& r.steps@.len() == j.steps@.len()
    &&& forall|i: int|
        0 <= i < j.steps@.len() ==> step_insert_matches(
            #[trigger] r.steps@[i],
            j.steps@[i],
            j.id,
            i,
        )
}

/// The rows for one job of a pipeline started by a push.
pub fn job_inserts<D>(pipeline_id: u128, job: JobPlan<D>, ssh_url: &str) -> (r: JobInserts<D>)
    requires
        job.steps@.len() < i32::MAX,
    ensures
        job_inserts_match(r, job, pipeline_id, ssh_url@),
{
    let ghost orig = job;
    let JobPlan { id, key, name, image, timeout, parents, env, steps } = job;
    let mut env = env;
    set_clone_url(&mut env, ssh_url);
    let mut depends: Vec<JobDependency> = Vec::new();
    let mut i: usize = 0;
    while i < parents.len()
        invariant
            i <= parents.len(),
            depends@ == parents@.take(i as int).map_values(
                |p: u128| JobDependency { upstream_id: p, downstream_id: id },
            ),
        decreases parents.len() - i,
    {
        depends.push(JobDependency { upstream_id: parents[i], downstream_id: id });
        assert(parents@.take(i + 1) =~= parents@.take(i as int).push(parents@[i as int]));
        i = i + 1;
    }
    assert(parents@.take(parents.len() as int) =~= parents@);
    let mut remaining = steps;
    let ghost all_steps = remaining@;
    let mut rows: Vec<StepInsert<D>> = Vec::new();
    let mut n: usize = 0;
    while remaining.len() > 0
        invariant
            n <= all_steps.len(),
            all_steps.len() < i32::MAX,
            remaining@ == all_steps.skip(n as int),
            rows@.len() == n,
            forall|k: int| 0 <= k < n ==> step_insert_matches(#[trigger] rows@[k], all_steps[k], id, k),
        decreases remaining.len(),
    {
        let s = remaining.remove(0);
        assert(s == all_steps[n as int]);
        let StepPlan { id: step_id, name: step_name, command, env: step_env } = s;
        let ordering = (n + 1) as i32;
        rows.push(
            StepInsert {
                id: step_id,
                job_id: id,
                name: step_name,
                ordering,
                command,
                status: JobStatus::Pending,
                env: step_env,
            },
        );
        n = n + 1;
        assert(remaining@ =~= all_steps.skip(n as int));
    }
    let capped = if timeout < MAX_JOB_TIMEOUT {
        timeout
    } else {
        MAX_JOB_TIMEOUT
    };
    JobInserts {
        job: JobInsert {
            id,
            pipeline_id,
            key,
            name,
            image,
            timeout: capped,
            status: JobStatus::Pending,
            env,
        },
        depends,
        steps: rows,
    }
}

/// What a push carries besides the pipelines.
pub struct PushInfo {
    pub repo_id: u128,
    pub head_commit_message: String,
    pub sender_username: String,
    pub event: EventType,
    pub git_ref: String,
    pub after: String,
    pub ssh_url: String,
}

/// The rows for pipeline `p` started by push `info`.
pub open spec fn pipeline_inserts_match<D>(r: PipelineInserts<D>, p: PipelinePlan<D>, info: PushInfo) -> bool {
    &&& r.pipeline.id == p.id
    &&& r.pipeline.repo_id == info.repo_id
    &&& r.pipeline.title@ == pipeline_title_spec(info.head_commit_message@, p.name@)
    &&& r.pipeline.triggered_by@ == info.sender_username@
    &&& r.pipeline.event_type == info.event
    &&& r.pipeline.git_ref@ == info.git_ref@
    &&& r.pipeline.git_commit_id@ == info.after@
    &&& r.pipeline.status == PipelineStatus::Queued
    &&& r.jobs@.len() == p.jobs@.len()
    &&& forall|i: int|
        0 <= i < p.jobs@.len() ==> job_inserts_match(
            #[trigger] r.jobs@[i],
            p.jobs@[i],
            p.id,
            info.ssh_url@,
        )
}

/// Every job of every pipeline has fewer steps than fit an `i32`.
pub open spec fn steps_fit<D>(pipelines: Seq<PipelinePlan<D>>) -> bool {
    forall|i: int, j: int|
        0 <= i < pipelines.len() && 0 <= j < pipelines[i].jobs@.len() ==> (
        #[trigger] pipelines[i].jobs@[j]).steps@.len() < i32::MAX
}

/// The rows a push inserts for the pipelines the script defined, in order:
/// each pipeline queued, with its jobs and steps pending.
pub fn push_inserts<D>(info: &PushInfo, pipelines: Vec<PipelinePlan<D>>) -> (r: Vec<PipelineInserts<D>>)
    requires
        steps_fit(pipelines@),
    ensures
        r@.len() == pipelines@.len(),
        forall|i: int|
            0 <= i < pipelines@.len() ==> pipeline_inserts_match(#[trigger] r@[i], pipelines@[i], *info),
{
    let mut remaining = pipelines;
    let ghost all = remaining@;
    let total = remaining.len();
    let mut out: Vec<PipelineInserts<D>> = Vec::new();
    let mut n: usize = 0;
    while remaining.len() > 0
        invariant
            n <= all.len(),
            all.len() == total,
            steps_fit(all),
            remaining@ == all.skip(n as int),
            out@.len() == n,
            forall|k: int|
                0 <= k < n ==> pipeline_inserts_match(#[trigger] out@[k], all[k], *info),
        decreases remaining.len(),
    {
        let p = remaining.remove(0);
        assert(p == all[n as int]);
        let PipelinePlan { id: pipeline_id, name, jobs } = p;
        let title = pipeline_title(info.head_commit_message.as_str(), name.as_str());
        let mut jobs_left = jobs;
        let ghost all_jobs = jobs_left@;
        let count = jobs_left.len();
        let mut job_rows: Vec<JobInserts<D>> = Vec::new();
        let mut m: usize = 0;
        while jobs_left.len() > 0
            invariant
                m <= all_jobs.len(),
                all_jobs.len() == count,
                all_jobs == all[n as int].jobs@,
                n < all.len(),
                steps_fit(all),
                jobs_left@ == all_jobs.skip(m as int),
                job_rows@.len() == m,
                forall|k: int|
                    0 <= k < m ==> job_inserts_match(
                        #[trigger] job_rows@[k],
                        all_jobs[k],
                        pipeline_id,
                        info.ssh_url@,
                    ),
            decreases jobs_left.len(),
        {
            let j = jobs_left.remove(0);
            assert(j == all_jobs[m as int]);
            assert(all[n as int].jobs@[m as int].steps@.len() < i32::MAX);
            job_rows.push(job_inserts(pipeline_id, j, info.ssh_url.as_str()));
            m = m + 1;
            assert(jobs_left@ =~= all_jobs.skip(m as int));
        }
        out.push(
            PipelineInserts {
                pipeline: PipelineInsert {
                    id: pipeline_id,
                    repo_id: info.repo_id,
                    title,
                    triggered_by: info.sender_username.clone(),
                    event_type: info.event,
                    git_ref: info.git_ref.clone(),
                    git_commit_id: info.after.clone(),
                    status: PipelineStatus::Queued,
                },
                jobs: job_rows,
            },
        );
        n = n + 1;
        assert(remaining@ =~= all.skip(n as int));
    }
    out
}

} // verus!
