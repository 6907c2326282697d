use hmac::{KeyInit, Mac};
use kanade::codec::HexError;
use kanade::crypto::CryptoEngine;
use kanade::lifecycle::JobDependency;
use kanade::status::{EventType, JobStatus, PipelineStatus};
use kanade::webhook::{
    authenticate, check_headers, classify_event, job_inserts, pipeline_title, push_inserts,
    script_context, set_clone_url, verify_signature, EnvEntry, EnvValue, JobPlan, PipelinePlan,
    PushInfo, StepPlan, WebhookError,
};

fn sign(secret: &str, body: &str) -> String {
    let mut mac = <hmac::Hmac<sha2::Sha256> as KeyInit>::new_from_slice(secret.as_bytes()).unwrap();
    mac.update(body.as_bytes());
    hex::encode(mac.finalize().into_bytes())
}

#[test]
fn headers_are_checked_in_order() {
    assert_eq!(
        check_headers(Some("text/plain"), None, None),
        Err(WebhookError::InvalidContentType)
    );
    assert_eq!(check_headers(None, Some("ab"), Some("push")), Err(WebhookError::InvalidContentType));
    assert_eq!(
        check_headers(Some("application/json"), None, None),
        Err(WebhookError::MissingSignature)
    );
    assert_eq!(
        check_headers(Some("application/json"), Some("ab"), None),
        Err(WebhookError::MissingEvent)
    );
    assert_eq!(check_headers(Some("application/json"), Some("ab"), Some("push")), Ok(()));
}

#[test]
fn a_correctly_signed_body_is_accepted() {
    let body = "{\"ref\":\"refs/heads/main\"}";
    let signature = sign("s3cret", body);
    assert_eq!(signature.len(), 64);
    assert_eq!(verify_signature("s3cret", body, &signature), Ok(()));
    assert_eq!(verify_signature("s3cret", body, &signature.to_uppercase()), Ok(()));
}

#[test]
fn a_wrong_signature_is_refused() {
    let body = "{}";
    let signature = sign("other", body);
    assert_eq!(verify_signature("s3cret", body, &signature), Err(WebhookError::SignatureMismatch));
    let altered = sign("s3cret", "{ }");
    assert_eq!(verify_signature("s3cret", body, &altered), Err(WebhookError::SignatureMismatch));
}

#[test]
fn a_badly_encoded_signature_is_refused() {
    assert_eq!(
        verify_signature("k", "{}", "abc"),
        Err(WebhookError::BadSignatureEncoding(HexError::OddLength))
    );
    assert_eq!(
        verify_signature("k", "{}", "abcd"),
        Err(WebhookError::BadSignatureEncoding(HexError::InvalidStringLength))
    );
    let mut bad = "0".repeat(64);
    bad.replace_range(5..6, "z");
    assert_eq!(
        verify_signature("k", "{}", &bad),
        Err(WebhookError::BadSignatureEncoding(HexError::InvalidHexCharacter { c: 'z', index: 5 }))
    );
}

#[test]
fn authentication_decrypts_the_stored_secret() {
    let engine = CryptoEngine::new(vec![7u8; 32]).unwrap();
    let stored = engine.encrypt("hook-secret").unwrap();
    let body = "{\"after\":\"abc\"}";
    assert_eq!(authenticate(&engine, &stored, body, &sign("hook-secret", body)), Ok(()));
    assert_eq!(
        authenticate(&engine, &stored, body, &sign("another", body)),
        Err(WebhookError::SignatureMismatch)
    );
    assert_eq!(
        authenticate(&engine, &[1, 2, 3], body, &sign("hook-secret", body)),
        Err(WebhookError::Internal)
    );
}

#[test]
fn refusals_map_to_statuses() {
    assert_eq!(WebhookError::RepositoryNotFound.status(), 404);
    assert_eq!(WebhookError::UpstreamRepoNotFound.status(), 404);
    assert_eq!(WebhookError::Internal.status(), 500);
    assert_eq!(WebhookError::ScriptFailed.status(), 500);
    assert_eq!(WebhookError::SignatureMismatch.status(), 400);
    assert_eq!(WebhookError::InvalidContentType.status(), 400);
}

#[test]
fn only_pushes_start_pipelines() {
    assert_eq!(classify_event("push"), Some(EventType::Push));
    assert_eq!(classify_event("pull_request"), None);
    assert_eq!(classify_event("Push"), None);
}

#[test]
fn the_script_context_names_branch_and_tag() {
    let c = script_context(EventType::Push, "refs/heads/feature/x");
    assert_eq!(c.event, "push");
    assert_eq!(c.branch.as_deref(), Some("feature/x"));
    assert_eq!(c.tag, None);
    assert_eq!(c.git_ref, "refs/heads/feature/x");
    assert_eq!(c.default_image, "oven/bun:latest");
    assert_eq!(c.default_shell, "/bin/sh");
    let t = script_context(EventType::Tag, "refs/tags/v1.0");
    assert_eq!(t.event, "tag");
    assert_eq!(t.branch, None);
    assert_eq!(t.tag.as_deref(), Some("v1.0"));
}

fn static_entry(key: &str, value: &str) -> EnvEntry<u8> {
    EnvEntry { key: key.to_string(), value: EnvValue::Static(value.to_string()) }
}

fn static_value(e: &EnvEntry<u8>) -> Option<&str> {
    match &e.value {
        EnvValue::Static(s) => Some(s.as_str()),
        EnvValue::Defined(_) => None,
    }
}

#[test]
fn the_clone_url_is_set_like_a_map_insert() {
    let mut env = vec![static_entry("A", "1"), EnvEntry { key: "S".to_string(), value: EnvValue::Defined(3) }];
    set_clone_url(&mut env, "git@forge:o/r.git");
    assert_eq!(env.len(), 3);
    assert_eq!(env[2].key, "CLONE_URL");
    assert_eq!(static_value(&env[2]), Some("git@forge:o/r.git"));
    set_clone_url(&mut env, "git@forge:o/s.git");
    assert_eq!(env.len(), 3);
    assert_eq!(static_value(&env[2]), Some("git@forge:o/s.git"));
    assert_eq!(static_value(&env[0]), Some("1"));
    assert!(matches!(env[1].value, EnvValue::Defined(3)));
}

#[test]
fn the_title_is_message_and_pipeline_name() {
    assert_eq!(pipeline_title("fix build", "ci"), "fix build (ci)");
}

fn plan_job(id: u128, timeout: i32, parents: Vec<u128>) -> JobPlan<u8> {
    JobPlan {
        id,
        key: format!("job{id}"),
        name: format!("Job {id}"),
        image: None,
        timeout,
        parents,
        env: vec![],
        steps: vec![
            StepPlan { id: id * 10, name: "a".to_string(), command: "echo a".to_string(), env: vec![] },
            StepPlan { id: id * 10 + 1, name: "b".to_string(), command: "echo b".to_string(), env: vec![] },
        ],
    }
}

#[test]
fn job_rows_are_pending_capped_and_numbered() {
    let rows = job_inserts(5, plan_job(2, 500, vec![1, 3]), "ssh://x");
    assert_eq!(rows.job.id, 2);
    assert_eq!(rows.job.pipeline_id, 5);
    assert_eq!(rows.job.key, "job2");
    assert_eq!(rows.job.timeout, 360);
    assert_eq!(rows.job.status, JobStatus::Pending);
    assert_eq!(rows.job.env.len(), 1);
    assert_eq!(rows.job.env[0].key, "CLONE_URL");
    assert_eq!(
        rows.depends,
        vec![
            JobDependency { upstream_id: 1, downstream_id: 2 },
            JobDependency { upstream_id: 3, downstream_id: 2 },
        ]
    );
    assert_eq!(rows.steps.len(), 2);
    assert_eq!(rows.steps[0].ordering, 1);
    assert_eq!(rows.steps[1].ordering, 2);
    assert_eq!(rows.steps[1].id, 21);
    assert_eq!(rows.steps[1].job_id, 2);
    assert_eq!(rows.steps[1].command, "echo b");
    assert_eq!(rows.steps[1].status, JobStatus::Pending);
    let short = job_inserts(5, plan_job(4, 30, vec![]), "ssh://x");
    assert_eq!(short.job.timeout, 30);
    assert!(short.depends.is_empty());
}

#[test]
fn a_push_inserts_one_queued_pipeline_per_plan() {
    let info = PushInfo {
        repo_id: 9,
        head_commit_message: "msg".to_string(),
        sender_username: "alice".to_string(),
        event: EventType::Push,
        git_ref: "refs/heads/main".to_string(),
        after: "abc123".to_string(),
        ssh_url: "ssh://git@forge/o/r.git".to_string(),
    };
    let plans = vec![
        PipelinePlan { id: 100, name: "build".to_string(), jobs: vec![plan_job(1, 10, vec![])] },
        PipelinePlan { id: 200, name: "deploy".to_string(), jobs: vec![] },
    ];
    let rows = push_inserts(&info, plans);
    assert_eq!(rows.len(), 2);
    assert_eq!(rows[0].pipeline.id, 100);
    assert_eq!(rows[0].pipeline.repo_id, 9);
    assert_eq!(rows[0].pipeline.title, "msg (build)");
    assert_eq!(rows[0].pipeline.triggered_by, "alice");
    assert_eq!(rows[0].pipeline.event_type, EventType::Push);
    assert_eq!(rows[0].pipeline.git_ref, "refs/heads/main");
    assert_eq!(rows[0].pipeline.git_commit_id, "abc123");
    assert_eq!(rows[0].pipeline.status, PipelineStatus::Queued);
    assert_eq!(rows[0].jobs.len(), 1);
    assert_eq!(rows[0].jobs[0].job.pipeline_id, 100);
    assert_eq!(static_value(&rows[0].jobs[0].job.env[0]), Some("ssh://git@forge/o/r.git"));
    assert_eq!(rows[1].pipeline.title, "msg (deploy)");
    assert!(rows[1].jobs.is_empty());
}

#[test]
fn intake_checks_in_order_and_classifies_the_event() {
    let engine = CryptoEngine::new(vec![3u8; 32]).unwrap();
    let stored = engine.encrypt("sec").unwrap();
    let body = "{\"ref\":\"refs/heads/main\"}";
    let sig = sign("sec", body);
    let json = Some("application/json");
    assert_eq!(
        kanade::webhook::intake(&engine, json, Some(&sig), Some("push"), body, true, Some(&stored)),
        Ok(Some(EventType::Push))
    );
    assert_eq!(
        kanade::webhook::intake(&engine, json, Some(&sig), Some("issues"), body, true, Some(&stored)),
        Ok(None)
    );
    assert_eq!(
        kanade::webhook::intake(&engine, Some("text/xml"), Some(&sig), Some("push"), body, false, None),
        Err(WebhookError::InvalidContentType)
    );
    assert_eq!(
        kanade::webhook::intake(&engine, json, Some(&sig), Some("push"), body, false, Some(&stored)),
        Err(WebhookError::InvalidBody)
    );
    assert_eq!(
        kanade::webhook::intake(&engine, json, Some(&sig), Some("push"), body, true, None),
        Err(WebhookError::RepositoryNotFound)
    );
    let forged = sign("guess", body);
    assert_eq!(
        kanade::webhook::intake(&engine, json, Some(&forged), Some("issues"), body, true, Some(&stored)),
        Err(WebhookError::SignatureMismatch)
    );
}

#[test]
fn refusals_are_answered_with_their_texts() {
    assert_eq!(WebhookError::InvalidContentType.message(), "invalid content type");
    assert_eq!(WebhookError::MissingSignature.message(), "missing signature");
    assert_eq!(WebhookError::MissingEvent.message(), "missing event");
    assert_eq!(WebhookError::RepositoryNotFound.message(), "repository not found");
    assert_eq!(WebhookError::SignatureMismatch.message(), "signature verification failed");
    assert_eq!(WebhookError::Internal.message(), "internal error");
    assert_eq!(WebhookError::BadSignatureEncoding(HexError::OddLength).message(), "Odd number of digits");
    assert_eq!(
        WebhookError::BadSignatureEncoding(HexError::InvalidHexCharacter { c: 'z', index: 5 }).message(),
        "Invalid character 'z' at position 5"
    );
}

#[test]
fn refusals_carry_the_account_of_the_failing_component() {
    let parse = serde_json::from_str::<serde_json::Value>("{").unwrap_err().to_string();
    assert_eq!(WebhookError::InvalidBody.message_with(&parse), parse);
    assert_eq!(
        WebhookError::ScriptFailed.message_with("boom"),
        "failed to evaluate script: boom"
    );
    assert_eq!(WebhookError::MissingEvent.message_with("ignored"), "missing event");
}
