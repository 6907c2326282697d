//! How stored rows are shaped into the answers of the read endpoints: the
//! jobs of a pipeline with their steps and parents, the paging of pipeline
//! lists, and the scopes of a team secret.
use vstd::prelude::*;

use itertools::Itertools;
use std::collections::HashMap;

use crate::codec::{ed25519_openssh, ed25519_openssh_spec, hex_encode, hex_lower_spec, random_bytes};
use crate::crypto::{sealed_for, CryptoEngine};
use crate::error::AppError;
use crate::lifecycle::JobDependency;
use crate::status::{EventType, JobStatus, RoleType};

verus! {

// ---------------------------------------------------------------------
// Dependencies grouped by downstream job
// ---------------------------------------------------------------------

/// The upstream jobs of one downstream job, as one run of consecutive
/// dependency rows.
pub struct DependencyGroup {
    pub downstream_id: u128,
    pub upstream_ids: Vec<u128>,
}

/// The runs of consecutive dependency rows that share a downstream job,
/// each with the upstream ids in row order.
pub open spec fn chunks_spec(rows: Seq<JobDependency>) -> Seq<(u128, Seq<u128>)>
    decreases rows.len(),
{
    if rows.len() == 0 {
        seq![]
    } else {
        let rest = chunks_spec(rows.drop_last());
        let last = rows.last();
        if rest.len() > 0 && rest.last().0 == last.downstream_id {
            rest.update(
                rest.len() - 1,
                (last.downstream_id, rest.last().1.push(last.upstream_id)),
            )
        } else {
            rest.push((last.downstream_id, seq![last.upstream_id]))
        }
    }
}

/// The mathematical value of a list of groups.
pub open spec fn groups_view(groups: Seq<DependencyGroup>) -> Seq<(u128, Seq<u128>)> {
    groups.map_values(|g: DependencyGroup| (g.downstream_id, g.upstream_ids@))
}

/// `Itertools::chunk_by` on the downstream job id, each chunk collected as
/// its upstream ids: the runs of consecutive rows with the same key, in
/// order.
#[verifier::external_body]
fn chunk_by_downstream(rows: Vec<JobDependency>) -> (groups: Vec<DependencyGroup>)
    ensures
        groups_view(groups@) == chunks_spec(rows@),
{
    rows.into_iter().chunk_by(|r| r.downstream_id).into_iter().map(
        |(downstream_id, group)| DependencyGroup {
            downstream_id,
            upstream_ids: group.map(|r| r.upstream_id).collect(),
        },
    ).collect()
}

/// The upstream ids that a map built from `groups` holds for `id`: those
/// of the last group with that key, or none.
pub open spec fn lookup_last(groups: Seq<(u128, Seq<u128>)>, id: u128) -> Seq<u128>
    decreases groups.len(),
{
    if groups.len() == 0 {
        seq![]
    } else if groups.last().0 == id {
        groups.last().1
    } else {
        lookup_last(groups.drop_last(), id)
    }
}

fn copy_ids(v: &Vec<u128>) -> (r: Vec<u128>)
    ensures
        r@ == v@,
{
    let mut r: Vec<u128> = Vec::new();
    let mut i: usize = 0;
    while i < v.len()
        invariant
            i <= v.len(),
            r@ == v@.take(i as int),
        decreases v.len() - i,
    {
        r.push(v[i]);
        assert(v@.take(i + 1) =~= v@.take(i as int).push(v@[i as int]));
        i = i + 1;
    }
    assert(v@.take(v.len() as int) =~= v@);
    r
}

/// The map from downstream job to its upstream jobs that collecting
/// `groups` into a `HashMap` builds: a later group with the same key
/// replaces an earlier one.
pub fn depend_map(groups: &Vec<DependencyGroup>) -> (m: HashMap<u128, Vec<u128>>)
    ensures
        forall|k: u128| #[trigger]
            m@.contains_key(k) ==> m@[k]@ == lookup_last(groups_view(groups@), k),
        forall|k: u128|
            !#[trigger] m@.contains_key(k) ==> lookup_last(groups_view(groups@), k) == Seq::<
                u128,
            >::empty(),
{
    broadcast use vstd::std_specs::hash::group_hash_axioms;

    let ghost gv = groups_view(groups@);
    let mut m: HashMap<u128, Vec<u128>> = HashMap::new();
    let mut i: usize = 0;
    while i < groups.len()
        invariant
            i <= groups.len(),
            gv == groups_view(groups@),
            forall|k: u128| #[trigger]
                m@.contains_key(k) ==> m@[k]@ == lookup_last(gv.take(i as int), k),
            forall|k: u128|
                !#[trigger] m@.contains_key(k) ==> lookup_last(gv.take(i as int), k) == Seq::<
                    u128,
                >::empty(),
        decreases groups.len() - i,
    {
        let ids = copy_ids(&groups[i].upstream_ids);
        let key = groups[i].downstream_id;
        m.insert(key, ids);
        assert(gv.take(i + 1).drop_last() =~= gv.take(i as int));
        i = i + 1;
    }
    assert(gv.take(groups.len() as int) =~= gv);
    m
}

/// The parents of job `id` in the dependency map: its upstream jobs, or
/// none.
pub fn parents_of(depends: &HashMap<u128, Vec<u128>>, id: u128) -> (r: Vec<u128>)
    ensures
        r@ == if depends@.contains_key(id) {
            depends@[id]@
        } else {
            Seq::empty()
        },
{
    broadcast use vstd::std_specs::hash::group_hash_axioms;

    match depends.get(&id) {
        Some(v) => copy_ids(v),
        None => Vec::new(),
    }
}

// ---------------------------------------------------------------------
// Jobs of a pipeline with their steps
// ---------------------------------------------------------------------

/// The columns of a step, present when the job row joined a step.
pub struct StepColumns {
    pub id: u128,
    pub name: String,
    pub ordering: i32,
    pub command: String,
    pub created_at: i64,
    pub exit_code: Option<i32>,
    pub started_at: Option<i64>,
    pub finished_at: Option<i64>,
}

/// One row of the jobs-with-steps query, ordered by job id then step
/// ordering.
pub struct JobStepRow {
    pub job_id: u128,
    pub key: String,
    pub name: String,
    pub timeout: i32,
    pub status: JobStatus,
    pub created_at: i64,
    pub started_at: Option<i64>,
    pub finished_at: Option<i64>,
    pub step: Option<StepColumns>,
}

/// A step in the answer.
pub struct StepResponse {
    pub id: u128,
    pub name: String,
    pub ordering: i32,
    pub command: String,
    pub created_at: i64,
    pub exit_code: Option<i32>,
    pub started_at: Option<i64>,
    pub finished_at: Option<i64>,
}

/// A job in the answer, with its steps and parents.
pub struct JobResponse {
    pub id: u128,
    pub key: String,
    pub name: String,
    pub timeout: i32,
    pub steps: Vec<StepResponse>,
    pub parents: Vec<u128>,
    pub status: JobStatus,
    pub created_at: i64,
    pub started_at: Option<i64>,
    pub finished_at: Option<i64>,
}

/// The mathematical value of a step.
pub struct StepView {
    pub id: u128,
    pub name: Seq<char>,
    pub ordering: i32,
    pub command: Seq<char>,
    pub created_at: i64,
    pub exit_code: Option<i32>,
    pub started_at: Option<i64>,
    pub finished_at: Option<i64>,
}

/// The mathematical value of a job.
#[verifier::ext_equal]
pub struct JobView {
    pub id: u128,
    pub key: Seq<char>,
    pub name: Seq<char>,
    pub timeout: i32,
    pub steps: Seq<StepView>,
    pub parents: Seq<u128>,
    pub status: JobStatus,
    pub created_at: i64,
    pub started_at: Option<i64>,
    pub finished_at: Option<i64>,
}

impl View for StepColumns {
    type V = StepView;

    open spec fn view(&self) -> StepView {
        StepView {
            id: self.id,
            name: self.name@,
            ordering: self.ordering,
            command: self.command@,
            created_at: self.created_at,
            exit_code: self.exit_code,
            started_at: self.started_at,
            finished_at: self.finished_at,
        }
    }
}

impl View for StepResponse {
    type V = StepView;

    open spec fn view(&self) -> StepView {
        StepView {
            id: self.id,
            name: self.name@,
            ordering: self.ordering,
            command: self.command@,
            created_at: self.created_at,
            exit_code: self.exit_code,
            started_at: self.started_at,
            finished_at: self.finished_at,
        }
    }
}

impl View for JobResponse {
    type V = JobView;

    open spec fn view(&self) -> JobView {
        JobView {
            id: self.id,
            key: self.key@,
            name: self.name@,
            timeout: self.timeout,
            steps: self.steps@.map_values(|s: StepResponse| s@),
            parents: self.parents@,
            status: self.status,
            created_at: self.created_at,
            started_at: self.started_at,
            finished_at: self.finished_at,
        }
    }
}

/// The job a row opens: no steps yet, parents from the dependency map.
pub open spec fn new_job(row: JobStepRow, deps: Seq<(u128, Seq<u128>)>) -> JobView {
    JobView {
        id: row.job_id,
        key: row.key@,
        name: row.name@,
        timeout: row.timeout,
        steps: seq![],
        parents: lookup_last(deps, row.job_id),
        status: row.status,
        created_at: row.created_at,
        started_at: row.started_at,
        finished_at: row.finished_at,
    }
}

/// A job with the row's step added, unless the row has no step or repeats
/// the job's last step.
pub open spec fn add_step(job: JobView, row: JobStepRow) -> JobView {
    match row.step {
        Some(s) => if job.steps.len() == 0 || job.steps.last().id != s.id {
            JobView { steps: job.steps.push(s@), ..job }
        } else {
            job
        },
        None => job,
    }
}

/// Folding the rows into jobs: a row continues the last job when it has
/// the same job id and opens a new job otherwise; its step, if any and
/// new, is appended to that job.
pub open spec fn group_rows_spec(rows: Seq<JobStepRow>, deps: Seq<(u128, Seq<u128>)>) -> Seq<JobView>
    decreases rows.len(),
{
    if rows.len() == 0 {
        seq![]
    } else {
        let acc = group_rows_spec(rows.drop_last(), deps);
        let row = rows.last();
        let acc2 = if acc.len() > 0 && acc.last().id == row.job_id {
            acc
        } else {
            acc.push(new_job(row, deps))
        };
        acc2.update(acc2.len() - 1, add_step(acc2.last(), row))
    }
}

/// The mathematical value of a list of jobs.
pub open spec fn jobs_view(jobs: Seq<JobResponse>) -> Seq<JobView> {
    jobs.map_values(|j: JobResponse| j@)
}

/// The columns of the user who triggered a pipeline, all empty when no
/// user did.
pub struct UserColumns {
    pub id: Option<u128>,
    pub username: Option<String>,
    pub nick: Option<String>,
    pub email: Option<String>,
    pub avatar_url: Option<String>,
    pub created_at: Option<i64>,
    pub updated_at: Option<i64>,
}

/// A user as the API answers it.
pub struct UserResponse {
    pub id: u128,
    pub username: String,
    pub nick: Option<String>,
    pub email: Option<String>,
    pub avatar_url: Option<String>,
    pub created_at: i64,
    pub updated_at: i64,
}

/// The endpoints about the signed-in user, answered from the user's rows
/// as they are stored.
pub struct UserApi;

/// The pipeline read endpoints.
pub struct PipelineApi;

impl PipelineApi {
    /// The user who triggered a pipeline, when the row names one; a user
    /// row always has a name and time stamps.
    pub fn triggering_user(c: UserColumns) -> (r: Option<UserResponse>)
        requires
            c.id is Some ==> c.username is Some && c.created_at is Some && c.updated_at is Some,
        ensures
            match c.id {
                None => r is None,
                Some(id) => r matches Some(u) && u.id == id && Some(u.username) == c.username
                    && u.nick == c.nick && u.email == c.email && u.avatar_url == c.avatar_url
                    && Some(u.created_at) == c.created_at && Some(u.updated_at) == c.updated_at,
            },
    {
        let UserColumns { id, username, nick, email, avatar_url, created_at, updated_at } = c;
        match id {
            None => None,
            Some(id) => Some(
                UserResponse {
                    id,
                    username: username.unwrap(),
                    nick,
                    email,
                    avatar_url,
                    created_at: created_at.unwrap(),
                    updated_at: updated_at.unwrap(),
                },
            ),
        }
    }

    /// The answer when no pipeline has the requested id.
    pub fn not_found_message() -> (m: String)
        ensures
            m@ == "파이프라인을 찾을 수 없습니다"@,
    {
        String::from_str("파이프라인을 찾을 수 없습니다")
    }

    /// The jobs of a pipeline with their steps and parents, from the
    /// jobs-with-steps rows and the dependency rows (ordered by downstream
    /// job).
    pub fn group_jobs(rows: Vec<JobStepRow>, depend_rows: Vec<JobDependency>) -> (jobs: Vec<
        JobResponse,
    >)
        ensures
            jobs_view(jobs@) == group_rows_spec(rows@, chunks_spec(depend_rows@)),
    {
        let groups = chunk_by_downstream(depend_rows);
        let ghost deps = groups_view(groups@);
        let depends = depend_map(&groups);
        let mut remaining = rows;
        let ghost all = remaining@;
        let total = remaining.len();
        let mut jobs: Vec<JobResponse> = Vec::new();
        let mut n: usize = 0;
        while remaining.len() > 0
            invariant
                n <= all.len(),
                all.len() == total,
                remaining@ == all.skip(n as int),
                deps == groups_view(groups@),
                forall|k: u128| #[trigger]
                    depends@.contains_key(k) ==> depends@[k]@ == lookup_last(deps, k),
                forall|k: u128|
                    !#[trigger] depends@.contains_key(k) ==> lookup_last(deps, k) == Seq::<
                        u128,
                    >::empty(),
                jobs_view(jobs@) == group_rows_spec(all.take(n as int), deps),
            decreases remaining.len(),
        {
            let row = remaining.remove(0);
            assert(row == all[n as int]);
            assert(all.take(n + 1).drop_last() =~= all.take(n as int));
            let ghost before = jobs_view(jobs@);
            let JobStepRow {
                job_id,
                key,
                name,
                timeout,
                status,
                created_at,
                started_at,
                finished_at,
                step,
            } = row;
            let continues = jobs.len() > 0 && jobs[jobs.len() - 1].id == job_id;
            let mut job = if continues {
                jobs.pop().unwrap()
            } else {
                JobResponse {
                    id: job_id,
                    key,
                    name,
                    timeout,
                    steps: Vec::new(),
                    parents: parents_of(&depends, job_id),
                    status,
                    created_at,
                    started_at,
                    finished_at,
                }
            };
            let ghost opened = job@;
            proof {
                if !continues {
                    assert(opened =~= new_job(all[n as int], deps));
                }
            }
            match step {
                Some(s) => {
                    let fresh = job.steps.len() == 0 || job.steps[job.steps.len() - 1].id != s.id;
                    if fresh {
                        let StepColumns {
                            id,
                            name,
                            ordering,
                            command,
                            created_at,
                            exit_code,
                            started_at,
                            finished_at,
                        } = s;
                        job.steps.push(
                            StepResponse {
                                id,
                                name,
                                ordering,
                                command,
                                created_at,
                                exit_code,
                                started_at,
                                finished_at,
                            },
                        );
                        assert(job@.steps =~= opened.steps.push(all[n as int].step.unwrap()@));
                    }
                    assert(job@ =~= add_step(opened, all[n as int]));
                },
                None => {
                    assert(job@ =~= add_step(opened, all[n as int]));
                },
            }
            jobs.push(job);
            n = n + 1;
            assert(remaining@ =~= all.skip(n as int));
            assert(jobs_view(jobs@) =~= group_rows_spec(all.take(n as int), deps));
        }
        assert(all.take(all.len() as int) =~= all);
        jobs
    }
}

// ---------------------------------------------------------------------
// Paging of pipeline lists
// ---------------------------------------------------------------------

/// The number of pipelines on one page.
pub const PAGE_SIZE: usize = 20;

/// The cursor for the next page: the id of the last pipeline, when the
/// page is full.
pub open spec fn next_cursor_spec(ids: Seq<u128>) -> Option<u128> {
    if ids.len() == PAGE_SIZE {
        Some(ids.last())
    } else {
        None
    }
}

/// The repository read endpoints.
pub struct RepoApi;

impl RepoApi {
    /// The cursor for the page after the one holding pipelines `ids` (in
    /// the order listed): the last id when the page is full, none
    /// otherwise (also for an empty page).
    pub fn next_cursor(ids: &Vec<u128>) -> (r: Option<u128>)
        ensures
            r == next_cursor_spec(ids@),
    {
        if ids.len() == PAGE_SIZE {
            Some(ids[ids.len() - 1])
        } else {
            None
        }
    }

    /// The answer when no repository of the user has the requested slugs.
    pub fn not_found_message() -> (m: String)
        ensures
            m@ == "repo not found"@,
    {
        String::from_str("repo not found")
    }

    /// Why a repository cannot be registered: its slug is already used in
    /// the team, checked first, or the upstream repository already belongs
    /// to another project; none when neither holds.
    pub fn creation_conflict(slug_taken: bool, repo_linked: bool) -> (r: Option<String>)
        ensures
            r matches Some(m) ==> m@ == repo_conflict_spec(slug_taken, repo_linked)->0,
            r is Some == repo_conflict_spec(slug_taken, repo_linked) is Some,
    {
        if slug_taken {
            let m = String::from_str("해당 팀 내에 이미 동일한 슬러그를 가진 프로젝트가 존재합니다.");
            proof {
                reveal_strlit("해당 팀 내에 이미 동일한 슬러그를 가진 프로젝트가 존재합니다.");
            }
            Some(m)
        } else if repo_linked {
            let m = String::from_str("이 저장소는 이미 다른 프로젝트에 연동되어 있습니다.");
            proof {
                reveal_strlit("이 저장소는 이미 다른 프로젝트에 연동되어 있습니다.");
            }
            Some(m)
        } else {
            None
        }
    }

    /// A fresh webhook secret for a repository being registered: 32
    /// random bytes in lower-case hexadecimal. Nothing when the system
    /// random generator fails.
    pub fn webhook_token() -> (r: Option<String>)
        ensures
            r matches Some(t) ==> exists|b: Seq<u8>|
                b.len() == WEBHOOK_TOKEN_BYTES && t@ == hex_lower_spec(b),
    {
        match random_bytes(WEBHOOK_TOKEN_BYTES) {
            Some(b) => Some(RepoApi::webhook_token_from(b.as_slice())),
            None => None,
        }
    }

    /// The webhook secret made of `raw`: its bytes in lower-case
    /// hexadecimal.
    pub fn webhook_token_from(raw: &[u8]) -> (t: String)
        ensures
            t@ == hex_lower_spec(raw@),
    {
        hex_encode(raw)
    }
}

/// The key pair a repository clones with: its OpenSSH private form, kept
/// encrypted, and its OpenSSH public form, added to the forge.
pub struct DeployKey {
    pub private_openssh: String,
    pub public_openssh: String,
}

impl RepoApi {
    /// A fresh Ed25519 deploy key for a repository being registered, from
    /// 32 random bytes; a failure of the random generator or of the key
    /// encoding is an internal error.
    pub fn deploy_key() -> (r: Result<DeployKey, AppError>)
        ensures
            r matches Ok(k) ==> exists|seed: Seq<u8>|
                seed.len() == 32 && ed25519_openssh_spec(seed) == Some(
                    (k.private_openssh@, k.public_openssh@),
                ),
            r matches Err(e) ==> e is InternalError,
    {
        let seed = match random_bytes(32) {
            Some(b) => b,
            None => return Err(AppError::InternalError(String::from_str("random generator failed"))),
        };
        RepoApi::deploy_key_from_seed(seed.as_slice())
    }

    /// The Ed25519 deploy key expanded from a 32-byte `seed`; a key that
    /// does not encode is an internal error.
    pub fn deploy_key_from_seed(seed: &[u8]) -> (r: Result<DeployKey, AppError>)
        requires
            seed@.len() == 32,
        ensures
            match ed25519_openssh_spec(seed@) {
                Some((private, public)) => r matches Ok(k) && k.private_openssh@ == private
                    && k.public_openssh@ == public,
                None => r matches Err(AppError::InternalError(m)) && m@ == "ssh key encoding failed"@,
            },
    {
        match ed25519_openssh(seed) {
            Some((private_openssh, public_openssh)) => Ok(DeployKey { private_openssh, public_openssh }),
            None => Err(AppError::InternalError(String::from_str("ssh key encoding failed"))),
        }
    }

    /// The stored form of a new repository's credentials: the webhook
    /// secret, then the private deploy key, each encrypted; a failed
    /// encryption is an internal error.
    pub fn stored_credentials(crypto: &CryptoEngine, webhook_token: &str, ssh_key: &str) -> (r:
        Result<(Vec<u8>, Vec<u8>), AppError>)
        ensures
            r matches Ok((w, k)) ==> sealed_for(crypto@, w@, webhook_token@) && sealed_for(
                crypto@,
                k@,
                ssh_key@,
            ),
            r matches Err(e) ==> e is InternalError,
    {
        let w = match crypto.encrypt(webhook_token) {
            Ok(v) => v,
            Err(e) => return Err(AppError::from_crypto(e)),
        };
        let k = match crypto.encrypt(ssh_key) {
            Ok(v) => v,
            Err(e) => return Err(AppError::from_crypto(e)),
        };
        Ok((w, k))
    }
}

/// The number of random bytes in a repository's webhook secret.
pub const WEBHOOK_TOKEN_BYTES: usize = 32;

/// The message of the conflict that stops a repository from being
/// registered, if any.
pub open spec fn repo_conflict_spec(slug_taken: bool, repo_linked: bool) -> Option<Seq<char>> {
    if slug_taken {
        Some("해당 팀 내에 이미 동일한 슬러그를 가진 프로젝트가 존재합니다."@)
    } else if repo_linked {
        Some("이 저장소는 이미 다른 프로젝트에 연동되어 있습니다."@)
    } else {
        None
    }
}

// ---------------------------------------------------------------------
// Scopes of a team secret
// ---------------------------------------------------------------------

/// The list with each run of equal consecutive elements kept once.
pub open spec fn dedup_spec(s: Seq<EventType>) -> Seq<EventType>
    decreases s.len(),
{
    if s.len() == 0 {
        seq![]
    } else {
        let rest = dedup_spec(s.drop_last());
        if s.len() > 1 && s[s.len() - 2] == s.last() {
            rest
        } else {
            rest.push(s.last())
        }
    }
}

/// The scopes a secret is stored with: no two neighbours are equal, the
/// last is the last requested, and a scope is among them exactly when it
/// was requested.
pub proof fn lemma_secret_scopes(s: Seq<EventType>)
    ensures
        forall|i: int|
            0 <= i < dedup_spec(s).len() - 1 ==> #[trigger] dedup_spec(s)[i] != dedup_spec(s)[i
                + 1],
        s.len() > 0 ==> dedup_spec(s).len() > 0 && dedup_spec(s).last() == s.last(),
        forall|x: EventType| s.contains(x) <==> #[trigger] dedup_spec(s).contains(x),
    decreases s.len(),
{
    if s.len() > 0 {
        let p = s.drop_last();
        lemma_secret_scopes(p);
        let rest = dedup_spec(p);
        let skip = s.len() > 1 && s[s.len() - 2] == s.last();
        if skip {
            assert(dedup_spec(s) == rest);
        } else {
            assert(dedup_spec(s) == rest.push(s.last()));
        }
        assert forall|x: EventType| s.contains(x) <==> #[trigger] dedup_spec(s).contains(x) by {
            if s.contains(x) {
                let k = choose|k: int| 0 <= k < s.len() && s[k] == x;
                if k < s.len() - 1 {
                    assert(p[k] == x);
                    assert(p.contains(x));
                    assert(rest.contains(x));
                    if !skip {
                        let j = choose|j: int| 0 <= j < rest.len() && rest[j] == x;
                        assert(rest.push(s.last())[j] == x);
                    }
                } else if skip {
                    assert(p[p.len() - 1] == x);
                    assert(p.contains(x));
                } else {
                    assert(rest.push(s.last())[rest.len() as int] == x);
                }
            }
            if dedup_spec(s).contains(x) {
                if skip {
                    assert(rest.contains(x));
                    let k = choose|k: int| 0 <= k < p.len() && p[k] == x;
                    assert(s[k] == x);
                } else {
                    let k = choose|k: int| 0 <= k < rest.len() + 1 && rest.push(s.last())[k] == x;
                    if k < rest.len() {
                        assert(rest[k] == x);
                        assert(rest.contains(x));
                        let j = choose|j: int| 0 <= j < p.len() && p[j] == x;
                        assert(s[j] == x);
                    } else {
                        assert(s[s.len() - 1] == x);
                    }
                }
            }
        }
    }
}

/// `Itertools::dedup`: drops each element equal to the one before it.
#[verifier::external_body]
fn dedup_scopes(scopes: Vec<EventType>) -> (r: Vec<EventType>)
    ensures
        r@ == dedup_spec(scopes@),
{
    scopes.into_iter().dedup().collect()
}

/// The team endpoints.
pub struct TeamApi;

impl TeamApi {
    /// The scopes a new team secret is stored with: those requested, with
    /// repeated neighbours dropped.
    pub fn secret_scopes(scopes: Vec<EventType>) -> (r: Vec<EventType>)
        ensures
            r@ == dedup_spec(scopes@),
    {
        dedup_scopes(scopes)
    }

    /// The stored form of a new team secret: its value encrypted, and the
    /// requested scopes with repeated neighbours dropped; a failed
    /// encryption is an internal error.
    pub fn new_secret(crypto: &CryptoEngine, value: &str, scopes: Vec<EventType>) -> (r: Result<
        (Vec<u8>, Vec<EventType>),
        AppError,
    >)
        ensures
            r matches Ok((v, sc)) ==> sealed_for(crypto@, v@, value@) && sc@ == dedup_spec(
                scopes@,
            ),
            r matches Err(e) ==> e is InternalError,
    {
        let stored = match crypto.encrypt(value) {
            Ok(v) => v,
            Err(e) => return Err(AppError::from_crypto(e)),
        };
        Ok((stored, TeamApi::secret_scopes(scopes)))
    }

    /// The role the creator of a team gets in it.
    pub fn creator_role() -> (r: RoleType)
        ensures
            r == RoleType::Admin,
    {
        RoleType::Admin
    }

    /// Why a team cannot be created: its slug is already used.
    pub fn slug_taken_message() -> (m: String)
        ensures
            m@ == "팀 슬러그가 이미 사용되고 있습니다"@,
    {
        String::from_str("팀 슬러그가 이미 사용되고 있습니다")
    }

    /// Why a secret cannot be stored: the user manages no team.
    pub fn team_not_found_message() -> (m: String)
        ensures
            m@ == "team not found"@,
    {
        String::from_str("team not found")
    }
}

} // verus!
