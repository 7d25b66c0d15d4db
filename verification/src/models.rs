//! The records the platform keeps and the bodies its API exchanges.
//! Timestamps are milliseconds since the Unix epoch.

use vstd::prelude::*;

use crate::git::CommitInfo;

verus! {

/// A linked public GitHub repository and how it is built.
#[derive(Debug, Clone)]
pub struct Project {
    pub id: String,
    pub name: String,
    pub github_url: String,
    pub owner_repo: String,
    pub default_branch: String,
    pub framework: Option<String>,
    pub root_directory: String,
    pub build_command: Option<String>,
    pub output_directory: Option<String>,
    pub install_command: Option<String>,
    pub last_commit_sha: Option<String>,
    pub created_at: i64,
    pub updated_at: i64,
    pub poll_enabled: bool,
}

/// One build of one commit of a project.
#[derive(Debug, Clone)]
pub struct Deployment {
    pub id: String,
    pub project_id: String,
    pub commit_sha: String,
    pub commit_message: Option<String>,
    pub commit_author: Option<String>,
    pub branch: String,
    pub status: String,
    pub framework: Option<String>,
    pub url_path: Option<String>,
    pub error_message: Option<String>,
    pub changed_files: Option<String>,
    pub created_at: i64,
    pub finished_at: Option<i64>,
}

/// One line of a deployment's build log.
#[derive(Debug, Clone)]
pub struct BuildLog {
    pub id: i64,
    pub deployment_id: String,
    pub line: String,
    pub created_at: i64,
}

/// An environment variable handed to a project's build commands.
#[derive(Debug, Clone)]
pub struct EnvVar {
    pub id: String,
    pub project_id: String,
    pub key: String,
    pub value: String,
    pub created_at: i64,
}

/// Body of a request that links a repository.
#[derive(Debug, Clone)]
pub struct CreateProjectRequest {
    /// Public GitHub URL or `owner/repo`
    pub github: String,
    pub name: Option<String>,
    pub branch: Option<String>,
    pub root_directory: Option<String>,
    pub build_command: Option<String>,
    pub output_directory: Option<String>,
    pub install_command: Option<String>,
}

/// Body of a request that changes a project's settings; absent fields stay as they are.
#[derive(Debug, Clone)]
pub struct UpdateProjectRequest {
    pub name: Option<String>,
    pub default_branch: Option<String>,
    pub root_directory: Option<String>,
    pub build_command: Option<String>,
    pub output_directory: Option<String>,
    pub install_command: Option<String>,
    pub poll_enabled: Option<bool>,
}

/// Body of a request that sets an environment variable.
#[derive(Debug, Clone)]
pub struct UpsertEnvRequest {
    pub key: String,
    pub value: String,
}

/// Body of a deploy request.
#[derive(Debug, Clone)]
pub struct DeployRequest {
    /// Optional commit SHA to deploy; defaults to branch HEAD.
    pub commit_sha: Option<String>,
}

impl Default for DeployRequest {
    fn default() -> (r: Self)
        ensures
            r.commit_sha is None,
    {
        DeployRequest { commit_sha: None }
    }
}

/// A commit as the API lists it.
#[derive(Debug, Clone)]
pub struct CommitEntry {
    pub sha: String,
    pub message: String,
    pub author: String,
    pub date: String,
}

impl CommitEntry {
    /// The API form of a commit read from the local clone.
    pub fn from_commit(c: CommitInfo) -> (e: CommitEntry)
        ensures
            e.sha == c.sha,
            e.message == c.message,
            e.author == c.author,
            e.date == c.date,
    {
        CommitEntry { sha: c.sha, message: c.message, author: c.author, date: c.date }
    }
}

/// Recent commits of a project.
#[derive(Debug, Clone)]
pub struct CommitsResponse {
    pub commits: Vec<CommitEntry>,
}

/// One deployment in a project's activity feed.
#[derive(Debug, Clone)]
pub struct ActivityEntry {
    pub id: String,
    pub status: String,
    pub commit_sha: String,
    pub commit_message: Option<String>,
    pub created_at: i64,
    pub url_path: Option<String>,
}

impl ActivityEntry {
    /// The activity-feed form of a deployment.
    pub fn from_deployment(d: Deployment) -> (a: ActivityEntry)
        ensures
            a.id == d.id,
            a.status == d.status,
            a.commit_sha == d.commit_sha,
            a.commit_message == d.commit_message,
            a.created_at == d.created_at,
            a.url_path == d.url_path,
    {
        ActivityEntry {
            id: d.id,
            status: d.status,
            commit_sha: d.commit_sha,
            commit_message: d.commit_message,
            created_at: d.created_at,
            url_path: d.url_path,
        }
    }
}

/// A project's activity feed, newest first.
#[derive(Debug, Clone)]
pub struct ActivityResponse {
    pub activity: Vec<ActivityEntry>,
}

/// Answer of the health endpoint.
#[derive(Debug, Clone)]
pub struct HealthResponse {
    pub status: &'static str,
    pub version: &'static str,
}

impl HealthResponse {
    /// The health answer of a running instance of the given version.
    pub fn ok(version: &'static str) -> (h: HealthResponse)
        ensures
            h.status@ == "ok"@,
            h.version == version,
    {
        HealthResponse { status: "ok", version }
    }
}

/// All projects.
#[derive(Debug, Clone)]
pub struct ProjectListResponse {
    pub projects: Vec<Project>,
}

/// A project's deployments.
#[derive(Debug, Clone)]
pub struct DeploymentListResponse {
    pub deployments: Vec<Deployment>,
}

/// A deployment's build log.
#[derive(Debug, Clone)]
pub struct LogsResponse {
    pub logs: Vec<BuildLog>,
}

/// Request counts of one deployment.
#[derive(Debug, Clone)]
pub struct DeploymentStatsResponse {
    pub deployment_id: String,
    pub hits: i64,
    pub last_hit: Option<i64>,
}

/// The sum of the first `n` hit counts.
pub open spec fn hits_total(stats: Seq<DeploymentStatsResponse>, n: int) -> int
    decreases n,
{
    if n <= 0 {
        0
    } else {
        hits_total(stats, n - 1) + stats[n - 1].hits
    }
}

/// Whether adding the counts up one by one stays within `i64` all the way.
pub open spec fn hits_fit(stats: Seq<DeploymentStatsResponse>) -> bool {
    forall|k: int|
        0 <= k <= stats.len() ==> i64::MIN <= #[trigger] hits_total(stats, k) <= i64::MAX
}

/// Request counts of a project: the total and each deployment's.
#[derive(Debug, Clone)]
pub struct ProjectStatsResponse {
    pub project_id: String,
    pub hits: i64,
    pub deployments: Vec<DeploymentStatsResponse>,
}

/// Whether the counts of `stats` add up within `i64` at every step.
pub fn hits_total_fits(stats: &Vec<DeploymentStatsResponse>) -> (b: bool)
    ensures
        b == hits_fit(stats@),
{
    let mut total: i64 = 0;
    let mut i: usize = 0;
    while i < stats.len()
        invariant
            i <= stats.len(),
            total == hits_total(stats@, i as int),
            forall|k: int| 0 <= k <= i ==> i64::MIN <= #[trigger] hits_total(stats@, k) <= i64::MAX,
        decreases stats.len() - i,
    {
        let next: i128 = total as i128 + stats[i].hits as i128;
        if next < i64::MIN as i128 || next > i64::MAX as i128 {
            assert(!(i64::MIN <= hits_total(stats@, i as int + 1) <= i64::MAX));
            return false;
        }
        total = next as i64;
        i = i + 1;
    }
    true
}

impl ProjectStatsResponse {
    /// The statistics of a project from its deployments' counts; the total
    /// is their sum.
    pub fn from_deployments(project_id: String, deployments: Vec<DeploymentStatsResponse>) -> (r:
        ProjectStatsResponse)
        requires
            hits_fit(deployments@),
        ensures
            r.project_id == project_id,
            r.deployments@ == deployments@,
            r.hits == hits_total(deployments@, deployments@.len() as int),
    {
        let mut total: i64 = 0;
        let mut i: usize = 0;
        while i < deployments.len()
            invariant
                i <= deployments.len(),
                hits_fit(deployments@),
                total == hits_total(deployments@, i as int),
            decreases deployments.len() - i,
        {
            assert(i64::MIN <= hits_total(deployments@, i as int + 1) <= i64::MAX);
            total = total + deployments[i].hits;
            i = i + 1;
        }
        ProjectStatsResponse { project_id, hits: total, deployments }
    }
}

} // verus!
