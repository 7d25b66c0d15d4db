//! The life of a deployment: when one is created and in which state, how the
//! build worker proceeds, and which deployment a rollback or promotion picks.

use vstd::prelude::*;
use vstd::string::StringExecFns;
use vstd::string::StringSliceAdditionalSpecFns;
use vstd::utf8::{decode_utf8, is_char_boundary};

use crate::framework::FrameworkInfo;
use crate::git::{should_skip_build, spec_should_skip_build};
use crate::git::GithubRef;
use crate::models::{CreateProjectRequest, Deployment, Project, UpdateProjectRequest};
use crate::text::{chars_of, opt_str_view, opt_string_view, range_eq};

verus! {

/// An optional text, kept only when it is not empty.
pub open spec fn spec_non_empty(o: Option<Seq<char>>) -> Option<Seq<char>> {
    match o {
        Some(s) => if s.len() > 0 {
            Some(s)
        } else {
            None
        },
        None => None,
    }
}

/// An optional request field, kept only when it is not empty
/// (`commit_sha` of a deploy, `deployment_id` of a rollback).
pub fn non_empty(o: Option<String>) -> (r: Option<String>)
    ensures
        opt_string_view(r) == spec_non_empty(opt_string_view(o)),
{
    match o {
        Some(s) => {
            let v = chars_of(s.as_str());
            if v.len() > 0 {
                Some(s)
            } else {
                None
            }
        },
        None => None,
    }
}

/// A copy of an optional string.
pub fn copy_opt(o: &Option<String>) -> (r: Option<String>)
    ensures
        opt_string_view(r) == opt_string_view(*o),
{
    match o {
        Some(s) => Some(s.clone()),
        None => None,
    }
}

fn str_eq(a: &str, b: &str) -> (r: bool)
    ensures
        r == (a@ == b@),
{
    let v = chars_of(a);
    assert(v@.subrange(0, v@.len() as int) =~= a@);
    range_eq(&v, 0, v.len(), b)
}

/// Whether the remote head `sha` is a commit the project has not built yet.
pub fn has_new_commit(last_commit_sha: Option<&str>, sha: &str) -> (b: bool)
    ensures
        b == (opt_str_view(last_commit_sha) != Some(sha@)),
{
    match last_commit_sha {
        Some(prev) => !str_eq(prev, sha),
        None => true,
    }
}

/// The commit a new deployment is compared with to list its changed files:
/// the last built commit, when there is one and it differs from `sha`.
pub fn diff_base(last_commit_sha: Option<&str>, sha: &str) -> (r: Option<String>)
    ensures
        opt_string_view(r) == (match opt_str_view(last_commit_sha) {
            Some(prev) => if prev != sha@ {
                Some(prev)
            } else {
                None
            },
            None => None,
        }),
{
    match last_commit_sha {
        Some(prev) => if str_eq(prev, sha) {
            None
        } else {
            Some(String::from_str(prev))
        },
        None => None,
    }
}

/// Whether a deployment is created already skipped (its changed files miss
/// the project's root directory), with the skip message.
pub open spec fn creation_skip(project: Project, changed: Option<Seq<char>>) -> Option<Seq<char>> {
    spec_should_skip_build(project.root_directory@, changed)
}

/// A new deployment of `sha` for `project`: skipped and finished at `now`
/// with the skip message when the skip rule says so, queued otherwise; it
/// takes over the project's branch and framework.
pub fn plan_deployment(
    id: String,
    project: &Project,
    sha: String,
    commit_message: Option<String>,
    commit_author: Option<String>,
    changed_files: Option<String>,
    now: i64,
) -> (d: Deployment)
    ensures
        d.id == id,
        d.project_id@ == project.id@,
        d.commit_sha == sha,
        d.commit_message == commit_message,
        d.commit_author == commit_author,
        d.branch@ == project.default_branch@,
        opt_string_view(d.framework) == opt_string_view(project.framework),
        d.url_path is None,
        opt_string_view(d.changed_files) == opt_string_view(changed_files),
        d.created_at == now,
        opt_string_view(d.error_message) == creation_skip(*project, opt_string_view(changed_files)),
        d.status@ == (if creation_skip(*project, opt_string_view(changed_files)) is Some {
            "skipped"@
        } else {
            "queued"@
        }),
        d.finished_at == (if creation_skip(*project, opt_string_view(changed_files)) is Some {
            Some(now)
        } else {
            None
        }),
{
    let skip = match &changed_files {
        Some(c) => should_skip_build(project.root_directory.as_str(), Some(c.as_str())),
        None => should_skip_build(project.root_directory.as_str(), None),
    };
    let skipped = skip.is_some();
    Deployment {
        id,
        project_id: project.id.clone(),
        commit_sha: sha,
        commit_message,
        commit_author,
        branch: project.default_branch.clone(),
        status: if skipped {
            String::from_str("skipped")
        } else {
            String::from_str("queued")
        },
        framework: copy_opt(&project.framework),
        url_path: None,
        error_message: skip,
        changed_files,
        created_at: now,
        finished_at: if skipped {
            Some(now)
        } else {
            None
        },
    }
}

/// Record that `sha` was dealt with (built or skipped) for `project` at `now`,
/// so that polling does not queue it again.
pub fn record_commit(project: &mut Project, sha: String, now: i64)
    ensures
        opt_string_view(final(project).last_commit_sha) == Some(sha@),
        final(project).updated_at == now,
        final(project).id == old(project).id,
        final(project).name == old(project).name,
        final(project).github_url == old(project).github_url,
        final(project).owner_repo == old(project).owner_repo,
        final(project).default_branch == old(project).default_branch,
        final(project).framework == old(project).framework,
        final(project).root_directory == old(project).root_directory,
        final(project).build_command == old(project).build_command,
        final(project).output_directory == old(project).output_directory,
        final(project).install_command == old(project).install_command,
        final(project).created_at == old(project).created_at,
        final(project).poll_enabled == old(project).poll_enabled,
{
    project.last_commit_sha = Some(sha);
    project.updated_at = now;
}

/// Why no deployment can be rolled back to.
#[derive(Debug, Clone, Copy, PartialEq, Eq, Structural)]
pub enum RollbackError {
    /// The project has no ready deployment.
    NoReadyDeployments,
}

impl RollbackError {
    /// The text of the error, as shown to API clients.
    pub fn message(&self) -> (m: &'static str)
        ensures
            m@ == "no ready deployments to roll back to"@,
    {
        "no ready deployments to roll back to"
    }
}

/// The deployment a rollback pins, given the project's ready deployments
/// (newest first) and its current production pin: the ready deployment just
/// older than the pin; when the pin is not among them or is the oldest, the
/// newest ready one that is not the pin (the newest when all are); with no
/// pin, the second newest (the newest when there is only one).
pub open spec fn spec_rollback_target(ready: Seq<Seq<char>>, current: Option<Seq<char>>) -> Option<
    Seq<char>,
> {
    if ready.len() == 0 {
        None
    } else {
        match current {
            Some(cur) => if ready.contains(cur) && first_index(ready, cur) + 1 < ready.len() {
                Some(ready[first_index(ready, cur) + 1])
            } else if exists|k: int| 0 <= k < ready.len() && ready[k] != cur {
                Some(ready[first_other(ready, cur)])
            } else {
                Some(ready[0])
            },
            None => if ready.len() >= 2 {
                Some(ready[1])
            } else {
                Some(ready[0])
            },
        }
    }
}

/// The position of the first item of `ready` equal to `cur`.
pub open spec fn first_index(ready: Seq<Seq<char>>, cur: Seq<char>) -> int {
    choose|k: int|
        0 <= k < ready.len() && ready[k] == cur && forall|j: int| 0 <= j < k ==> ready[j] != cur
}

/// The position of the first item of `ready` that differs from `cur`.
pub open spec fn first_other(ready: Seq<Seq<char>>, cur: Seq<char>) -> int {
    choose|k: int|
        0 <= k < ready.len() && ready[k] != cur && forall|j: int| 0 <= j < k ==> ready[j] == cur
}

proof fn lemma_first_index(ready: Seq<Seq<char>>, cur: Seq<char>, k: int)
    requires
        0 <= k < ready.len(),
        ready[k] == cur,
        forall|j: int| 0 <= j < k ==> ready[j] != cur,
    ensures
        first_index(ready, cur) == k,
{
    let f = first_index(ready, cur);
    assert(0 <= f < ready.len() && ready[f] == cur && forall|j: int| 0 <= j < f ==> ready[j]
        != cur);
    if f < k {
        assert(ready[f] != cur);
    }
    if k < f {
        assert(ready[k] != cur);
    }
}

proof fn lemma_first_other(ready: Seq<Seq<char>>, cur: Seq<char>, k: int)
    requires
        0 <= k < ready.len(),
        ready[k] != cur,
        forall|j: int| 0 <= j < k ==> ready[j] == cur,
    ensures
        first_other(ready, cur) == k,
{
    let f = first_other(ready, cur);
    assert(0 <= f < ready.len() && ready[f] != cur && forall|j: int| 0 <= j < f ==> ready[j]
        == cur);
    if f < k {
        assert(ready[f] == cur);
    }
    if k < f {
        assert(ready[k] == cur);
    }
}

/// The position of the pin among the ready deployments, when it is there.
fn find_pin(ready: &Vec<String>, cur: &str) -> (r: Option<usize>)
    ensures
        match r {
            Some(k) => k < ready.len() && ready@.map_values(|s: String| s@).contains(cur@)
                && first_index(ready@.map_values(|s: String| s@), cur@) == k,
            None => !ready@.map_values(|s: String| s@).contains(cur@),
        },
{
    let ghost rv = ready@.map_values(|s: String| s@);
    let mut k: usize = 0;
    while k < ready.len()
        invariant
            k <= ready.len(),
            rv == ready@.map_values(|s: String| s@),
            forall|j: int| 0 <= j < k ==> rv[j] != cur@,
        decreases ready.len() - k,
    {
        if str_eq(ready[k].as_str(), cur) {
            assert(rv[k as int] == cur@);
            proof {
                lemma_first_index(rv, cur@, k as int);
            }
            return Some(k);
        }
        k = k + 1;
    }
    proof {
        if rv.contains(cur@) {
            let j = choose|j: int| 0 <= j < rv.len() && rv[j] == cur@;
            assert(rv[j] != cur@);
        }
    }
    None
}

/// Instant rollback: the id of the ready deployment to pin as production.
pub fn rollback_target(ready: &Vec<String>, current: Option<&str>) -> (r: Result<String, RollbackError>)
    ensures
        match r {
            Ok(id) => spec_rollback_target(ready@.map_values(|s: String| s@), opt_str_view(current))
                == Some(id@),
            Err(_) => spec_rollback_target(ready@.map_values(|s: String| s@), opt_str_view(current))
                is None,
        },
        (r is Err) == (ready@.len() == 0),
        current is None && ready@.len() >= 2 ==> (r matches Ok(id) && id@ == ready@[1]@),
{
    let ghost rv = ready@.map_values(|s: String| s@);
    if ready.len() == 0 {
        return Err(RollbackError::NoReadyDeployments);
    }
    match current {
        Some(cur) => {
            match find_pin(ready, cur) {
                Some(p) => if p + 1 < ready.len() {
                    return Ok(ready[p + 1].clone());
                },
                None => {},
            }
            let mut k: usize = 0;
            while k < ready.len()
                invariant
                    k <= ready.len(),
                    rv == ready@.map_values(|s: String| s@),
                    current == Some(cur),
                    !(rv.contains(cur@) && first_index(rv, cur@) + 1 < rv.len()),
                    forall|j: int| 0 <= j < k ==> rv[j] == cur@,
                decreases ready.len() - k,
            {
                if !str_eq(ready[k].as_str(), cur) {
                    assert(rv[k as int] != cur@);
                    proof {
                        lemma_first_other(rv, cur@, k as int);
                    }
                    assert(exists|j: int| 0 <= j < rv.len() && rv[j] != cur@);
                    return Ok(ready[k].clone());
                }
                k = k + 1;
            }
            assert(!(exists|j: int| 0 <= j < rv.len() && rv[j] != cur@));
            Ok(ready[0].clone())
        },
        None => if ready.len() >= 2 {
            Ok(ready[1].clone())
        } else {
            Ok(ready[0].clone())
        },
    }
}

/// Why a deployment cannot be pinned as production.
#[derive(Debug, Clone, Copy, PartialEq, Eq, Structural)]
pub enum PromoteError {
    /// The deployment belongs to another project.
    OtherProject,
    /// The deployment is not ready.
    NotReady,
}

impl PromoteError {
    pub open spec fn spec_message(self) -> Seq<char> {
        match self {
            PromoteError::OtherProject => "deployment does not belong to this project"@,
            PromoteError::NotReady => "only ready deployments can be promoted"@,
        }
    }

    /// The text of the error, as shown to API clients.
    pub fn message(&self) -> (m: &'static str)
        ensures
            m@ == self.spec_message(),
    {
        match self {
            PromoteError::OtherProject => "deployment does not belong to this project",
            PromoteError::NotReady => "only ready deployments can be promoted",
        }
    }
}

/// Whether a deployment may be pinned as the production deployment of a
/// project: it must belong to the project and be ready.
pub fn check_promotable(deployment: &Deployment, project_id: &str) -> (r: Result<(), PromoteError>)
    ensures
        r == (if deployment.project_id@ != project_id@ {
            Err(PromoteError::OtherProject)
        } else if deployment.status@ != "ready"@ {
            Err(PromoteError::NotReady)
        } else {
            Ok::<(), PromoteError>(())
        }),
{
    if !str_eq(deployment.project_id.as_str(), project_id) {
        Err(PromoteError::OtherProject)
    } else if !str_eq(deployment.status.as_str(), "ready") {
        Err(PromoteError::NotReady)
    } else {
        Ok(())
    }
}

/// What the build worker logs, and then stops, for a deployment it picks up:
/// a skipped one logs its skip message (or a default line), a cancelled one
/// logs that it was cancelled; any other goes ahead (`None`).
pub open spec fn spec_pickup_stop(status: Seq<char>, error_message: Option<Seq<char>>) -> Option<Seq<char>> {
    if status == "skipped"@ {
        match error_message {
            Some(m) => Some(m),
            None => Some("Build skipped \u{2014} no install/build run"@),
        }
    } else if status == "cancelled"@ {
        Some("Build cancelled before start"@)
    } else {
        None
    }
}

/// The line the build worker logs before stopping on a deployment it picked
/// up, or `None` when the build goes ahead.
pub fn pickup_stop(deployment: &Deployment) -> (r: Option<String>)
    ensures
        opt_string_view(r) == spec_pickup_stop(
            deployment.status@,
            opt_string_view(deployment.error_message),
        ),
{
    if str_eq(deployment.status.as_str(), "skipped") {
        match &deployment.error_message {
            Some(m) => Some(m.clone()),
            None => Some(String::from_str("Build skipped \u{2014} no install/build run")),
        }
    } else if str_eq(deployment.status.as_str(), "cancelled") {
        Some(String::from_str("Build cancelled before start"))
    } else {
        None
    }
}

/// Whether two deployment records agree on everything but their outcome
/// (status, served path, error message and finish time).
pub open spec fn same_record(a: Deployment, b: Deployment) -> bool {
    &&& a.id == b.id
    &&& a.project_id == b.project_id
    &&& a.commit_sha == b.commit_sha
    &&& a.commit_message == b.commit_message
    &&& a.commit_author == b.commit_author
    &&& a.branch == b.branch
    &&& a.framework == b.framework
    &&& a.changed_files == b.changed_files
    &&& a.created_at == b.created_at
}

/// Mark a deployment skipped by the worker's own skip check.
pub fn mark_skipped(deployment: &mut Deployment, message: String, now: i64)
    ensures
        final(deployment).status@ == "skipped"@,
        final(deployment).error_message == Some(message),
        final(deployment).finished_at == Some(now),
        final(deployment).url_path == old(deployment).url_path,
        same_record(*final(deployment), *old(deployment)),
{
    deployment.status = String::from_str("skipped");
    deployment.error_message = Some(message);
    deployment.finished_at = Some(now);
}

/// Mark a deployment as being built.
pub fn mark_building(deployment: &mut Deployment)
    ensures
        final(deployment).status@ == "building"@,
        final(deployment).error_message == old(deployment).error_message,
        final(deployment).finished_at == old(deployment).finished_at,
        final(deployment).url_path == old(deployment).url_path,
        same_record(*final(deployment), *old(deployment)),
{
    deployment.status = String::from_str("building");
}

/// The path under which a ready deployment is served.
pub open spec fn spec_url_path(id: Seq<char>) -> Seq<char> {
    "/_deploy/"@ + id + "/"@
}

/// Mark a deployment ready: served under `/_deploy/{id}/`, finished at `now`.
pub fn mark_ready(deployment: &mut Deployment, now: i64)
    ensures
        final(deployment).status@ == "ready"@,
        opt_string_view(final(deployment).url_path) == Some(spec_url_path(old(deployment).id@)),
        final(deployment).finished_at == Some(now),
        final(deployment).error_message == old(deployment).error_message,
        same_record(*final(deployment), *old(deployment)),
{
    let mut u = String::from_str("/_deploy/");
    u.append(deployment.id.as_str());
    u.append("/");
    deployment.status = String::from_str("ready");
    deployment.url_path = Some(u);
    deployment.finished_at = Some(now);
}

/// Mark a deployment failed with `err`, finished at `now`.
pub fn mark_failed(deployment: &mut Deployment, err: &str, now: i64)
    ensures
        final(deployment).status@ == "error"@,
        opt_string_view(final(deployment).error_message) == Some(err@),
        final(deployment).finished_at == Some(now),
        final(deployment).url_path == old(deployment).url_path,
        same_record(*final(deployment), *old(deployment)),
{
    deployment.status = String::from_str("error");
    deployment.error_message = Some(String::from_str(err));
    deployment.finished_at = Some(now);
}

/// A failed step ends the build: unless the deployment was cancelled
/// meanwhile (a cancel is never overwritten), it is marked failed with `err`
/// at `now`. The result is the line to log.
pub fn fail_unless_cancelled(deployment: &mut Deployment, cancelled: bool, err: &str, now: i64) -> (l:
    String)
    ensures
        cancelled ==> *final(deployment) == *old(deployment) && l@
            == "Build cancelled (ignoring failure)"@,
        !cancelled ==> {
            &&& final(deployment).status@ == "error"@
            &&& opt_string_view(final(deployment).error_message) == Some(err@)
            &&& final(deployment).finished_at == Some(now)
            &&& final(deployment).url_path == old(deployment).url_path
            &&& same_record(*final(deployment), *old(deployment))
            &&& l@ == "ERROR: "@ + err@
        },
{
    if cancelled {
        return String::from_str("Build cancelled (ignoring failure)");
    }
    let l = failure_log(err);
    mark_failed(deployment, err, now);
    l
}

/// The log line of a failed step.
pub fn failure_log(err: &str) -> (l: String)
    ensures
        l@ == "ERROR: "@ + err@,
{
    let mut l = String::from_str("ERROR: ");
    l.append(err);
    l
}

/// The log line that announces a build command.
pub fn command_log(cmd: &str) -> (l: String)
    ensures
        l@ == "$ "@ + cmd@,
{
    let mut l = String::from_str("$ ");
    l.append(cmd);
    l
}

/// The subdirectory of the clone a project builds in: none for the root `.`.
pub fn work_subdir(root_directory: &str) -> (r: Option<String>)
    ensures
        opt_string_view(r) == (if root_directory@ == "."@ {
            None
        } else {
            Some(root_directory@)
        }),
{
    if str_eq(root_directory, ".") {
        None
    } else {
        Some(String::from_str(root_directory))
    }
}

/// The commands and output directory of a build.
#[derive(Debug, Clone)]
pub struct BuildCommands {
    pub install: Option<String>,
    pub build: Option<String>,
    /// Relative to the work directory; `.` is the work directory itself.
    pub output: String,
}

/// The first of two optional texts that is present.
pub open spec fn or_else(a: Option<Seq<char>>, b: Option<Seq<char>>) -> Option<Seq<char>> {
    match a {
        Some(x) => Some(x),
        None => b,
    }
}

fn or_copy(a: &Option<String>, b: &Option<String>) -> (r: Option<String>)
    ensures
        opt_string_view(r) == or_else(opt_string_view(*a), opt_string_view(*b)),
{
    match a {
        Some(x) => Some(x.clone()),
        None => copy_opt(b),
    }
}

/// The commands of a build: the project's own settings where it has them,
/// else what framework detection found; the output directory defaults to `dist`.
pub fn resolve_build_commands(project: &Project, detected: &FrameworkInfo) -> (c: BuildCommands)
    ensures
        opt_string_view(c.install) == or_else(
            opt_string_view(project.install_command),
            opt_string_view(detected.install_command),
        ),
        opt_string_view(c.build) == or_else(
            opt_string_view(project.build_command),
            opt_string_view(detected.build_command),
        ),
        c.output@ == (match or_else(
            opt_string_view(project.output_directory),
            opt_string_view(detected.output_directory),
        ) {
            Some(o) => o,
            None => "dist"@,
        }),
{
    let install = or_copy(&project.install_command, &detected.install_command);
    let build = or_copy(&project.build_command, &detected.build_command);
    let output = match or_copy(&project.output_directory, &detected.output_directory) {
        Some(o) => o,
        None => String::from_str("dist"),
    };
    BuildCommands { install, build, output }
}

/// One step of a build, after the framework is known.
#[derive(Debug, Clone, PartialEq, Eq)]
pub enum BuildStep {
    /// Stop, logging this line, if the deployment was cancelled meanwhile.
    CancelCheck(String),
    /// Log `$ cmd` and run the command in the work directory; a failure ends the build.
    Run(String),
    /// Copy the build output into the deployment directory.
    Publish,
    /// Mark the deployment ready and record its commit on the project.
    MarkReady,
    /// Mark the deployment as being built.
    MarkBuilding,
    /// Check out the deployment's commit in the clone (its outcome is not looked at).
    Checkout,
}

/// Kind (0 check, 1 run, 2 publish, 3 ready, 4 building, 5 checkout) and text of a step.
pub open spec fn step_view(s: BuildStep) -> (int, Seq<char>) {
    match s {
        BuildStep::CancelCheck(m) => (0, m@),
        BuildStep::Run(c) => (1, c@),
        BuildStep::Publish => (2, Seq::<char>::empty()),
        BuildStep::MarkReady => (3, Seq::<char>::empty()),
        BuildStep::MarkBuilding => (4, Seq::<char>::empty()),
        BuildStep::Checkout => (5, Seq::<char>::empty()),
    }
}

/// A cancel check, then the command, when there is one.
pub open spec fn guarded_run(cmd: Option<Seq<char>>, msg: Seq<char>) -> Seq<(int, Seq<char>)> {
    match cmd {
        Some(c) => seq![(0, msg), (1, c)],
        None => Seq::empty(),
    }
}

/// The steps of a build once the framework is known: install, build, publish
/// and mark ready, each preceded by a cancel check.
pub open spec fn spec_build_steps(install: Option<Seq<char>>, build: Option<Seq<char>>) -> Seq<
    (int, Seq<char>),
> {
    guarded_run(install, "Build cancelled before install"@) + guarded_run(
        build,
        "Build cancelled before build step"@,
    ) + seq![
        (0, "Build cancelled before publish"@),
        (2, Seq::<char>::empty()),
        (0, "Build cancelled before marking ready"@),
        (3, Seq::<char>::empty()),
    ]
}

/// The steps the build worker takes once the framework is known.
pub fn build_steps(commands: &BuildCommands) -> (steps: Vec<BuildStep>)
    ensures
        steps@.map_values(|s: BuildStep| step_view(s)) == spec_build_steps(
            opt_string_view(commands.install),
            opt_string_view(commands.build),
        ),
{
    let mut steps: Vec<BuildStep> = Vec::new();
    if let Some(c) = &commands.install {
        steps.push(BuildStep::CancelCheck(String::from_str("Build cancelled before install")));
        steps.push(BuildStep::Run(c.clone()));
    }
    let ghost n1 = steps@.len();
    assert(steps@.map_values(|s: BuildStep| step_view(s)) =~= guarded_run(
        opt_string_view(commands.install),
        "Build cancelled before install"@,
    ));
    if let Some(c) = &commands.build {
        steps.push(BuildStep::CancelCheck(String::from_str("Build cancelled before build step")));
        steps.push(BuildStep::Run(c.clone()));
    }
    steps.push(BuildStep::CancelCheck(String::from_str("Build cancelled before publish")));
    steps.push(BuildStep::Publish);
    steps.push(BuildStep::CancelCheck(String::from_str("Build cancelled before marking ready")));
    steps.push(BuildStep::MarkReady);
    assert(steps@.map_values(|s: BuildStep| step_view(s)) =~= spec_build_steps(
        opt_string_view(commands.install),
        opt_string_view(commands.build),
    ));
    steps
}

/// The subdirectory of the work directory that is published: none for `.`.
pub fn output_subdir(output: &str) -> (r: Option<String>)
    ensures
        opt_string_view(r) == (if output@ == "."@ {
            None
        } else {
            Some(output@)
        }),
{
    work_subdir(output)
}

/// What a deployment directory is filled from.
#[derive(Debug, Clone, Copy, PartialEq, Eq, Structural)]
pub enum PublishSource {
    /// The build output directory.
    Output,
    /// The work directory itself, a static site.
    WorkDir,
    /// Nothing was found: a placeholder page is written.
    Placeholder,
}

/// The build output when it exists, else the work directory when it holds an
/// `index.html`, else a placeholder page.
pub fn publish_source(output_exists: bool, work_has_index: bool) -> (p: PublishSource)
    ensures
        p == (if output_exists {
            PublishSource::Output
        } else if work_has_index {
            PublishSource::WorkDir
        } else {
            PublishSource::Placeholder
        }),
{
    if output_exists {
        PublishSource::Output
    } else if work_has_index {
        PublishSource::WorkDir
    } else {
        PublishSource::Placeholder
    }
}

/// The first seven bytes of `sha` (all of it when shorter), as text.
pub open spec fn spec_short_sha(sha: &str) -> Seq<char> {
    let b = sha.spec_bytes();
    decode_utf8(b.subrange(0, if b.len() < 7 { b.len() as int } else { 7 }))
}

/// Whether the first seven bytes of `sha` end on a character boundary, which
/// cutting them out needs.
pub open spec fn short_sha_cuttable(sha: &str) -> bool {
    let b = sha.spec_bytes();
    is_char_boundary(b, if b.len() < 7 { b.len() as int } else { 7 })
}

/// The abbreviated commit shown on a placeholder page.
pub fn short_sha(sha: &str) -> (r: &str)
    requires
        short_sha_cuttable(sha),
    ensures
        r@ == spec_short_sha(sha),
{
    let bytes = sha.as_bytes();
    let n = bytes.len();
    let m = if n < 7 {
        n
    } else {
        7
    };
    let (a, _) = sha.split_at(m);
    proof {
        vstd::utf8::encode_utf8_decode_utf8(a@);
    }
    a
}

/// The page written into a deployment that produced no static output.
pub open spec fn spec_placeholder_page(project_name: Seq<char>, short: Seq<char>) -> Seq<char> {
    "<!DOCTYPE html><html><head><meta charset=\"utf-8\"><title>Flare Deploy</title>\n<style>body{font-family:system-ui;background:#0a0a0f;color:#e8e8f0;display:flex;min-height:100vh;align-items:center;justify-content:center}\n.card{background:#14141f;padding:2rem 3rem;border-radius:12px;border:1px solid #2a2a3a}\nh1{margin:0 0 .5rem;background:linear-gradient(90deg,#a78bfa,#22d3ee);-webkit-background-clip:text;color:transparent}\np{color:#888;margin:0}</style></head><body><div class=\"card\"><h1>Deployed with Flare</h1>\n<p>Project \u{b7} "@
        + project_name + " \u{b7} "@ + short
        + "</p><p style=\"margin-top:.75rem;font-size:.85rem\">No static output detected; this is a placeholder.</p></div></body></html>"@
}

/// The placeholder page of a deployment of `commit_sha` of the project `project_name`.
pub fn placeholder_page(project_name: &str, commit_sha: &str) -> (p: String)
    requires
        short_sha_cuttable(commit_sha),
    ensures
        p@ == spec_placeholder_page(project_name@, spec_short_sha(commit_sha)),
{
    let mut p = String::from_str(
        "<!DOCTYPE html><html><head><meta charset=\"utf-8\"><title>Flare Deploy</title>\n<style>body{font-family:system-ui;background:#0a0a0f;color:#e8e8f0;display:flex;min-height:100vh;align-items:center;justify-content:center}\n.card{background:#14141f;padding:2rem 3rem;border-radius:12px;border:1px solid #2a2a3a}\nh1{margin:0 0 .5rem;background:linear-gradient(90deg,#a78bfa,#22d3ee);-webkit-background-clip:text;color:transparent}\np{color:#888;margin:0}</style></head><body><div class=\"card\"><h1>Deployed with Flare</h1>\n<p>Project \u{b7} ",
    );
    p.append(project_name);
    p.append(" \u{b7} ");
    p.append(short_sha(commit_sha));
    p.append(
        "</p><p style=\"margin-top:.75rem;font-size:.85rem\">No static output detected; this is a placeholder.</p></div></body></html>",
    );
    p
}

/// The log line after the build output was copied from `source`.
pub fn copied_output_log(source: &str) -> (l: String)
    ensures
        l@ == "Copied output from "@ + source@,
{
    let mut l = String::from_str("Copied output from ");
    l.append(source);
    l
}

/// The branch a new project follows: the requested one, else `main`.
pub fn creation_branch(req: &CreateProjectRequest) -> (b: String)
    ensures
        b@ == (match req.branch {
            Some(x) => x@,
            None => "main"@,
        }),
{
    match &req.branch {
        Some(x) => x.clone(),
        None => String::from_str("main"),
    }
}

/// The root directory of a new project: the requested one, else `.`.
pub fn creation_root(req: &CreateProjectRequest) -> (r: String)
    ensures
        r@ == (match req.root_directory {
            Some(x) => x@,
            None => "."@,
        }),
{
    match &req.root_directory {
        Some(x) => x.clone(),
        None => String::from_str("."),
    }
}

/// The project a create request makes, once the repository is parsed and
/// cloned and its framework detected: the request's settings where given,
/// else the repository name, `main`, `.` and the detected commands; polling on.
pub fn new_project(
    id: String,
    req: &CreateProjectRequest,
    parsed: &GithubRef,
    detected: &FrameworkInfo,
    head: Option<String>,
    now: i64,
) -> (p: Project)
    ensures
        p.id == id,
        p.name@ == (match req.name {
            Some(n) => n@,
            None => parsed.repo@,
        }),
        p.github_url@ == parsed.html_url@,
        p.owner_repo@ == parsed.owner@ + "/"@ + parsed.repo@,
        p.default_branch@ == (match req.branch {
            Some(x) => x@,
            None => "main"@,
        }),
        opt_string_view(p.framework) == opt_string_view(detected.framework),
        p.root_directory@ == (match req.root_directory {
            Some(x) => x@,
            None => "."@,
        }),
        opt_string_view(p.build_command) == or_else(
            opt_string_view(req.build_command),
            opt_string_view(detected.build_command),
        ),
        opt_string_view(p.output_directory) == or_else(
            opt_string_view(req.output_directory),
            opt_string_view(detected.output_directory),
        ),
        opt_string_view(p.install_command) == or_else(
            opt_string_view(req.install_command),
            opt_string_view(detected.install_command),
        ),
        p.last_commit_sha == head,
        p.created_at == now,
        p.updated_at == now,
        p.poll_enabled,
{
    let name = match &req.name {
        Some(n) => n.clone(),
        None => parsed.repo.clone(),
    };
    let mut owner_repo = parsed.owner.clone();
    owner_repo.append("/");
    owner_repo.append(parsed.repo.as_str());
    Project {
        id,
        name,
        github_url: parsed.html_url.clone(),
        owner_repo,
        default_branch: creation_branch(req),
        framework: copy_opt(&detected.framework),
        root_directory: creation_root(req),
        build_command: or_copy(&req.build_command, &detected.build_command),
        output_directory: or_copy(&req.output_directory, &detected.output_directory),
        install_command: or_copy(&req.install_command, &detected.install_command),
        last_commit_sha: head,
        created_at: now,
        updated_at: now,
        poll_enabled: true,
    }
}

/// The first deployment of a freshly linked project, queued for its head commit.
pub fn initial_deployment(id: String, project: &Project, sha: String, now: i64) -> (d: Deployment)
    ensures
        d.id == id,
        d.project_id@ == project.id@,
        d.commit_sha == sha,
        opt_string_view(d.commit_message) == Some("Initial import"@),
        d.commit_author is None,
        d.branch@ == project.default_branch@,
        d.status@ == "queued"@,
        opt_string_view(d.framework) == opt_string_view(project.framework),
        d.url_path is None,
        d.error_message is None,
        d.changed_files is None,
        d.created_at == now,
        d.finished_at is None,
{
    Deployment {
        id,
        project_id: project.id.clone(),
        commit_sha: sha,
        commit_message: Some(String::from_str("Initial import")),
        commit_author: None,
        branch: project.default_branch.clone(),
        status: String::from_str("queued"),
        framework: copy_opt(&project.framework),
        url_path: None,
        error_message: None,
        changed_files: None,
        created_at: now,
        finished_at: None,
    }
}

/// `Some(x)` wins over the current value.
pub open spec fn over<T>(cur: T, new: Option<T>) -> T {
    match new {
        Some(x) => x,
        None => cur,
    }
}

/// A present optional field replaces the current optional value.
pub open spec fn over_opt<T>(cur: Option<T>, new: Option<T>) -> Option<T> {
    match new {
        Some(x) => Some(x),
        None => cur,
    }
}

/// The project after an update request at `now`: each field the request
/// gives replaces the current one; `updated_at` becomes `now`.
pub open spec fn spec_updated(p: Project, req: UpdateProjectRequest, now: i64) -> Project {
    Project {
        name: over(p.name, req.name),
        default_branch: over(p.default_branch, req.default_branch),
        root_directory: over(p.root_directory, req.root_directory),
        build_command: over_opt(p.build_command, req.build_command),
        output_directory: over_opt(p.output_directory, req.output_directory),
        install_command: over_opt(p.install_command, req.install_command),
        poll_enabled: over(p.poll_enabled, req.poll_enabled),
        updated_at: now,
        ..p
    }
}

/// Apply an update request to a project at `now`.
pub fn apply_update(project: &mut Project, req: UpdateProjectRequest, now: i64)
    ensures
        *final(project) == spec_updated(*old(project), req, now),
{
    if let Some(n) = req.name {
        project.name = n;
    }
    if let Some(b) = req.default_branch {
        project.default_branch = b;
    }
    if let Some(r) = req.root_directory {
        project.root_directory = r;
    }
    if let Some(c) = req.build_command {
        project.build_command = Some(c);
    }
    if let Some(o) = req.output_directory {
        project.output_directory = Some(o);
    }
    if let Some(i) = req.install_command {
        project.install_command = Some(i);
    }
    if let Some(pe) = req.poll_enabled {
        project.poll_enabled = pe;
    }
    project.updated_at = now;
}

/// A rollback always lands on one of the project's ready deployments, and,
/// when a production pin exists and some other ready deployment does too, it
/// moves production off the pinned one (ids of ready deployments being distinct).
pub proof fn law_rollback_target_is_ready(ready: Seq<Seq<char>>, current: Option<Seq<char>>)
    requires
        ready.len() > 0,
    ensures
        spec_rollback_target(ready, current) matches Some(t) && ready.contains(t),
        ready.no_duplicates() ==> (current matches Some(cur) && (exists|k: int|
            0 <= k < ready.len() && ready[k] != cur) ==> spec_rollback_target(ready, current)
            != Some(current->Some_0)),
{
    match current {
        Some(cur) => {
            if ready.contains(cur) && first_index(ready, cur) + 1 < ready.len() {
                let k0 = choose|k: int| 0 <= k < ready.len() && ready[k] == cur;
                lemma_first_index_exists(ready, cur, k0);
                let f = first_index(ready, cur);
                assert(ready.contains(ready[f + 1]));
                if ready.no_duplicates() {
                    assert(ready[f + 1] != ready[f]);
                }
            } else if exists|k: int| 0 <= k < ready.len() && ready[k] != cur {
                let k0 = choose|k: int| 0 <= k < ready.len() && ready[k] != cur;
                lemma_first_other_exists(ready, cur, k0);
                let f = first_other(ready, cur);
                assert(ready[f] != cur);
                assert(ready.contains(ready[f]));
            } else {
                assert(ready.contains(ready[0]));
            }
        },
        None => {
            if ready.len() >= 2 {
                assert(ready.contains(ready[1]));
            } else {
                assert(ready.contains(ready[0]));
            }
        },
    }
}

/// Without a production pin the newest ready deployment is taken to be live,
/// so a rollback goes to the one before it: the second entry of the ready
/// list (newest first), which is not the newest when ids are distinct; with
/// a single ready deployment, that one.
pub proof fn law_rollback_without_pin(ready: Seq<Seq<char>>)
    requires
        ready.len() >= 1,
    ensures
        ready.len() >= 2 ==> spec_rollback_target(ready, None) == Some(ready[1]),
        ready.len() == 1 ==> spec_rollback_target(ready, None) == Some(ready[0]),
        ready.len() >= 2 && ready.no_duplicates() ==> spec_rollback_target(ready, None) != Some(
            ready[0],
        ),
{
    if ready.len() >= 2 && ready.no_duplicates() {
        assert(ready[1] != ready[0]);
    }
}

/// Rollback goes to the previous ready deployment: with the production pin at
/// position `k` of the ready deployments (newest first) and an older one
/// after it, the target is the one just older than the pin.
pub proof fn law_rollback_to_previous(ready: Seq<Seq<char>>, k: int)
    requires
        0 <= k < ready.len() - 1,
        forall|j: int| 0 <= j < k ==> ready[j] != ready[k],
    ensures
        spec_rollback_target(ready, Some(ready[k])) == Some(ready[k + 1]),
{
    lemma_first_index(ready, ready[k], k);
    assert(ready.contains(ready[k]));
}

proof fn lemma_first_index_exists(ready: Seq<Seq<char>>, cur: Seq<char>, k0: int)
    requires
        0 <= k0 < ready.len(),
        ready[k0] == cur,
    ensures
        0 <= first_index(ready, cur) < ready.len(),
        ready[first_index(ready, cur)] == cur,
    decreases k0,
{
    if forall|j: int| 0 <= j < k0 ==> ready[j] != cur {
        lemma_first_index(ready, cur, k0);
    } else {
        let j = choose|j: int| 0 <= j < k0 && ready[j] == cur;
        lemma_first_index_exists(ready, cur, j);
    }
}

proof fn lemma_first_other_exists(ready: Seq<Seq<char>>, cur: Seq<char>, k0: int)
    requires
        0 <= k0 < ready.len(),
        ready[k0] != cur,
    ensures
        0 <= first_other(ready, cur) < ready.len(),
        ready[first_other(ready, cur)] != cur,
    decreases k0,
{
    if forall|j: int| 0 <= j < k0 ==> ready[j] == cur {
        lemma_first_other(ready, cur, k0);
    } else {
        let j = choose|j: int| 0 <= j < k0 && ready[j] != cur;
        lemma_first_other_exists(ready, cur, j);
    }
}

/// An update request that gives no field.
pub open spec fn empty_update() -> UpdateProjectRequest {
    UpdateProjectRequest {
        name: None,
        default_branch: None,
        root_directory: None,
        build_command: None,
        output_directory: None,
        install_command: None,
        poll_enabled: None,
    }
}

/// `p` with only its update time set to `now`.
pub open spec fn touched(p: Project, now: i64) -> Project {
    Project { updated_at: now, ..p }
}

/// An update request with no field changes nothing but the update time.
pub proof fn law_empty_update_keeps_project(p: Project, now: i64)
    ensures
        spec_updated(p, empty_update(), now) == touched(p, now),
{
}

/// Applying the same update request twice has the effect of applying it once.
pub proof fn law_update_idempotent(p: Project, req: UpdateProjectRequest, t1: i64, t2: i64)
    ensures
        spec_updated(spec_updated(p, req, t1), req, t2) == spec_updated(p, req, t2),
{
}

/// A project's own install, build and output settings win over what
/// detection found; detection fills in what the project leaves unset.
pub proof fn law_project_settings_win(mine: Seq<char>, found: Option<Seq<char>>)
    ensures
        or_else(Some(mine), found) == Some(mine),
        or_else(None, found) == found,
{
}

/// With both commands, a build checks for a cancel, installs, checks, builds,
/// checks, publishes, checks and marks ready, in that order; a missing
/// command leaves out its check and its run.
pub proof fn law_build_steps_order(install: Seq<char>, build: Seq<char>)
    ensures
        spec_build_steps(Some(install), Some(build)) == seq![
            (0int, "Build cancelled before install"@),
            (1int, install),
            (0int, "Build cancelled before build step"@),
            (1int, build),
            (0int, "Build cancelled before publish"@),
            (2int, Seq::<char>::empty()),
            (0int, "Build cancelled before marking ready"@),
            (3int, Seq::<char>::empty()),
        ],
        spec_build_steps(None, None) == seq![
            (0int, "Build cancelled before publish"@),
            (2int, Seq::<char>::empty()),
            (0int, "Build cancelled before marking ready"@),
            (3int, Seq::<char>::empty()),
        ],
        spec_build_steps(None, Some(build)) == seq![
            (0int, "Build cancelled before build step"@),
            (1int, build),
            (0int, "Build cancelled before publish"@),
            (2int, Seq::<char>::empty()),
            (0int, "Build cancelled before marking ready"@),
            (3int, Seq::<char>::empty()),
        ],
{
    assert(spec_build_steps(Some(install), Some(build)) =~= seq![
        (0int, "Build cancelled before install"@),
        (1int, install),
        (0int, "Build cancelled before build step"@),
        (1int, build),
        (0int, "Build cancelled before publish"@),
        (2int, Seq::<char>::empty()),
        (0int, "Build cancelled before marking ready"@),
        (3int, Seq::<char>::empty()),
    ]);
    assert(spec_build_steps(None, None) =~= seq![
        (0int, "Build cancelled before publish"@),
        (2int, Seq::<char>::empty()),
        (0int, "Build cancelled before marking ready"@),
        (3int, Seq::<char>::empty()),
    ]);
    assert(spec_build_steps(None, Some(build)) =~= seq![
        (0int, "Build cancelled before build step"@),
        (1int, build),
        (0int, "Build cancelled before publish"@),
        (2int, Seq::<char>::empty()),
        (0int, "Build cancelled before marking ready"@),
        (3int, Seq::<char>::empty()),
    ]);
}

/// How each step ends: a command that succeeds, publishing, marking ready,
/// marking building and the checkout always go on; a command that fails
/// fails the build, or stops it quietly when the deployment was cancelled
/// meanwhile; a cancel check stops the build exactly when it was cancelled.
pub proof fn law_step_verdicts(cancelled: bool)
    ensures
        spec_verdict(1, cancelled, false) == StepVerdict::Continue,
        spec_verdict(1, false, true) == StepVerdict::Failed,
        spec_verdict(1, true, true) == StepVerdict::Cancelled,
        spec_verdict(0, true, false) == StepVerdict::Cancelled,
        spec_verdict(0, false, false) == StepVerdict::Continue,
        forall|k: int, f: bool| 2 <= k <= 5 ==> spec_verdict(k, cancelled, f) == StepVerdict::Continue,
{
}

/// In a build, every command and the final marking as ready come right after
/// a cancel check, and marking ready is the last step: a deployment cancelled
/// during the build is neither run further nor marked ready.
pub proof fn law_build_steps_guarded(install: Option<Seq<char>>, build: Option<Seq<char>>)
    ensures
        ({
            let st = spec_build_steps(install, build);
            &&& st.len() > 0
            &&& st.last().0 == 3
            &&& forall|k: int|
                0 <= k < st.len() && (st[k].0 == 1 || st[k].0 == 3) ==> k > 0 && (#[trigger] st[k
                    - 1]).0 == 0
        }),
{
    let gi = guarded_run(install, "Build cancelled before install"@);
    let gb = guarded_run(build, "Build cancelled before build step"@);
    let tail = seq![
        (0, "Build cancelled before publish"@),
        (2, Seq::<char>::empty()),
        (0, "Build cancelled before marking ready"@),
        (3, Seq::<char>::empty()),
    ];
    let st = spec_build_steps(install, build);
    assert(st == gi + gb + tail);
    assert forall|k: int|
        0 <= k < st.len() && (st[k].0 == 1 || st[k].0 == 3) implies k > 0 && (#[trigger] st[k
        - 1]).0 == 0 by {
        if k < gi.len() {
            assert(st[k] == gi[k]);
            assert(k == 1);
            assert(st[k - 1] == gi[0]);
        } else if k < gi.len() + gb.len() {
            assert(st[k] == gb[k - gi.len()]);
            assert(k - gi.len() == 1);
            assert(st[k - 1] == gb[0]);
        } else {
            assert(st[k] == tail[k - gi.len() - gb.len()]);
            assert(k - gi.len() - gb.len() == 3);
            assert(st[k - 1] == tail[2]);
        }
    }
}

/// The steps of a build before the framework is known: a cancel check, mark
/// the deployment building, check out its commit, and a cancel check again.
pub open spec fn spec_start_steps() -> Seq<(int, Seq<char>)> {
    seq![
        (0, "Build cancelled before start"@),
        (4, Seq::<char>::empty()),
        (5, Seq::<char>::empty()),
        (0, "Build cancelled after checkout"@),
    ]
}

/// The steps the build worker takes before it detects the framework.
pub fn start_steps() -> (steps: Vec<BuildStep>)
    ensures
        steps@.map_values(|s: BuildStep| step_view(s)) == spec_start_steps(),
{
    let mut steps: Vec<BuildStep> = Vec::new();
    steps.push(BuildStep::CancelCheck(String::from_str("Build cancelled before start")));
    steps.push(BuildStep::MarkBuilding);
    steps.push(BuildStep::Checkout);
    steps.push(BuildStep::CancelCheck(String::from_str("Build cancelled after checkout")));
    assert(steps@.map_values(|s: BuildStep| step_view(s)) =~= spec_start_steps());
    steps
}

/// Which deployment a production alias (`/p/{project_id}`) serves.
#[derive(Debug, Clone, Copy, PartialEq, Eq, Structural)]
pub enum AliasSource {
    /// The pinned production deployment.
    Pinned,
    /// The latest ready deployment of the project.
    LatestReady,
}

/// The pinned deployment while it is ready, else the latest ready one;
/// `pinned_status` is the status of the pinned deployment, when there is a
/// pin and the deployment still exists.
pub fn alias_source(pinned_status: Option<&str>) -> (a: AliasSource)
    ensures
        (a == AliasSource::Pinned) == (opt_str_view(pinned_status) == Some("ready"@)),
{
    match pinned_status {
        Some(st) => if str_eq(st, "ready") {
            AliasSource::Pinned
        } else {
            AliasSource::LatestReady
        },
        None => AliasSource::LatestReady,
    }
}

/// How a step of a build ends, from what the worker saw at it.
#[derive(Debug, Clone, Copy, PartialEq, Eq, Structural)]
pub enum StepVerdict {
    /// Go on with the next step.
    Continue,
    /// Stop: the deployment was cancelled; nothing more is written.
    Cancelled,
    /// Stop: the command failed; the deployment is marked failed.
    Failed,
}

/// The verdict on a step of kind `kind` (as `step_view` numbers them), when
/// the deployment reads as `cancelled` at that step and its command `failed`:
/// a cancel check stops a cancelled build; a failed command fails the build
/// unless it was cancelled meanwhile; publishing and marking ready go on.
pub open spec fn spec_verdict(kind: int, cancelled: bool, failed: bool) -> StepVerdict {
    if kind == 0 && cancelled {
        StepVerdict::Cancelled
    } else if kind == 1 && failed {
        if cancelled {
            StepVerdict::Cancelled
        } else {
            StepVerdict::Failed
        }
    } else {
        StepVerdict::Continue
    }
}

/// The verdict on one step of a build.
pub fn step_verdict(step: &BuildStep, cancelled: bool, failed: bool) -> (v: StepVerdict)
    ensures
        v == spec_verdict(step_view(*step).0, cancelled, failed),
{
    match step {
        BuildStep::CancelCheck(_) => if cancelled {
            StepVerdict::Cancelled
        } else {
            StepVerdict::Continue
        },
        BuildStep::Run(_) => if !failed {
            StepVerdict::Continue
        } else if cancelled {
            StepVerdict::Cancelled
        } else {
            StepVerdict::Failed
        },
        _ => StepVerdict::Continue,
    }
}

/// Where a build that runs the steps of kinds `kinds` from position `i` on
/// stops, and why: the first step whose verdict is not `Continue`, given at
/// each step whether the deployment read as cancelled and whether its
/// command failed; `(kinds.len(), Continue)` when every step goes on.
pub open spec fn run_end(kinds: Seq<int>, obs: Seq<(bool, bool)>, i: int) -> (int, StepVerdict)
    decreases kinds.len() - i,
{
    if i < 0 || i >= kinds.len() {
        (kinds.len() as int, StepVerdict::Continue)
    } else if spec_verdict(kinds[i], obs[i].0, obs[i].1) != StepVerdict::Continue {
        (i, spec_verdict(kinds[i], obs[i].0, obs[i].1))
    } else {
        run_end(kinds, obs, i + 1)
    }
}

/// Whether the run marks the deployment ready: it reaches a step of kind 3.
pub open spec fn writes_ready(kinds: Seq<int>, obs: Seq<(bool, bool)>) -> bool {
    exists|m: int| 0 <= m < run_end(kinds, obs, 0).0 && kinds[m] == 3
}

/// The step kinds of a whole build run: the start steps, then the steps
/// once the framework is known.
pub open spec fn step_kinds(install: Option<Seq<char>>, build: Option<Seq<char>>) -> Seq<int> {
    (spec_start_steps() + spec_build_steps(install, build)).map_values(|s: (int, Seq<char>)| s.0)
}

proof fn lemma_run_end_from(kinds: Seq<int>, obs: Seq<(bool, bool)>, i: int, j: int)
    requires
        0 <= j <= i,
        forall|k: int| j <= k < i && k < kinds.len() ==> spec_verdict(kinds[k], obs[k].0, obs[k].1)
            == StepVerdict::Continue,
    ensures
        run_end(kinds, obs, j) == run_end(kinds, obs, i),
    decreases i - j,
{
    if j < i && j < kinds.len() {
        lemma_run_end_from(kinds, obs, i, j + 1);
    }
}

proof fn lemma_run_end_range(kinds: Seq<int>, obs: Seq<(bool, bool)>, i: int)
    requires
        0 <= i,
    ensures
        i <= run_end(kinds, obs, i).0 <= kinds.len() || i > kinds.len(),
        run_end(kinds, obs, i).0 < kinds.len() ==> run_end(kinds, obs, i).1 != StepVerdict::Continue,
        run_end(kinds, obs, i).0 == kinds.len() ==> run_end(kinds, obs, i).1 == StepVerdict::Continue,
        forall|k: int| i <= k < run_end(kinds, obs, i).0 ==> spec_verdict(kinds[k], obs[k].0, obs[k].1)
            == StepVerdict::Continue,
    decreases kinds.len() - i,
{
    if i < kinds.len() && spec_verdict(kinds[i], obs[i].0, obs[i].1) == StepVerdict::Continue {
        lemma_run_end_range(kinds, obs, i + 1);
    }
}

proof fn lemma_step_kinds(install: Option<Seq<char>>, build: Option<Seq<char>>)
    ensures
        ({
            let k = step_kinds(install, build);
            &&& k.len() >= 4
            &&& k.last() == 3
            &&& k[k.len() - 2] == 0
            &&& forall|m: int| 0 <= m < k.len() - 1 ==> k[m] != 3
        }),
{
    let gi = guarded_run(install, "Build cancelled before install"@);
    let gb = guarded_run(build, "Build cancelled before build step"@);
    let tail = seq![
        (0, "Build cancelled before publish"@),
        (2, Seq::<char>::empty()),
        (0, "Build cancelled before marking ready"@),
        (3, Seq::<char>::empty()),
    ];
    let ss = spec_start_steps();
    let st = ss + spec_build_steps(install, build);
    assert(st == ss + gi + gb + tail);
    let k = step_kinds(install, build);
    assert(k.len() == st.len());
    assert forall|m: int| 0 <= m < k.len() - 1 implies k[m] != 3 by {
        assert(k[m] == st[m].0);
        if m < ss.len() {
            assert(st[m] == ss[m]);
        } else if m < ss.len() + gi.len() {
            assert(st[m] == gi[m - ss.len()]);
        } else if m < ss.len() + gi.len() + gb.len() {
            assert(st[m] == gb[m - ss.len() - gi.len()]);
        } else {
            assert(st[m] == tail[m - ss.len() - gi.len() - gb.len()]);
        }
    }
    assert(k[k.len() - 1] == st[st.len() - 1].0);
    assert(st[st.len() - 1] == tail[3]);
    assert(k[k.len() - 2] == st[st.len() - 2].0);
    assert(st[st.len() - 2] == tail[2]);
}

/// A cancel is final: when the worker reaches any cancel check of a build
/// run (before start, after checkout, before each command, before publishing
/// or before marking ready) and the deployment reads as cancelled there, the
/// run stops at that check, cancelled; no later step runs, and it neither
/// marks the deployment failed nor ready.
pub proof fn law_cancel_is_final(
    install: Option<Seq<char>>,
    build: Option<Seq<char>>,
    obs: Seq<(bool, bool)>,
    i: int,
)
    requires
        obs.len() == step_kinds(install, build).len(),
        0 <= i < obs.len(),
        step_kinds(install, build)[i] == 0,
        obs[i].0,
        forall|k: int|
            0 <= k < i ==> spec_verdict(
                #[trigger] step_kinds(install, build)[k],
                obs[k].0,
                obs[k].1,
            ) == StepVerdict::Continue,
    ensures
        run_end(step_kinds(install, build), obs, 0) == (i, StepVerdict::Cancelled),
        !writes_ready(step_kinds(install, build), obs),
{
    let k = step_kinds(install, build);
    lemma_run_end_from(k, obs, i, 0);
    lemma_step_kinds(install, build);
    assert(k[i] != 3);
    if writes_ready(k, obs) {
        let m = choose|m: int| 0 <= m < run_end(k, obs, 0).0 && k[m] == 3;
        assert(m < i);
        assert(m < k.len() - 1);
    }
}

/// A build that marks its deployment ready saw it uncancelled at every cancel
/// check and had no command fail: every step went on.
pub proof fn law_ready_means_never_cancelled(
    install: Option<Seq<char>>,
    build: Option<Seq<char>>,
    obs: Seq<(bool, bool)>,
)
    requires
        obs.len() == step_kinds(install, build).len(),
        writes_ready(step_kinds(install, build), obs),
    ensures
        run_end(step_kinds(install, build), obs, 0) == (
            step_kinds(install, build).len() as int,
            StepVerdict::Continue,
        ),
        forall|k: int|
            0 <= k < obs.len() && #[trigger] step_kinds(install, build)[k] == 0 ==> !obs[k].0,
{
    let kk = step_kinds(install, build);
    lemma_step_kinds(install, build);
    lemma_run_end_range(kk, obs, 0);
    let m = choose|m: int| 0 <= m < run_end(kk, obs, 0).0 && kk[m] == 3;
    assert(m == kk.len() - 1);
    assert forall|k: int| 0 <= k < obs.len() && #[trigger] kk[k] == 0 implies !obs[k].0 by {
        assert(spec_verdict(kk[k], obs[k].0, obs[k].1) == StepVerdict::Continue);
    }
}

/// Why a deployment cannot be cancelled.
#[derive(Debug, Clone, Copy, PartialEq, Eq, Structural)]
pub enum CancelError {
    /// Only queued or building deployments can be cancelled.
    NotInProgress,
}

impl CancelError {
    /// The text of the error, as shown to API clients.
    pub fn message(&self) -> (m: String)
        ensures
            m@ == "only queued or building deployments can be cancelled"@,
    {
        String::from_str("only queued or building deployments can be cancelled")
    }
}

/// Cancel a queued or building deployment at `now` (best effort: a build in
/// progress stops at its next cancel check). Any other deployment is left as
/// it is.
pub fn cancel_deployment(deployment: &mut Deployment, now: i64) -> (r: Result<(), CancelError>)
    ensures
        (r is Ok) == (old(deployment).status@ == "queued"@ || old(deployment).status@ == "building"@),
        r is Ok ==> {
            &&& final(deployment).status@ == "cancelled"@
            &&& final(deployment).finished_at == Some(now)
            &&& final(deployment).url_path == old(deployment).url_path
            &&& final(deployment).error_message == old(deployment).error_message
            &&& same_record(*final(deployment), *old(deployment))
            &&& spec_pickup_stop(final(deployment).status@, opt_string_view(final(deployment).error_message))
                == Some("Build cancelled before start"@)
        },
        r is Err ==> *final(deployment) == *old(deployment),
{
    if str_eq(deployment.status.as_str(), "queued") || str_eq(deployment.status.as_str(), "building") {
        deployment.status = String::from_str("cancelled");
        deployment.finished_at = Some(now);
        proof {
            reveal_strlit("skipped");
            reveal_strlit("cancelled");
            assert("cancelled"@ != "skipped"@) by {
                assert("cancelled"@[0] != "skipped"@[0]);
            }
        }
        Ok(())
    } else {
        Err(CancelError::NotInProgress)
    }
}

/// Whether a deployment was cancelled (the worker checks this between steps).
pub fn is_cancelled(deployment: &Deployment) -> (b: bool)
    ensures
        b == (deployment.status@ == "cancelled"@),
{
    str_eq(deployment.status.as_str(), "cancelled")
}

/// The seconds between polls: the `FLARE_POLL_SECS` override when it is set,
/// else the stored setting, else the default of 60.
pub fn poll_interval(env_secs: Option<u64>, stored_secs: Option<u64>) -> (s: u64)
    ensures
        s == (match env_secs {
            Some(e) => e,
            None => match stored_secs {
                Some(v) => v,
                None => DEFAULT_POLL_INTERVAL_SECS,
            },
        }),
{
    match env_secs {
        Some(e) => e,
        None => match stored_secs {
            Some(v) => v,
            None => DEFAULT_POLL_INTERVAL_SECS,
        },
    }
}

/// A poll interval below the minimum.
#[derive(Debug, Clone, Copy, PartialEq, Eq, Structural)]
pub enum SettingsError {
    /// Fewer than five seconds between polls.
    PollIntervalTooShort,
}

impl SettingsError {
    /// The text of the error, as shown to API clients.
    pub fn message(&self) -> (m: &'static str)
        ensures
            m@ == "poll_interval_secs must be >= 5"@,
    {
        "poll_interval_secs must be >= 5"
    }
}

/// Seconds between polls when nothing is configured.
pub const DEFAULT_POLL_INTERVAL_SECS: u64 = 60;

/// The shortest accepted poll interval, in seconds.
pub const MIN_POLL_INTERVAL_SECS: u64 = 5;

/// Accept a new poll interval: at least five seconds.
pub fn validate_poll_interval(secs: u64) -> (r: Result<u64, SettingsError>)
    ensures
        r == (if secs < 5 {
            Err(SettingsError::PollIntervalTooShort)
        } else {
            Ok::<u64, SettingsError>(secs)
        }),
{
    if secs < MIN_POLL_INTERVAL_SECS {
        Err(SettingsError::PollIntervalTooShort)
    } else {
        Ok(secs)
    }
}

} // verus!
