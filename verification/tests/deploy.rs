use flare::deploy::{
    alias_source, cancel_deployment, poll_interval, start_steps, step_verdict, AliasSource, CancelError, StepVerdict,
    apply_update, build_steps, check_promotable, command_log, copied_output_log, creation_branch,
    creation_root, diff_base, fail_unless_cancelled, failure_log, has_new_commit, initial_deployment, is_cancelled,
    mark_building, mark_failed, mark_ready, mark_skipped, new_project, non_empty, output_subdir,
    pickup_stop, placeholder_page, plan_deployment, publish_source, record_commit,
    resolve_build_commands, rollback_target, short_sha, validate_poll_interval, work_subdir,
    BuildCommands, BuildStep, PromoteError, PublishSource, RollbackError, SettingsError,
};
use flare::framework::FrameworkInfo;
use flare::git::parse_github_input;
use flare::models::{CreateProjectRequest, Deployment, Project, UpdateProjectRequest};

fn project(root: &str) -> Project {
    Project {
        id: "p1".to_string(),
        name: "site".to_string(),
        github_url: "https://github.com/o/site".to_string(),
        owner_repo: "o/site".to_string(),
        default_branch: "main".to_string(),
        framework: Some("vite".to_string()),
        root_directory: root.to_string(),
        build_command: None,
        output_directory: Some("build".to_string()),
        install_command: None,
        last_commit_sha: Some("aaa".to_string()),
        created_at: 1,
        updated_at: 2,
        poll_enabled: true,
    }
}

fn deployment(status: &str) -> Deployment {
    Deployment {
        id: "d1".to_string(),
        project_id: "p1".to_string(),
        commit_sha: "0123456789abcdef".to_string(),
        commit_message: None,
        commit_author: None,
        branch: "main".to_string(),
        status: status.to_string(),
        framework: None,
        url_path: None,
        error_message: None,
        changed_files: None,
        created_at: 5,
        finished_at: None,
    }
}

fn fw() -> FrameworkInfo {
    FrameworkInfo {
        framework: Some("vite".to_string()),
        install_command: Some("npm install".to_string()),
        build_command: Some("npm run build".to_string()),
        output_directory: Some("dist".to_string()),
    }
}

#[test]
fn commits_and_requests() {
    assert!(has_new_commit(None, "abc"));
    assert!(has_new_commit(Some("abc"), "def"));
    assert!(!has_new_commit(Some("abc"), "abc"));
    assert_eq!(diff_base(Some("abc"), "def").as_deref(), Some("abc"));
    assert_eq!(diff_base(Some("abc"), "abc"), None);
    assert_eq!(diff_base(None, "abc"), None);
    assert_eq!(non_empty(Some(String::new())), None);
    assert_eq!(non_empty(Some("x".to_string())).as_deref(), Some("x"));
    assert_eq!(non_empty(None), None);
}

#[test]
fn planned_deployments() {
    let p = project("apps/web");
    let skipped = plan_deployment("d9".to_string(), &p, "bbb".to_string(), Some("m".to_string()), None, Some("README.md".to_string()), 77);
    assert_eq!(skipped.status, "skipped");
    assert_eq!(skipped.error_message.as_deref(), Some("Skipped: no changes under root_directory 'apps/web'"));
    assert_eq!(skipped.finished_at, Some(77));
    assert_eq!(skipped.branch, "main");
    assert_eq!(skipped.framework.as_deref(), Some("vite"));
    let queued = plan_deployment("d8".to_string(), &p, "bbb".to_string(), None, None, Some("apps/web/a.js".to_string()), 78);
    assert_eq!(queued.status, "queued");
    assert_eq!(queued.error_message, None);
    assert_eq!(queued.finished_at, None);
    let first = plan_deployment("d7".to_string(), &p, "bbb".to_string(), None, None, None, 79);
    assert_eq!(first.status, "queued");
}

#[test]
fn recorded_commit_is_not_new_again() {
    let mut p = project("apps/web");
    record_commit(&mut p, "bbb".to_string(), 99);
    assert_eq!(p.last_commit_sha.as_deref(), Some("bbb"));
    assert_eq!(p.updated_at, 99);
    assert!(!has_new_commit(p.last_commit_sha.as_deref(), "bbb"));
}

#[test]
fn rollback_targets() {
    let ready = vec!["r3".to_string(), "r2".to_string(), "r1".to_string()];
    assert_eq!(rollback_target(&ready, Some("r3")).unwrap(), "r2");
    assert_eq!(rollback_target(&ready, Some("r2")).unwrap(), "r1");
    assert_eq!(rollback_target(&ready, Some("r1")).unwrap(), "r3");
    assert_eq!(rollback_target(&ready, Some("gone")).unwrap(), "r3");
    assert_eq!(rollback_target(&ready, None).unwrap(), "r2");
    assert_eq!(rollback_target(&vec!["r1".to_string()], None).unwrap(), "r1");
    assert_eq!(rollback_target(&vec!["r1".to_string()], Some("r1")).unwrap(), "r1");
    assert_eq!(rollback_target(&vec![], None).unwrap_err(), RollbackError::NoReadyDeployments);
    assert_eq!(RollbackError::NoReadyDeployments.message(), "no ready deployments to roll back to");
}

#[test]
fn promotion() {
    assert_eq!(check_promotable(&deployment("ready"), "p1"), Ok(()));
    assert_eq!(check_promotable(&deployment("ready"), "p2"), Err(PromoteError::OtherProject));
    assert_eq!(check_promotable(&deployment("error"), "p1"), Err(PromoteError::NotReady));
    assert_eq!(PromoteError::OtherProject.message(), "deployment does not belong to this project");
    assert_eq!(PromoteError::NotReady.message(), "only ready deployments can be promoted");
}

#[test]
fn worker_pickup() {
    let mut s = deployment("skipped");
    assert_eq!(pickup_stop(&s).as_deref(), Some("Build skipped \u{2014} no install/build run"));
    s.error_message = Some("why".to_string());
    assert_eq!(pickup_stop(&s).as_deref(), Some("why"));
    assert_eq!(pickup_stop(&deployment("cancelled")).as_deref(), Some("Build cancelled before start"));
    assert_eq!(pickup_stop(&deployment("queued")), None);
    assert!(is_cancelled(&deployment("cancelled")));
    assert!(!is_cancelled(&deployment("building")));
}

#[test]
fn deployment_transitions() {
    let mut d = deployment("queued");
    mark_building(&mut d);
    assert_eq!(d.status, "building");
    mark_ready(&mut d, 10);
    assert_eq!(d.status, "ready");
    assert_eq!(d.url_path.as_deref(), Some("/_deploy/d1/"));
    assert_eq!(d.finished_at, Some(10));
    let mut e = deployment("building");
    mark_failed(&mut e, "command failed", 11);
    assert_eq!(e.status, "error");
    assert_eq!(e.error_message.as_deref(), Some("command failed"));
    let mut k = deployment("queued");
    mark_skipped(&mut k, "skip".to_string(), 12);
    assert_eq!(k.status, "skipped");
    assert_eq!(k.finished_at, Some(12));
    assert_eq!(failure_log("boom"), "ERROR: boom");
    assert_eq!(command_log("npm ci"), "$ npm ci");
    assert_eq!(copied_output_log("/w/dist"), "Copied output from /w/dist");
}

#[test]
fn build_plans() {
    let c = resolve_build_commands(&project("."), &fw());
    assert_eq!(c.install.as_deref(), Some("npm install"));
    assert_eq!(c.build.as_deref(), Some("npm run build"));
    assert_eq!(c.output, "build");
    let none = FrameworkInfo { framework: None, install_command: None, build_command: None, output_directory: None };
    let mut p = project(".");
    p.output_directory = None;
    assert_eq!(resolve_build_commands(&p, &none).output, "dist");
    let steps = build_steps(&c);
    assert_eq!(steps, vec![
        BuildStep::CancelCheck("Build cancelled before install".to_string()),
        BuildStep::Run("npm install".to_string()),
        BuildStep::CancelCheck("Build cancelled before build step".to_string()),
        BuildStep::Run("npm run build".to_string()),
        BuildStep::CancelCheck("Build cancelled before publish".to_string()),
        BuildStep::Publish,
        BuildStep::CancelCheck("Build cancelled before marking ready".to_string()),
        BuildStep::MarkReady,
    ]);
    let bare = build_steps(&BuildCommands { install: None, build: None, output: ".".to_string() });
    assert_eq!(bare.len(), 4);
    assert_eq!(work_subdir("."), None);
    assert_eq!(work_subdir("apps/web").as_deref(), Some("apps/web"));
    assert_eq!(output_subdir("."), None);
    assert_eq!(output_subdir("dist").as_deref(), Some("dist"));
    assert_eq!(publish_source(true, true), PublishSource::Output);
    assert_eq!(publish_source(false, true), PublishSource::WorkDir);
    assert_eq!(publish_source(false, false), PublishSource::Placeholder);
}

#[test]
fn placeholder_pages() {
    assert_eq!(short_sha("0123456789abcdef"), "0123456");
    assert_eq!(short_sha("abc"), "abc");
    let page = placeholder_page("My Site", "0123456789");
    assert!(page.starts_with("<!DOCTYPE html><html><head><meta charset=\"utf-8\"><title>Flare Deploy</title>\n<style>body{font-family:system-ui;"));
    assert!(page.contains("<p>Project \u{b7} My Site \u{b7} 0123456</p>"));
    assert!(page.ends_with("No static output detected; this is a placeholder.</p></div></body></html>"));
}

#[test]
fn project_creation() {
    let parsed = parse_github_input("mdn/beginner-html-site").unwrap();
    let req = CreateProjectRequest {
        github: "mdn/beginner-html-site".to_string(),
        name: None,
        branch: None,
        root_directory: None,
        build_command: Some("make".to_string()),
        output_directory: None,
        install_command: None,
    };
    assert_eq!(creation_branch(&req), "main");
    assert_eq!(creation_root(&req), ".");
    let p = new_project("id1".to_string(), &req, &parsed, &fw(), Some("h".to_string()), 5);
    assert_eq!(p.name, "beginner-html-site");
    assert_eq!(p.owner_repo, "mdn/beginner-html-site");
    assert_eq!(p.github_url, "https://github.com/mdn/beginner-html-site");
    assert_eq!(p.build_command.as_deref(), Some("make"));
    assert_eq!(p.output_directory.as_deref(), Some("dist"));
    assert_eq!(p.last_commit_sha.as_deref(), Some("h"));
    assert!(p.poll_enabled);
    let d = initial_deployment("d1".to_string(), &p, "h".to_string(), 6);
    assert_eq!(d.commit_message.as_deref(), Some("Initial import"));
    assert_eq!(d.status, "queued");
}

#[test]
fn project_updates() {
    let mut p = project(".");
    let req = UpdateProjectRequest {
        name: Some("renamed".to_string()),
        default_branch: None,
        root_directory: Some("web".to_string()),
        build_command: Some("b".to_string()),
        output_directory: None,
        install_command: None,
        poll_enabled: Some(false),
    };
    apply_update(&mut p, req.clone(), 50);
    assert_eq!(p.name, "renamed");
    assert_eq!(p.default_branch, "main");
    assert_eq!(p.root_directory, "web");
    assert_eq!(p.build_command.as_deref(), Some("b"));
    assert_eq!(p.output_directory.as_deref(), Some("build"));
    assert!(!p.poll_enabled);
    assert_eq!(p.updated_at, 50);
    let once = format!("{:?}", p);
    apply_update(&mut p, req, 50);
    assert_eq!(format!("{:?}", p), once);
    let empty = UpdateProjectRequest { name: None, default_branch: None, root_directory: None, build_command: None, output_directory: None, install_command: None, poll_enabled: None };
    apply_update(&mut p, empty, 60);
    assert_eq!(p.updated_at, 60);
    assert_eq!(p.name, "renamed");
}

#[test]
fn settings() {
    assert_eq!(validate_poll_interval(5), Ok(5));
    assert_eq!(validate_poll_interval(60), Ok(60));
    assert_eq!(validate_poll_interval(4), Err(SettingsError::PollIntervalTooShort));
    assert_eq!(SettingsError::PollIntervalTooShort.message(), "poll_interval_secs must be >= 5");
}

#[test]
fn failure_keeps_a_cancel() {
    let mut c = deployment("cancelled");
    let line = fail_unless_cancelled(&mut c, true, "npm failed", 20);
    assert_eq!(line, "Build cancelled (ignoring failure)");
    assert_eq!(c.status, "cancelled");
    assert_eq!(c.error_message, None);
    assert_eq!(c.finished_at, None);
    let mut b = deployment("building");
    let line = fail_unless_cancelled(&mut b, false, "npm failed", 21);
    assert_eq!(line, "ERROR: npm failed");
    assert_eq!(b.status, "error");
    assert_eq!(b.error_message.as_deref(), Some("npm failed"));
    assert_eq!(b.finished_at, Some(21));
}

#[test]
fn alias_follows_ready_pin() {
    assert_eq!(alias_source(Some("ready")), AliasSource::Pinned);
    assert_eq!(alias_source(Some("error")), AliasSource::LatestReady);
    assert_eq!(alias_source(None), AliasSource::LatestReady);
}

#[test]
fn step_verdicts() {
    let check = BuildStep::CancelCheck("Build cancelled before publish".to_string());
    let run = BuildStep::Run("npm ci".to_string());
    assert_eq!(step_verdict(&check, true, false), StepVerdict::Cancelled);
    assert_eq!(step_verdict(&check, false, false), StepVerdict::Continue);
    assert_eq!(step_verdict(&run, false, true), StepVerdict::Failed);
    assert_eq!(step_verdict(&run, true, true), StepVerdict::Cancelled);
    assert_eq!(step_verdict(&run, true, false), StepVerdict::Continue);
    assert_eq!(step_verdict(&BuildStep::MarkReady, true, true), StepVerdict::Continue);
    assert_eq!(step_verdict(&BuildStep::Publish, false, false), StepVerdict::Continue);
}

#[test]
fn cancel_only_in_progress() {
    let mut q = deployment("queued");
    assert_eq!(cancel_deployment(&mut q, 30), Ok(()));
    assert_eq!(q.status, "cancelled");
    assert_eq!(q.finished_at, Some(30));
    assert_eq!(pickup_stop(&q).as_deref(), Some("Build cancelled before start"));
    let mut b = deployment("building");
    assert!(cancel_deployment(&mut b, 31).is_ok());
    assert!(is_cancelled(&b));
    let mut r = deployment("ready");
    assert_eq!(cancel_deployment(&mut r, 32), Err(CancelError::NotInProgress));
    assert_eq!(r.status, "ready");
    assert_eq!(r.finished_at, None);
    assert_eq!(CancelError::NotInProgress.message(), "only queued or building deployments can be cancelled");
}

#[test]
fn run_starts_with_guarded_checkout() {
    assert_eq!(
        start_steps(),
        vec![
            BuildStep::CancelCheck("Build cancelled before start".to_string()),
            BuildStep::MarkBuilding,
            BuildStep::Checkout,
            BuildStep::CancelCheck("Build cancelled after checkout".to_string()),
        ]
    );
    assert_eq!(step_verdict(&BuildStep::Checkout, true, true), StepVerdict::Continue);
    assert_eq!(step_verdict(&BuildStep::MarkBuilding, false, false), StepVerdict::Continue);
    assert_eq!(
        step_verdict(&BuildStep::CancelCheck("Build cancelled after checkout".to_string()), true, false),
        StepVerdict::Cancelled
    );
}

#[test]
fn poll_interval_choice() {
    assert_eq!(poll_interval(Some(7), Some(30)), 7);
    assert_eq!(poll_interval(None, Some(30)), 30);
    assert_eq!(poll_interval(None, None), 60);
}
