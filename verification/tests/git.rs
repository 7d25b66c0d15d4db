use flare::git::{
    after_sync_step, clone_url_for, commit_limit, commit_range, first_sync_step, join_lines,
    parse_changed_files, parse_commit_log, parse_github_input, remote_branch, should_skip_build,
    GithubInputError, SyncNext, SyncStep,
};

#[test]
fn parse_owner_repo() {
    let r = parse_github_input("vercel/next.js").unwrap();
    assert_eq!(r.owner, "vercel");
    assert_eq!(r.repo, "next.js");
    assert!(r.clone_url.ends_with(".git"));
}

#[test]
fn parse_url() {
    let r = parse_github_input("https://github.com/rust-lang/mdBook/").unwrap();
    assert_eq!(r.owner, "rust-lang");
    assert_eq!(r.repo, "mdBook");
}

#[test]
fn skip_when_no_files_under_root() {
    let msg = should_skip_build(
        "apps/web",
        Some("README.md\ndocs/guide.md\napps/api/main.rs"),
    );
    assert!(msg.is_some());
    assert!(msg.unwrap().contains("apps/web"));
}

#[test]
fn no_skip_when_file_under_root() {
    assert!(should_skip_build("apps/web", Some("apps/web/src/index.js\nREADME.md")).is_none());
    assert!(should_skip_build("apps/web", Some("apps/web")).is_none());
}

#[test]
fn no_skip_for_repo_root() {
    assert!(should_skip_build(".", Some("README.md")).is_none());
    assert!(should_skip_build("", Some("README.md")).is_none());
}

#[test]
fn no_skip_without_changed_files() {
    assert!(should_skip_build("apps/web", None).is_none());
    assert!(should_skip_build("apps/web", Some("")).is_none());
}

#[test]
fn parse_full_urls_and_urls_derived() {
    let r = parse_github_input("  github.com/mdn/beginner-html-site.git  ").unwrap();
    assert_eq!(r.owner, "mdn");
    assert_eq!(r.repo, "beginner-html-site");
    assert_eq!(r.html_url, "https://github.com/mdn/beginner-html-site");
    assert_eq!(r.clone_url, "https://github.com/mdn/beginner-html-site.git");
    let h = parse_github_input("http://github.com/a/b/extra").unwrap();
    assert_eq!((h.owner.as_str(), h.repo.as_str()), ("a", "b"));
    let d = parse_github_input("https://github.com//x//y.git.git//").unwrap();
    assert_eq!((d.owner.as_str(), d.repo.as_str()), ("x", "y"));
}

#[test]
fn parse_forms_agree() {
    for input in [
        "withastro/astro",
        "github.com/withastro/astro",
        "https://github.com/withastro/astro",
        "https://github.com/withastro/astro/",
        "withastro/astro.git",
    ] {
        let r = parse_github_input(input).unwrap();
        assert_eq!(r.owner, "withastro");
        assert_eq!(r.repo, "astro");
    }
}

#[test]
fn parse_errors() {
    assert_eq!(parse_github_input("justone").unwrap_err(), GithubInputError::NotOwnerRepo);
    assert_eq!(parse_github_input("https://github.com/").unwrap_err(), GithubInputError::NotOwnerRepo);
    assert_eq!(parse_github_input("   ").unwrap_err(), GithubInputError::NotOwnerRepo);
    assert_eq!(parse_github_input("git@github.com:a/b").unwrap_err(), GithubInputError::InvalidOwnerRepo);
    assert_eq!(
        GithubInputError::NotOwnerRepo.message(),
        "expected owner/repo or https://github.com/owner/repo"
    );
    assert_eq!(GithubInputError::InvalidOwnerRepo.message(), "invalid owner/repo");
}

#[test]
fn skip_message_and_edges() {
    assert_eq!(
        should_skip_build(" apps/web/ ", Some("docs/a.md\r\n\n  \n")).unwrap(),
        "Skipped: no changes under root_directory 'apps/web'"
    );
    assert!(should_skip_build("apps/web", Some("  apps/web/x  ")).is_none());
    assert!(should_skip_build("apps/web", Some("apps/webby/x")).is_some());
    assert!(should_skip_build("apps/web", Some("\n \n")).is_none());
    assert!(should_skip_build("/", Some("a")).is_none());
}

#[test]
fn commit_log_parsing() {
    let text = "abc\u{1f}fix: x \u{1f}Ann\u{1f}2024-01-01T00:00:00Z\u{1e}\n\
                def\u{1f}second\u{1f}Bob\u{1f}2024-01-02T00:00:00Z\u{1e}\n\
                bad\u{1f}only two\u{1e}\n";
    let c = parse_commit_log(text);
    assert_eq!(c.len(), 2);
    assert_eq!(c[0].sha, "abc");
    assert_eq!(c[0].message, "fix: x");
    assert_eq!(c[0].author, "Ann");
    assert_eq!(c[0].date, "2024-01-01T00:00:00Z");
    assert_eq!(c[1].sha, "def");
    assert_eq!(c[1].author, "Bob");
    assert!(parse_commit_log("").is_empty());
}

#[test]
fn changed_files_parsing_and_join() {
    let f = parse_changed_files("a.txt\r\n\nsrc/b.rs\nlast\r");
    assert_eq!(f, vec!["a.txt".to_string(), "src/b.rs".to_string(), "last\r".to_string()]);
    assert_eq!(join_lines(&f), "a.txt\nsrc/b.rs\nlast\r");
    assert_eq!(join_lines(&vec![]), "");
    assert!(parse_changed_files("\n\n").is_empty());
}

#[test]
fn stored_changes_read_back_like_raw_output() {
    let raw = "README.md\r\n\ndocs/guide.md\n";
    let stored = join_lines(&parse_changed_files(raw));
    assert_eq!(should_skip_build("apps/web", Some(raw)), should_skip_build("apps/web", Some(&stored)));
    let raw2 = "apps/web/index.html\n";
    let stored2 = join_lines(&parse_changed_files(raw2));
    assert_eq!(should_skip_build("apps/web", Some(raw2)), should_skip_build("apps/web", Some(&stored2)));
}

#[test]
fn small_git_helpers() {
    assert_eq!(commit_limit(0), 1);
    assert_eq!(commit_limit(20), 20);
    assert_eq!(commit_limit(1000), 100);
    assert_eq!(clone_url_for("https://github.com/a/b"), "https://github.com/a/b.git");
    assert_eq!(clone_url_for("https://github.com/a/b//"), "https://github.com/a/b.git");
    assert_eq!(clone_url_for("https://github.com/a/b.git"), "https://github.com/a/b.git");
    assert_eq!(remote_branch("main"), "origin/main");
    assert_eq!(commit_range("abc", "def"), "abc..def");
}

#[test]
fn http_and_url_forms_agree() {
    for u in [
        "https://github.com/o/r",
        "http://github.com/o/r/",
        "http://github.com/o/r",
        "github.com/o/r",
        "o/r",
        "o/r.git",
    ] {
        let g = parse_github_input(u).unwrap();
        assert_eq!((g.owner.as_str(), g.repo.as_str()), ("o", "r"), "{u}");
        assert_eq!(g.html_url, "https://github.com/o/r");
        assert_eq!(g.clone_url, "https://github.com/o/r.git");
    }
}

#[test]
fn page_and_clone_urls_read_back() {
    for input in ["github.com/github.com/site", "https:// x/y", "vercel/next.js"] {
        let r = parse_github_input(input).unwrap();
        for url in [r.html_url.clone(), r.clone_url.clone()] {
            let g = parse_github_input(&url).unwrap();
            assert_eq!((g.owner, g.repo), (r.owner.clone(), r.repo.clone()));
            assert_eq!(g.html_url, r.html_url);
        }
    }
}

#[test]
fn sync_plan() {
    assert_eq!(first_sync_step(true), SyncStep::Fetch);
    assert_eq!(first_sync_step(false), SyncStep::CloneBranch);
    assert_eq!(after_sync_step(SyncStep::Fetch, true, "u"), SyncNext::Run(SyncStep::Checkout));
    assert_eq!(after_sync_step(SyncStep::Fetch, false, "u"), SyncNext::Fail("git fetch failed".to_string()));
    assert_eq!(after_sync_step(SyncStep::Checkout, false, "u"), SyncNext::Run(SyncStep::CheckoutTracking));
    assert_eq!(after_sync_step(SyncStep::Checkout, true, "u"), SyncNext::Run(SyncStep::Reset));
    assert_eq!(
        after_sync_step(SyncStep::CheckoutTracking, false, "u"),
        SyncNext::Fail("git checkout failed".to_string())
    );
    assert_eq!(after_sync_step(SyncStep::Reset, false, "u"), SyncNext::Done);
    assert_eq!(after_sync_step(SyncStep::CloneBranch, false, "u"), SyncNext::Run(SyncStep::CloneDefault));
    assert_eq!(after_sync_step(SyncStep::CloneBranch, true, "u"), SyncNext::Done);
    assert_eq!(
        after_sync_step(SyncStep::CloneDefault, false, "https://github.com/o/r.git"),
        SyncNext::Fail("git clone failed for https://github.com/o/r.git (public repos only, no credentials)".to_string())
    );
}
