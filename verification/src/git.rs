//! Parsing of repository references and of git's textual output, and the
//! rule that decides whether a commit touches a project's root directory.

use vstd::prelude::*;
use vstd::string::StringExecFns;

use crate::text::{
    chars_of, join, keep_nonempty, lines, lines_ranges, nonempty_ranges, opt_str_view,
    opt_string_view, range_contains, range_eq, range_starts_with, ranges_equal, ranges_within,
    segs, split, split_ranges, string_of, strip_prefix_or_keep, strip_prefix_range,
    strip_suffix_all, strip_suffix_all_range, strip_trailing, strip_trailing_range, trim,
    trim_all, trim_range, trim_ranges,
};

verus! {

/// A public GitHub repository named by its owner and name.
#[derive(Debug, Clone)]
pub struct GithubRef {
    pub owner: String,
    pub repo: String,
    pub html_url: String,
    pub clone_url: String,
}

/// A commit read from the local clone.
#[derive(Debug, Clone)]
pub struct CommitInfo {
    pub sha: String,
    pub message: String,
    pub author: String,
    pub date: String,
}

/// Why a repository reference was refused.
#[derive(Debug, Clone, Copy, PartialEq, Eq, Structural)]
pub enum GithubInputError {
    /// Fewer than two path segments were left once scheme and host were removed.
    NotOwnerRepo,
    /// The owner or the repository name holds a `:`.
    InvalidOwnerRepo,
}

impl GithubInputError {
    pub open spec fn spec_message(self) -> Seq<char> {
        match self {
            GithubInputError::NotOwnerRepo => "expected owner/repo or https://github.com/owner/repo"@,
            GithubInputError::InvalidOwnerRepo => "invalid owner/repo"@,
        }
    }

    /// The text of the error, as shown to API clients.
    pub fn message(&self) -> (m: &'static str)
        ensures
            m@ == self.spec_message(),
    {
        match self {
            GithubInputError::NotOwnerRepo => "expected owner/repo or https://github.com/owner/repo",
            GithubInputError::InvalidOwnerRepo => "invalid owner/repo",
        }
    }
}

/// What is left of a repository reference once whitespace, trailing `/`,
/// trailing `.git`, an `http(s)://` scheme and a `github.com/` host are removed.
pub open spec fn github_path(input: Seq<char>) -> Seq<char> {
    let s = strip_suffix_all(strip_trailing(trim(input), '/'), ".git"@);
    let s = if "https://"@.is_prefix_of(s) {
        s.skip("https://"@.len() as int)
    } else if "http://"@.is_prefix_of(s) {
        s.skip("http://"@.len() as int)
    } else {
        s
    };
    strip_prefix_or_keep(s, "github.com/"@)
}

/// The non-empty `/`-separated segments of the reference.
pub open spec fn github_segments(input: Seq<char>) -> Seq<Seq<char>> {
    keep_nonempty(split(github_path(input), '/'))
}

/// Owner and repository named by `input`, or why it names none: the first two
/// non-empty segments, neither of which may hold a `:`.
pub open spec fn spec_parse_github(input: Seq<char>) -> Result<(Seq<char>, Seq<char>), GithubInputError> {
    let parts = github_segments(input);
    if parts.len() < 2 {
        Err(GithubInputError::NotOwnerRepo)
    } else if parts[0].contains(':') || parts[1].contains(':') {
        Err(GithubInputError::InvalidOwnerRepo)
    } else {
        Ok((parts[0], parts[1]))
    }
}

pub open spec fn github_html_url(owner: Seq<char>, repo: Seq<char>) -> Seq<char> {
    "https://github.com/"@ + owner + "/"@ + repo
}

/// Parse `https://github.com/owner/repo`, `github.com/owner/repo`, or `owner/repo`.
/// No API keys — public HTTPS clone only.
pub fn parse_github_input(input: &str) -> (r: Result<GithubRef, GithubInputError>)
    ensures
        match r {
            Ok(g) => {
                &&& spec_parse_github(input@) == Ok::<(Seq<char>, Seq<char>), GithubInputError>(
                    (g.owner@, g.repo@),
                )
                &&& g.html_url@ == github_html_url(g.owner@, g.repo@)
                &&& g.clone_url@ == g.html_url@ + ".git"@
            },
            Err(e) => spec_parse_github(input@) == Err::<(Seq<char>, Seq<char>), GithubInputError>(
                e,
            ),
        },
{
    let v = chars_of(input);
    let n = v.len();
    assert(v@.subrange(0, n as int) =~= input@);
    let (i, j) = trim_range(&v, 0, n);
    let j2 = strip_trailing_range(&v, i, j, '/');
    let j3 = strip_suffix_all_range(&v, i, j2, ".git");
    let st = if range_starts_with(&v, i, j3, "https://") {
        strip_prefix_range(&v, i, j3, "https://")
    } else {
        strip_prefix_range(&v, i, j3, "http://")
    };
    let st2 = strip_prefix_range(&v, st, j3, "github.com/");
    assert(v@.subrange(st2 as int, j3 as int) == github_path(input@));
    let pieces = split_ranges(&v, st2, j3, '/');
    let parts = nonempty_ranges(&v, &pieces, st2, j3);
    let ghost ps = github_segments(input@);
    assert(segs(v@, parts@) == ps);
    if parts.len() < 2 {
        return Err(GithubInputError::NotOwnerRepo);
    }
    let (oa, ob) = parts[0];
    let (ra, rb) = parts[1];
    assert(parts@[0] == (oa, ob) && parts@[1] == (ra, rb));
    assert(ps[0] == v@.subrange(oa as int, ob as int));
    assert(ps[1] == v@.subrange(ra as int, rb as int));
    if range_contains(&v, oa, ob, ':') || range_contains(&v, ra, rb, ':') {
        return Err(GithubInputError::InvalidOwnerRepo);
    }
    let owner = string_of(input, oa, ob);
    let repo = string_of(input, ra, rb);
    let mut html_url = String::from_str("https://github.com/");
    html_url.append(owner.as_str());
    html_url.append("/");
    html_url.append(repo.as_str());
    let mut clone_url = html_url.clone();
    clone_url.append(".git");
    Ok(GithubRef { owner, repo, html_url, clone_url })
}

/// The paths listed in `git diff --name-only` style text: one per line,
/// trimmed, blank lines left out.
pub open spec fn changed_paths(c: Seq<char>) -> Seq<Seq<char>> {
    keep_nonempty(trim_all(lines(c)))
}

/// The project root directory as the skip rule reads it: trimmed, without trailing `/`.
pub open spec fn build_root(root_directory: Seq<char>) -> Seq<char> {
    strip_trailing(trim(root_directory), '/')
}

/// Whether `path` is `root` itself or lies below it.
pub open spec fn under_root(path: Seq<char>, root: Seq<char>) -> bool {
    path == root || (root + "/"@).is_prefix_of(path)
}

pub open spec fn skip_message(root: Seq<char>) -> Seq<char> {
    "Skipped: no changes under root_directory '"@ + root + "'"@
}

/// When a build is skipped: a list of changed files is known and not empty,
/// the root is a subdirectory (neither empty nor `.`), and no changed path
/// lies under it. The result is then the message that explains the skip.
pub open spec fn spec_should_skip_build(root_directory: Seq<char>, changed: Option<Seq<char>>) -> Option<
    Seq<char>,
> {
    match changed {
        None => None,
        Some(c) => {
            let files = changed_paths(c);
            let root = build_root(root_directory);
            if files.len() == 0 || root.len() == 0 || root == "."@ {
                None
            } else if exists|k: int| 0 <= k < files.len() && under_root(#[trigger] files[k], root) {
                None
            } else {
                Some(skip_message(root))
            }
        },
    }
}

/// Returns a skip message when `changed_files` is present and none of the paths
/// fall under `root_directory`. When root is `.` (whole repo), never skip.
pub fn should_skip_build(root_directory: &str, changed_files: Option<&str>) -> (r: Option<String>)
    ensures
        opt_string_view(r) == spec_should_skip_build(root_directory@, opt_str_view(changed_files)),
{
    let files_str = match changed_files {
        Some(c) => c,
        None => return None,
    };
    let v = chars_of(files_str);
    let n = v.len();
    let lr = lines_ranges(&v, 0, n);
    let tr = trim_ranges(&v, &lr, 0, n);
    let files = nonempty_ranges(&v, &tr, 0, n);
    assert(v@.subrange(0, n as int) =~= files_str@);
    let ghost fs = changed_paths(files_str@);
    assert(segs(v@, files@) == fs);
    if files.len() == 0 {
        return None;
    }
    let rv = chars_of(root_directory);
    let (i, j) = trim_range(&rv, 0, rv.len());
    assert(rv@.subrange(0, rv.len() as int) =~= root_directory@);
    let e = strip_trailing_range(&rv, i, j, '/');
    let ghost root = build_root(root_directory@);
    assert(rv@.subrange(i as int, e as int) == root);
    if e == i || range_eq(&rv, i, e, ".") {
        return None;
    }
    let rl = e - i;
    let mut k: usize = 0;
    while k < files.len()
        invariant
            k <= files.len(),
            n == v.len(),
            i <= e <= rv.len(),
            rl == e - i,
            rv@.subrange(i as int, e as int) == root,
            root == build_root(root_directory@),
            fs == changed_paths(files_str@),
            changed_files == Some(files_str),
            fs.len() > 0,
            root.len() > 0,
            root != "."@,
            segs(v@, files@) == fs,
            ranges_within(files@, 0, n as int),
            forall|m: int| 0 <= m < k ==> !under_root(#[trigger] fs[m], root),
        decreases files.len() - k,
    {
        let (x, y) = files[k];
        assert(files@[k as int] == (x, y));
        assert(fs[k as int] == v@.subrange(x as int, y as int));
        let same = ranges_equal(&v, x, y, &rv, i, e);
        let below = y - x > rl && ranges_equal(&v, x, x + rl, &rv, i, e) && v[x + rl] == '/';
        proof {
            let f = v@.subrange(x as int, y as int);
            let p = root + "/"@;
            assert("/"@.len() == 1) by {
                reveal_strlit("/");
            }
            assert("/"@[0] == '/') by {
                reveal_strlit("/");
            }
            if p.is_prefix_of(f) {
                assert(f.subrange(0, rl as int) =~= v@.subrange(x as int, x + rl));
                assert(f.subrange(0, rl as int) =~= p.subrange(0, rl as int));
                assert(p.subrange(0, rl as int) =~= root);
                assert(f[rl as int] == p[rl as int]);
            }
            if below {
                assert(f.subrange(0, p.len() as int) =~= p);
            }
        }
        if same || below {
            assert(under_root(fs[k as int], root));
            assert(k < fs.len());
            assert(exists|kk: int| 0 <= kk < fs.len() && under_root(#[trigger] fs[kk], root));
            return None;
        }
        k = k + 1;
    }
    let mut msg = String::from_str("Skipped: no changes under root_directory '");
    let rs = string_of(root_directory, i, e);
    msg.append(rs.as_str());
    msg.append("'");
    Some(msg)
}

/// The four trimmed fields of one `git log` record, when it is not blank and
/// has at least four `\u{1f}`-separated fields.
pub open spec fn commit_of(record: Seq<char>) -> Option<(Seq<char>, Seq<char>, Seq<char>, Seq<char>)> {
    let t = trim(record);
    let p = split(t, '\u{1f}');
    if t.len() == 0 || p.len() < 4 {
        None
    } else {
        Some((trim(p[0]), trim(p[1]), trim(p[2]), trim(p[3])))
    }
}

/// The commits of a sequence of records, in order, malformed records skipped.
pub open spec fn commits_of(records: Seq<Seq<char>>) -> Seq<(Seq<char>, Seq<char>, Seq<char>, Seq<char>)>
    decreases records.len(),
{
    if records.len() == 0 {
        Seq::empty()
    } else {
        let init = commits_of(records.drop_last());
        match commit_of(records.last()) {
            Some(c) => init.push(c),
            None => init,
        }
    }
}

/// The commits listed by `git log --format=%H%x1f%s%x1f%an%x1f%aI%x1e`:
/// records separated by `\u{1e}`, fields by `\u{1f}`.
pub open spec fn spec_parse_commit_log(text: Seq<char>) -> Seq<(Seq<char>, Seq<char>, Seq<char>, Seq<char>)> {
    commits_of(split(text, '\u{1e}'))
}

/// Sha, message, author and date of a commit.
pub open spec fn commit_view(c: CommitInfo) -> (Seq<char>, Seq<char>, Seq<char>, Seq<char>) {
    (c.sha@, c.message@, c.author@, c.date@)
}

/// List recent commits from the output of `git log` (no GitHub API).
pub fn parse_commit_log(text: &str) -> (r: Vec<CommitInfo>)
    ensures
        r@.map_values(|c: CommitInfo| commit_view(c)) == spec_parse_commit_log(text@),
{
    let v = chars_of(text);
    let n = v.len();
    assert(v@.subrange(0, n as int) =~= text@);
    let recs = split_ranges(&v, 0, n, '\u{1e}');
    let ghost sp = split(text@, '\u{1e}');
    let mut out: Vec<CommitInfo> = Vec::new();
    let mut k: usize = 0;
    assert(sp.take(0) =~= Seq::<Seq<char>>::empty());
    while k < recs.len()
        invariant
            k <= recs.len(),
            n == v.len(),
            v@ == text@,
            sp == split(text@, '\u{1e}'),
            segs(v@, recs@) == sp,
            ranges_within(recs@, 0, n as int),
            out@.map_values(|c: CommitInfo| commit_view(c)) == commits_of(sp.take(k as int)),
        decreases recs.len() - k,
    {
        let (a, b) = recs[k];
        assert(recs@[k as int] == (a, b));
        let ghost rec = sp[k as int];
        assert(rec == v@.subrange(a as int, b as int));
        assert(sp.take(k as int + 1).drop_last() =~= sp.take(k as int));
        assert(sp.take(k as int + 1).last() == rec);
        let (x, y) = trim_range(&v, a, b);
        if x < y {
            let fields = split_ranges(&v, x, y, '\u{1f}');
            if fields.len() >= 4 {
                let ghost fs = split(trim(rec), '\u{1f}');
                assert(segs(v@, fields@) == fs);
                let (a0, b0) = fields[0];
                let (a1, b1) = fields[1];
                let (a2, b2) = fields[2];
                let (a3, b3) = fields[3];
                assert(fields@[0] == (a0, b0) && fields@[1] == (a1, b1));
                assert(fields@[2] == (a2, b2) && fields@[3] == (a3, b3));
                assert(fs[0] == v@.subrange(a0 as int, b0 as int));
                assert(fs[1] == v@.subrange(a1 as int, b1 as int));
                assert(fs[2] == v@.subrange(a2 as int, b2 as int));
                assert(fs[3] == v@.subrange(a3 as int, b3 as int));
                let (s0, e0) = trim_range(&v, a0, b0);
                let (s1, e1) = trim_range(&v, a1, b1);
                let (s2, e2) = trim_range(&v, a2, b2);
                let (s3, e3) = trim_range(&v, a3, b3);
                let c = CommitInfo {
                    sha: string_of(text, s0, e0),
                    message: string_of(text, s1, e1),
                    author: string_of(text, s2, e2),
                    date: string_of(text, s3, e3),
                };
                let ghost old_out = out@;
                out.push(c);
                assert(out@.map_values(|c: CommitInfo| commit_view(c)) =~= old_out.map_values(
                    |c: CommitInfo| commit_view(c),
                ).push(commit_of(rec)->Some_0));
            }
        }
        k = k + 1;
    }
    assert(sp.take(recs.len() as int) =~= sp);
    out
}

/// The file paths that `git diff --name-only` printed: its non-blank lines.
pub fn parse_changed_files(text: &str) -> (r: Vec<String>)
    ensures
        r@.map_values(|s: String| s@) == keep_nonempty(lines(text@)),
{
    let v = chars_of(text);
    let n = v.len();
    assert(v@.subrange(0, n as int) =~= text@);
    let lr = lines_ranges(&v, 0, n);
    let ne = nonempty_ranges(&v, &lr, 0, n);
    let mut out: Vec<String> = Vec::new();
    let mut k: usize = 0;
    while k < ne.len()
        invariant
            k <= ne.len(),
            n == v.len(),
            v@ == text@,
            ranges_within(ne@, 0, n as int),
            out@.map_values(|s: String| s@) == segs(v@, ne@).take(k as int),
        decreases ne.len() - k,
    {
        let (a, b) = ne[k];
        assert(ne@[k as int] == (a, b));
        let ghost old_out = out@;
        let piece = string_of(text, a, b);
        assert(piece@ == segs(v@, ne@)[k as int]);
        out.push(piece);
        assert(out@ == old_out.push(piece));
        assert(out@.map_values(|s: String| s@) =~= old_out.map_values(|s: String| s@).push(piece@));
        assert(segs(v@, ne@).take(k as int + 1) =~= segs(v@, ne@).take(k as int).push(piece@));
        k = k + 1;
    }
    assert(segs(v@, ne@).take(ne.len() as int) =~= segs(v@, ne@));
    out
}

/// How many commits a listing asks git for: the requested number clamped to `1..=100`.
pub fn commit_limit(limit: usize) -> (n: usize)
    ensures
        n == (if limit < 1 {
            1
        } else if limit > 100 {
            100
        } else {
            limit
        }),
{
    if limit < 1 {
        1
    } else if limit > 100 {
        100
    } else {
        limit
    }
}

/// The URL git clones from: the given URL when it already ends in `.git`,
/// else that URL without trailing `/` and with `.git` appended.
pub open spec fn spec_clone_url(url: Seq<char>) -> Seq<char> {
    if ".git"@.is_suffix_of(url) {
        url
    } else {
        strip_trailing(url, '/') + ".git"@
    }
}

/// The clone URL of a repository given by its page or clone URL.
pub fn clone_url_for(url_or_html: &str) -> (r: String)
    ensures
        r@ == spec_clone_url(url_or_html@),
{
    let v = chars_of(url_or_html);
    let n = v.len();
    assert(v@.subrange(0, n as int) =~= url_or_html@);
    if crate::text::range_ends_with(&v, 0, n, ".git") {
        String::from_str(url_or_html)
    } else {
        let e = strip_trailing_range(&v, 0, n, '/');
        let mut r = string_of(url_or_html, 0, e);
        r.append(".git");
        r
    }
}

/// The remote-tracking name of a branch.
pub fn remote_branch(branch: &str) -> (r: String)
    ensures
        r@ == "origin/"@ + branch@,
{
    let mut r = String::from_str("origin/");
    r.append(branch);
    r
}

/// The commit range `from..to` that `git diff` compares.
pub fn commit_range(from: &str, to: &str) -> (r: String)
    ensures
        r@ == from@ + ".."@ + to@,
{
    let mut r = String::from_str(from);
    r.append("..");
    r.append(to);
    r
}

/// One git command of bringing a local clone up to date.
#[derive(Debug, Clone, Copy, PartialEq, Eq, Structural)]
pub enum SyncStep {
    /// `git fetch origin <branch>` in an existing clone.
    Fetch,
    /// `git checkout <branch>`.
    Checkout,
    /// `git checkout -B <branch> origin/<branch>`.
    CheckoutTracking,
    /// `git reset --hard origin/<branch>`; its outcome is not looked at.
    Reset,
    /// `git clone --depth 50 --branch <branch> <url>`.
    CloneBranch,
    /// `git clone --depth 50 <url>` (the default branch).
    CloneDefault,
}

/// What follows a git command of the sync.
#[derive(Debug, Clone, PartialEq, Eq)]
pub enum SyncNext {
    Run(SyncStep),
    Done,
    /// The sync failed with this message.
    Fail(String),
}

/// The first command: fetch into an existing clone, else clone the branch.
pub fn first_sync_step(has_git_dir: bool) -> (s: SyncStep)
    ensures
        s == (if has_git_dir {
            SyncStep::Fetch
        } else {
            SyncStep::CloneBranch
        }),
{
    if has_git_dir {
        SyncStep::Fetch
    } else {
        SyncStep::CloneBranch
    }
}

/// The message of a sync whose clones both failed.
pub open spec fn clone_failed_message(clone_url: Seq<char>) -> Seq<char> {
    "git clone failed for "@ + clone_url + " (public repos only, no credentials)"@
}

/// What follows `step` when it succeeded (`ok`) or not: a failed fetch ends
/// the sync; a failed checkout retries as a tracking checkout, whose failure
/// ends it; either checkout is followed by a hard reset, after which the sync
/// is done whatever the reset gave; a failed clone of the branch retries with
/// the default branch, whose failure ends the sync.
pub open spec fn spec_after_sync(step: SyncStep, ok: bool, clone_url: Seq<char>) -> (SyncStep, int, Seq<char>) {
    match step {
        SyncStep::Fetch => if ok {
            (SyncStep::Checkout, 0, Seq::empty())
        } else {
            (step, 2, "git fetch failed"@)
        },
        SyncStep::Checkout => if ok {
            (SyncStep::Reset, 0, Seq::empty())
        } else {
            (SyncStep::CheckoutTracking, 0, Seq::empty())
        },
        SyncStep::CheckoutTracking => if ok {
            (SyncStep::Reset, 0, Seq::empty())
        } else {
            (step, 2, "git checkout failed"@)
        },
        SyncStep::Reset => (step, 1, Seq::empty()),
        SyncStep::CloneBranch => if ok {
            (step, 1, Seq::empty())
        } else {
            (SyncStep::CloneDefault, 0, Seq::empty())
        },
        SyncStep::CloneDefault => if ok {
            (step, 1, Seq::empty())
        } else {
            (step, 2, clone_failed_message(clone_url))
        },
    }
}

/// A `SyncNext` as (next step, 0 run / 1 done / 2 fail, failure message).
pub open spec fn sync_next_view(n: SyncNext, step: SyncStep) -> (SyncStep, int, Seq<char>) {
    match n {
        SyncNext::Run(s) => (s, 0, Seq::empty()),
        SyncNext::Done => (step, 1, Seq::empty()),
        SyncNext::Fail(m) => (step, 2, m@),
    }
}

/// What the sync does after `step`.
pub fn after_sync_step(step: SyncStep, ok: bool, clone_url: &str) -> (n: SyncNext)
    ensures
        sync_next_view(n, step) == spec_after_sync(step, ok, clone_url@),
{
    match step {
        SyncStep::Fetch => if ok {
            SyncNext::Run(SyncStep::Checkout)
        } else {
            SyncNext::Fail(String::from_str("git fetch failed"))
        },
        SyncStep::Checkout => if ok {
            SyncNext::Run(SyncStep::Reset)
        } else {
            SyncNext::Run(SyncStep::CheckoutTracking)
        },
        SyncStep::CheckoutTracking => if ok {
            SyncNext::Run(SyncStep::Reset)
        } else {
            SyncNext::Fail(String::from_str("git checkout failed"))
        },
        SyncStep::Reset => SyncNext::Done,
        SyncStep::CloneBranch => if ok {
            SyncNext::Done
        } else {
            SyncNext::Run(SyncStep::CloneDefault)
        },
        SyncStep::CloneDefault => if ok {
            SyncNext::Done
        } else {
            let mut m = String::from_str("git clone failed for ");
            m.append(clone_url);
            m.append(" (public repos only, no credentials)");
            SyncNext::Fail(m)
        },
    }
}

/// The position of a step in its plan.
pub open spec fn sync_rank(s: SyncStep) -> int {
    match s {
        SyncStep::Fetch => 0,
        SyncStep::Checkout => 1,
        SyncStep::CheckoutTracking => 2,
        SyncStep::Reset => 3,
        SyncStep::CloneBranch => 0,
        SyncStep::CloneDefault => 1,
    }
}

/// A git command that succeeds never makes the sync fail: a successful clone
/// (of the branch or, after its failure, of the default branch) or reset ends
/// the sync successfully, and a successful fetch or checkout goes on. Only a
/// failed fetch, a failed tracking checkout or a failed clone of the default
/// branch fails it; a failed branch clone retries with the default branch and
/// a failed checkout retries as a tracking checkout.
pub proof fn law_sync_success_never_fails(step: SyncStep, ok: bool, clone_url: Seq<char>)
    ensures
        ok ==> spec_after_sync(step, ok, clone_url).1 != 2,
        ok && (step == SyncStep::CloneBranch || step == SyncStep::CloneDefault || step
            == SyncStep::Reset) ==> spec_after_sync(step, ok, clone_url).1 == 1,
        ok && step == SyncStep::Fetch ==> spec_after_sync(step, ok, clone_url) == (
            SyncStep::Checkout,
            0int,
            Seq::<char>::empty(),
        ),
        !ok && step == SyncStep::CloneBranch ==> spec_after_sync(step, ok, clone_url) == (
            SyncStep::CloneDefault,
            0int,
            Seq::<char>::empty(),
        ),
        !ok && step == SyncStep::Checkout ==> spec_after_sync(step, ok, clone_url) == (
            SyncStep::CheckoutTracking,
            0int,
            Seq::<char>::empty(),
        ),
        spec_after_sync(step, ok, clone_url).1 == 2 ==> !ok && (step == SyncStep::Fetch || step
            == SyncStep::CheckoutTracking || step == SyncStep::CloneDefault),
        !ok && step == SyncStep::CloneDefault ==> spec_after_sync(step, ok, clone_url).2
            == "git clone failed for "@ + clone_url + " (public repos only, no credentials)"@,
{
}

/// A sync runs at most four git commands: each command that follows another
/// stands later in its plan, and a plan has at most four.
pub proof fn law_sync_ends(step: SyncStep, ok: bool, clone_url: Seq<char>)
    ensures
        spec_after_sync(step, ok, clone_url).1 == 0 ==> sync_rank(step) < sync_rank(
            spec_after_sync(step, ok, clone_url).0,
        ) <= 3,
        step == SyncStep::Reset ==> spec_after_sync(step, ok, clone_url).1 == 1,
{
}

/// Without a list of changed files, or for a project built from the whole
/// repository (root `.` or empty, once trimmed and without trailing `/`),
/// a build is never skipped.
pub proof fn law_whole_repo_never_skipped(root_directory: Seq<char>, changed: Option<Seq<char>>)
    requires
        changed is None || build_root(root_directory) == "."@ || build_root(root_directory).len() == 0,
    ensures
        spec_should_skip_build(root_directory, changed) is None,
{
}

/// A build of a subdirectory project is skipped when the commit changes files
/// but none under its root: the result then names the root.
pub proof fn law_untouched_root_skips(root_directory: Seq<char>, changed: Seq<char>)
    requires
        changed_paths(changed).len() > 0,
        build_root(root_directory).len() > 0,
        build_root(root_directory) != "."@,
        forall|k: int|
            0 <= k < changed_paths(changed).len() ==> !under_root(
                #[trigger] changed_paths(changed)[k],
                build_root(root_directory),
            ),
    ensures
        spec_should_skip_build(root_directory, Some(changed)) == Some(
            "Skipped: no changes under root_directory '"@ + build_root(root_directory) + "'"@,
        ),
{
}

/// The clone URL always ends in `.git`: a URL that already does is kept, and
/// a page URL gets `.git` after its trailing `/` is removed.
pub proof fn law_clone_url_ends_in_git(url: Seq<char>)
    ensures
        ".git"@.is_suffix_of(spec_clone_url(url)),
        ".git"@.is_suffix_of(url) ==> spec_clone_url(url) == url,
        !".git"@.is_suffix_of(url) && (url.len() == 0 || url.last() != '/') ==> spec_clone_url(url)
            == url + ".git"@,
{
    reveal_strlit(".git");
    if !".git"@.is_suffix_of(url) {
        let r = strip_trailing(url, '/') + ".git"@;
        assert(r.subrange(r.len() - 4, r.len() as int) =~= ".git"@);
    }
}

/// A change to the root directory itself, or to any path below it, keeps the build.
pub proof fn law_change_under_root_builds(root_directory: Seq<char>, changed: Seq<char>, k: int)
    requires
        0 <= k < changed_paths(changed).len(),
        under_root(changed_paths(changed)[k], build_root(root_directory)),
    ensures
        spec_should_skip_build(root_directory, Some(changed)) is None,
{
}

/// The owner and name of a repository, as `owner/repo`.
pub open spec fn slash_pair(owner: Seq<char>, repo: Seq<char>) -> Seq<char> {
    owner + "/"@ + repo
}

/// Owner and repository names as a successful parse yields them: non-empty
/// and free of `/` and `:`.
pub open spec fn pair_names(owner: Seq<char>, repo: Seq<char>) -> bool {
    &&& owner.len() > 0
    &&& repo.len() > 0
    &&& !owner.contains('/')
    &&& !repo.contains('/')
    &&& !owner.contains(':')
    &&& !repo.contains(':')
}

/// Names that read back from the page URL built of them: as a parse yields
/// them, with a repository name that neither ends in whitespace nor in `.git`.
pub open spec fn url_names(owner: Seq<char>, repo: Seq<char>) -> bool {
    &&& pair_names(owner, repo)
    &&& !crate::text::is_ws(repo.last())
    &&& !".git"@.is_suffix_of(repo)
}

/// Owner and repository names all input forms spell alike: names that read
/// back from their URL, with an owner that does not start with whitespace
/// and is not `github.com`.
pub open spec fn plain_repo_names(owner: Seq<char>, repo: Seq<char>) -> bool {
    &&& url_names(owner, repo)
    &&& !crate::text::is_ws(owner[0])
    &&& owner != "github.com"@
}

proof fn lemma_parse_of_path(input: Seq<char>, owner: Seq<char>, repo: Seq<char>)
    requires
        pair_names(owner, repo),
        github_path(input) == slash_pair(owner, repo),
    ensures
        spec_parse_github(input) == Ok::<(Seq<char>, Seq<char>), GithubInputError>((owner, repo)),
{
    reveal_strlit("/");
    assert("/"@ =~= seq!['/']);
    crate::text::lemma_split_pair(owner, repo, '/');
    crate::text::lemma_keep_nonempty_pair(owner, repo);
}

proof fn lemma_no_git_suffix(p: Seq<char>, owner: Seq<char>, repo: Seq<char>)
    requires
        url_names(owner, repo),
    ensures
        !".git"@.is_suffix_of(p + slash_pair(owner, repo)),
{
    reveal_strlit(".git");
    reveal_strlit("/");
    let t = p + slash_pair(owner, repo);
    let l = t.len() as int;
    assert forall|k: int| 0 <= k < repo.len() implies t[l - repo.len() + k] == repo[k] by {
        assert(t[l - repo.len() + k] == slash_pair(owner, repo)[owner.len() + 1 + k]);
    }
    assert(t[l - repo.len() - 1] == '/') by {
        assert(t[l - repo.len() - 1] == slash_pair(owner, repo)[owner.len() as int]);
    }
    if ".git"@.is_suffix_of(t) {
        assert(t.subrange(l - 4, l) =~= ".git"@);
        if repo.len() >= 4 {
            assert(repo.subrange(repo.len() - 4, repo.len() as int) =~= ".git"@) by {
                assert forall|k: int| 0 <= k < 4 implies repo.subrange(
                    repo.len() - 4,
                    repo.len() as int,
                )[k] == ".git"@[k] by {
                    assert(t[l - 4 + k] == repo[repo.len() - 4 + k]);
                    assert(t.subrange(l - 4, l)[k] == t[l - 4 + k]);
                }
            }
        } else {
            let k = 4 - repo.len() - 1;
            assert(t.subrange(l - 4, l)[k] == t[l - repo.len() - 1]);
        }
    }
}

/// What the `owner/repo` text ends with, and that a prefix leaves it so.
proof fn lemma_pair_last(p: Seq<char>, owner: Seq<char>, repo: Seq<char>)
    requires
        url_names(owner, repo),
    ensures
        (p + slash_pair(owner, repo)).len() > 0,
        (p + slash_pair(owner, repo)).last() == repo.last(),
        repo.last() != '/',
        !crate::text::is_ws((p + slash_pair(owner, repo)).last()),
        strip_trailing(p + slash_pair(owner, repo), '/') == p + slash_pair(owner, repo),
        strip_suffix_all(p + slash_pair(owner, repo), ".git"@) == p + slash_pair(owner, repo),
{
    let t = p + slash_pair(owner, repo);
    assert(t.last() == slash_pair(owner, repo).last());
    assert(repo.last() == repo[repo.len() - 1]);
    assert(repo.last() != '/');
    lemma_no_git_suffix(p, owner, repo);
}

proof fn lemma_plain_pair_shape(owner: Seq<char>, repo: Seq<char>)
    requires
        plain_repo_names(owner, repo),
    ensures
        ({
            let s = slash_pair(owner, repo);
            &&& trim(s) == s
            &&& strip_trailing(s, '/') == s
            &&& strip_suffix_all(s, ".git"@) == s
            &&& !s.contains(':')
            &&& !"https://"@.is_prefix_of(s)
            &&& !"http://"@.is_prefix_of(s)
            &&& strip_prefix_or_keep(s, "github.com/"@) == s
        }),
{
    reveal_strlit("/");
    reveal_strlit(".git");
    reveal_strlit("https://");
    reveal_strlit("http://");
    reveal_strlit("github.com/");
    let s = slash_pair(owner, repo);
    lemma_pair_last(Seq::<char>::empty(), owner, repo);
    assert(Seq::<char>::empty() + s =~= s);
    assert(s[0] == owner[0]);
    crate::text::lemma_trim_id(s);
    assert(!("/"@).contains(':'));
    crate::text::lemma_no_sep_concat(owner, "/"@, ':');
    crate::text::lemma_no_sep_concat(owner + "/"@, repo, ':');
    assert(!"https://"@.is_prefix_of(s)) by {
        if "https://"@.is_prefix_of(s) {
            assert(s.subrange(0, 8)[5] == s[5]);
            assert(s[5] == ':');
        }
    }
    assert(!"http://"@.is_prefix_of(s)) by {
        if "http://"@.is_prefix_of(s) {
            assert(s.subrange(0, 7)[4] == s[4]);
            assert(s[4] == ':');
        }
    }
    assert(!"github.com/"@.is_prefix_of(s)) by {
        if "github.com/"@.is_prefix_of(s) {
            let k = owner.len() as int;
            assert(s[k] == '/');
            if k < 10 {
                assert(s.subrange(0, 11)[k] == s[k]);
                assert("github.com/"@[k] == s[k]);
            } else if k > 10 {
                assert(s.subrange(0, 11)[10] == s[10]);
                assert(s[10] == '/');
                assert(owner[10] == s[10]);
            } else {
                assert(owner =~= s.subrange(0, 10));
                assert(owner =~= "github.com"@.subrange(0, 10)) by {
                    reveal_strlit("github.com");
                }
                reveal_strlit("github.com");
                assert(owner =~= "github.com"@);
            }
        }
    }
}

proof fn lemma_form_host(owner: Seq<char>, repo: Seq<char>)
    requires
        url_names(owner, repo),
    ensures
        github_path("github.com/"@ + slash_pair(owner, repo)) == slash_pair(owner, repo),
{
    reveal_strlit("https://");
    reveal_strlit("http://");
    reveal_strlit("github.com/");
    let s = slash_pair(owner, repo);
    let g = "github.com/"@ + s;
    lemma_pair_last("github.com/"@, owner, repo);
    assert(g[0] == 'g');
    crate::text::lemma_trim_id(g);
    assert(!"https://"@.is_prefix_of(g)) by {
        if "https://"@.is_prefix_of(g) {
            assert(g.subrange(0, 8)[0] == g[0]);
        }
    }
    assert(!"http://"@.is_prefix_of(g)) by {
        if "http://"@.is_prefix_of(g) {
            assert(g.subrange(0, 7)[0] == g[0]);
        }
    }
    assert("github.com/"@.is_prefix_of(g)) by {
        assert(g.subrange(0, 11) =~= "github.com/"@);
    }
    assert(g.skip(11) =~= s);
}

/// `scheme + github.com/owner/repo`, its trailing `/` and `.git` already
/// stripped, reads as `owner/repo` once the scheme is removed.
proof fn lemma_scheme_host(scheme: Seq<char>, owner: Seq<char>, repo: Seq<char>)
    requires
        url_names(owner, repo),
        scheme == "https://"@ || scheme == "http://"@,
    ensures
        ({
            let h = scheme + "github.com/"@ + slash_pair(owner, repo);
            &&& h[0] == 'h'
            &&& h.last() == repo.last()
            &&& strip_trailing(h, '/') == h
            &&& strip_suffix_all(h, ".git"@) == h
            &&& github_path(h) == slash_pair(owner, repo)
        }),
{
    reveal_strlit("https://");
    reveal_strlit("http://");
    reveal_strlit("github.com/");
    let s = slash_pair(owner, repo);
    let h = scheme + "github.com/"@ + s;
    assert(h =~= (scheme + "github.com/"@) + s);
    lemma_pair_last(scheme + "github.com/"@, owner, repo);
    lemma_form_host(owner, repo);
    assert(h[0] == 'h');
    crate::text::lemma_trim_id(h);
    if scheme == "https://"@ {
        assert("https://"@.is_prefix_of(h)) by {
            assert(h.subrange(0, 8) =~= "https://"@);
        }
        assert(h.skip(8) =~= "github.com/"@ + s);
    } else {
        assert(!"https://"@.is_prefix_of(h)) by {
            if "https://"@.is_prefix_of(h) {
                assert(h.subrange(0, 8)[4] == h[4]);
            }
        }
        assert("http://"@.is_prefix_of(h)) by {
            assert(h.subrange(0, 7) =~= "http://"@);
        }
        assert(h.skip(7) =~= "github.com/"@ + s);
    }
    let g = "github.com/"@ + s;
    assert(g[0] == 'g');
    assert(g.last() == repo.last());
    crate::text::lemma_trim_id(g);
    assert("github.com/"@.is_prefix_of(g)) by {
        assert(g.subrange(0, 11) =~= "github.com/"@);
    }
    assert(g.skip(11) =~= s);
}

/// The same URL with a trailing `/` reads alike.
proof fn lemma_scheme_host_slash(scheme: Seq<char>, owner: Seq<char>, repo: Seq<char>)
    requires
        url_names(owner, repo),
        scheme == "https://"@ || scheme == "http://"@,
    ensures
        github_path(scheme + "github.com/"@ + slash_pair(owner, repo) + "/"@) == slash_pair(
            owner,
            repo,
        ),
{
    lemma_scheme_host(scheme, owner, repo);
    reveal_strlit("/");
    let h = scheme + "github.com/"@ + slash_pair(owner, repo);
    let hs = h + "/"@;
    assert(hs.last() == '/');
    assert(hs[0] == 'h');
    crate::text::lemma_trim_id(hs);
    assert(hs.drop_last() =~= h);
    assert(strip_trailing(hs, '/') == h);
}

/// The clone URL (`.git` appended) reads alike.
proof fn lemma_scheme_host_git(scheme: Seq<char>, owner: Seq<char>, repo: Seq<char>)
    requires
        url_names(owner, repo),
        scheme == "https://"@ || scheme == "http://"@,
    ensures
        github_path(scheme + "github.com/"@ + slash_pair(owner, repo) + ".git"@) == slash_pair(
            owner,
            repo,
        ),
{
    lemma_scheme_host(scheme, owner, repo);
    reveal_strlit(".git");
    let h = scheme + "github.com/"@ + slash_pair(owner, repo);
    let hg = h + ".git"@;
    assert(hg[0] == 'h');
    assert(hg.last() == 't');
    crate::text::lemma_trim_id(hg);
    assert(strip_trailing(hg, '/') == hg);
    assert(".git"@.is_suffix_of(hg)) by {
        assert(hg.subrange(hg.len() - 4, hg.len() as int) =~= ".git"@);
    }
    assert(hg.subrange(0, hg.len() - 4) =~= h);
    assert(strip_suffix_all(hg, ".git"@) == h);
}

proof fn lemma_form_dot_git(owner: Seq<char>, repo: Seq<char>)
    requires
        plain_repo_names(owner, repo),
    ensures
        github_path(slash_pair(owner, repo) + ".git"@) == slash_pair(owner, repo),
{
    lemma_plain_pair_shape(owner, repo);
    reveal_strlit(".git");
    let s = slash_pair(owner, repo);
    let sg = s + ".git"@;
    assert(sg[0] == s[0]);
    assert(sg.last() == 't');
    crate::text::lemma_trim_id(sg);
    assert(strip_trailing(sg, '/') == sg);
    assert(".git"@.is_suffix_of(sg)) by {
        assert(sg.subrange(sg.len() - 4, sg.len() as int) =~= ".git"@);
    }
    assert(sg.subrange(0, sg.len() - 4) =~= s);
    assert(strip_suffix_all(sg, ".git"@) == s);
}

pub open spec fn ok_pair(owner: Seq<char>, repo: Seq<char>) -> Result<(Seq<char>, Seq<char>), GithubInputError> {
    Ok((owner, repo))
}

/// `owner/repo`, `github.com/owner/repo`, `https://github.com/owner/repo` and
/// `http://github.com/owner/repo` (each with or without a trailing `/`) and
/// `owner/repo.git` all name the same repository: the given owner and name.
pub proof fn law_github_input_forms(owner: Seq<char>, repo: Seq<char>)
    requires
        plain_repo_names(owner, repo),
    ensures
        spec_parse_github(slash_pair(owner, repo)) == ok_pair(owner, repo),
        spec_parse_github("github.com/"@ + slash_pair(owner, repo)) == ok_pair(owner, repo),
        spec_parse_github("https://"@ + "github.com/"@ + slash_pair(owner, repo)) == ok_pair(owner, repo),
        spec_parse_github("https://"@ + "github.com/"@ + slash_pair(owner, repo) + "/"@) == ok_pair(
            owner,
            repo,
        ),
        spec_parse_github("http://"@ + "github.com/"@ + slash_pair(owner, repo)) == ok_pair(owner, repo),
        spec_parse_github("http://"@ + "github.com/"@ + slash_pair(owner, repo) + "/"@) == ok_pair(
            owner,
            repo,
        ),
        spec_parse_github(slash_pair(owner, repo) + ".git"@) == ok_pair(owner, repo),
{
    lemma_plain_pair_shape(owner, repo);
    let s = slash_pair(owner, repo);
    lemma_parse_of_path(s, owner, repo);
    lemma_form_host(owner, repo);
    lemma_parse_of_path("github.com/"@ + s, owner, repo);
    lemma_scheme_host("https://"@, owner, repo);
    lemma_parse_of_path("https://"@ + "github.com/"@ + s, owner, repo);
    lemma_scheme_host_slash("https://"@, owner, repo);
    lemma_parse_of_path("https://"@ + "github.com/"@ + s + "/"@, owner, repo);
    lemma_scheme_host("http://"@, owner, repo);
    lemma_parse_of_path("http://"@ + "github.com/"@ + s, owner, repo);
    lemma_scheme_host_slash("http://"@, owner, repo);
    lemma_parse_of_path("http://"@ + "github.com/"@ + s + "/"@, owner, repo);
    lemma_form_dot_git(owner, repo);
    lemma_parse_of_path(s + ".git"@, owner, repo);
}

/// The names a successful parse yields are non-empty and free of `/` and `:`.
proof fn lemma_parsed_names(input: Seq<char>)
    requires
        spec_parse_github(input) is Ok,
    ensures
        spec_parse_github(input) matches Ok((o, r)) && pair_names(o, r),
{
    let parts = github_segments(input);
    lemma_split_pieces_no_sep(github_path(input), '/');
    lemma_keep_nonempty_no_sep(split(github_path(input), '/'), '/');
    assert(!parts[0].contains('/') && parts[0].len() > 0);
    assert(!parts[1].contains('/') && parts[1].len() > 0);
}

/// The page URL and the clone URL of a parsed repository name it again:
/// parsing either gives back the same owner and name (and so the same URLs),
/// unless the repository name itself ends in `.git` or in whitespace.
pub proof fn law_github_round_trip(input: Seq<char>)
    requires
        spec_parse_github(input) matches Ok((o, r)) && !".git"@.is_suffix_of(r) && !crate::text::is_ws(
            r.last(),
        ),
    ensures
        spec_parse_github(input) matches Ok((o, r)) && spec_parse_github(github_html_url(o, r))
            == ok_pair(o, r) && spec_parse_github(github_html_url(o, r) + ".git"@) == ok_pair(o, r),
{
    lemma_parsed_names(input);
    if let Ok((o, r)) = spec_parse_github(input) {
        let h = "https://"@ + "github.com/"@ + slash_pair(o, r);
        reveal_strlit("https://github.com/");
        reveal_strlit("https://");
        reveal_strlit("github.com/");
        assert(github_html_url(o, r) =~= h);
        lemma_scheme_host("https://"@, o, r);
        lemma_parse_of_path(h, o, r);
        lemma_scheme_host_git("https://"@, o, r);
        assert(github_html_url(o, r) + ".git"@ =~= h + ".git"@);
        lemma_parse_of_path(h + ".git"@, o, r);
    }
}

/// The changed files of a deployment as stored: one path per line.
pub fn join_lines(files: &Vec<String>) -> (r: String)
    ensures
        r@ == join(files@.map_values(|s: String| s@), "\n"@),
{
    let ghost fv = files@.map_values(|s: String| s@);
    let mut r = String::new();
    let mut i: usize = 0;
    while i < files.len()
        invariant
            i <= files.len(),
            fv == files@.map_values(|s: String| s@),
            r@ == join(fv.take(i as int), "\n"@),
        decreases files.len() - i,
    {
        let ghost t = fv.take(i as int + 1);
        assert(t.drop_last() =~= fv.take(i as int));
        if i > 0 {
            r.append("\n");
        } else {
            assert(t =~= seq![fv[0]]);
        }
        r.append(files[i].as_str());
        i = i + 1;
    }
    assert(fv.take(files.len() as int) =~= fv);
    r
}

proof fn lemma_trim_start_push(y: Seq<char>, c: char)
    requires
        crate::text::trim_start(y).len() > 0,
    ensures
        crate::text::trim_start(y.push(c)) == crate::text::trim_start(y).push(c),
    decreases y.len(),
{
    if y.len() > 0 && crate::text::is_ws(y[0]) {
        assert(y.push(c).drop_first() =~= y.drop_first().push(c));
        lemma_trim_start_push(y.drop_first(), c);
    }
}

proof fn lemma_trim_start_blank_push(y: Seq<char>, c: char)
    requires
        crate::text::trim_start(y).len() == 0,
        crate::text::is_ws(c),
    ensures
        crate::text::trim_start(y.push(c)).len() == 0,
    decreases y.len(),
{
    if y.len() > 0 {
        assert(crate::text::is_ws(y[0]));
        assert(y.push(c)[0] == y[0]);
        assert(y.push(c).drop_first() =~= y.drop_first().push(c));
        lemma_trim_start_blank_push(y.drop_first(), c);
    } else {
        assert(y.push(c)[0] == c);
        assert(y.push(c).drop_first() =~= Seq::<char>::empty());
        assert(crate::text::trim_start(Seq::<char>::empty()) =~= Seq::<char>::empty());
    }
}

proof fn lemma_trim_strip_cr(x: Seq<char>)
    ensures
        trim(crate::text::strip_cr(x)) == trim(x),
{
    if x.len() > 0 && x.last() == '\r' {
        let y = x.drop_last();
        assert(y.push('\r') =~= x);
        if crate::text::trim_start(y).len() > 0 {
            lemma_trim_start_push(y, '\r');
            assert(crate::text::trim_start(y).push('\r').drop_last() =~= crate::text::trim_start(y));
        } else {
            lemma_trim_start_blank_push(y, '\r');
        }
    }
}

proof fn lemma_split_pieces_no_sep(s: Seq<char>, c: char)
    ensures
        forall|k: int| 0 <= k < split(s, c).len() ==> !(#[trigger] split(s, c)[k]).contains(c),
    decreases s.len(),
{
    if s.len() > 0 {
        lemma_split_pieces_no_sep(s.drop_last(), c);
        crate::text::lemma_split_nonempty(s.drop_last(), c);
        let r = split(s.drop_last(), c);
        if s.last() != c {
            let l = r.last().push(s.last());
            assert(!l.contains(c)) by {
                assert(!r[r.len() - 1].contains(c));
                if l.contains(c) {
                    let k = choose|k: int| 0 <= k < l.len() && l[k] == c;
                    if k < r.last().len() {
                        assert(r.last()[k] == c);
                    }
                }
            }
            assert forall|k: int| 0 <= k < split(s, c).len() implies !(#[trigger] split(
                s,
                c,
            )[k]).contains(c) by {
                if k < r.len() - 1 {
                    assert(split(s, c)[k] == r[k]);
                }
            }
        } else {
            assert forall|k: int| 0 <= k < split(s, c).len() implies !(#[trigger] split(
                s,
                c,
            )[k]).contains(c) by {
                if k < r.len() {
                    assert(split(s, c)[k] == r[k]);
                } else {
                    assert(split(s, c)[k] =~= Seq::<char>::empty());
                }
            }
        }
    }
}

proof fn lemma_lines_no_newline(s: Seq<char>)
    ensures
        forall|k: int| 0 <= k < lines(s).len() ==> !(#[trigger] lines(s)[k]).contains('\n'),
{
    lemma_split_pieces_no_sep(s, '\n');
    crate::text::lemma_split_nonempty(s, '\n');
    let p = split(s, '\n');
    assert forall|k: int| 0 <= k < lines(s).len() implies !(#[trigger] lines(s)[k]).contains('\n') by {
        assert(!p[k].contains('\n'));
        if k < p.len() - 1 {
            let x = p[k];
            if x.len() > 0 && x.last() == '\r' {
                if x.drop_last().contains('\n') {
                    let j = choose|j: int| 0 <= j < x.drop_last().len() && x.drop_last()[j] == '\n';
                    assert(x[j] == '\n');
                }
            }
        } else {
            assert(lines(s)[k] == p.last());
        }
    }
}

proof fn lemma_keep_trim_keep(l: Seq<Seq<char>>)
    ensures
        keep_nonempty(trim_all(keep_nonempty(l))) == keep_nonempty(trim_all(l)),
    decreases l.len(),
{
    if l.len() == 0 {
        crate::text::lemma_keep_nonempty_empty(l);
        assert(trim_all(l).len() == 0);
        crate::text::lemma_keep_nonempty_empty(trim_all(l));
    } else {
        let i = l.drop_last();
        let x = l.last();
        lemma_keep_trim_keep(i);
        assert(i.push(x) =~= l);
        crate::text::lemma_keep_nonempty_push(i, x);
        assert(trim_all(l) =~= trim_all(i).push(trim(x)));
        crate::text::lemma_keep_nonempty_push(trim_all(i), trim(x));
        if x.len() > 0 {
            assert(trim_all(keep_nonempty(i).push(x)) =~= trim_all(keep_nonempty(i)).push(trim(x)));
            crate::text::lemma_keep_nonempty_push(trim_all(keep_nonempty(i)), trim(x));
        } else {
            assert(trim(x).len() == 0) by {
                assert(crate::text::trim_start(x) == x);
                assert(crate::text::trim_end(x) == x);
            }
        }
    }
}

proof fn lemma_keep_nonempty_no_sep(l: Seq<Seq<char>>, c: char)
    requires
        forall|k: int| 0 <= k < l.len() ==> !(#[trigger] l[k]).contains(c),
    ensures
        forall|k: int|
            0 <= k < keep_nonempty(l).len() ==> !(#[trigger] keep_nonempty(l)[k]).contains(c)
                && keep_nonempty(l)[k].len() > 0,
    decreases l.len(),
{
    if l.len() == 0 {
        crate::text::lemma_keep_nonempty_empty(l);
    } else {
        let i = l.drop_last();
        assert forall|k: int| 0 <= k < i.len() implies !(#[trigger] i[k]).contains(c) by {
            assert(i[k] == l[k]);
        }
        lemma_keep_nonempty_no_sep(i, c);
        assert(i.push(l.last()) =~= l);
        crate::text::lemma_keep_nonempty_push(i, l.last());
        assert(!l[l.len() - 1].contains(c));
        assert forall|k: int| 0 <= k < keep_nonempty(l).len() implies !(#[trigger] keep_nonempty(
            l,
        )[k]).contains(c) && keep_nonempty(l)[k].len() > 0 by {
            if k < keep_nonempty(i).len() {
                assert(keep_nonempty(l)[k] == keep_nonempty(i)[k]);
            }
        }
    }
}

/// A list of changed files, stored one per line, reads back to the same
/// paths for the skip rule as the `git diff --name-only` output it came from:
/// the skip decision on the stored text is the decision on the raw output.
pub proof fn law_stored_changes_read_back(out: Seq<char>)
    ensures
        changed_paths(join(keep_nonempty(lines(out)), "\n"@)) == changed_paths(out),
{
    reveal_strlit("\n");
    assert("\n"@ =~= seq!['\n']);
    let l = lines(out);
    let f = keep_nonempty(l);
    lemma_keep_trim_keep(l);
    lemma_lines_no_newline(out);
    lemma_keep_nonempty_no_sep(l, '\n');
    if f.len() == 0 {
        assert(join(f, "\n"@) =~= Seq::<char>::empty());
        assert(split(Seq::<char>::empty(), '\n') =~= seq![Seq::<char>::empty()]);
        assert(lines(Seq::<char>::empty()) =~= Seq::<Seq<char>>::empty());
        assert(trim_all(Seq::<Seq<char>>::empty()).len() == 0);
        crate::text::lemma_keep_nonempty_empty(trim_all(Seq::<Seq<char>>::empty()));
        crate::text::lemma_keep_nonempty_empty(f);
        assert(trim_all(f).len() == 0);
        crate::text::lemma_keep_nonempty_empty(trim_all(f));
    } else {
        let j = join(f, seq!['\n']);
        crate::text::lemma_split_join(f, '\n');
        assert(split(j, '\n') == f);
        let lj = lines(j);
        assert(lj.len() == f.len());
        assert forall|k: int| 0 <= k < f.len() implies trim(#[trigger] lj[k]) == trim(f[k]) by {
            if k < f.len() - 1 {
                lemma_trim_strip_cr(f[k]);
            }
        }
        assert(trim_all(lj) =~= trim_all(f));
    }
}

} // verus!
