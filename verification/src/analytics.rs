//! Which deployment, project or slug a served request counts a hit for.

use vstd::prelude::*;

use crate::text::{
    chars_of, lemma_split_nonempty, range_starts_with, segs, split, split_ranges, string_of,
};

verus! {

/// The first `/`-separated segment of `s`.
pub open spec fn first_segment(s: Seq<char>) -> Seq<char> {
    split(s, '/')[0]
}

/// The non-empty first segment after `prefix`, when `path` starts with `prefix`.
pub open spec fn id_after(path: Seq<char>, prefix: Seq<char>) -> Option<Seq<char>> {
    if prefix.is_prefix_of(path) {
        let id = first_segment(path.skip(prefix.len() as int));
        if id.len() > 0 {
            Some(id)
        } else {
            None
        }
    } else {
        None
    }
}

/// The segment after `prefix` in `path`, as an owned string, when it is there and not empty.
fn segment_after(path: &str, prefix: &str) -> (r: Option<String>)
    ensures
        match r {
            Some(id) => id_after(path@, prefix@) == Some(id@),
            None => id_after(path@, prefix@) is None,
        },
{
    let v = chars_of(path);
    let n = v.len();
    assert(v@.subrange(0, n as int) =~= path@);
    if !range_starts_with(&v, 0, n, prefix) {
        return None;
    }
    let st = chars_of(prefix).len();
    assert(path@.skip(st as int) =~= v@.subrange(st as int, n as int));
    let pieces = split_ranges(&v, st, n, '/');
    proof {
        lemma_split_nonempty(v@.subrange(st as int, n as int), '/');
    }
    let (a, b) = pieces[0];
    assert(pieces@[0] == (a, b));
    assert(segs(v@, pieces@)[0] == v@.subrange(a as int, b as int));
    if a == b {
        None
    } else {
        Some(string_of(path, a, b))
    }
}

/// The deployment id of a `/_deploy/{id}/...` request path.
pub fn extract_deployment_id_from_path(path: &str) -> (r: Option<String>)
    ensures
        match r {
            Some(id) => id_after(path@, "/_deploy/"@) == Some(id@),
            None => id_after(path@, "/_deploy/"@) is None,
        },
{
    segment_after(path, "/_deploy/")
}

/// What a request hit is counted for.
#[derive(Debug, Clone, PartialEq, Eq)]
pub enum HitTarget {
    /// A preview deployment, `/_deploy/{id}`.
    Deployment(String),
    /// The production alias of a project, `/p/{project_id}`.
    Project(String),
    /// The production alias of a project, `/s/{slug}`.
    Slug(String),
}

/// Kind and key of a hit target.
pub open spec fn hit_view(t: HitTarget) -> (int, Seq<char>) {
    match t {
        HitTarget::Deployment(s) => (0, s@),
        HitTarget::Project(s) => (1, s@),
        HitTarget::Slug(s) => (2, s@),
    }
}

/// The target a request path counts for: a deployment id wins; otherwise a
/// path under `/p/` names a project and one under `/s/` a slug; an empty
/// segment names nothing.
pub open spec fn spec_hit_target(path: Seq<char>) -> Option<(int, Seq<char>)> {
    match id_after(path, "/_deploy/"@) {
        Some(id) => Some((0, id)),
        None => if "/p/"@.is_prefix_of(path) {
            match id_after(path, "/p/"@) {
                Some(id) => Some((1, id)),
                None => None,
            }
        } else {
            match id_after(path, "/s/"@) {
                Some(id) => Some((2, id)),
                None => None,
            }
        },
    }
}

/// Record hits for `/_deploy/{id}`, `/p/{project_id}`, and `/s/{slug}` requests:
/// which of them, if any, a request path is counted for.
pub fn hit_target(path: &str) -> (r: Option<HitTarget>)
    ensures
        match r {
            Some(t) => spec_hit_target(path@) == Some(hit_view(t)),
            None => spec_hit_target(path@) is None,
        },
{
    if let Some(id) = extract_deployment_id_from_path(path) {
        return Some(HitTarget::Deployment(id));
    }
    let v = chars_of(path);
    assert(v@.subrange(0, v@.len() as int) =~= path@);
    if range_starts_with(&v, 0, v.len(), "/p/") {
        match segment_after(path, "/p/") {
            Some(id) => Some(HitTarget::Project(id)),
            None => None,
        }
    } else {
        match segment_after(path, "/s/") {
            Some(id) => Some(HitTarget::Slug(id)),
            None => None,
        }
    }
}

/// A request for `/_deploy/{id}` or for any path below it counts for the
/// deployment `id`.
pub proof fn law_deploy_path_names_deployment(id: Seq<char>, rest: Seq<char>)
    requires
        id.len() > 0,
        !id.contains('/'),
        rest.len() == 0 || rest[0] == '/',
    ensures
        id_after("/_deploy/"@ + id + rest, "/_deploy/"@) == Some(id),
        spec_hit_target("/_deploy/"@ + id + rest) == Some((0int, id)),
{
    reveal_strlit("/_deploy/");
    let p = "/_deploy/"@ + id + rest;
    assert("/_deploy/"@.is_prefix_of(p)) by {
        assert(p.subrange(0, 9) =~= "/_deploy/"@);
    }
    let after = p.skip(9);
    assert(after =~= id + rest);
    if rest.len() == 0 {
        assert(after =~= id);
        crate::text::lemma_split_no_sep(id, '/');
    } else {
        assert(after =~= id + seq!['/'] + rest.drop_first());
        crate::text::lemma_split_first(id, rest.drop_first(), '/');
    }
}

/// The segment after a prefix is the id that follows it, up to the next `/`.
proof fn lemma_id_after(pre: Seq<char>, id: Seq<char>, rest: Seq<char>)
    requires
        id.len() > 0,
        !id.contains('/'),
        rest.len() == 0 || rest[0] == '/',
    ensures
        id_after(pre + id + rest, pre) == Some(id),
{
    let p = pre + id + rest;
    assert(pre.is_prefix_of(p)) by {
        assert(p.subrange(0, pre.len() as int) =~= pre);
    }
    let after = p.skip(pre.len() as int);
    assert(after =~= id + rest);
    if rest.len() == 0 {
        assert(after =~= id);
        crate::text::lemma_split_no_sep(id, '/');
    } else {
        assert(after =~= id + seq!['/'] + rest.drop_first());
        crate::text::lemma_split_first(id, rest.drop_first(), '/');
    }
}

/// A request for `/p/{project_id}` or below counts for that project, and one
/// for `/s/{slug}` or below for that slug; a path outside the three prefixes
/// counts for nothing.
pub proof fn law_alias_paths_name_targets(id: Seq<char>, rest: Seq<char>, other: Seq<char>)
    requires
        id.len() > 0,
        !id.contains('/'),
        rest.len() == 0 || rest[0] == '/',
    ensures
        spec_hit_target("/p/"@ + id + rest) == Some((1int, id)),
        spec_hit_target("/s/"@ + id + rest) == Some((2int, id)),
        !"/_deploy/"@.is_prefix_of(other) && !"/p/"@.is_prefix_of(other) && !"/s/"@.is_prefix_of(
            other,
        ) ==> spec_hit_target(other) is None,
{
    reveal_strlit("/_deploy/");
    reveal_strlit("/p/");
    reveal_strlit("/s/");
    lemma_id_after("/p/"@, id, rest);
    lemma_id_after("/s/"@, id, rest);
    let pp = "/p/"@ + id + rest;
    let sp = "/s/"@ + id + rest;
    assert(!"/_deploy/"@.is_prefix_of(pp)) by {
        if "/_deploy/"@.is_prefix_of(pp) {
            assert(pp.subrange(0, 9)[1] == pp[1]);
        }
    }
    assert("/p/"@.is_prefix_of(pp)) by {
        assert(pp.subrange(0, 3) =~= "/p/"@);
    }
    assert(!"/_deploy/"@.is_prefix_of(sp)) by {
        if "/_deploy/"@.is_prefix_of(sp) {
            assert(sp.subrange(0, 9)[1] == sp[1]);
        }
    }
    assert(!"/p/"@.is_prefix_of(sp)) by {
        if "/p/"@.is_prefix_of(sp) {
            assert(sp.subrange(0, 3)[1] == sp[1]);
        }
    }
}

} // verus!
