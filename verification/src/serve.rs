//! Rules for serving files out of a deployment directory: path safety,
//! SPA fallback, content types, and which files are published.

use vstd::prelude::*;
use vstd::string::StringExecFns;

use crate::text::{
    chars_of, keep_nonempty, lemma_split_last_no_sep, lemma_split_nonempty, nonempty_ranges,
    range_contains, range_ends_with, range_eq, range_starts_with, ranges_equal, ranges_within,
    segs, split, split_ranges, string_of, strip_leading, strip_leading_range,
};

verus! {

/// Whether one `/`-separated component of `rel` is `..`.
pub open spec fn spec_has_parent_component(rel: Seq<char>) -> bool {
    split(rel, '/').contains(".."@)
}

/// The last `/`-separated segment of `rel`.
pub open spec fn last_segment(rel: Seq<char>) -> Seq<char> {
    split(rel, '/').last()
}

/// Whether the last segment of `rel` names a file with an extension: it holds
/// a `.` and does not start with one.
pub open spec fn spec_has_file_extension(rel: Seq<char>) -> bool {
    let name = last_segment(rel);
    name.contains('.') && !(name.len() > 0 && name[0] == '.')
}

/// Whether some piece of `r` reads `lit`.
fn some_piece_is(v: &Vec<char>, r: &Vec<(usize, usize)>, lit: &str) -> (b: bool)
    requires
        forall|k: int| 0 <= k < r.len() ==> (#[trigger] r@[k]).0 <= r@[k].1 <= v.len(),
    ensures
        b == segs(v@, r@).contains(lit@),
{
    let mut k: usize = 0;
    while k < r.len()
        invariant
            k <= r.len(),
            forall|m: int| 0 <= m < r.len() ==> (#[trigger] r@[m]).0 <= r@[m].1 <= v.len(),
            forall|m: int| 0 <= m < k ==> #[trigger] segs(v@, r@)[m] != lit@,
        decreases r.len() - k,
    {
        let (a, b) = r[k];
        assert(r@[k as int] == (a, b));
        if range_eq(v, a, b, lit) {
            assert(segs(v@, r@)[k as int] == lit@);
            return true;
        }
        k = k + 1;
    }
    false
}

/// Whether the relative path `rel` climbs out of its directory with a `..` component.
pub fn has_parent_component(rel: &str) -> (b: bool)
    ensures
        b == spec_has_parent_component(rel@),
{
    let v = chars_of(rel);
    let r = split_ranges(&v, 0, v.len(), '/');
    assert(v@.subrange(0, v@.len() as int) =~= rel@);
    some_piece_is(&v, &r, "..")
}

/// Whether the last segment of `rel` looks like a file name with an extension.
pub fn has_file_extension(rel: &str) -> (b: bool)
    ensures
        b == spec_has_file_extension(rel@),
{
    let v = chars_of(rel);
    let r = split_ranges(&v, 0, v.len(), '/');
    assert(v@.subrange(0, v@.len() as int) =~= rel@);
    proof {
        lemma_split_nonempty(rel@, '/');
    }
    let (a, b) = r[r.len() - 1];
    assert(r@[r.len() - 1] == (a, b));
    assert(last_segment(rel@) == v@.subrange(a as int, b as int));
    range_contains(&v, a, b, '.') && !(b > a && v[a] == '.')
}

/// The last component of `parts` that is neither empty nor `.`.
pub open spec fn last_normal(parts: Seq<Seq<char>>) -> Option<Seq<char>>
    decreases parts.len(),
{
    if parts.len() == 0 {
        None
    } else if parts.last().len() > 0 && parts.last() != "."@ {
        Some(parts.last())
    } else {
        last_normal(parts.drop_last())
    }
}

/// `Path::file_name` of a `/`-separated path: its last normal component,
/// unless that is `..`.
pub open spec fn file_name(p: Seq<char>) -> Option<Seq<char>> {
    match last_normal(split(p, '/')) {
        Some(n) => if n == ".."@ {
            None
        } else {
            Some(n)
        },
        None => None,
    }
}

/// `Path::extension`: what follows the last `.` of the file name, unless the
/// name has no `.` or its only `.` is its first character.
pub open spec fn extension(p: Seq<char>) -> Option<Seq<char>> {
    match file_name(p) {
        Some(f) => {
            let ext = split(f, '.').last();
            if !f.contains('.') || f.len() == ext.len() + 1 {
                None
            } else {
                Some(ext)
            }
        },
        None => None,
    }
}

/// The extension of `p`, or the empty text where it has none.
pub open spec fn extension_or_empty(p: Seq<char>) -> Seq<char> {
    match extension(p) {
        Some(e) => e,
        None => Seq::<char>::empty(),
    }
}

/// Range of the file name of `v[0..n]`, when it has one.
fn file_name_range(v: &Vec<char>) -> (r: Option<(usize, usize)>)
    ensures
        match r {
            Some((a, b)) => a <= b <= v.len() && file_name(v@) == Some(v@.subrange(a as int, b as int)),
            None => file_name(v@) is None,
        },
{
    let n = v.len();
    let pieces = split_ranges(v, 0, n, '/');
    assert(v@.subrange(0, n as int) =~= v@);
    let ghost sp = split(v@, '/');
    let mut k: usize = pieces.len();
    assert(sp.take(k as int) =~= sp);
    while k > 0
        invariant
            k <= pieces.len(),
            n == v.len(),
            segs(v@, pieces@) == sp,
            sp == split(v@, '/'),
            forall|m: int| 0 <= m < pieces.len() ==> 0 <= (#[trigger] pieces@[m]).0 <= pieces@[m].1 <= n,
            last_normal(sp.take(k as int)) == last_normal(sp),
        decreases k,
    {
        let (a, b) = pieces[k - 1];
        assert(pieces@[k - 1] == (a, b));
        let ghost t = sp.take(k as int);
        assert(t.last() == v@.subrange(a as int, b as int));
        assert(t.drop_last() =~= sp.take(k - 1));
        if a < b && !range_eq(v, a, b, ".") {
            assert(last_normal(t) == Some(t.last()));
            if range_eq(v, a, b, "..") {
                return None;
            }
            return Some((a, b));
        }
        k = k - 1;
    }
    assert(sp.take(0).len() == 0);
    None
}

/// Range of the extension of `v`, when it has one.
fn extension_range(v: &Vec<char>) -> (r: Option<(usize, usize)>)
    ensures
        match r {
            Some((a, b)) => a <= b <= v.len() && extension(v@) == Some(v@.subrange(a as int, b as int)),
            None => extension(v@) is None,
        },
{
    match file_name_range(v) {
        None => None,
        Some((a, b)) => {
            let pieces = split_ranges(v, a, b, '.');
            let ghost f = v@.subrange(a as int, b as int);
            proof {
                lemma_split_nonempty(f, '.');
                lemma_split_last_no_sep(f, '.');
            }
            let (x, y) = pieces[pieces.len() - 1];
            assert(pieces@[pieces.len() - 1] == (x, y));
            assert(split(f, '.').last() == v@.subrange(x as int, y as int));
            if !range_contains(v, a, b, '.') || b - a == y - x + 1 {
                None
            } else {
                Some((x, y))
            }
        },
    }
}

/// ASCII lower case of one character.
pub open spec fn ascii_lower(c: char) -> char {
    if 'A' <= c && c <= 'Z' {
        (((c as u8) + 32) as u8) as char
    } else {
        c
    }
}

/// ASCII lower case of a text (`str::to_ascii_lowercase`).
pub open spec fn ascii_lower_seq(s: Seq<char>) -> Seq<char> {
    s.map_values(|c: char| ascii_lower(c))
}

/// Whether the ASCII lower case of `v[a..b]` reads `lit`.
fn lower_range_eq(v: &Vec<char>, a: usize, b: usize, lit: &str) -> (r: bool)
    requires
        a <= b <= v.len(),
    ensures
        r == (ascii_lower_seq(v@.subrange(a as int, b as int)) == lit@),
{
    let l = chars_of(lit);
    let ghost lw = ascii_lower_seq(v@.subrange(a as int, b as int));
    if b - a != l.len() {
        assert(lw.len() != lit@.len());
        return false;
    }
    let mut k: usize = 0;
    while k < l.len()
        invariant
            a <= b <= v.len(),
            b - a == l.len(),
            k <= l.len(),
            l@ == lit@,
            lw == ascii_lower_seq(v@.subrange(a as int, b as int)),
            forall|m: int| 0 <= m < k ==> #[trigger] lw[m] == l@[m],
        decreases l.len() - k,
    {
        let c = v[a + k];
        let d = l[k];
        assert(lw[k as int] == ascii_lower(c));
        let lc = if 'A' <= c && c <= 'Z' {
            ((c as u8) + 32) as char
        } else {
            c
        };
        if lc != d {
            return false;
        }
        k = k + 1;
    }
    assert(lw =~= lit@);
    true
}

/// Content type by lower-cased extension, for files of a deployment.
pub open spec fn spec_mime(ext: Seq<char>) -> Seq<char> {
    if ext == "html"@ || ext == "htm"@ {
        "text/html; charset=utf-8"@
    } else if ext == "css"@ {
        "text/css; charset=utf-8"@
    } else if ext == "js"@ || ext == "mjs"@ {
        "application/javascript; charset=utf-8"@
    } else if ext == "json"@ {
        "application/json; charset=utf-8"@
    } else if ext == "svg"@ {
        "image/svg+xml"@
    } else if ext == "png"@ {
        "image/png"@
    } else if ext == "jpg"@ || ext == "jpeg"@ {
        "image/jpeg"@
    } else if ext == "gif"@ {
        "image/gif"@
    } else if ext == "webp"@ {
        "image/webp"@
    } else if ext == "ico"@ {
        "image/x-icon"@
    } else if ext == "woff"@ {
        "font/woff"@
    } else if ext == "woff2"@ {
        "font/woff2"@
    } else if ext == "ttf"@ {
        "font/ttf"@
    } else if ext == "txt"@ || ext == "map"@ {
        "text/plain; charset=utf-8"@
    } else if ext == "wasm"@ {
        "application/wasm"@
    } else if ext == "xml"@ {
        "application/xml"@
    } else {
        "application/octet-stream"@
    }
}

/// Content type of a deployment file, by the ASCII lower case of its extension.
pub fn mime_guess(path: &str) -> (m: &'static str)
    ensures
        m@ == spec_mime(ascii_lower_seq(extension_or_empty(path@))),
{
    let v = chars_of(path);
    let (a, b) = match extension_range(&v) {
        Some(r) => r,
        None => (0, 0),
    };
    assert(v@.subrange(0, 0) =~= Seq::<char>::empty());
    if lower_range_eq(&v, a, b, "html") || lower_range_eq(&v, a, b, "htm") {
        "text/html; charset=utf-8"
    } else if lower_range_eq(&v, a, b, "css") {
        "text/css; charset=utf-8"
    } else if lower_range_eq(&v, a, b, "js") || lower_range_eq(&v, a, b, "mjs") {
        "application/javascript; charset=utf-8"
    } else if lower_range_eq(&v, a, b, "json") {
        "application/json; charset=utf-8"
    } else if lower_range_eq(&v, a, b, "svg") {
        "image/svg+xml"
    } else if lower_range_eq(&v, a, b, "png") {
        "image/png"
    } else if lower_range_eq(&v, a, b, "jpg") || lower_range_eq(&v, a, b, "jpeg") {
        "image/jpeg"
    } else if lower_range_eq(&v, a, b, "gif") {
        "image/gif"
    } else if lower_range_eq(&v, a, b, "webp") {
        "image/webp"
    } else if lower_range_eq(&v, a, b, "ico") {
        "image/x-icon"
    } else if lower_range_eq(&v, a, b, "woff") {
        "font/woff"
    } else if lower_range_eq(&v, a, b, "woff2") {
        "font/woff2"
    } else if lower_range_eq(&v, a, b, "ttf") {
        "font/ttf"
    } else if lower_range_eq(&v, a, b, "txt") || lower_range_eq(&v, a, b, "map") {
        "text/plain; charset=utf-8"
    } else if lower_range_eq(&v, a, b, "wasm") {
        "application/wasm"
    } else if lower_range_eq(&v, a, b, "xml") {
        "application/xml"
    } else {
        "application/octet-stream"
    }
}

/// Content type by exact extension, for files served on a custom domain.
pub open spec fn spec_content_type(ext: Seq<char>) -> Seq<char> {
    if ext == "html"@ || ext == "htm"@ {
        "text/html; charset=utf-8"@
    } else if ext == "css"@ {
        "text/css; charset=utf-8"@
    } else if ext == "js"@ || ext == "mjs"@ {
        "application/javascript; charset=utf-8"@
    } else if ext == "json"@ {
        "application/json"@
    } else if ext == "svg"@ {
        "image/svg+xml"@
    } else if ext == "png"@ {
        "image/png"@
    } else if ext == "jpg"@ || ext == "jpeg"@ {
        "image/jpeg"@
    } else if ext == "gif"@ {
        "image/gif"@
    } else if ext == "webp"@ {
        "image/webp"@
    } else if ext == "ico"@ {
        "image/x-icon"@
    } else if ext == "woff"@ {
        "font/woff"@
    } else if ext == "woff2"@ {
        "font/woff2"@
    } else if ext == "txt"@ {
        "text/plain; charset=utf-8"@
    } else if ext == "xml"@ {
        "application/xml"@
    } else if ext == "map"@ {
        "application/json"@
    } else {
        "application/octet-stream"@
    }
}

/// The extension of a file path `dir/stem.ext` (a non-empty stem, an
/// extension without `.`, neither holding `/`) is `ext`, so its content type
/// is that of `ext`: `…/assets/index-abc123.js` is served as JavaScript.
pub proof fn law_extension_of_file(dir: Seq<char>, stem: Seq<char>, ext: Seq<char>)
    requires
        stem.len() > 0,
        ext.len() > 0,
        !stem.contains('/'),
        !ext.contains('/'),
        !ext.contains('.'),
    ensures
        extension(dir + seq!['/'] + stem + seq!['.'] + ext) == Some(ext),
        extension_or_empty(dir + seq!['/'] + stem + seq!['.'] + ext) == ext,
{
    let f = stem + seq!['.'] + ext;
    let p = dir + seq!['/'] + stem + seq!['.'] + ext;
    assert(p =~= dir + seq!['/'] + f);
    assert(!seq!['.'].contains('/'));
    crate::text::lemma_no_sep_concat(stem, seq!['.'], '/');
    crate::text::lemma_no_sep_concat(stem + seq!['.'], ext, '/');
    crate::text::lemma_split_append(dir, f, '/');
    let parts = split(p, '/');
    assert(parts.last() == f);
    assert(f.len() > 0);
    reveal_strlit(".");
    reveal_strlit("..");
    assert(f != "."@) by {
        assert(f.len() >= 3);
    }
    assert(last_normal(parts) == Some(f));
    assert(f != ".."@) by {
        assert(f.len() >= 3);
    }
    assert(file_name(p) == Some(f));
    crate::text::lemma_split_append(stem, ext, '.');
    assert(split(f, '.').last() == ext);
    assert(f[stem.len() as int] == '.');
    assert(f.contains('.'));
}

/// A route whose last segment holds no `.` (`/dashboard/settings`) has no file
/// extension, so a miss falls back to the deployment's `index.html`; one whose
/// last segment is `stem.ext` with a stem not starting with `.`
/// (`/assets/app.js`) has one, so a miss stays a miss.
pub proof fn law_spa_routes(dir: Seq<char>, name: Seq<char>, stem: Seq<char>, ext: Seq<char>)
    requires
        !name.contains('/'),
        !name.contains('.'),
        stem.len() > 0,
        stem[0] != '.',
        !stem.contains('/'),
        !ext.contains('/'),
    ensures
        !spec_has_file_extension(dir + seq!['/'] + name),
        spec_has_file_extension(dir + seq!['/'] + stem + seq!['.'] + ext),
{
    crate::text::lemma_split_append(dir, name, '/');
    assert(last_segment(dir + seq!['/'] + name) == name);
    let f = stem + seq!['.'] + ext;
    assert(dir + seq!['/'] + stem + seq!['.'] + ext =~= dir + seq!['/'] + f);
    crate::text::lemma_no_sep_concat(stem, seq!['.'], '/');
    crate::text::lemma_no_sep_concat(stem + seq!['.'], ext, '/');
    crate::text::lemma_split_append(dir, f, '/');
    assert(last_segment(dir + seq!['/'] + f) == f);
    assert(f[stem.len() as int] == '.');
    assert(f[0] == stem[0]);
}

/// Local hosts never map to a custom domain: the empty host and any host
/// starting with `localhost` or `127.0.0.1` are reserved; a host starting
/// with another character than `l` or `1` is not.
pub proof fn law_reserved_hosts(rest: Seq<char>, host: Seq<char>)
    ensures
        spec_is_reserved_host(Seq::empty()),
        spec_is_reserved_host("localhost"@ + rest),
        spec_is_reserved_host("127.0.0.1"@ + rest),
        host.len() > 0 && host[0] != 'l' && host[0] != '1' ==> !spec_is_reserved_host(host),
{
    reveal_strlit("localhost");
    reveal_strlit("127.0.0.1");
    let a = "localhost"@ + rest;
    assert(a.subrange(0, 9) =~= "localhost"@);
    let b = "127.0.0.1"@ + rest;
    assert(b.subrange(0, 9) =~= "127.0.0.1"@);
    if host.len() > 0 && host[0] != 'l' && host[0] != '1' {
        if "localhost"@.is_prefix_of(host) {
            assert(host.subrange(0, 9)[0] == host[0]);
        }
        if "127.0.0.1"@.is_prefix_of(host) {
            assert(host.subrange(0, 9)[0] == host[0]);
        }
    }
}

/// On a custom domain, `/{rel}` asks for the file `rel` of the deployment
/// (whatever it names), and the root `/` for its `index.html`.
pub proof fn law_domain_candidate(rel: Seq<char>)
    requires
        rel.len() > 0,
        rel[0] != '/',
    ensures
        spec_domain_candidate(seq!['/'] + rel) == rel,
        spec_domain_candidate(seq!['/']) == "index.html"@,
        spec_domain_candidate(Seq::empty()) == "index.html"@,
{
    let p = seq!['/'] + rel;
    assert(p.drop_first() =~= rel);
    assert(strip_leading(rel, '/') == rel);
    assert(strip_leading(p, '/') == rel);
    assert(seq!['/'].drop_first() =~= Seq::<char>::empty());
    assert(strip_leading(Seq::<char>::empty(), '/') == Seq::<char>::empty());
    assert(strip_leading(seq!['/'], '/') == Seq::<char>::empty());
}

/// The extensions the content types name are distinct texts.
proof fn lemma_extensions_distinct()
    ensures
        "html"@ != "htm"@,
        "html"@ != "css"@,
        "html"@ != "js"@,
        "html"@ != "mjs"@,
        "html"@ != "json"@,
        "html"@ != "svg"@,
        "html"@ != "png"@,
        "html"@ != "jpg"@,
        "html"@ != "jpeg"@,
        "html"@ != "gif"@,
        "html"@ != "webp"@,
        "html"@ != "ico"@,
        "html"@ != "woff"@,
        "html"@ != "woff2"@,
        "html"@ != "ttf"@,
        "html"@ != "txt"@,
        "html"@ != "map"@,
        "html"@ != "wasm"@,
        "html"@ != "xml"@,
        "htm"@ != "css"@,
        "htm"@ != "js"@,
        "htm"@ != "mjs"@,
        "htm"@ != "json"@,
        "htm"@ != "svg"@,
        "htm"@ != "png"@,
        "htm"@ != "jpg"@,
        "htm"@ != "jpeg"@,
        "htm"@ != "gif"@,
        "htm"@ != "webp"@,
        "htm"@ != "ico"@,
        "htm"@ != "woff"@,
        "htm"@ != "woff2"@,
        "htm"@ != "ttf"@,
        "htm"@ != "txt"@,
        "htm"@ != "map"@,
        "htm"@ != "wasm"@,
        "htm"@ != "xml"@,
        "css"@ != "js"@,
        "css"@ != "mjs"@,
        "css"@ != "json"@,
        "css"@ != "svg"@,
        "css"@ != "png"@,
        "css"@ != "jpg"@,
        "css"@ != "jpeg"@,
        "css"@ != "gif"@,
        "css"@ != "webp"@,
        "css"@ != "ico"@,
        "css"@ != "woff"@,
        "css"@ != "woff2"@,
        "css"@ != "ttf"@,
        "css"@ != "txt"@,
        "css"@ != "map"@,
        "css"@ != "wasm"@,
        "css"@ != "xml"@,
        "js"@ != "mjs"@,
        "js"@ != "json"@,
        "js"@ != "svg"@,
        "js"@ != "png"@,
        "js"@ != "jpg"@,
        "js"@ != "jpeg"@,
        "js"@ != "gif"@,
        "js"@ != "webp"@,
        "js"@ != "ico"@,
        "js"@ != "woff"@,
        "js"@ != "woff2"@,
        "js"@ != "ttf"@,
        "js"@ != "txt"@,
        "js"@ != "map"@,
        "js"@ != "wasm"@,
        "js"@ != "xml"@,
        "mjs"@ != "json"@,
        "mjs"@ != "svg"@,
        "mjs"@ != "png"@,
        "mjs"@ != "jpg"@,
        "mjs"@ != "jpeg"@,
        "mjs"@ != "gif"@,
        "mjs"@ != "webp"@,
        "mjs"@ != "ico"@,
        "mjs"@ != "woff"@,
        "mjs"@ != "woff2"@,
        "mjs"@ != "ttf"@,
        "mjs"@ != "txt"@,
        "mjs"@ != "map"@,
        "mjs"@ != "wasm"@,
        "mjs"@ != "xml"@,
        "json"@ != "svg"@,
        "json"@ != "png"@,
        "json"@ != "jpg"@,
        "json"@ != "jpeg"@,
        "json"@ != "gif"@,
        "json"@ != "webp"@,
        "json"@ != "ico"@,
        "json"@ != "woff"@,
        "json"@ != "woff2"@,
        "json"@ != "ttf"@,
        "json"@ != "txt"@,
        "json"@ != "map"@,
        "json"@ != "wasm"@,
        "json"@ != "xml"@,
        "svg"@ != "png"@,
        "svg"@ != "jpg"@,
        "svg"@ != "jpeg"@,
        "svg"@ != "gif"@,
        "svg"@ != "webp"@,
        "svg"@ != "ico"@,
        "svg"@ != "woff"@,
        "svg"@ != "woff2"@,
        "svg"@ != "ttf"@,
        "svg"@ != "txt"@,
        "svg"@ != "map"@,
        "svg"@ != "wasm"@,
        "svg"@ != "xml"@,
        "png"@ != "jpg"@,
        "png"@ != "jpeg"@,
        "png"@ != "gif"@,
        "png"@ != "webp"@,
        "png"@ != "ico"@,
        "png"@ != "woff"@,
        "png"@ != "woff2"@,
        "png"@ != "ttf"@,
        "png"@ != "txt"@,
        "png"@ != "map"@,
        "png"@ != "wasm"@,
        "png"@ != "xml"@,
        "jpg"@ != "jpeg"@,
        "jpg"@ != "gif"@,
        "jpg"@ != "webp"@,
        "jpg"@ != "ico"@,
        "jpg"@ != "woff"@,
        "jpg"@ != "woff2"@,
        "jpg"@ != "ttf"@,
        "jpg"@ != "txt"@,
        "jpg"@ != "map"@,
        "jpg"@ != "wasm"@,
        "jpg"@ != "xml"@,
        "jpeg"@ != "gif"@,
        "jpeg"@ != "webp"@,
        "jpeg"@ != "ico"@,
        "jpeg"@ != "woff"@,
        "jpeg"@ != "woff2"@,
        "jpeg"@ != "ttf"@,
        "jpeg"@ != "txt"@,
        "jpeg"@ != "map"@,
        "jpeg"@ != "wasm"@,
        "jpeg"@ != "xml"@,
        "gif"@ != "webp"@,
        "gif"@ != "ico"@,
        "gif"@ != "woff"@,
        "gif"@ != "woff2"@,
        "gif"@ != "ttf"@,
        "gif"@ != "txt"@,
        "gif"@ != "map"@,
        "gif"@ != "wasm"@,
        "gif"@ != "xml"@,
        "webp"@ != "ico"@,
        "webp"@ != "woff"@,
        "webp"@ != "woff2"@,
        "webp"@ != "ttf"@,
        "webp"@ != "txt"@,
        "webp"@ != "map"@,
        "webp"@ != "wasm"@,
        "webp"@ != "xml"@,
        "ico"@ != "woff"@,
        "ico"@ != "woff2"@,
        "ico"@ != "ttf"@,
        "ico"@ != "txt"@,
        "ico"@ != "map"@,
        "ico"@ != "wasm"@,
        "ico"@ != "xml"@,
        "woff"@ != "woff2"@,
        "woff"@ != "ttf"@,
        "woff"@ != "txt"@,
        "woff"@ != "map"@,
        "woff"@ != "wasm"@,
        "woff"@ != "xml"@,
        "woff2"@ != "ttf"@,
        "woff2"@ != "txt"@,
        "woff2"@ != "map"@,
        "woff2"@ != "wasm"@,
        "woff2"@ != "xml"@,
        "ttf"@ != "txt"@,
        "ttf"@ != "map"@,
        "ttf"@ != "wasm"@,
        "ttf"@ != "xml"@,
        "txt"@ != "map"@,
        "txt"@ != "wasm"@,
        "txt"@ != "xml"@,
        "map"@ != "wasm"@,
        "map"@ != "xml"@,
        "wasm"@ != "xml"@,
{
    reveal_strlit("html");
    reveal_strlit("htm");
    reveal_strlit("css");
    reveal_strlit("js");
    reveal_strlit("mjs");
    reveal_strlit("json");
    reveal_strlit("svg");
    reveal_strlit("png");
    reveal_strlit("jpg");
    reveal_strlit("jpeg");
    reveal_strlit("gif");
    reveal_strlit("webp");
    reveal_strlit("ico");
    reveal_strlit("woff");
    reveal_strlit("woff2");
    reveal_strlit("ttf");
    reveal_strlit("txt");
    reveal_strlit("map");
    reveal_strlit("wasm");
    reveal_strlit("xml");
    assert("html"@.len() != "htm"@.len());
    assert("html"@.len() != "css"@.len());
    assert("html"@.len() != "js"@.len());
    assert("html"@.len() != "mjs"@.len());
    assert("html"@[0] != "json"@[0]);
    assert("html"@.len() != "svg"@.len());
    assert("html"@.len() != "png"@.len());
    assert("html"@.len() != "jpg"@.len());
    assert("html"@[0] != "jpeg"@[0]);
    assert("html"@.len() != "gif"@.len());
    assert("html"@[0] != "webp"@[0]);
    assert("html"@.len() != "ico"@.len());
    assert("html"@[0] != "woff"@[0]);
    assert("html"@.len() != "woff2"@.len());
    assert("html"@.len() != "ttf"@.len());
    assert("html"@.len() != "txt"@.len());
    assert("html"@.len() != "map"@.len());
    assert("html"@[0] != "wasm"@[0]);
    assert("html"@.len() != "xml"@.len());
    assert("htm"@[0] != "css"@[0]);
    assert("htm"@.len() != "js"@.len());
    assert("htm"@[0] != "mjs"@[0]);
    assert("htm"@.len() != "json"@.len());
    assert("htm"@[0] != "svg"@[0]);
    assert("htm"@[0] != "png"@[0]);
    assert("htm"@[0] != "jpg"@[0]);
    assert("htm"@.len() != "jpeg"@.len());
    assert("htm"@[0] != "gif"@[0]);
    assert("htm"@.len() != "webp"@.len());
    assert("htm"@[0] != "ico"@[0]);
    assert("htm"@.len() != "woff"@.len());
    assert("htm"@.len() != "woff2"@.len());
    assert("htm"@[0] != "ttf"@[0]);
    assert("htm"@[0] != "txt"@[0]);
    assert("htm"@[0] != "map"@[0]);
    assert("htm"@.len() != "wasm"@.len());
    assert("htm"@[0] != "xml"@[0]);
    assert("css"@.len() != "js"@.len());
    assert("css"@[0] != "mjs"@[0]);
    assert("css"@.len() != "json"@.len());
    assert("css"@[0] != "svg"@[0]);
    assert("css"@[0] != "png"@[0]);
    assert("css"@[0] != "jpg"@[0]);
    assert("css"@.len() != "jpeg"@.len());
    assert("css"@[0] != "gif"@[0]);
    assert("css"@.len() != "webp"@.len());
    assert("css"@[0] != "ico"@[0]);
    assert("css"@.len() != "woff"@.len());
    assert("css"@.len() != "woff2"@.len());
    assert("css"@[0] != "ttf"@[0]);
    assert("css"@[0] != "txt"@[0]);
    assert("css"@[0] != "map"@[0]);
    assert("css"@.len() != "wasm"@.len());
    assert("css"@[0] != "xml"@[0]);
    assert("js"@.len() != "mjs"@.len());
    assert("js"@.len() != "json"@.len());
    assert("js"@.len() != "svg"@.len());
    assert("js"@.len() != "png"@.len());
    assert("js"@.len() != "jpg"@.len());
    assert("js"@.len() != "jpeg"@.len());
    assert("js"@.len() != "gif"@.len());
    assert("js"@.len() != "webp"@.len());
    assert("js"@.len() != "ico"@.len());
    assert("js"@.len() != "woff"@.len());
    assert("js"@.len() != "woff2"@.len());
    assert("js"@.len() != "ttf"@.len());
    assert("js"@.len() != "txt"@.len());
    assert("js"@.len() != "map"@.len());
    assert("js"@.len() != "wasm"@.len());
    assert("js"@.len() != "xml"@.len());
    assert("mjs"@.len() != "json"@.len());
    assert("mjs"@[0] != "svg"@[0]);
    assert("mjs"@[0] != "png"@[0]);
    assert("mjs"@[0] != "jpg"@[0]);
    assert("mjs"@.len() != "jpeg"@.len());
    assert("mjs"@[0] != "gif"@[0]);
    assert("mjs"@.len() != "webp"@.len());
    assert("mjs"@[0] != "ico"@[0]);
    assert("mjs"@.len() != "woff"@.len());
    assert("mjs"@.len() != "woff2"@.len());
    assert("mjs"@[0] != "ttf"@[0]);
    assert("mjs"@[0] != "txt"@[0]);
    assert("mjs"@[1] != "map"@[1]);
    assert("mjs"@.len() != "wasm"@.len());
    assert("mjs"@[0] != "xml"@[0]);
    assert("json"@.len() != "svg"@.len());
    assert("json"@.len() != "png"@.len());
    assert("json"@.len() != "jpg"@.len());
    assert("json"@[1] != "jpeg"@[1]);
    assert("json"@.len() != "gif"@.len());
    assert("json"@[0] != "webp"@[0]);
    assert("json"@.len() != "ico"@.len());
    assert("json"@[0] != "woff"@[0]);
    assert("json"@.len() != "woff2"@.len());
    assert("json"@.len() != "ttf"@.len());
    assert("json"@.len() != "txt"@.len());
    assert("json"@.len() != "map"@.len());
    assert("json"@[0] != "wasm"@[0]);
    assert("json"@.len() != "xml"@.len());
    assert("svg"@[0] != "png"@[0]);
    assert("svg"@[0] != "jpg"@[0]);
    assert("svg"@.len() != "jpeg"@.len());
    assert("svg"@[0] != "gif"@[0]);
    assert("svg"@.len() != "webp"@.len());
    assert("svg"@[0] != "ico"@[0]);
    assert("svg"@.len() != "woff"@.len());
    assert("svg"@.len() != "woff2"@.len());
    assert("svg"@[0] != "ttf"@[0]);
    assert("svg"@[0] != "txt"@[0]);
    assert("svg"@[0] != "map"@[0]);
    assert("svg"@.len() != "wasm"@.len());
    assert("svg"@[0] != "xml"@[0]);
    assert("png"@[0] != "jpg"@[0]);
    assert("png"@.len() != "jpeg"@.len());
    assert("png"@[0] != "gif"@[0]);
    assert("png"@.len() != "webp"@.len());
    assert("png"@[0] != "ico"@[0]);
    assert("png"@.len() != "woff"@.len());
    assert("png"@.len() != "woff2"@.len());
    assert("png"@[0] != "ttf"@[0]);
    assert("png"@[0] != "txt"@[0]);
    assert("png"@[0] != "map"@[0]);
    assert("png"@.len() != "wasm"@.len());
    assert("png"@[0] != "xml"@[0]);
    assert("jpg"@.len() != "jpeg"@.len());
    assert("jpg"@[0] != "gif"@[0]);
    assert("jpg"@.len() != "webp"@.len());
    assert("jpg"@[0] != "ico"@[0]);
    assert("jpg"@.len() != "woff"@.len());
    assert("jpg"@.len() != "woff2"@.len());
    assert("jpg"@[0] != "ttf"@[0]);
    assert("jpg"@[0] != "txt"@[0]);
    assert("jpg"@[0] != "map"@[0]);
    assert("jpg"@.len() != "wasm"@.len());
    assert("jpg"@[0] != "xml"@[0]);
    assert("jpeg"@.len() != "gif"@.len());
    assert("jpeg"@[0] != "webp"@[0]);
    assert("jpeg"@.len() != "ico"@.len());
    assert("jpeg"@[0] != "woff"@[0]);
    assert("jpeg"@.len() != "woff2"@.len());
    assert("jpeg"@.len() != "ttf"@.len());
    assert("jpeg"@.len() != "txt"@.len());
    assert("jpeg"@.len() != "map"@.len());
    assert("jpeg"@[0] != "wasm"@[0]);
    assert("jpeg"@.len() != "xml"@.len());
    assert("gif"@.len() != "webp"@.len());
    assert("gif"@[0] != "ico"@[0]);
    assert("gif"@.len() != "woff"@.len());
    assert("gif"@.len() != "woff2"@.len());
    assert("gif"@[0] != "ttf"@[0]);
    assert("gif"@[0] != "txt"@[0]);
    assert("gif"@[0] != "map"@[0]);
    assert("gif"@.len() != "wasm"@.len());
    assert("gif"@[0] != "xml"@[0]);
    assert("webp"@.len() != "ico"@.len());
    assert("webp"@[1] != "woff"@[1]);
    assert("webp"@.len() != "woff2"@.len());
    assert("webp"@.len() != "ttf"@.len());
    assert("webp"@.len() != "txt"@.len());
    assert("webp"@.len() != "map"@.len());
    assert("webp"@[1] != "wasm"@[1]);
    assert("webp"@.len() != "xml"@.len());
    assert("ico"@.len() != "woff"@.len());
    assert("ico"@.len() != "woff2"@.len());
    assert("ico"@[0] != "ttf"@[0]);
    assert("ico"@[0] != "txt"@[0]);
    assert("ico"@[0] != "map"@[0]);
    assert("ico"@.len() != "wasm"@.len());
    assert("ico"@[0] != "xml"@[0]);
    assert("woff"@.len() != "woff2"@.len());
    assert("woff"@.len() != "ttf"@.len());
    assert("woff"@.len() != "txt"@.len());
    assert("woff"@.len() != "map"@.len());
    assert("woff"@[1] != "wasm"@[1]);
    assert("woff"@.len() != "xml"@.len());
    assert("woff2"@.len() != "ttf"@.len());
    assert("woff2"@.len() != "txt"@.len());
    assert("woff2"@.len() != "map"@.len());
    assert("woff2"@.len() != "wasm"@.len());
    assert("woff2"@.len() != "xml"@.len());
    assert("ttf"@[1] != "txt"@[1]);
    assert("ttf"@[0] != "map"@[0]);
    assert("ttf"@.len() != "wasm"@.len());
    assert("ttf"@[0] != "xml"@[0]);
    assert("txt"@[0] != "map"@[0]);
    assert("txt"@.len() != "wasm"@.len());
    assert("txt"@[0] != "xml"@[0]);
    assert("map"@.len() != "wasm"@.len());
    assert("map"@[0] != "xml"@[0]);
    assert("wasm"@.len() != "xml"@.len());
}

/// The content type of a deployment file follows its extension, whatever
/// its case: scripts (`js`, `mjs`) are JavaScript, pages (`html`, `htm`) HTML,
/// stylesheets CSS, and so on; a file with another extension, or none, is
/// served as `application/octet-stream`.
pub proof fn law_mime_by_extension(path: Seq<char>)
    ensures
        ({
            let e = ascii_lower_seq(extension_or_empty(path));
            let m = spec_mime(e);
            &&& (e == "js"@ || e == "mjs"@) ==> m == "application/javascript; charset=utf-8"@
            &&& (e == "html"@ || e == "htm"@) ==> m == "text/html; charset=utf-8"@
            &&& e == "css"@ ==> m == "text/css; charset=utf-8"@
            &&& e == "json"@ ==> m == "application/json; charset=utf-8"@
            &&& e == "svg"@ ==> m == "image/svg+xml"@
            &&& e == "png"@ ==> m == "image/png"@
            &&& (e == "jpg"@ || e == "jpeg"@) ==> m == "image/jpeg"@
            &&& e == "gif"@ ==> m == "image/gif"@
            &&& e == "webp"@ ==> m == "image/webp"@
            &&& e == "ico"@ ==> m == "image/x-icon"@
            &&& e == "woff"@ ==> m == "font/woff"@
            &&& e == "woff2"@ ==> m == "font/woff2"@
            &&& e == "ttf"@ ==> m == "font/ttf"@
            &&& (e == "txt"@ || e == "map"@) ==> m == "text/plain; charset=utf-8"@
            &&& e == "wasm"@ ==> m == "application/wasm"@
            &&& e == "xml"@ ==> m == "application/xml"@
            &&& e.len() == 0 ==> m == "application/octet-stream"@
        }),
{
    reveal_strlit("js");
    reveal_strlit("mjs");
    reveal_strlit("html");
    reveal_strlit("htm");
    reveal_strlit("css");
    reveal_strlit("json");
    reveal_strlit("svg");
    reveal_strlit("png");
    reveal_strlit("jpg");
    reveal_strlit("jpeg");
    reveal_strlit("gif");
    reveal_strlit("webp");
    reveal_strlit("ico");
    reveal_strlit("woff");
    reveal_strlit("woff2");
    reveal_strlit("ttf");
    reveal_strlit("txt");
    reveal_strlit("map");
    reveal_strlit("wasm");
    reveal_strlit("xml");
    lemma_extensions_distinct();
}

/// On a custom domain the content type follows the exact extension: scripts
/// (`js`, `mjs`) are JavaScript, pages HTML, source maps and JSON
/// `application/json`, and so on; an extension not listed (`ttf`, `wasm`,
/// upper case) or none gives `application/octet-stream`.
pub proof fn law_content_type_by_extension(path: Seq<char>)
    ensures
        ({
            let e = extension_or_empty(path);
            let m = spec_content_type(e);
            &&& (e == "js"@ || e == "mjs"@) ==> m == "application/javascript; charset=utf-8"@
            &&& (e == "html"@ || e == "htm"@) ==> m == "text/html; charset=utf-8"@
            &&& e == "css"@ ==> m == "text/css; charset=utf-8"@
            &&& (e == "json"@ || e == "map"@) ==> m == "application/json"@
            &&& e == "svg"@ ==> m == "image/svg+xml"@
            &&& e == "png"@ ==> m == "image/png"@
            &&& (e == "jpg"@ || e == "jpeg"@) ==> m == "image/jpeg"@
            &&& e == "gif"@ ==> m == "image/gif"@
            &&& e == "webp"@ ==> m == "image/webp"@
            &&& e == "ico"@ ==> m == "image/x-icon"@
            &&& e == "woff"@ ==> m == "font/woff"@
            &&& e == "woff2"@ ==> m == "font/woff2"@
            &&& e == "txt"@ ==> m == "text/plain; charset=utf-8"@
            &&& e == "xml"@ ==> m == "application/xml"@
            &&& (e == "ttf"@ || e == "wasm"@ || e.len() == 0) ==> m == "application/octet-stream"@
        }),
{
    lemma_extensions_distinct();
    reveal_strlit("html");
    reveal_strlit("htm");
    reveal_strlit("css");
    reveal_strlit("js");
    reveal_strlit("mjs");
    reveal_strlit("json");
    reveal_strlit("svg");
    reveal_strlit("png");
    reveal_strlit("jpg");
    reveal_strlit("jpeg");
    reveal_strlit("gif");
    reveal_strlit("webp");
    reveal_strlit("ico");
    reveal_strlit("woff");
    reveal_strlit("woff2");
    reveal_strlit("ttf");
    reveal_strlit("txt");
    reveal_strlit("map");
    reveal_strlit("wasm");
    reveal_strlit("xml");
}

/// Content type of a file served on a custom domain, by its exact extension.
/// There is always one: unknown extensions get `application/octet-stream`.
pub fn guess_content_type(path: &str) -> (m: Option<&'static str>)
    ensures
        m matches Some(t) && t@ == spec_content_type(extension_or_empty(path@)),
{
    let v = chars_of(path);
    let (a, b) = match extension_range(&v) {
        Some(r) => r,
        None => (0, 0),
    };
    assert(v@.subrange(0, 0) =~= Seq::<char>::empty());
    if range_eq(&v, a, b, "html") || range_eq(&v, a, b, "htm") {
        Some("text/html; charset=utf-8")
    } else if range_eq(&v, a, b, "css") {
        Some("text/css; charset=utf-8")
    } else if range_eq(&v, a, b, "js") || range_eq(&v, a, b, "mjs") {
        Some("application/javascript; charset=utf-8")
    } else if range_eq(&v, a, b, "json") {
        Some("application/json")
    } else if range_eq(&v, a, b, "svg") {
        Some("image/svg+xml")
    } else if range_eq(&v, a, b, "png") {
        Some("image/png")
    } else if range_eq(&v, a, b, "jpg") || range_eq(&v, a, b, "jpeg") {
        Some("image/jpeg")
    } else if range_eq(&v, a, b, "gif") {
        Some("image/gif")
    } else if range_eq(&v, a, b, "webp") {
        Some("image/webp")
    } else if range_eq(&v, a, b, "ico") {
        Some("image/x-icon")
    } else if range_eq(&v, a, b, "woff") {
        Some("font/woff")
    } else if range_eq(&v, a, b, "woff2") {
        Some("font/woff2")
    } else if range_eq(&v, a, b, "txt") {
        Some("text/plain; charset=utf-8")
    } else if range_eq(&v, a, b, "xml") {
        Some("application/xml")
    } else if range_eq(&v, a, b, "map") {
        Some("application/json")
    } else {
        Some("application/octet-stream")
    }
}

/// Why a deployment path was refused.
#[derive(Debug, Clone, Copy, PartialEq, Eq, Structural)]
pub enum ServeError {
    /// The path climbs out of the deployment directory.
    InvalidPath,
}

/// Where to look for the file that answers a request into a deployment,
/// all paths relative to the deployment directory.
#[derive(Debug, Clone)]
pub struct ServePlan {
    /// The request path without leading `/`.
    pub rel: String,
    /// Tried first: `index.html` inside a directory-like path, the path itself otherwise.
    pub primary: String,
    /// Tried second: the path itself, when it is not empty.
    pub candidate: Option<String>,
    /// Whether a miss falls back to the deployment's `index.html` (no file extension).
    pub spa_fallback: bool,
    /// The URI handed to the static directory service as a last resort.
    pub serve_dir_uri: String,
}

/// The request path as the deployment directory sees it: without leading `/`.
pub open spec fn deployment_rel(rel: Seq<char>) -> Seq<char> {
    strip_leading(rel, '/')
}

pub open spec fn spec_primary(r: Seq<char>) -> Seq<char> {
    if "/"@.is_suffix_of(r) {
        r + "index.html"@
    } else if r.len() == 0 {
        "index.html"@
    } else {
        r
    }
}

pub open spec fn spec_serve_dir_uri(r: Seq<char>) -> Seq<char> {
    if r.len() == 0 {
        "/"@
    } else {
        "/"@ + r
    }
}

/// The plan for serving `rel` out of a deployment, or the refusal of a path
/// with a `..` component.
pub fn plan_static_serve(rel: &str) -> (p: Result<ServePlan, ServeError>)
    ensures
        ({
            let r = deployment_rel(rel@);
            match p {
                Ok(plan) => {
                    &&& !spec_has_parent_component(r)
                    &&& plan.rel@ == r
                    &&& plan.primary@ == spec_primary(r)
                    &&& plan.candidate.is_some() == (r.len() > 0)
                    &&& (plan.candidate matches Some(c) ==> c@ == r)
                    &&& plan.spa_fallback == !spec_has_file_extension(r)
                    &&& plan.serve_dir_uri@ == spec_serve_dir_uri(r)
                },
                Err(e) => e == ServeError::InvalidPath && spec_has_parent_component(r),
            }
        }),
{
    let v = chars_of(rel);
    let n = v.len();
    assert(v@.subrange(0, n as int) =~= rel@);
    let st = strip_leading_range(&v, 0, n, '/');
    let r = string_of(rel, st, n);
    if has_parent_component(r.as_str()) {
        return Err(ServeError::InvalidPath);
    }
    let empty = st == n;
    let primary = if range_ends_with(&v, st, n, "/") {
        let mut p = r.clone();
        p.append("index.html");
        p
    } else if empty {
        String::from_str("index.html")
    } else {
        r.clone()
    };
    let candidate = if empty {
        None
    } else {
        Some(r.clone())
    };
    let spa_fallback = !has_file_extension(r.as_str());
    let serve_dir_uri = if empty {
        String::from_str("/")
    } else {
        let mut u = String::from_str("/");
        u.append(r.as_str());
        u
    };
    Ok(ServePlan { rel: r, primary, candidate, spa_fallback, serve_dir_uri })
}

/// Which file answers a request into a deployment.
#[derive(Debug, Clone, Copy, PartialEq, Eq, Structural)]
pub enum StaticChoice {
    /// The plan's primary path.
    Primary,
    /// The plan's candidate path.
    Candidate,
    /// The deployment's `index.html` (SPA fallback).
    Index,
    /// None of these: let the static directory service answer.
    ServeDir,
}

/// Serve a file from a deployment directory with SPA fallback: the primary
/// path when it is a file, else the candidate when it is one, else the
/// deployment's `index.html` when the path has no extension and that file
/// exists, else the static directory service.
pub fn pick_static_file(
    plan: &ServePlan,
    primary_is_file: bool,
    candidate_is_file: bool,
    index_is_file: bool,
) -> (c: StaticChoice)
    ensures
        c == (if primary_is_file {
            StaticChoice::Primary
        } else if plan.candidate.is_some() && candidate_is_file {
            StaticChoice::Candidate
        } else if plan.spa_fallback && index_is_file {
            StaticChoice::Index
        } else {
            StaticChoice::ServeDir
        }),
{
    if primary_is_file {
        StaticChoice::Primary
    } else if plan.candidate.is_some() && candidate_is_file {
        StaticChoice::Candidate
    } else if plan.spa_fallback && index_is_file {
        StaticChoice::Index
    } else {
        StaticChoice::ServeDir
    }
}

/// After the static directory service answered: whether its answer gives way
/// to the deployment's `index.html` (a miss on an extension-less path, with
/// that file present).
pub fn index_after_miss(plan: &ServePlan, not_found: bool, index_is_file: bool) -> (b: bool)
    ensures
        b == (not_found && plan.spa_fallback && index_is_file),
{
    not_found && plan.spa_fallback && index_is_file
}

/// Hosts that never map to a custom domain: empty, `localhost…` and `127.0.0.1…`.
pub open spec fn spec_is_reserved_host(host: Seq<char>) -> bool {
    host.len() == 0 || "localhost"@.is_prefix_of(host) || "127.0.0.1"@.is_prefix_of(host)
}

/// Whether a (normalized) host is left to the default answer instead of a custom domain.
pub fn is_reserved_host(host: &str) -> (b: bool)
    ensures
        b == spec_is_reserved_host(host@),
{
    let v = chars_of(host);
    let n = v.len();
    assert(v@.subrange(0, n as int) =~= host@);
    n == 0 || range_starts_with(&v, 0, n, "localhost") || range_starts_with(&v, 0, n, "127.0.0.1")
}

/// The file a custom-domain request names, relative to the deployment directory:
/// the request path without leading `/`, or `index.html` for the root.
pub open spec fn spec_domain_candidate(path: Seq<char>) -> Seq<char> {
    let rel = strip_leading(path, '/');
    if rel.len() == 0 {
        "index.html"@
    } else {
        rel
    }
}

/// The candidate file of a custom-domain request path.
pub fn domain_candidate(path: &str) -> (c: String)
    ensures
        c@ == spec_domain_candidate(path@),
{
    let v = chars_of(path);
    let n = v.len();
    assert(v@.subrange(0, n as int) =~= path@);
    let st = strip_leading_range(&v, 0, n, '/');
    if st == n {
        String::from_str("index.html")
    } else {
        string_of(path, st, n)
    }
}

/// The file that answers a custom-domain request.
#[derive(Debug, Clone, Copy, PartialEq, Eq, Structural)]
pub enum DomainFile {
    /// The candidate itself.
    Candidate,
    /// `index.html` inside the candidate directory.
    CandidateIndex,
    /// The deployment's `index.html` (SPA fallback).
    RootIndex,
}

/// The candidate when it is a file; else its `index.html` when it is a
/// directory that holds one; else the deployment's `index.html` when the
/// request path holds no `.` and that file exists; else nothing (not found).
pub fn pick_domain_file(
    path: &str,
    candidate_is_file: bool,
    candidate_dir_has_index: bool,
    index_is_file: bool,
) -> (f: Option<DomainFile>)
    ensures
        f == (if candidate_is_file {
            Some(DomainFile::Candidate)
        } else if candidate_dir_has_index {
            Some(DomainFile::CandidateIndex)
        } else if index_is_file && !strip_leading(path@, '/').contains('.') {
            Some(DomainFile::RootIndex)
        } else {
            None
        }),
{
    if candidate_is_file {
        Some(DomainFile::Candidate)
    } else if candidate_dir_has_index {
        Some(DomainFile::CandidateIndex)
    } else {
        let v = chars_of(path);
        let n = v.len();
        assert(v@.subrange(0, n as int) =~= path@);
        let st = strip_leading_range(&v, 0, n, '/');
        if index_is_file && !range_contains(&v, st, n, '.') {
            Some(DomainFile::RootIndex)
        } else {
            None
        }
    }
}

/// Directory names that are never copied into a published deployment.
pub open spec fn is_skipped_dir(name: Seq<char>) -> bool {
    name == "node_modules"@ || name == ".git"@ || name == "target"@
}

/// The components of a path: its `/`-separated names, empty ones (from a
/// leading, trailing or doubled `/`) left out.
pub open spec fn path_components(p: Seq<char>) -> Seq<Seq<char>> {
    keep_nonempty(split(p, '/'))
}

/// Whether `p` is absolute (starts with `/`).
pub open spec fn is_absolute(p: Seq<char>) -> bool {
    p.len() > 0 && p[0] == '/'
}

/// `Path::starts_with` on canonical paths (no `.` or `..` components): both
/// absolute or both relative, and the components of `root` begin those of `file`.
pub open spec fn spec_within_root(root: Seq<char>, file: Seq<char>) -> bool {
    is_absolute(root) == is_absolute(file) && path_components(root).is_prefix_of(
        path_components(file),
    )
}

/// Whether a file found for a custom-domain request lies inside the
/// deployment directory `root`, both given as canonical paths. A file outside
/// (reached through `..` or a symbolic link) is answered 403.
pub fn within_root(root: &str, file: &str) -> (b: bool)
    ensures
        b == spec_within_root(root@, file@),
{
    let rv = chars_of(root);
    let fv = chars_of(file);
    assert(rv@.subrange(0, rv@.len() as int) =~= root@);
    assert(fv@.subrange(0, fv@.len() as int) =~= file@);
    let ra = rv.len() > 0 && rv[0] == '/';
    let fa = fv.len() > 0 && fv[0] == '/';
    assert(ra == is_absolute(root@) && fa == is_absolute(file@));
    if ra != fa {
        return false;
    }
    let rp = split_ranges(&rv, 0, rv.len(), '/');
    let rc = nonempty_ranges(&rv, &rp, 0, rv.len());
    let fp = split_ranges(&fv, 0, fv.len(), '/');
    let fc = nonempty_ranges(&fv, &fp, 0, fv.len());
    let ghost rs = path_components(root@);
    let ghost fs = path_components(file@);
    assert(segs(rv@, rc@) == rs);
    assert(segs(fv@, fc@) == fs);
    if rc.len() > fc.len() {
        return false;
    }
    let mut k: usize = 0;
    while k < rc.len()
        invariant
            k <= rc.len() <= fc.len(),
            ranges_within(rc@, 0, rv@.len() as int),
            ranges_within(fc@, 0, fv@.len() as int),
            segs(rv@, rc@) == rs,
            segs(fv@, fc@) == fs,
            rs == path_components(root@),
            fs == path_components(file@),
            is_absolute(root@) == is_absolute(file@),
            forall|j: int| 0 <= j < k ==> rs[j] == fs[j],
        decreases rc.len() - k,
    {
        let (a, b) = rc[k];
        let (c, d) = fc[k];
        assert(rc@[k as int] == (a, b) && fc@[k as int] == (c, d));
        assert(rs[k as int] == rv@.subrange(a as int, b as int));
        assert(fs[k as int] == fv@.subrange(c as int, d as int));
        if !ranges_equal(&rv, a, b, &fv, c, d) {
            proof {
                if rs.is_prefix_of(fs) {
                    assert(fs.subrange(0, rs.len() as int)[k as int] == fs[k as int]);
                }
            }
            return false;
        }
        k = k + 1;
    }
    assert(rs =~= fs.subrange(0, rs.len() as int));
    true
}

/// Whether a path relative to the build output lies in a skipped directory
/// (`node_modules`, `.git` or `target`, at any depth).
pub open spec fn spec_excluded_from_copy(rel: Seq<char>) -> bool {
    exists|k: int| 0 <= k < split(rel, '/').len() && is_skipped_dir(#[trigger] split(rel, '/')[k])
}

/// Whether `rel` is left out when a build output is copied into a deployment.
pub fn excluded_from_copy(rel: &str) -> (b: bool)
    ensures
        b == spec_excluded_from_copy(rel@),
{
    let v = chars_of(rel);
    let n = v.len();
    assert(v@.subrange(0, n as int) =~= rel@);
    let r = split_ranges(&v, 0, n, '/');
    let ghost sp = split(rel@, '/');
    let mut k: usize = 0;
    while k < r.len()
        invariant
            k <= r.len(),
            n == v.len(),
            sp == split(rel@, '/'),
            segs(v@, r@) == sp,
            forall|m: int| 0 <= m < r.len() ==> 0 <= (#[trigger] r@[m]).0 <= r@[m].1 <= n,
            forall|m: int| 0 <= m < k ==> !is_skipped_dir(#[trigger] sp[m]),
        decreases r.len() - k,
    {
        let (a, b) = r[k];
        assert(r@[k as int] == (a, b));
        assert(sp[k as int] == v@.subrange(a as int, b as int));
        if range_eq(&v, a, b, "node_modules") || range_eq(&v, a, b, ".git") || range_eq(
            &v,
            a,
            b,
            "target",
        ) {
            assert(is_skipped_dir(sp[k as int]));
            return true;
        }
        k = k + 1;
    }
    false
}

} // verus!
