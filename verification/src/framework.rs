//! Framework detection: from what a project's root directory holds, which
//! framework it uses and how it is installed, built and published.

use vstd::prelude::*;
use vstd::string::StringExecFns;

use crate::text::{chars_of, opt_string_view, range_eq};

verus! {

/// The framework of a project and the commands that build it.
#[derive(Debug, Clone)]
pub struct FrameworkInfo {
    pub framework: Option<String>,
    pub install_command: Option<String>,
    pub build_command: Option<String>,
    pub output_directory: Option<String>,
}

/// The four fields of a `FrameworkInfo`, as texts.
pub open spec fn info_view(i: FrameworkInfo) -> (
    Option<Seq<char>>,
    Option<Seq<char>>,
    Option<Seq<char>>,
    Option<Seq<char>>,
) {
    (
        opt_string_view(i.framework),
        opt_string_view(i.install_command),
        opt_string_view(i.build_command),
        opt_string_view(i.output_directory),
    )
}

impl Default for FrameworkInfo {
    fn default() -> (i: Self)
        ensures
            i.framework is None,
            i.install_command is None,
            i.build_command is None,
            i.output_directory is None,
    {
        FrameworkInfo {
            framework: None,
            install_command: None,
            build_command: None,
            output_directory: None,
        }
    }
}

/// What detection reads from a `package.json`: the names under
/// `dependencies` and `devDependencies`, and whether `scripts` has `build`.
#[derive(Debug, Clone)]
pub struct PackageJson {
    pub dependencies: Vec<String>,
    pub dev_dependencies: Vec<String>,
    pub has_build_script: bool,
}

impl PackageJson {
    /// A manifest that declares nothing (what an unreadable file amounts to).
    pub fn empty() -> (p: PackageJson)
        ensures
            p.dependencies@.len() == 0,
            p.dev_dependencies@.len() == 0,
            !p.has_build_script,
    {
        PackageJson { dependencies: Vec::new(), dev_dependencies: Vec::new(), has_build_script: false }
    }
}

/// The names a list of strings holds.
pub open spec fn names(v: Seq<String>) -> Set<Seq<char>> {
    v.map_values(|s: String| s@).to_set()
}

/// The JSON value that `serde_json` parses, carried opaquely into the conversion below.
#[verifier::external_type_specification]
#[verifier::external_body]
pub struct ExSerdeJsonValue(serde_json::Value);

/// A JSON value: numbers are kept as the text `serde_json` prints for them,
/// objects as their entries.
#[derive(Debug)]
pub enum JsonValue {
    Null,
    Bool(bool),
    Number(String),
    Str(String),
    Array(Vec<JsonValue>),
    Object(Vec<(String, JsonValue)>),
}

/// A JSON value with its texts as character sequences.
pub enum JsonSpec {
    Null,
    Bool(bool),
    Number(Seq<char>),
    Str(Seq<char>),
    Array(Seq<JsonSpec>),
    Object(Seq<(Seq<char>, JsonSpec)>),
}

/// The value a `JsonValue` stands for.
pub open spec fn json_view(v: JsonValue) -> JsonSpec
    decreases v,
{
    match v {
        JsonValue::Null => JsonSpec::Null,
        JsonValue::Bool(b) => JsonSpec::Bool(b),
        JsonValue::Number(n) => JsonSpec::Number(n@),
        JsonValue::Str(t) => JsonSpec::Str(t@),
        JsonValue::Array(a) => JsonSpec::Array(
            Seq::new(a@.len(), |i: int| if 0 <= i < a@.len() { json_view(a@[i]) } else { JsonSpec::Null }),
        ),
        JsonValue::Object(o) => JsonSpec::Object(
            Seq::new(
                o@.len(),
                |i: int| if 0 <= i < o@.len() { (o@[i].0@, json_view(o@[i].1)) } else { (Seq::empty(), JsonSpec::Null) },
            ),
        ),
    }
}

pub open spec fn json_opt_view(v: Option<JsonValue>) -> Option<JsonSpec> {
    match v {
        Some(j) => Some(json_view(j)),
        None => None,
    }
}

/// What `serde_json::from_str::<serde_json::Value>` makes of `text`: the
/// parsed value, or `None` where the text is not JSON. A function of the text alone.
pub uninterp spec fn json_parse(text: Seq<char>) -> Option<JsonSpec>;

/// Calls `serde_json::from_str` to parse `text` as a JSON value and converts
/// the result one for one. The contract claims that the result is the named
/// function of the text, and that empty text is no JSON (`from_str` reports
/// an end of input before any value).
#[verifier::external_body]
fn parse_json(text: &str) -> (r: Option<JsonValue>)
    ensures
        json_opt_view(r) == json_parse(text@),
        text@.len() == 0 ==> r is None,
{
    serde_json::from_str::<serde_json::Value>(text).ok().map(json_from_value)
}

/// The one-for-one conversion of a `serde_json::Value` that `parse_json`
/// applies: each variant to the variant of the same name, numbers to their
/// printed text. Part of the conversion in `parse_json`, written apart only because
/// it recurses into arrays and objects.
#[verifier::external_body]
fn json_from_value(v: serde_json::Value) -> JsonValue {
    match v {
        serde_json::Value::Null => JsonValue::Null,
        serde_json::Value::Bool(b) => JsonValue::Bool(b),
        serde_json::Value::Number(n) => JsonValue::Number(n.to_string()),
        serde_json::Value::String(t) => JsonValue::Str(t),
        serde_json::Value::Array(a) => JsonValue::Array(a.into_iter().map(json_from_value).collect()),
        serde_json::Value::Object(o) => JsonValue::Object(
            o.into_iter().map(|(k, x)| (k, json_from_value(x))).collect(),
        ),
    }
}

/// Whether the entries of an object have `key`.
pub open spec fn has_key(es: Seq<(Seq<char>, JsonSpec)>, key: Seq<char>) -> bool {
    exists|i: int| 0 <= i < es.len() && es[i].0 == key
}

/// The position of the first entry with `key`.
pub open spec fn first_key(es: Seq<(Seq<char>, JsonSpec)>, key: Seq<char>) -> int {
    choose|i: int|
        0 <= i < es.len() && es[i].0 == key && forall|j: int| 0 <= j < i ==> es[j].0 != key
}

/// `Value::get(key)`: the member `key` of an object (its first entry with
/// that key); `None` for a missing key and for values that are not objects.
pub open spec fn member(v: Option<JsonSpec>, key: Seq<char>) -> Option<JsonSpec> {
    match v {
        Some(JsonSpec::Object(es)) => if has_key(es, key) {
            Some(es[first_key(es, key)].1)
        } else {
            None
        },
        _ => None,
    }
}

/// The keys of an object; none for anything else.
pub open spec fn key_set(v: Option<JsonSpec>) -> Set<Seq<char>> {
    match v {
        Some(JsonSpec::Object(es)) => Set::new(|k: Seq<char>| has_key(es, k)),
        _ => Set::empty(),
    }
}

/// What detection reads from a parsed `package.json` (nothing where it did
/// not parse): the keys of `dependencies` and `devDependencies`, and whether
/// `scripts` has a `build` member.
pub open spec fn manifest_of(pkg: Option<JsonSpec>) -> (Set<Seq<char>>, Set<Seq<char>>, bool) {
    (
        key_set(member(pkg, "dependencies"@)),
        key_set(member(pkg, "devDependencies"@)),
        member(member(pkg, "scripts"@), "build"@) is Some,
    )
}

proof fn lemma_first_key(es: Seq<(Seq<char>, JsonSpec)>, key: Seq<char>, k: int)
    requires
        0 <= k < es.len(),
        es[k].0 == key,
        forall|j: int| 0 <= j < k ==> es[j].0 != key,
    ensures
        first_key(es, key) == k,
{
    let f = first_key(es, key);
    assert(0 <= f < es.len() && es[f].0 == key && forall|j: int| 0 <= j < f ==> es[j].0 != key);
    if f < k {
        assert(es[f].0 != key);
    }
    if k < f {
        assert(es[k].0 != key);
    }
}

pub open spec fn json_ref_view(v: Option<&JsonValue>) -> Option<JsonSpec> {
    match v {
        Some(j) => Some(json_view(*j)),
        None => None,
    }
}

/// The entries of an object, as texts and values.
pub open spec fn entries_view(o: Seq<(String, JsonValue)>) -> Seq<(Seq<char>, JsonSpec)> {
    Seq::new(o.len(), |i: int| (o[i].0@, json_view(o[i].1)))
}

/// The entries of a JSON object; `None` for anything else.
fn object_entries(v: &JsonValue) -> (r: Option<&Vec<(String, JsonValue)>>)
    ensures
        match r {
            Some(o) => json_view(*v) == JsonSpec::Object(entries_view(o@)),
            None => !(json_view(*v) is Object),
        },
{
    match v {
        JsonValue::Object(o) => {
            assert(json_view(*v) == JsonSpec::Object(entries_view(o@))) by {
                if let JsonSpec::Object(es) = json_view(*v) {
                    assert(es =~= entries_view(o@));
                }
            }
            Some(o)
        },
        _ => None,
    }
}

/// The position of the first entry with `key`, when there is one.
fn key_index(o: &Vec<(String, JsonValue)>, key: &str) -> (r: Option<usize>)
    ensures
        match r {
            Some(i) => i < o@.len() && has_key(entries_view(o@), key@) && first_key(
                entries_view(o@),
                key@,
            ) == i,
            None => !has_key(entries_view(o@), key@),
        },
{
    let ghost es = entries_view(o@);
    let mut i: usize = 0;
    while i < o.len()
        invariant
            i <= o.len(),
            es == entries_view(o@),
            forall|j: int| 0 <= j < i ==> es[j].0 != key@,
        decreases o.len() - i,
    {
        if str_eq(o[i].0.as_str(), key) {
            proof {
                assert(es[i as int].0 == key@);
                lemma_first_key(es, key@, i as int);
            }
            return Some(i);
        }
        i = i + 1;
    }
    proof {
        if has_key(es, key@) {
            let j = choose|j: int| 0 <= j < es.len() && es[j].0 == key@;
            assert(es[j].0 != key@);
        }
    }
    None
}

fn str_eq(a: &str, b: &str) -> (r: bool)
    ensures
        r == (a@ == b@),
{
    let c = chars_of(a);
    assert(c@.subrange(0, c@.len() as int) =~= a@);
    range_eq(&c, 0, c.len(), b)
}

/// The keys of a JSON object; none for anything else.
fn json_keys(v: &JsonValue) -> (r: Vec<String>)
    ensures
        names(r@) == key_set(Some(json_view(*v))),
{
    let mut r: Vec<String> = Vec::new();
    let o = match object_entries(v) {
        Some(o) => o,
        None => {
            assert(names(r@) =~= Set::<Seq<char>>::empty());
            return r;
        },
    };
    let ghost es = entries_view(o@);
    let mut i: usize = 0;
    while i < o.len()
        invariant
            i <= o.len(),
            es == entries_view(o@),
            r@.len() == i,
            forall|j: int| 0 <= j < i ==> (#[trigger] r@[j])@ == es[j].0,
        decreases o.len() - i,
    {
        r.push(o[i].0.clone());
        i = i + 1;
    }
    proof {
        let sv = r@.map_values(|s: String| s@);
        assert forall|k: Seq<char>| names(r@).contains(k) <==> has_key(es, k) by {
            if names(r@).contains(k) {
                assert(sv.contains(k));
                let j = choose|j: int| 0 <= j < sv.len() && sv[j] == k;
                assert(r@[j]@ == es[j].0);
            }
            if has_key(es, k) {
                let j = choose|j: int| 0 <= j < es.len() && es[j].0 == k;
                assert(r@[j]@ == k);
                assert(sv[j] == k);
                assert(sv.contains(k));
            }
        }
        assert(names(r@) =~= key_set(Some(json_view(*v))));
    }
    r
}

/// The keys of the member `key` of an object.
fn member_keys(o: &Vec<(String, JsonValue)>, key: &str) -> (r: Vec<String>)
    ensures
        names(r@) == key_set(member(Some(JsonSpec::Object(entries_view(o@))), key@)),
{
    match key_index(o, key) {
        Some(i) => json_keys(&o[i].1),
        None => {
            let r: Vec<String> = Vec::new();
            assert(names(r@) =~= Set::<Seq<char>>::empty());
            r
        },
    }
}

/// Whether the member `outer` of an object has a member `inner`.
fn member_has(o: &Vec<(String, JsonValue)>, outer: &str, inner: &str) -> (b: bool)
    ensures
        b == (member(member(Some(JsonSpec::Object(entries_view(o@))), outer@), inner@) is Some),
{
    match key_index(o, outer) {
        Some(i) => match object_entries(&o[i].1) {
            Some(so) => key_index(so, inner).is_some(),
            None => false,
        },
        None => false,
    }
}

impl PackageJson {
    /// What detection reads from a parsed `package.json` (`None`: it did not parse).
    pub fn from_json(pkg: Option<&JsonValue>) -> (p: PackageJson)
        ensures
            manifest_view(p) == manifest_of(json_ref_view(pkg)),
    {
        let o = match pkg {
            Some(v) => object_entries(v),
            None => None,
        };
        match o {
            Some(o) => PackageJson {
                dependencies: member_keys(o, "dependencies"),
                dev_dependencies: member_keys(o, "devDependencies"),
                has_build_script: member_has(o, "scripts", "build"),
            },
            None => {
                let p = PackageJson::empty();
                assert(names(p.dependencies@) =~= Set::<Seq<char>>::empty());
                assert(names(p.dev_dependencies@) =~= Set::<Seq<char>>::empty());
                p
            },
        }
    }
}

/// Which of the files detection looks for a project's root directory holds,
/// besides `package.json`.
#[derive(Debug, Clone)]
pub struct RootEntries {
    pub has_vite_config_js: bool,
    pub has_vite_config_ts: bool,
    pub has_astro_config_mjs: bool,
    pub has_index_html: bool,
    pub has_cargo_toml: bool,
}

/// What detection reads from a manifest: dependency names, dev dependency
/// names, and whether there is a build script.
pub open spec fn manifest_view(p: PackageJson) -> (Set<Seq<char>>, Set<Seq<char>>, bool) {
    (names(p.dependencies@), names(p.dev_dependencies@), p.has_build_script)
}

/// Whether the manifest declares `name` as a dependency or dev dependency.
pub open spec fn declares(m: (Set<Seq<char>>, Set<Seq<char>>, bool), name: Seq<char>) -> bool {
    m.0.contains(name) || m.1.contains(name)
}

/// A detection outcome: framework, install, build and output directory.
pub open spec fn outcome(
    fw: Seq<char>,
    install: Option<Seq<char>>,
    build: Option<Seq<char>>,
    out: Option<Seq<char>>,
) -> (Option<Seq<char>>, Option<Seq<char>>, Option<Seq<char>>, Option<Seq<char>>) {
    (Some(fw), install, build, out)
}

/// The detection rules, first match wins: Next.js, Vite, Create React App,
/// Nuxt, Astro, Gatsby and a generic Node build need a `package.json`; then
/// a static site (`index.html`), then a Rust crate (`Cargo.toml`), else unknown.
pub open spec fn spec_detect(pkg: Option<(Set<Seq<char>>, Set<Seq<char>>, bool)>, f: RootEntries) -> (
    Option<Seq<char>>,
    Option<Seq<char>>,
    Option<Seq<char>>,
    Option<Seq<char>>,
) {
    let npm = Some("npm install"@);
    let build = Some("npm run build"@);
    match pkg {
        Some(p) if declares(p, "next"@) => outcome("nextjs"@, npm, build, Some("out"@)),
        Some(p) if declares(p, "vite"@) || f.has_vite_config_js || f.has_vite_config_ts => outcome(
            "vite"@,
            npm,
            build,
            Some("dist"@),
        ),
        Some(p) if declares(p, "react-scripts"@) => outcome(
            "create-react-app"@,
            npm,
            build,
            Some("build"@),
        ),
        Some(p) if declares(p, "nuxt"@) => outcome(
            "nuxt"@,
            npm,
            Some("npm run generate"@),
            Some("dist"@),
        ),
        Some(p) if declares(p, "@astrojs/check"@) || declares(p, "astro"@)
            || f.has_astro_config_mjs => outcome("astro"@, npm, build, Some("dist"@)),
        Some(p) if declares(p, "gatsby"@) => outcome("gatsby"@, npm, build, Some("public"@)),
        Some(p) if p.2 => outcome("nodejs"@, npm, build, Some("dist"@)),
        _ => if f.has_index_html {
            outcome("static"@, None, None, Some("."@))
        } else if f.has_cargo_toml {
            outcome("rust"@, None, Some("cargo build --release"@), Some("target/release"@))
        } else {
            outcome("unknown"@, npm, None, None)
        },
    }
}

/// What a `package.json` declares: a name under `dependencies` or under
/// `devDependencies` counts as declared there, and a `build` member of
/// `scripts` (whatever its value) as a build script; text that is not JSON,
/// or JSON that is not an object, declares nothing.
pub proof fn law_manifest_members(name: Seq<char>, v: JsonSpec, w: JsonSpec, other: JsonSpec)
    ensures
        manifest_of(Some(JsonSpec::Object(seq![("dependencies"@, JsonSpec::Object(seq![(name, v)]))]))).0.contains(name),
        manifest_of(Some(JsonSpec::Object(seq![("devDependencies"@, JsonSpec::Object(seq![(name, v)]))]))).1.contains(name),
        manifest_of(Some(JsonSpec::Object(seq![("scripts"@, JsonSpec::Object(seq![("build"@, w)]))]))).2,
        !(other is Object) ==> manifest_of(Some(other)) == no_manifest_facts(),
        manifest_of(None) == no_manifest_facts(),
{
    let inner = seq![(name, v)];
    assert(has_key(inner, name)) by {
        assert(inner[0].0 == name);
    }
    let d = seq![("dependencies"@, JsonSpec::Object(inner))];
    lemma_first_key(d, "dependencies"@, 0);
    assert(has_key(d, "dependencies"@)) by {
        assert(d[0].0 == "dependencies"@);
    }
    let dv = seq![("devDependencies"@, JsonSpec::Object(inner))];
    lemma_first_key(dv, "devDependencies"@, 0);
    assert(has_key(dv, "devDependencies"@)) by {
        assert(dv[0].0 == "devDependencies"@);
    }
    let b = seq![("build"@, w)];
    lemma_first_key(b, "build"@, 0);
    assert(has_key(b, "build"@)) by {
        assert(b[0].0 == "build"@);
    }
    let sc = seq![("scripts"@, JsonSpec::Object(b))];
    lemma_first_key(sc, "scripts"@, 0);
    assert(has_key(sc, "scripts"@)) by {
        assert(sc[0].0 == "scripts"@);
    }
    assert(key_set(None) =~= Set::<Seq<char>>::empty());
}

/// The framework names detection gives are distinct texts.
proof fn lemma_framework_names_distinct()
    ensures
        "nextjs"@ != "vite"@,
        "nextjs"@ != "create-react-app"@,
        "nextjs"@ != "nuxt"@,
        "nextjs"@ != "astro"@,
        "nextjs"@ != "gatsby"@,
        "nextjs"@ != "nodejs"@,
        "nextjs"@ != "static"@,
        "nextjs"@ != "rust"@,
        "nextjs"@ != "unknown"@,
        "vite"@ != "create-react-app"@,
        "vite"@ != "nuxt"@,
        "vite"@ != "astro"@,
        "vite"@ != "gatsby"@,
        "vite"@ != "nodejs"@,
        "vite"@ != "static"@,
        "vite"@ != "rust"@,
        "vite"@ != "unknown"@,
        "create-react-app"@ != "nuxt"@,
        "create-react-app"@ != "astro"@,
        "create-react-app"@ != "gatsby"@,
        "create-react-app"@ != "nodejs"@,
        "create-react-app"@ != "static"@,
        "create-react-app"@ != "rust"@,
        "create-react-app"@ != "unknown"@,
        "nuxt"@ != "astro"@,
        "nuxt"@ != "gatsby"@,
        "nuxt"@ != "nodejs"@,
        "nuxt"@ != "static"@,
        "nuxt"@ != "rust"@,
        "nuxt"@ != "unknown"@,
        "astro"@ != "gatsby"@,
        "astro"@ != "nodejs"@,
        "astro"@ != "static"@,
        "astro"@ != "rust"@,
        "astro"@ != "unknown"@,
        "gatsby"@ != "nodejs"@,
        "gatsby"@ != "static"@,
        "gatsby"@ != "rust"@,
        "gatsby"@ != "unknown"@,
        "nodejs"@ != "static"@,
        "nodejs"@ != "rust"@,
        "nodejs"@ != "unknown"@,
        "static"@ != "rust"@,
        "static"@ != "unknown"@,
        "rust"@ != "unknown"@,
{
    reveal_strlit("nextjs");
    reveal_strlit("vite");
    reveal_strlit("create-react-app");
    reveal_strlit("nuxt");
    reveal_strlit("astro");
    reveal_strlit("gatsby");
    reveal_strlit("nodejs");
    reveal_strlit("static");
    reveal_strlit("rust");
    reveal_strlit("unknown");
    assert("nextjs"@.len() != "vite"@.len());
    assert("nextjs"@.len() != "create-react-app"@.len());
    assert("nextjs"@.len() != "nuxt"@.len());
    assert("nextjs"@.len() != "astro"@.len());
    assert("nextjs"@[0] != "gatsby"@[0]);
    assert("nextjs"@[1] != "nodejs"@[1]);
    assert("nextjs"@[0] != "static"@[0]);
    assert("nextjs"@.len() != "rust"@.len());
    assert("nextjs"@.len() != "unknown"@.len());
    assert("vite"@.len() != "create-react-app"@.len());
    assert("vite"@[0] != "nuxt"@[0]);
    assert("vite"@.len() != "astro"@.len());
    assert("vite"@.len() != "gatsby"@.len());
    assert("vite"@.len() != "nodejs"@.len());
    assert("vite"@.len() != "static"@.len());
    assert("vite"@[0] != "rust"@[0]);
    assert("vite"@.len() != "unknown"@.len());
    assert("create-react-app"@.len() != "nuxt"@.len());
    assert("create-react-app"@.len() != "astro"@.len());
    assert("create-react-app"@.len() != "gatsby"@.len());
    assert("create-react-app"@.len() != "nodejs"@.len());
    assert("create-react-app"@.len() != "static"@.len());
    assert("create-react-app"@.len() != "rust"@.len());
    assert("create-react-app"@.len() != "unknown"@.len());
    assert("nuxt"@.len() != "astro"@.len());
    assert("nuxt"@.len() != "gatsby"@.len());
    assert("nuxt"@.len() != "nodejs"@.len());
    assert("nuxt"@.len() != "static"@.len());
    assert("nuxt"@[0] != "rust"@[0]);
    assert("nuxt"@.len() != "unknown"@.len());
    assert("astro"@.len() != "gatsby"@.len());
    assert("astro"@.len() != "nodejs"@.len());
    assert("astro"@.len() != "static"@.len());
    assert("astro"@.len() != "rust"@.len());
    assert("astro"@.len() != "unknown"@.len());
    assert("gatsby"@[0] != "nodejs"@[0]);
    assert("gatsby"@[0] != "static"@[0]);
    assert("gatsby"@.len() != "rust"@.len());
    assert("gatsby"@.len() != "unknown"@.len());
    assert("nodejs"@[0] != "static"@[0]);
    assert("nodejs"@.len() != "rust"@.len());
    assert("nodejs"@.len() != "unknown"@.len());
    assert("static"@.len() != "rust"@.len());
    assert("static"@.len() != "unknown"@.len());
    assert("rust"@.len() != "unknown"@.len());
}

/// Once detection has named a framework, the commands and the output
/// directory follow from it: every npm framework installs with
/// `npm install`; Next.js builds into `out`, Create React App into `build`,
/// Gatsby into `public`, and Vite, Nuxt, Astro and a generic Node build into
/// `dist` (Nuxt generating, the others running `npm run build`); a static
/// site publishes its root with no command, a Rust crate `target/release`.
pub proof fn law_detect_commands(pkg: Option<(Set<Seq<char>>, Set<Seq<char>>, bool)>, f: RootEntries)
    ensures
        ({
            let r = spec_detect(pkg, f);
            let npm = Some("npm install"@);
            let build = Some("npm run build"@);
            &&& r.0 is Some
            &&& r.0 == Some("nextjs"@) ==> r.1 == npm && r.2 == build && r.3 == Some("out"@)
            &&& r.0 == Some("vite"@) ==> r.1 == npm && r.2 == build && r.3 == Some("dist"@)
            &&& r.0 == Some("create-react-app"@) ==> r.1 == npm && r.2 == build && r.3 == Some(
                "build"@,
            )
            &&& r.0 == Some("nuxt"@) ==> r.1 == npm && r.2 == Some("npm run generate"@) && r.3
                == Some("dist"@)
            &&& r.0 == Some("astro"@) ==> r.1 == npm && r.2 == build && r.3 == Some("dist"@)
            &&& r.0 == Some("gatsby"@) ==> r.1 == npm && r.2 == build && r.3 == Some("public"@)
            &&& r.0 == Some("nodejs"@) ==> r.1 == npm && r.2 == build && r.3 == Some("dist"@)
            &&& r.0 == Some("static"@) ==> r.1 is None && r.2 is None && r.3 == Some("."@)
            &&& r.0 == Some("rust"@) ==> r.1 is None && r.2 == Some("cargo build --release"@)
                && r.3 == Some("target/release"@)
            &&& r.0 == Some("unknown"@) ==> r.1 == npm && r.2 is None && r.3 is None
        }),
{
    reveal_strlit("nextjs");
    reveal_strlit("vite");
    reveal_strlit("create-react-app");
    reveal_strlit("nuxt");
    reveal_strlit("astro");
    reveal_strlit("gatsby");
    reveal_strlit("nodejs");
    reveal_strlit("static");
    reveal_strlit("rust");
    reveal_strlit("unknown");
    lemma_framework_names_distinct();
}

/// Which framework a `package.json` names, first match wins: a declared
/// `next` gives Next.js; else `vite` (or a Vite config file) Vite; else
/// `react-scripts` Create React App; else `nuxt` Nuxt; else `astro` or
/// `@astrojs/check` (or an Astro config file) Astro; else `gatsby` Gatsby;
/// else a build script a generic Node build.
pub proof fn law_detect_rules(p: (Set<Seq<char>>, Set<Seq<char>>, bool), f: RootEntries)
    ensures
        ({
            let r = spec_detect(Some(p), f);
            let vite = declares(p, "vite"@) || f.has_vite_config_js || f.has_vite_config_ts;
            let astro = declares(p, "astro"@) || declares(p, "@astrojs/check"@) || f.has_astro_config_mjs;
            &&& declares(p, "next"@) ==> r.0 == Some("nextjs"@)
            &&& !declares(p, "next"@) && vite ==> r.0 == Some("vite"@)
            &&& !declares(p, "next"@) && !vite && declares(p, "react-scripts"@) ==> r.0 == Some(
                "create-react-app"@,
            )
            &&& !declares(p, "next"@) && !vite && !declares(p, "react-scripts"@) && declares(
                p,
                "nuxt"@,
            ) ==> r.0 == Some("nuxt"@)
            &&& !declares(p, "next"@) && !vite && !declares(p, "react-scripts"@) && !declares(
                p,
                "nuxt"@,
            ) && astro ==> r == (Some("astro"@), Some("npm install"@), Some("npm run build"@), Some(
                "dist"@,
            ))
            &&& !declares(p, "next"@) && !vite && !declares(p, "react-scripts"@) && !declares(
                p,
                "nuxt"@,
            ) && !astro && declares(p, "gatsby"@) ==> r.0 == Some("gatsby"@)
            &&& !declares(p, "next"@) && !vite && !declares(p, "react-scripts"@) && !declares(
                p,
                "nuxt"@,
            ) && !astro && !declares(p, "gatsby"@) && p.2 ==> r.0 == Some("nodejs"@)
        }),
{
}

/// Whether one of `v` reads `name`.
fn holds_name(v: &Vec<String>, name: &str) -> (b: bool)
    ensures
        b == names(v@).contains(name@),
{
    let mut k: usize = 0;
    while k < v.len()
        invariant
            k <= v.len(),
            forall|m: int| 0 <= m < k ==> (#[trigger] v@[m])@ != name@,
        decreases v.len() - k,
    {
        let c = chars_of(v[k].as_str());
        assert(c@.subrange(0, c@.len() as int) =~= v@[k as int]@);
        if range_eq(&c, 0, c.len(), name) {
            assert(v@.map_values(|s: String| s@)[k as int] == name@);
            assert(v@.map_values(|s: String| s@).contains(name@));
            return true;
        }
        k = k + 1;
    }
    proof {
        let sv = v@.map_values(|s: String| s@);
        if names(v@).contains(name@) {
            assert(sv.contains(name@));
            let m = choose|m: int| 0 <= m < sv.len() && sv[m] == name@;
            assert(v@[m]@ == name@);
        }
    }
    false
}

/// Whether the manifest declares `name` as a dependency or dev dependency.
fn has_dep(p: &PackageJson, name: &str) -> (b: bool)
    ensures
        b == declares(manifest_view(*p), name@),
{
    holds_name(&p.dependencies, name) || holds_name(&p.dev_dependencies, name)
}

fn info(fw: &str, install: Option<&str>, build: Option<&str>, out: Option<&str>) -> (i: FrameworkInfo)
    ensures
        info_view(i) == outcome(
            fw@,
            crate::text::opt_str_view(install),
            crate::text::opt_str_view(build),
            crate::text::opt_str_view(out),
        ),
{
    FrameworkInfo {
        framework: Some(String::from_str(fw)),
        install_command: match install {
            Some(s) => Some(String::from_str(s)),
            None => None,
        },
        build_command: match build {
            Some(s) => Some(String::from_str(s)),
            None => None,
        },
        output_directory: match out {
            Some(s) => Some(String::from_str(s)),
            None => None,
        },
    }
}

/// The manifest as detection reads it, when there is one.
pub open spec fn opt_manifest(pkg: Option<&PackageJson>) -> Option<(Set<Seq<char>>, Set<Seq<char>>, bool)> {
    match pkg {
        Some(p) => Some(manifest_view(*p)),
        None => None,
    }
}

/// What detection reads from the text of a `package.json`, when there is one.
pub open spec fn opt_manifest_text(text: Option<&str>) -> Option<(Set<Seq<char>>, Set<Seq<char>>, bool)> {
    match text {
        Some(t) => Some(manifest_of(json_parse(t@))),
        None => None,
    }
}

/// Detect the framework of a project from its parsed `package.json` (when
/// the file exists) and the other files of its root directory.
pub fn detect_from_manifest(package_json: Option<&PackageJson>, files: &RootEntries) -> (i: FrameworkInfo)
    ensures
        info_view(i) == spec_detect(opt_manifest(package_json), *files),
{
    if let Some(p) = package_json {
        if has_dep(p, "next") {
            return info("nextjs", Some("npm install"), Some("npm run build"), Some("out"));
        }
        if has_dep(p, "vite") || files.has_vite_config_js || files.has_vite_config_ts {
            return info("vite", Some("npm install"), Some("npm run build"), Some("dist"));
        }
        if has_dep(p, "react-scripts") {
            return info("create-react-app", Some("npm install"), Some("npm run build"), Some("build"));
        }
        if has_dep(p, "nuxt") {
            return info("nuxt", Some("npm install"), Some("npm run generate"), Some("dist"));
        }
        if has_dep(p, "@astrojs/check") || has_dep(p, "astro") || files.has_astro_config_mjs {
            return info("astro", Some("npm install"), Some("npm run build"), Some("dist"));
        }
        if has_dep(p, "gatsby") {
            return info("gatsby", Some("npm install"), Some("npm run build"), Some("public"));
        }
        if p.has_build_script {
            return info("nodejs", Some("npm install"), Some("npm run build"), Some("dist"));
        }
    }
    if files.has_index_html {
        info("static", None, None, Some("."))
    } else if files.has_cargo_toml {
        info("rust", None, Some("cargo build --release"), Some("target/release"))
    } else {
        info("unknown", Some("npm install"), None, None)
    }
}

/// A manifest that declares nothing and has no build script.
pub open spec fn no_manifest_facts() -> (Set<Seq<char>>, Set<Seq<char>>, bool) {
    (Set::empty(), Set::empty(), false)
}

/// Detect the framework of a project from the text of its `package.json`
/// (when the file exists; an unreadable file counts as empty text, which
/// declares nothing) and the other files of its root directory.
pub fn detect_framework(package_json: Option<&str>, files: &RootEntries) -> (i: FrameworkInfo)
    ensures
        info_view(i) == spec_detect(opt_manifest_text(package_json), *files),
        (package_json matches Some(t) && t@.len() == 0) ==> info_view(i) == spec_detect(
            Some(no_manifest_facts()),
            *files,
        ),
{
    match package_json {
        Some(text) => {
            let j = parse_json(text);
            let p = match &j {
                Some(v) => PackageJson::from_json(Some(v)),
                None => PackageJson::from_json(None),
            };
            proof {
                if text@.len() == 0 {
                    assert(key_set(None) =~= Set::<Seq<char>>::empty());
                    assert(manifest_of(None) == no_manifest_facts());
                }
            }
            detect_from_manifest(Some(&p), files)
        },
        None => detect_from_manifest(None, files),
    }
}

} // verus!
