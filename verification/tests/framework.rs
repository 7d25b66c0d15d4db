use flare::framework::{
    detect_framework, detect_from_manifest, FrameworkInfo, JsonValue, PackageJson, RootEntries,
};

fn entries() -> RootEntries {
    RootEntries {
        has_vite_config_js: false,
        has_vite_config_ts: false,
        has_astro_config_mjs: false,
        has_index_html: false,
        has_cargo_toml: false,
    }
}

fn parts(i: &FrameworkInfo) -> (Option<&str>, Option<&str>, Option<&str>, Option<&str>) {
    (
        i.framework.as_deref(),
        i.install_command.as_deref(),
        i.build_command.as_deref(),
        i.output_directory.as_deref(),
    )
}

fn manifest(deps: &[&str], dev: &[&str], build: bool) -> PackageJson {
    PackageJson {
        dependencies: deps.iter().map(|s| s.to_string()).collect(),
        dev_dependencies: dev.iter().map(|s| s.to_string()).collect(),
        has_build_script: build,
    }
}

#[test]
fn detect_static() {
    let mut f = entries();
    f.has_index_html = true;
    let info = detect_framework(None, &f);
    assert_eq!(info.framework.as_deref(), Some("static"));
    assert_eq!(parts(&info), (Some("static"), None, None, Some(".")));
}

#[test]
fn detect_from_manifest_texts() {
    let e = entries();
    assert_eq!(
        parts(&detect_framework(Some(r#"{"dependencies":{"next":"14","react":"18"}}"#), &e)),
        (Some("nextjs"), Some("npm install"), Some("npm run build"), Some("out"))
    );
    assert_eq!(detect_framework(Some(r#"{"devDependencies":{"vite":"5"}}"#), &e).framework.as_deref(), Some("vite"));
    assert_eq!(parts(&detect_framework(Some(r#"{"dependencies":{"react-scripts":"5"}}"#), &e)).3, Some("build"));
    assert_eq!(parts(&detect_framework(Some(r#"{"dependencies":{"nuxt":"3"}}"#), &e)).2, Some("npm run generate"));
    assert_eq!(detect_framework(Some(r#"{"devDependencies":{"@astrojs/check":"1"}}"#), &e).framework.as_deref(), Some("astro"));
    assert_eq!(parts(&detect_framework(Some(r#"{"dependencies":{"gatsby":"5"}}"#), &e)).3, Some("public"));
    assert_eq!(
        parts(&detect_framework(Some(r#"{"scripts":{"build":null}}"#), &e)),
        (Some("nodejs"), Some("npm install"), Some("npm run build"), Some("dist"))
    );
    assert_eq!(detect_framework(Some(r#"{"devDependencies":["vite"]}"#), &e).framework.as_deref(), Some("unknown"));
    assert_eq!(detect_framework(Some("{ not json"), &e).framework.as_deref(), Some("unknown"));
    assert_eq!(detect_framework(Some(""), &e).framework.as_deref(), Some("unknown"));
}

#[test]
fn detect_from_parsed_manifests() {
    let e = entries();
    assert_eq!(detect_from_manifest(Some(&manifest(&["react", "next"], &[], false)), &e).framework.as_deref(), Some("nextjs"));
    assert_eq!(detect_from_manifest(Some(&manifest(&[], &["astro"], true)), &e).framework.as_deref(), Some("astro"));
    assert_eq!(detect_from_manifest(Some(&manifest(&["next"], &["vite"], true)), &e).framework.as_deref(), Some("nextjs"));
    assert_eq!(detect_from_manifest(Some(&manifest(&[], &[], true)), &e).framework.as_deref(), Some("nodejs"));
}

#[test]
fn detect_without_manifest_rules() {
    let mut f = entries();
    f.has_vite_config_ts = true;
    assert_eq!(detect_framework(Some("{}"), &f).framework.as_deref(), Some("vite"));
    let mut g = entries();
    g.has_vite_config_ts = true;
    g.has_cargo_toml = true;
    assert_eq!(parts(&detect_framework(None, &g)), (Some("rust"), None, Some("cargo build --release"), Some("target/release")));
    let mut h = entries();
    h.has_index_html = true;
    h.has_astro_config_mjs = true;
    assert_eq!(detect_framework(None, &h).framework.as_deref(), Some("static"));
    assert_eq!(parts(&detect_framework(None, &entries())), (Some("unknown"), Some("npm install"), None, None));
    let d = FrameworkInfo::default();
    assert!(d.framework.is_none() && d.install_command.is_none());
    assert!(PackageJson::empty().dependencies.is_empty());
}

fn obj(entries: Vec<(&str, JsonValue)>) -> JsonValue {
    JsonValue::Object(entries.into_iter().map(|(k, v)| (k.to_string(), v)).collect())
}

#[test]
fn manifest_from_json_values() {
    let pkg = obj(vec![
        ("name", JsonValue::Str("site".to_string())),
        ("dependencies", obj(vec![("react", JsonValue::Str("18".to_string())), ("vite", JsonValue::Null)])),
        ("devDependencies", JsonValue::Array(vec![JsonValue::Str("astro".to_string())])),
        ("scripts", obj(vec![("build", JsonValue::Bool(false))])),
    ]);
    let p = PackageJson::from_json(Some(&pkg));
    assert_eq!(p.dependencies, vec!["react".to_string(), "vite".to_string()]);
    assert!(p.dev_dependencies.is_empty());
    assert!(p.has_build_script);
    let q = PackageJson::from_json(Some(&obj(vec![("scripts", obj(vec![("test", JsonValue::Null)]))])));
    assert!(!q.has_build_script && q.dependencies.is_empty());
    let r = PackageJson::from_json(Some(&JsonValue::Number("3".to_string())));
    assert!(r.dependencies.is_empty() && !r.has_build_script);
    let n = PackageJson::from_json(None);
    assert!(n.dependencies.is_empty() && n.dev_dependencies.is_empty() && !n.has_build_script);
}
