use flare::serve::{
    domain_candidate, excluded_from_copy, guess_content_type, has_file_extension,
    has_parent_component, index_after_miss, is_reserved_host, mime_guess, pick_domain_file,
    pick_static_file, plan_static_serve, within_root, DomainFile, ServeError, StaticChoice,
};

#[test]
fn parent_components() {
    assert!(has_parent_component("../etc/passwd"));
    assert!(has_parent_component("a/../b"));
    assert!(has_parent_component("a/.."));
    assert!(!has_parent_component("a/...b/c"));
    assert!(!has_parent_component("a/..b"));
    assert!(!has_parent_component(""));
}

#[test]
fn file_extensions() {
    assert!(has_file_extension("assets/app.js"));
    assert!(!has_file_extension("about"));
    assert!(!has_file_extension("dir/.env"));
    assert!(!has_file_extension("a.b/dir/"));
    assert!(has_file_extension("x."));
}

#[test]
fn mime_types() {
    assert_eq!(mime_guess("/data/deployments/1/index.HTML"), "text/html; charset=utf-8");
    assert_eq!(mime_guess("a/b/app.mjs"), "application/javascript; charset=utf-8");
    assert_eq!(mime_guess("font.woff2"), "font/woff2");
    assert_eq!(mime_guess("x.json"), "application/json; charset=utf-8");
    assert_eq!(mime_guess("x.map"), "text/plain; charset=utf-8");
    assert_eq!(mime_guess("x.ttf"), "font/ttf");
    assert_eq!(mime_guess("x.wasm"), "application/wasm");
    assert_eq!(mime_guess(".htaccess"), "application/octet-stream");
    assert_eq!(mime_guess("README"), "application/octet-stream");
    assert_eq!(mime_guess("dir.css/"), "text/css; charset=utf-8");
    assert_eq!(mime_guess("a/.."), "application/octet-stream");
    assert_eq!(mime_guess("photo.JpEg"), "image/jpeg");
}

#[test]
fn content_types_on_domains() {
    assert_eq!(guess_content_type("site/index.html"), Some("text/html; charset=utf-8"));
    assert_eq!(guess_content_type("site/INDEX.HTML"), Some("application/octet-stream"));
    assert_eq!(guess_content_type("x.json"), Some("application/json"));
    assert_eq!(guess_content_type("x.map"), Some("application/json"));
    assert_eq!(guess_content_type("x.ttf"), Some("application/octet-stream"));
    assert_eq!(guess_content_type("noext"), Some("application/octet-stream"));
}

#[test]
fn serve_plans() {
    let p = plan_static_serve("/docs/").unwrap();
    assert_eq!(p.rel, "docs/");
    assert_eq!(p.primary, "docs/index.html");
    assert_eq!(p.candidate.as_deref(), Some("docs/"));
    assert!(p.spa_fallback);
    assert_eq!(p.serve_dir_uri, "/docs/");
    let r = plan_static_serve("").unwrap();
    assert_eq!(r.primary, "index.html");
    assert_eq!(r.candidate, None);
    assert_eq!(r.serve_dir_uri, "/");
    let f = plan_static_serve("//assets/app.js").unwrap();
    assert_eq!(f.rel, "assets/app.js");
    assert_eq!(f.primary, "assets/app.js");
    assert!(!f.spa_fallback);
    assert_eq!(plan_static_serve("a/../../secret").unwrap_err(), ServeError::InvalidPath);
}

#[test]
fn spa_fallback_choices() {
    let route = plan_static_serve("dashboard/settings").unwrap();
    assert_eq!(pick_static_file(&route, true, false, true), StaticChoice::Primary);
    assert_eq!(pick_static_file(&route, false, true, true), StaticChoice::Candidate);
    assert_eq!(pick_static_file(&route, false, false, true), StaticChoice::Index);
    assert_eq!(pick_static_file(&route, false, false, false), StaticChoice::ServeDir);
    let asset = plan_static_serve("missing.js").unwrap();
    assert_eq!(pick_static_file(&asset, false, false, true), StaticChoice::ServeDir);
    assert!(!index_after_miss(&asset, true, true));
    assert!(index_after_miss(&route, true, true));
    assert!(!index_after_miss(&route, false, true));
    let root = plan_static_serve("/").unwrap();
    assert_eq!(pick_static_file(&root, false, true, false), StaticChoice::ServeDir);
}

#[test]
fn custom_domain_rules() {
    assert!(is_reserved_host(""));
    assert!(is_reserved_host("localhost"));
    assert!(is_reserved_host("127.0.0.1"));
    assert!(!is_reserved_host("app.local"));
    assert_eq!(domain_candidate("/"), "index.html");
    assert_eq!(domain_candidate("/about/team"), "about/team");
    assert_eq!(pick_domain_file("/a", true, true, true), Some(DomainFile::Candidate));
    assert_eq!(pick_domain_file("/a", false, true, true), Some(DomainFile::CandidateIndex));
    assert_eq!(pick_domain_file("/a", false, false, true), Some(DomainFile::RootIndex));
    assert_eq!(pick_domain_file("/a.png", false, false, true), None);
    assert_eq!(pick_domain_file("/a", false, false, false), None);
}

#[test]
fn copy_exclusions() {
    assert!(excluded_from_copy("node_modules/react/index.js"));
    assert!(excluded_from_copy("sub/.git/config"));
    assert!(excluded_from_copy("target"));
    assert!(!excluded_from_copy("dist/index.html"));
    assert!(!excluded_from_copy("targets/x"));
    assert!(!excluded_from_copy(""));
}

#[test]
fn files_within_deployment_root() {
    let root = "/data/deployments/d1";
    assert!(within_root(root, "/data/deployments/d1/index.html"));
    assert!(within_root(root, "/data/deployments/d1/assets/app.js"));
    assert!(within_root(root, root));
    assert!(within_root("/data/deployments/d1/", "/data/deployments/d1//a"));
    assert!(!within_root(root, "/data/deployments/d10/index.html"));
    assert!(!within_root(root, "/data/deployments/d2/index.html"));
    assert!(!within_root(root, "/etc/passwd"));
    assert!(!within_root(root, "/data/deployments"));
    assert!(!within_root(root, "data/deployments/d1/index.html"));
    assert!(within_root("/", "/etc/passwd"));
}
