use flare::analytics::{extract_deployment_id_from_path, hit_target, HitTarget};

#[test]
fn parse_deploy_path() {
    assert_eq!(
        extract_deployment_id_from_path("/_deploy/abc-123/index.html").as_deref(),
        Some("abc-123")
    );
    assert_eq!(
        extract_deployment_id_from_path("/_deploy/abc-123/").as_deref(),
        Some("abc-123")
    );
    assert_eq!(extract_deployment_id_from_path("/api/projects"), None);
    assert_eq!(extract_deployment_id_from_path("/p/foo"), None);
}

#[test]
fn deploy_path_edges() {
    assert_eq!(extract_deployment_id_from_path("/_deploy/"), None);
    assert_eq!(extract_deployment_id_from_path("/_deploy//x"), None);
    assert_eq!(extract_deployment_id_from_path("/_deploy/abc").as_deref(), Some("abc"));
}

#[test]
fn hit_targets() {
    assert_eq!(hit_target("/_deploy/d1/a.js"), Some(HitTarget::Deployment("d1".to_string())));
    assert_eq!(hit_target("/p/proj-1/"), Some(HitTarget::Project("proj-1".to_string())));
    assert_eq!(hit_target("/s/my-site/docs"), Some(HitTarget::Slug("my-site".to_string())));
    assert_eq!(hit_target("/p/"), None);
    assert_eq!(hit_target("/s/"), None);
    assert_eq!(hit_target("/api/health"), None);
}
