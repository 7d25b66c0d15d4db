use flare::git::CommitInfo;
use flare::models::{
    hits_total_fits, ActivityEntry, CommitEntry, DeployRequest, Deployment,
    DeploymentStatsResponse, HealthResponse, ProjectStatsResponse,
};

#[test]
fn api_bodies() {
    let c = CommitEntry::from_commit(CommitInfo {
        sha: "s".to_string(),
        message: "m".to_string(),
        author: "a".to_string(),
        date: "d".to_string(),
    });
    assert_eq!((c.sha.as_str(), c.message.as_str(), c.author.as_str(), c.date.as_str()), ("s", "m", "a", "d"));
    let h = HealthResponse::ok("0.1.0");
    assert_eq!(h.status, "ok");
    assert_eq!(h.version, "0.1.0");
    assert_eq!(DeployRequest::default().commit_sha, None);
    let a = ActivityEntry::from_deployment(Deployment {
        id: "d".to_string(),
        project_id: "p".to_string(),
        commit_sha: "c".to_string(),
        commit_message: Some("msg".to_string()),
        commit_author: None,
        branch: "main".to_string(),
        status: "ready".to_string(),
        framework: None,
        url_path: Some("/_deploy/d/".to_string()),
        error_message: None,
        changed_files: None,
        created_at: 3,
        finished_at: Some(4),
    });
    assert_eq!(a.id, "d");
    assert_eq!(a.status, "ready");
    assert_eq!(a.created_at, 3);
    assert_eq!(a.url_path.as_deref(), Some("/_deploy/d/"));
}

fn counter(id: &str, hits: i64) -> DeploymentStatsResponse {
    DeploymentStatsResponse { deployment_id: id.to_string(), hits, last_hit: Some(1) }
}

#[test]
fn project_stats_total() {
    let rows = vec![counter("a", 3), counter("b", 4), counter("c", 0)];
    assert!(hits_total_fits(&rows));
    let s = ProjectStatsResponse::from_deployments("p1".to_string(), rows);
    assert_eq!(s.project_id, "p1");
    assert_eq!(s.hits, 7);
    assert_eq!(s.deployments.len(), 3);
    assert_eq!(s.deployments[1].deployment_id, "b");
    let none = ProjectStatsResponse::from_deployments("p2".to_string(), Vec::new());
    assert_eq!(none.hits, 0);
    assert!(!hits_total_fits(&vec![counter("a", i64::MAX), counter("b", 1)]));
    assert!(hits_total_fits(&vec![counter("a", i64::MAX), counter("b", 0)]));
}
