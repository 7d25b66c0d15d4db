use flare::webhooks::{
    check_webhook_url, is_subscribed, known_event, normalize_events, status_event,
    validate_webhook_url,
    EventsError, WebhookUrlError,
};

fn strings(v: &[&str]) -> Vec<String> {
    v.iter().map(|s| s.to_string()).collect()
}

#[test]
fn default_events() {
    assert_eq!(normalize_events(None).unwrap(), "deployment.ready,deployment.error,deployment.queued");
    assert_eq!(
        normalize_events(Some(&[])).unwrap(),
        "deployment.ready,deployment.error,deployment.queued"
    );
    assert_eq!(
        normalize_events(Some(&strings(&["  ", ""]))).unwrap(),
        "deployment.ready,deployment.error,deployment.queued"
    );
    assert_eq!(known_event(2), "deployment.queued");
}

#[test]
fn requested_events() {
    let r = normalize_events(Some(&strings(&[" deployment.error ", "deployment.ready", "deployment.error"])));
    assert_eq!(r.unwrap(), "deployment.error,deployment.ready");
}

#[test]
fn unknown_event() {
    let e = normalize_events(Some(&strings(&["deployment.ready", " push ", "nope"]))).unwrap_err();
    assert_eq!(e, EventsError::UnknownEvent("push".to_string()));
    assert_eq!(
        e.message(),
        "unknown event 'push'; allowed: deployment.ready, deployment.error, deployment.queued"
    );
}

#[test]
fn subscriptions() {
    assert!(is_subscribed("deployment.ready, deployment.error", "deployment.error"));
    assert!(!is_subscribed("deployment.ready,deployment.error", "deployment.queued"));
    assert!(!is_subscribed("", "deployment.ready"));
    let stored = normalize_events(Some(&strings(&["deployment.queued"]))).unwrap();
    assert!(is_subscribed(&stored, "deployment.queued"));
    assert!(!is_subscribed(&stored, "deployment.ready"));
}

#[test]
fn webhook_urls() {
    assert_eq!(validate_webhook_url("  https://example.com/hooks/flare ").unwrap(), "https://example.com/hooks/flare");
    assert_eq!(validate_webhook_url("http://10.0.0.1:9000/x").unwrap(), "http://10.0.0.1:9000/x");
    assert_eq!(validate_webhook_url("HTTPS://EXAMPLE.COM").unwrap(), "HTTPS://EXAMPLE.COM");
    assert_eq!(validate_webhook_url("   ").unwrap_err(), WebhookUrlError::Required);
    assert_eq!(validate_webhook_url("ftp://example.com").unwrap_err(), WebhookUrlError::NotHttp);
    let e = validate_webhook_url("not a url").unwrap_err();
    assert_eq!(e, WebhookUrlError::Invalid("relative URL without a base".to_string()));
    assert_eq!(e.message(), "invalid url: relative URL without a base");
    assert_eq!(WebhookUrlError::Required.message(), "url is required");
    assert_eq!(WebhookUrlError::NotHttp.message(), "url must be http or https");
}

#[test]
fn webhook_url_decision() {
    assert_eq!(check_webhook_url("x", Ok("https".to_string())).unwrap(), "x");
    assert_eq!(check_webhook_url("x", Ok("mailto".to_string())).unwrap_err(), WebhookUrlError::NotHttp);
    assert_eq!(
        check_webhook_url("x", Err("empty host".to_string())).unwrap_err(),
        WebhookUrlError::Invalid("empty host".to_string())
    );
    assert_eq!(check_webhook_url("", Ok("https".to_string())).unwrap_err(), WebhookUrlError::Required);
}

#[test]
fn events_of_statuses() {
    assert_eq!(status_event("queued").as_deref(), Some("deployment.queued"));
    assert_eq!(status_event("ready").as_deref(), Some("deployment.ready"));
    assert_eq!(status_event("error").as_deref(), Some("deployment.error"));
    assert_eq!(status_event("skipped"), None);
    assert_eq!(status_event("cancelled"), None);
    assert_eq!(status_event("building"), None);
}
