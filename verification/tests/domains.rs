use flare::domains::{
    host_port_split, lowercase_trimmed, normalize_host_lowered, validate_domain_host,
    DomainHostError,
};

/// Normalizes a host whose part before the last `:` is an IPv6 address exactly when `ipv6` says so.
fn normalize(raw: &str, ipv6: bool) -> String {
    let s = lowercase_trimmed(raw);
    normalize_host_lowered(&s, ipv6)
}

#[test]
fn host_normalization() {
    assert_eq!(lowercase_trimmed("  App.EXAMPLE.com \n"), "app.example.com");
    assert_eq!(lowercase_trimmed("ÉCOLE.fr"), "école.fr");
    assert_eq!(normalize(" App.Local:8080 ", false), "app.local");
    assert_eq!(normalize("app.local:", false), "app.local");
    assert_eq!(normalize("app.local:http", false), "app.local:http");
    assert_eq!(normalize("[::1]:80", false), "[::1]:80");
    assert_eq!(normalize("::1", true), "::1");
    assert_eq!(normalize("example.com", false), "example.com");
}

#[test]
fn port_split() {
    assert_eq!(host_port_split("a:b:c"), Some(("a:b".to_string(), "c".to_string())));
    assert_eq!(host_port_split("nocolon"), None);
    assert_eq!(normalize_host_lowered("fe80::1", true), "fe80::1");
    assert_eq!(normalize_host_lowered("fe80::1", false), "fe80:");
}

#[test]
fn domain_hosts() {
    assert_eq!(validate_domain_host("app.local"), Ok(()));
    assert_eq!(validate_domain_host(""), Err(DomainHostError::Required));
    assert_eq!(validate_domain_host("a b"), Err(DomainHostError::Invalid));
    assert_eq!(validate_domain_host("a/b"), Err(DomainHostError::Invalid));
    assert_eq!(DomainHostError::Required.message(), "host is required");
    assert_eq!(DomainHostError::Invalid.message(), "invalid host");
}
