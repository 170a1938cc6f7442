use minibrowser::url::{get_port, parse_url, resolve, validate_url, Scheme, UrlError};

#[test]
fn resolve_host_and_path() {
    let u = resolve("http://host/path").unwrap();
    assert_eq!(u.host, "host");
    assert_eq!(u.path, "path");
    assert_eq!(u.port, 80);
    assert!(matches!(u.scheme, Scheme::Plain));
}

#[test]
fn resolve_https_without_path_is_root() {
    let u = resolve("https://host").unwrap();
    assert_eq!(u.host, "host");
    assert_eq!(u.path, "");
    assert_eq!(u.port, 443);
    assert!(matches!(u.scheme, Scheme::Encrypted));
}

#[test]
fn resolve_empty_host_fails() {
    let r = resolve("http:///path");
    assert_eq!(r.unwrap_err(), UrlError::Empty);
}

#[test]
fn resolve_without_prefix_defaults_to_plain() {
    let u = resolve("example.com/some/page").unwrap();
    assert_eq!(u.host, "example.com");
    assert_eq!(u.path, "some/page");
    assert_eq!(u.port, 80);
    assert!(matches!(u.scheme, Scheme::Plain));
}

#[test]
fn resolve_empty_input_fails() {
    assert_eq!(resolve("").unwrap_err(), UrlError::Empty);
}

#[test]
fn resolve_keeps_deep_paths() {
    let u = resolve("https://h.example/a/b/c").unwrap();
    assert_eq!(u.host, "h.example");
    assert_eq!(u.path, "a/b/c");
    assert_eq!(u.port, 443);
}

#[test]
fn normalized_form_reconstructs_the_address() {
    let u = resolve("http://host/path").unwrap();
    assert_eq!(u.normalized(), "http://host/path");
    let v = resolve("https://host").unwrap();
    assert_eq!(v.normalized(), "https://host/");
}

#[test]
fn normalized_form_is_a_fixed_point() {
    let u = resolve("host/path").unwrap();
    let n = u.normalized();
    assert_eq!(n, "http://host/path");
    let again = resolve(&n).unwrap();
    assert_eq!(again.normalized(), n);
}

#[test]
fn authority_renders_host_and_port() {
    let u = resolve("http://host/path").unwrap();
    assert_eq!(u.authority(), "host:80");
    let v = resolve("https://host").unwrap();
    assert_eq!(v.authority(), "host:443");
}

#[test]
fn parse_url_extracts_the_host() {
    assert_eq!(parse_url("http://host/path"), "host");
    assert_eq!(parse_url("https://secure.example/x"), "secure.example");
    assert_eq!(parse_url("bare"), "bare");
    assert_eq!(parse_url("http:///path"), "");
}

#[test]
fn get_port_follows_the_scheme() {
    assert_eq!(get_port("https://host/x"), 443);
    assert_eq!(get_port("http://host/x"), 80);
    assert_eq!(get_port("host/x"), 80);
}

#[test]
fn validate_url_rejects_only_an_empty_host() {
    assert!(validate_url("host", "path").is_ok());
    assert!(validate_url("host", "").is_ok());
    assert_eq!(validate_url("", "path").unwrap_err(), UrlError::Empty);
}
