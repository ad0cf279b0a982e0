use identity_client::join_url;

#[test]
fn join_plain_host() {
    assert_eq!(join_url("http://example.com", "login"), "http://example.com/login");
}

#[test]
fn join_host_with_trailing_separator() {
    assert_eq!(join_url("http://example.com/", "login"), "http://example.com/login");
}

#[test]
fn join_host_with_path_prefix() {
    assert_eq!(join_url("http://example.com/api", "signup"), "http://example.com/api/signup");
}

#[test]
fn join_empty_host() {
    assert_eq!(join_url("", "auth"), "auth");
}

#[test]
fn join_keeps_doubled_separator_as_given() {
    assert_eq!(join_url("http://example.com//", "auth"), "http://example.com//auth");
}

#[test]
fn join_each_endpoint() {
    for endpoint in ["login", "signup", "auth"] {
        let joined = join_url("https://id.example.com", endpoint);
        assert!(joined.starts_with("https://id.example.com"));
        assert!(joined.ends_with(endpoint));
        assert_eq!(joined.matches("com/").count(), 1);
    }
}
