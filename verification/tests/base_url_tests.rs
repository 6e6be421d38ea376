use gemma_chat::base_url::{local_base_url_path, validated_local_base_url, UrlParts};

#[test]
fn plain_local_url_is_kept() {
    assert_eq!(validated_local_base_url("http://localhost:11434"), Ok("http://localhost:11434".to_string()));
}

#[test]
fn url_is_normalized() {
    assert_eq!(
        validated_local_base_url("  http://LOCALHOST:11434/api//?x=1#frag  "),
        Ok("http://localhost:11434/api".to_string())
    );
    assert_eq!(validated_local_base_url("https://127.0.0.1/"), Ok("https://127.0.0.1".to_string()));
}

#[test]
fn other_local_hosts() {
    assert_eq!(validated_local_base_url("http://[::1]:8080/"), Ok("http://[::1]:8080".to_string()));
    assert_eq!(validated_local_base_url("http://0.0.0.0:1"), Ok("http://0.0.0.0:1".to_string()));
}

#[test]
fn remote_host_is_refused() {
    assert_eq!(
        validated_local_base_url("http://example.com:11434"),
        Err("only localhost inference backends are allowed".to_string())
    );
}

#[test]
fn other_scheme_is_refused() {
    assert_eq!(
        validated_local_base_url("ftp://localhost/"),
        Err("base url must use http or https".to_string())
    );
}

#[test]
fn unparsable_url_is_refused() {
    assert_eq!(
        validated_local_base_url("localhost:11434"),
        Err("base url must use http or https".to_string())
    );
    assert_eq!(
        validated_local_base_url("not a url"),
        Err("invalid base url: relative URL without a base".to_string())
    );
}

#[test]
fn missing_host_is_refused() {
    let parts = UrlParts { scheme: "http".to_string(), host: None, path: "/".to_string() };
    assert_eq!(local_base_url_path(Ok(parts)), Err("base url is missing a host".to_string()));
}

#[test]
fn parse_error_is_prefixed() {
    assert_eq!(local_base_url_path(Err("boom".to_string())), Err("invalid base url: boom".to_string()));
}

#[test]
fn kept_path_loses_trailing_slashes() {
    let parts = UrlParts {
        scheme: "https".to_string(),
        host: Some("LocalHost".to_string()),
        path: "/v1///".to_string(),
    };
    assert_eq!(local_base_url_path(Ok(parts)), Ok("/v1".to_string()));
}
