use axum::http::{HeaderMap, HeaderValue};
use fiducia_admin::request_security::{bare_authority, RequestSecurity, RequestSecurityError, SecurityConfigError, UrlParts};

const SECRET: &[u8] = b"0123456789abcdef0123456789abcdef";

fn security() -> RequestSecurity {
    RequestSecurity::new("https://admin.fiducia.cloud", SECRET.to_vec()).unwrap()
}

fn browser_headers(origin: &'static str) -> HeaderMap {
    let mut headers = HeaderMap::new();
    headers.insert("host", HeaderValue::from_static("admin.fiducia.cloud"));
    headers.insert("origin", HeaderValue::from_static(origin));
    headers.insert("sec-fetch-site", HeaderValue::from_static("same-origin"));
    headers
}

fn config_error(result: Result<RequestSecurity, SecurityConfigError>) -> SecurityConfigError {
    match result {
        Ok(_) => panic!("the settings were accepted"),
        Err(error) => error,
    }
}

#[test]
fn exact_admin_origin_is_accepted() {
    assert_eq!(security().require_same_origin(&browser_headers("https://admin.fiducia.cloud")), Ok(()));
}

#[test]
fn sibling_origin_is_rejected_even_though_it_is_same_site() {
    assert_eq!(
        security().require_same_origin(&browser_headers("https://app.fiducia.cloud")),
        Err(RequestSecurityError::MismatchedOrigin)
    );
}

#[test]
fn mismatched_host_is_rejected() {
    let mut headers = browser_headers("https://admin.fiducia.cloud");
    headers.insert("host", HeaderValue::from_static("app.fiducia.cloud"));
    assert_eq!(security().require_same_origin(&headers), Err(RequestSecurityError::MismatchedHost));
}

#[test]
fn same_site_fetch_metadata_is_not_treated_as_same_origin() {
    let mut headers = browser_headers("https://admin.fiducia.cloud");
    headers.insert("sec-fetch-site", HeaderValue::from_static("same-site"));
    assert_eq!(security().require_same_origin(&headers), Err(RequestSecurityError::CrossSiteFetch));
}

#[test]
fn csrf_token_is_bound_to_the_verified_credential() {
    let security = security();
    let token = security.csrf_token("cookie\0verified.jwt");
    assert_eq!(security.verify_csrf_token("cookie\0verified.jwt", &token), Ok(()));
    assert_eq!(
        security.verify_csrf_token("cookie\0other.jwt", &token),
        Err(RequestSecurityError::InvalidCsrfToken)
    );
}

#[test]
fn configured_origin_rejects_paths_and_short_secrets() {
    assert!(RequestSecurity::new("https://admin.fiducia.cloud/login", SECRET.to_vec()).is_err());
    assert!(RequestSecurity::new("https://admin.fiducia.cloud", b"short".to_vec()).is_err());
}

#[test]
fn duplicate_security_authorities_are_rejected() {
    let mut duplicate_origin = browser_headers("https://admin.fiducia.cloud");
    duplicate_origin.append("origin", HeaderValue::from_static("https://admin.fiducia.cloud"));
    assert_eq!(security().require_same_origin(&duplicate_origin), Err(RequestSecurityError::AmbiguousOrigin));

    let mut duplicate_host = browser_headers("https://admin.fiducia.cloud");
    duplicate_host.append("host", HeaderValue::from_static("admin.fiducia.cloud"));
    assert_eq!(security().require_same_origin(&duplicate_host), Err(RequestSecurityError::AmbiguousHost));
}

#[test]
fn ipv6_origins_preserve_brackets_in_the_expected_host() {
    let security = RequestSecurity::new("http://[::1]:8096", SECRET.to_vec()).unwrap();
    let mut headers = HeaderMap::new();
    headers.insert("host", HeaderValue::from_static("[::1]:8096"));
    headers.insert("origin", HeaderValue::from_static("http://[::1]:8096"));
    assert_eq!(security.require_same_origin(&headers), Ok(()));
}

#[test]
fn bearer_api_rejects_cross_site_fetch_metadata_without_origin() {
    let mut headers = HeaderMap::new();
    headers.insert("host", HeaderValue::from_static("admin.fiducia.cloud"));
    headers.insert("sec-fetch-site", HeaderValue::from_static("cross-site"));
    assert_eq!(security().require_api_host(&headers), Err(RequestSecurityError::CrossSiteFetch));
}

#[test]
fn absent_authorities_are_named() {
    let mut headers = HeaderMap::new();
    assert_eq!(security().require_host(&headers), Err(RequestSecurityError::MissingHost));
    headers.insert("host", HeaderValue::from_static("admin.fiducia.cloud"));
    assert_eq!(security().require_host(&headers), Ok(()));
    assert_eq!(security().require_same_origin(&headers), Err(RequestSecurityError::MissingOrigin));
    assert_eq!(security().require_api_host(&headers), Ok(()));
}

#[test]
fn unreadable_values_count_as_absent() {
    let mut headers = HeaderMap::new();
    headers.insert("host", HeaderValue::from_bytes(b"admin\xff").unwrap());
    assert_eq!(security().require_host(&headers), Err(RequestSecurityError::MissingHost));
}

#[test]
fn hosts_are_compared_without_case() {
    let mut headers = HeaderMap::new();
    headers.insert("host", HeaderValue::from_static("ADMIN.fiducia.cloud"));
    assert_eq!(security().require_host(&headers), Ok(()));
}

#[test]
fn every_rejection_has_its_code() {
    let codes = [
        (RequestSecurityError::AmbiguousHost, "ambiguous_host"),
        (RequestSecurityError::AmbiguousOrigin, "ambiguous_origin"),
        (RequestSecurityError::InvalidCsrfToken, "invalid_csrf_token"),
        (RequestSecurityError::MissingHost, "missing_host"),
        (RequestSecurityError::MissingOrigin, "missing_origin"),
        (RequestSecurityError::MismatchedHost, "mismatched_host"),
        (RequestSecurityError::MismatchedOrigin, "mismatched_origin"),
        (RequestSecurityError::CrossSiteFetch, "cross_site_fetch"),
    ];
    for (error, code) in codes {
        assert_eq!(error.code(), code);
    }
}

#[test]
fn a_token_is_the_keyed_hash_of_its_binding() {
    // HMAC-SHA-256 under the secret, in unpadded URL-safe base64: 32 bytes take
    // 43 characters.
    let token = security().csrf_token("cookie\0verified.jwt");
    assert_eq!(token.len(), 43);
    assert!(token.bytes().all(|byte| byte.is_ascii_alphanumeric() || byte == b'-' || byte == b'_'));
    let other = RequestSecurity::new("https://admin.fiducia.cloud", vec![7; 32]).unwrap();
    assert_ne!(other.csrf_token("cookie\0verified.jwt"), token);
    assert_eq!(
        other.verify_csrf_token("cookie\0verified.jwt", &token),
        Err(RequestSecurityError::InvalidCsrfToken)
    );
    assert_eq!(
        security().verify_csrf_token("cookie\0verified.jwt", "not base64!"),
        Err(RequestSecurityError::InvalidCsrfToken)
    );
    assert_eq!(security().check_csrf_bytes("cookie\0verified.jwt", None), Err(RequestSecurityError::InvalidCsrfToken));
}

#[test]
fn no_other_spelling_of_a_token_is_accepted() {
    let security = security();
    let token = security.csrf_token("cookie\0verified.jwt");
    let alphabet = "ABCDEFGHIJKLMNOPQRSTUVWXYZabcdefghijklmnopqrstuvwxyz0123456789-_";
    let last = alphabet.find(&token[42..]).unwrap();
    assert_eq!(last % 4, 0);
    // The last symbol carries two bits that belong to no byte.
    let loose = format!("{}{}", &token[..42], &alphabet[last + 1..last + 2]);
    let padded = format!("{token}=");
    let spaced = format!(" {token}");
    let longer = format!("{token}A");
    for provided in [loose.as_str(), padded.as_str(), spaced.as_str(), longer.as_str(), &token[..42], "", "A", "+/=="] {
        assert_eq!(
            security.verify_csrf_token("cookie\0verified.jwt", provided),
            Err(RequestSecurityError::InvalidCsrfToken),
            "{provided}"
        );
    }
    assert_eq!(security.verify_csrf_token("cookie\0verified.jwt", &token), Ok(()));
}

#[test]
fn every_configuration_error_is_told_apart() {
    assert_eq!(
        config_error(RequestSecurity::from_env(None, Some("0123456789abcdef0123456789abcdef"), 8096, true)),
        SecurityConfigError::OriginUnset
    );
    assert_eq!(
        config_error(RequestSecurity::from_env(Some("https://admin.fiducia.cloud"), None, 8096, true)),
        SecurityConfigError::SecretUnset
    );
    assert_eq!(
        config_error(RequestSecurity::new("https://admin.fiducia.cloud", b"short".to_vec())),
        SecurityConfigError::SecretTooShort
    );
    assert_eq!(config_error(RequestSecurity::new("not a url", SECRET.to_vec())), SecurityConfigError::OriginNotAbsolute);
    assert_eq!(
        config_error(RequestSecurity::new("https://admin.fiducia.cloud/login", SECRET.to_vec())),
        SecurityConfigError::OriginNotBare
    );
    assert_eq!(
        config_error(RequestSecurity::from_env(
            Some("http://admin.fiducia.cloud"),
            Some("0123456789abcdef0123456789abcdef"),
            8096,
            true
        )),
        SecurityConfigError::OriginNotHttps
    );
}

#[test]
fn local_builds_have_an_origin_and_a_secret_of_their_own() {
    let local = match RequestSecurity::from_env(None, None, 8096, false) {
        Ok(security) => security,
        Err(error) => panic!("{}", error.message()),
    };
    let mut headers = HeaderMap::new();
    headers.insert("host", HeaderValue::from_static("127.0.0.1:8096"));
    headers.insert("origin", HeaderValue::from_static("http://127.0.0.1:8096"));
    assert_eq!(local.require_same_origin(&headers), Ok(()));
}

#[test]
fn parts_of_a_url_decide_the_authority() {
    let parts = |scheme: &str, path: &str, port: Option<u16>| UrlParts {
        scheme: scheme.to_string(),
        host: Some("admin.fiducia.cloud".to_string()),
        username: String::new(),
        password: None,
        query: None,
        fragment: None,
        path: path.to_string(),
        port,
    };
    assert!(bare_authority(Some(parts("https", "/", Some(8443)))).is_ok_and(|host| host == "admin.fiducia.cloud:8443"));
    assert!(bare_authority(Some(parts("http", "/", None))).is_ok_and(|host| host == "admin.fiducia.cloud"));
    for refused in [parts("https", "/x", None), parts("ftp", "/", None)] {
        assert!(matches!(bare_authority(Some(refused)), Err(SecurityConfigError::OriginNotBare)));
    }
    assert!(matches!(bare_authority(None), Err(SecurityConfigError::OriginNotAbsolute)));

    let security = RequestSecurity::new(" https://Admin.Fiducia.Cloud:8443/ ", SECRET.to_vec()).unwrap();
    assert_eq!(security.check_host(&vec![Some("admin.fiducia.cloud:8443".to_string())]), Ok(()));
    assert_eq!(
        security.check_host(&vec![Some("admin.fiducia.cloud".to_string())]),
        Err(RequestSecurityError::MismatchedHost)
    );
    assert_eq!(
        security.check_origin(&vec![Some("https://admin.fiducia.cloud:8443".to_string())], &vec![]),
        Ok(())
    );
}

#[test]
fn an_origin_within_origins_is_refused() {
    let origin = format!("{}https://admin.fiducia.cloud", "blob:".repeat(100_000));
    assert_eq!(config_error(RequestSecurity::new(&origin, SECRET.to_vec())), SecurityConfigError::OriginNotBare);
}
