use orcestr_real_translate::config::{
    validate_endpoint, AuthConfig, EndpointKind, PRODUCTION_API_BASE_URL,
    PRODUCTION_AUTHORIZE_URL, REDIRECT_URI,
};
use orcestr_real_translate::weburl::WebUrl;

fn web(value: &str) -> WebUrl {
    WebUrl::parse(value).unwrap()
}

#[test]
fn production_is_the_default_and_exact_origin() {
    for (value, kind) in [
        (PRODUCTION_AUTHORIZE_URL, EndpointKind::Authorization),
        (PRODUCTION_API_BASE_URL, EndpointKind::ApiBase),
    ] {
        assert!(validate_endpoint(&web(value), false, kind).is_ok());
    }

    for value in [
        "http://orcestr.com/api/v1",
        "https://www.orcestr.com/api/v1",
        "https://orcestr.com.attacker.test/api/v1",
        "https://orcestr.com:444/api/v1",
        "https://user@orcestr.com/api/v1",
        "https://orcestr.com/api/v2",
    ] {
        assert!(validate_endpoint(&web(value), false, EndpointKind::ApiBase).is_err());
    }
}

#[test]
fn localhost_is_only_an_explicit_debug_override() {
    let api = web("http://localhost:3934/api/v1");
    assert!(validate_endpoint(&api, true, EndpointKind::ApiBase).is_ok());
    assert!(validate_endpoint(&api, false, EndpointKind::ApiBase).is_err());

    for value in [
        "http://localhost/api/v1",
        "http://127.0.0.1:3934/api/v1",
        "https://localhost:3934/api/v1",
        "http://localhost.attacker.test:3934/api/v1",
    ] {
        assert!(validate_endpoint(&web(value), true, EndpointKind::ApiBase).is_err());
    }
}

#[test]
fn endpoint_methods_resolve_only_fixed_paths() {
    let config = AuthConfig {
        authorization_endpoint: web(PRODUCTION_AUTHORIZE_URL),
        api_base: web("https://orcestr.com/api/v1/"),
        debug_build: true,
    };
    assert_eq!(
        config.native_login_endpoint().unwrap().as_str(),
        "https://orcestr.com/api/v1/auth/token/login/"
    );
    assert_eq!(
        config.browser_login_endpoint().unwrap().as_str(),
        "https://orcestr.com/login"
    );
    assert_eq!(
        config.methods_endpoint().unwrap().as_str(),
        "https://orcestr.com/api/v1/auth/methods/?origin=https%3A%2F%2Forcestr.com"
    );
    assert_eq!(
        config.oauth_token_endpoint().unwrap().as_str(),
        "https://orcestr.com/api/v1/auth/oauth2/token/"
    );
    assert_eq!(
        config.legal_documents_endpoint("ru").unwrap().as_str(),
        "https://orcestr.com/api/v1/legal/registration-documents/?language=ru"
    );
}

#[test]
fn browser_login_endpoint_revalidates_authorization_origin_and_path() {
    for value in [
        "https://attacker.test/oauth/authorize",
        "https://orcestr.com.attacker.test/oauth/authorize",
        "https://orcestr.com/oauth/authorize/",
        "https://orcestr.com/oauth/authorize?next=/admin",
        "https://user@orcestr.com/oauth/authorize",
    ] {
        let config = AuthConfig {
            authorization_endpoint: web(value),
            api_base: web("https://orcestr.com/api/v1/"),
            debug_build: true,
        };
        assert!(config.browser_login_endpoint().is_err(), "{value}");
    }
}

#[test]
fn explicit_debug_endpoints_share_browser_origin_for_provider_methods() {
    let config = AuthConfig {
        authorization_endpoint: web("http://localhost:8934/oauth/authorize"),
        api_base: web("http://localhost:3934/api/v1/"),
        debug_build: true,
    };
    assert_eq!(
        config.browser_login_endpoint().unwrap().as_str(),
        "http://localhost:8934/login"
    );
    assert_eq!(
        config.methods_endpoint().unwrap().as_str(),
        "http://localhost:3934/api/v1/auth/methods/?origin=http%3A%2F%2Flocalhost%3A8934"
    );
}

#[test]
fn release_builds_refuse_localhost_sign_in_pages() {
    let config = AuthConfig {
        authorization_endpoint: web("http://localhost:8934/oauth/authorize"),
        api_base: web("https://orcestr.com/api/v1/"),
        debug_build: false,
    };
    assert!(config.browser_login_endpoint().is_err());
}

#[test]
fn loading_defaults_to_production_with_a_trailing_api_slash() {
    let config = AuthConfig::load(None, None, false).unwrap();
    assert_eq!(
        config.authorization_endpoint.as_str(),
        "https://orcestr.com/oauth/authorize"
    );
    assert_eq!(config.api_base.as_str(), "https://orcestr.com/api/v1/");
    assert_eq!(
        config.native_me_endpoint().unwrap().as_str(),
        "https://orcestr.com/api/v1/auth/me/"
    );
}

#[test]
fn loading_reports_the_refused_variable() {
    let error = AuthConfig::load(Some("not a url"), None, true).err().unwrap();
    assert_eq!(error, "ORCESTR_AUTHORIZE_URL is not a valid absolute URL");
    let error = AuthConfig::load(None, Some("http://localhost:3934/api/v1"), false)
        .err()
        .unwrap();
    assert_eq!(
        error,
        "ORCESTR_API_BASE_URL must use https://orcestr.com; debug localhost requires an explicit environment override"
    );
    let config = AuthConfig::load(
        Some(" http://localhost:8934/oauth/authorize "),
        Some("http://localhost:3934/api/v1"),
        true,
    )
    .unwrap();
    assert_eq!(config.api_base.as_str(), "http://localhost:3934/api/v1/");
}

#[test]
fn redirect_uri_uses_the_desktop_callback_scheme() {
    assert!(REDIRECT_URI.starts_with("com.orcestr.realtranslate://"));
}
