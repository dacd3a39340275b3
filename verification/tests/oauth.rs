use std::collections::BTreeMap;

use orcestr_real_translate::auth::OAuthProvider;
use orcestr_real_translate::config::{AuthConfig, CLIENT_ID, REDIRECT_URI, SCOPE};
use orcestr_real_translate::oauth::{
    build_oauth_browser_login_url, code_challenge, parse_callback, prepare_oauth,
    random_base64_url, validate_built_browser_login_url, validate_legal_document_url,
    ParsedCallback, MAX_AUTHORIZATION_URL_LENGTH,
};
use orcestr_real_translate::weburl::WebUrl;
use url::Url;

fn web(value: &str) -> WebUrl {
    WebUrl::parse(value).unwrap()
}

fn config(authorization_endpoint: &str) -> AuthConfig {
    AuthConfig {
        authorization_endpoint: web(authorization_endpoint),
        api_base: web("https://orcestr.com/api/v1/"),
        debug_build: true,
    }
}

#[test]
fn callback_requires_exact_registered_uri_and_contract() {
    let state = "state_0123456789abcdef0123456789";
    let valid = format!("{REDIRECT_URI}?code=one-time-code&state={state}");
    assert!(matches!(
        parse_callback(&valid).unwrap(),
        ParsedCallback::Success { .. }
    ));
    let wrong_host =
        format!("com.orcestr.realtranslate://attacker/callback?code=x&state={state}");
    assert!(parse_callback(&wrong_host).is_err());
    assert!(parse_callback(&format!("{valid}&state={state}")).is_err());
    assert!(parse_callback(&format!("{valid}&extra=value")).is_err());
}

#[test]
fn browser_login_url_wraps_exact_public_client_authorization_target() {
    let config = config("https://orcestr.com/oauth/authorize");
    let state = "state_0123456789abcdef0123456789";
    let challenge = "A".repeat(43);
    let browser = build_oauth_browser_login_url(&config, OAuthProvider::Google, state, &challenge)
        .unwrap();
    let browser = Url::parse(browser.as_str()).unwrap();

    assert_eq!(
        browser.origin().ascii_serialization(),
        "https://orcestr.com"
    );
    assert_eq!(browser.path(), "/login");
    assert!(browser.fragment().is_none());
    assert!(browser.as_str().contains("next=%2Foauth%2Fauthorize%3F"));
    let parameters = browser.query_pairs().collect::<BTreeMap<_, _>>();
    assert_eq!(
        parameters.get("provider").map(|value| value.as_ref()),
        Some("google")
    );
    let next = parameters.get("next").unwrap();
    assert!(next.starts_with("/oauth/authorize?response_type=code&"));
    assert!(next.ends_with("#provider=google"));

    let authorization = browser.join(next).unwrap();
    assert_eq!(authorization.path(), "/oauth/authorize");
    assert_eq!(authorization.fragment(), Some("provider=google"));
    let query = authorization.query_pairs().collect::<BTreeMap<_, _>>();
    assert_eq!(
        query.get("response_type").map(|value| value.as_ref()),
        Some("code")
    );
    assert_eq!(
        query.get("client_id").map(|value| value.as_ref()),
        Some(CLIENT_ID)
    );
    assert_eq!(
        query.get("redirect_uri").map(|value| value.as_ref()),
        Some(REDIRECT_URI)
    );
    assert_eq!(query.get("scope").map(|value| value.as_ref()), Some(SCOPE));
    assert_eq!(query.get("state").map(|value| value.as_ref()), Some(state));
    assert_eq!(
        query.get("code_challenge").map(|value| value.as_ref()),
        Some(challenge.as_str())
    );
    assert_eq!(
        query
            .get("code_challenge_method")
            .map(|value| value.as_ref()),
        Some("S256")
    );
}

#[test]
fn browser_login_builder_rejects_untrusted_config_and_unbounded_values() {
    let state = "state_0123456789abcdef0123456789";
    let challenge = "A".repeat(43);

    for endpoint in [
        "https://attacker.test/oauth/authorize",
        "https://orcestr.com.attacker.test/oauth/authorize",
        "https://orcestr.com/oauth/authorize/",
        "https://orcestr.com/oauth/authorize?next=/admin",
    ] {
        assert!(build_oauth_browser_login_url(
            &config(endpoint),
            OAuthProvider::Github,
            state,
            &challenge,
        )
        .is_err());
    }
    assert!(build_oauth_browser_login_url(
        &config("https://orcestr.com/oauth/authorize"),
        OAuthProvider::Github,
        "short",
        &challenge,
    )
    .is_err());
    assert!(build_oauth_browser_login_url(
        &config("https://orcestr.com/oauth/authorize"),
        OAuthProvider::Github,
        state,
        &"A".repeat(44),
    )
    .is_err());

    let mut authorization = Url::parse("https://orcestr.com/oauth/authorize").unwrap();
    authorization.set_query(Some(&format!(
        "state={}",
        "x".repeat(MAX_AUTHORIZATION_URL_LENGTH)
    )));
    authorization.set_fragment(Some("provider=github"));
    let mut browser = Url::parse("https://orcestr.com/login").unwrap();
    let next = format!(
        "/oauth/authorize?{}#provider=github",
        authorization.query().unwrap()
    );
    browser
        .query_pairs_mut()
        .append_pair("next", &next)
        .append_pair("provider", "github");
    assert!(validate_built_browser_login_url(
        &web(browser.as_str()),
        &web(authorization.as_str()),
        &next,
        OAuthProvider::Github,
    )
    .is_err());
}

#[test]
fn legal_document_opener_is_exactly_allowlisted() {
    for value in [
        "https://orcestr.com/legal/privacy-policy",
        "https://orcestr.com/ru/legal/user-agreement",
    ] {
        assert!(validate_legal_document_url(value).is_ok());
    }
    for value in [
        "http://orcestr.com/legal/privacy-policy",
        "https://www.orcestr.com/legal/privacy-policy",
        "https://orcestr.com.attacker.test/legal/privacy-policy",
        "https://orcestr.com/legal/../admin",
        "https://orcestr.com/legal/privacy-policy?next=https://attacker.test",
        "https://orcestr.com/ru/legal/privacy-policy/extra",
    ] {
        assert!(validate_legal_document_url(value).is_err(), "{value}");
    }
}

#[test]
fn legal_document_errors_name_the_refused_part() {
    let too_long = format!("https://orcestr.com/legal/{}", "a".repeat(2_048));
    assert_eq!(
        validate_legal_document_url(&too_long).unwrap_err().message,
        "Legal document URL is too long."
    );
    assert_eq!(
        validate_legal_document_url("not a url").unwrap_err().message,
        "Legal document URL is invalid."
    );
    assert_eq!(
        validate_legal_document_url("https://orcestr.com/legal/Privacy").unwrap_err().message,
        "Legal document slug is invalid."
    );
    assert_eq!(
        validate_legal_document_url("https://orcestr.com/terms").unwrap_err().message,
        "Legal document path is not allowed."
    );
}

#[test]
fn callback_denial_and_missing_state() {
    let state = "state_0123456789abcdef0123456789";
    let denied = format!("{REDIRECT_URI}?error=access_denied&error_description=no&state={state}");
    match parse_callback(&denied).unwrap() {
        ParsedCallback::Denied { state: s } => assert_eq!(s, state),
        other => panic!("unexpected {other:?}"),
    }
    let missing = format!("{REDIRECT_URI}?code=abc");
    assert_eq!(
        parse_callback(&missing).unwrap_err().message,
        "OAuth callback state is missing."
    );
    let both = format!("{REDIRECT_URI}?code=abc&error=x&state={state}");
    assert_eq!(
        parse_callback(&both).unwrap_err().message,
        "OAuth callback parameters are invalid."
    );
    let fragment = format!("{REDIRECT_URI}?code=abc&state={state}#x");
    assert_eq!(
        parse_callback(&fragment).unwrap_err().message,
        "OAuth callback must not contain a fragment."
    );
    let duplicate = format!("{REDIRECT_URI}?state={state}&state={state}");
    assert_eq!(
        parse_callback(&duplicate).unwrap_err().message,
        "OAuth callback contains a duplicate parameter."
    );
    let success = format!("{REDIRECT_URI}?code=one-time-code&state={state}");
    match parse_callback(&success).unwrap() {
        ParsedCallback::Success { code, state: s } => {
            assert_eq!(code, "one-time-code");
            assert_eq!(s, state);
        }
        other => panic!("unexpected {other:?}"),
    }
}

#[test]
fn random_secrets_are_url_safe_base64() {
    let state = random_base64_url(32).unwrap();
    assert_eq!(state.len(), 43);
    assert!(state
        .bytes()
        .all(|b| b.is_ascii_alphanumeric() || b == b'-' || b == b'_'));
    let verifier = random_base64_url(48).unwrap();
    assert_eq!(verifier.len(), 64);
    assert_ne!(state, random_base64_url(32).unwrap());
}

#[test]
fn code_challenge_is_the_rfc7636_s256_transform() {
    assert_eq!(
        code_challenge("dBjftJeZ4CVP-mB92K27uhbUJU1p1r_wW1gFWFOEjXk"),
        "E9Melhoa2OwvFrEMTJguCHaoeK1t8URWbuGJSstw-cM"
    );
}

#[test]
fn prepared_authorization_carries_its_own_secrets() {
    let start = prepare_oauth(&config("https://orcestr.com/oauth/authorize"), OAuthProvider::Yandex)
        .unwrap();
    let browser = Url::parse(start.browser_login_url.as_str()).unwrap();
    let parameters = browser.query_pairs().collect::<BTreeMap<_, _>>();
    let authorization = browser.join(parameters.get("next").unwrap()).unwrap();
    let query = authorization.query_pairs().collect::<BTreeMap<_, _>>();
    assert_eq!(query.get("state").unwrap().as_ref(), start.state);
    assert_eq!(
        query.get("code_challenge").unwrap().as_ref(),
        code_challenge(&start.code_verifier)
    );
    assert_eq!(authorization.fragment(), Some("provider=yandex"));
}
