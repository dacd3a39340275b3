//! The Orcestr endpoints: which origins and paths the application accepts,
//! and the fixed API paths resolved against them.
use vstd::prelude::*;
use crate::text::{byte_len, concat_str, str_byte_len, str_eq, str_trim, trim_seq};
use crate::weburl::{
    WebUrl, URL_SIZE_LIMIT, parsed_url, joined_url, url_scheme, url_username, url_password,
    url_host, url_port, url_path, url_query, url_fragment, url_origin, url_with_path,
    url_with_pair, parse_url, join_url, clone_url, scheme, username, password, host, port, path,
    query, fragment, origin, set_path, append_pair,
};

verus! {

pub const CLIENT_ID: &'static str = "orcestr-real-translate";
pub const REDIRECT_URI: &'static str = "com.orcestr.realtranslate://oauth/callback";
pub const SCOPE: &'static str = "openid profile email offline_access";
pub const PRODUCTION_AUTHORIZE_URL: &'static str = "https://orcestr.com/oauth/authorize";
pub const PRODUCTION_API_BASE_URL: &'static str = "https://orcestr.com/api/v1";
pub const LOGIN_PATH: &'static str = "/login";
pub const API_BASE_PATH: &'static str = "/api/v1/";
pub const AUTHORIZE_URL_VARIABLE: &'static str = "ORCESTR_AUTHORIZE_URL";
pub const API_BASE_URL_VARIABLE: &'static str = "ORCESTR_API_BASE_URL";

pub const CREDENTIALS_MESSAGE: &'static str = "must not contain credentials, a query, or a fragment";
pub const HOST_MESSAGE: &'static str = "must contain a host";
pub const ORIGIN_MESSAGE: &'static str =
    "must use https://orcestr.com; debug localhost requires an explicit environment override";
pub const AUTHORIZE_PATH_MESSAGE: &'static str = "must use the exact /oauth/authorize path";
pub const API_PATH_MESSAGE: &'static str = "must use the exact /api/v1 path";

#[derive(Clone, Copy, Debug, PartialEq, Eq, Structural)]
pub enum EndpointKind {
    Authorization,
    ApiBase,
}

/// What `validate_endpoint` decides of the URL `u`: accepted, or refused
/// with a message.
pub open spec fn endpoint_verdict(u: Seq<char>, allow_explicit_localhost: bool, kind: EndpointKind) -> Result<
    (),
    Seq<char>,
> {
    if url_username(u).len() != 0 || url_password(u) is Some || url_query(u) is Some
        || url_fragment(u) is Some {
        Err(CREDENTIALS_MESSAGE@)
    } else {
        match url_host(u) {
            None => Err(HOST_MESSAGE@),
            Some(h) => {
                let production = url_scheme(u) == "https"@ && h == "orcestr.com"@ && url_port(u) is None;
                let explicit_localhost = allow_explicit_localhost && url_scheme(u) == "http"@ && h
                    == "localhost"@ && url_port(u) is Some;
                if !production && !explicit_localhost {
                    Err(ORIGIN_MESSAGE@)
                } else {
                    match kind {
                        EndpointKind::Authorization => if url_path(u) == "/oauth/authorize"@ {
                            Ok(())
                        } else {
                            Err(AUTHORIZE_PATH_MESSAGE@)
                        },
                        EndpointKind::ApiBase => if url_path(u) == "/api/v1"@ || url_path(u)
                            == "/api/v1/"@ {
                            Ok(())
                        } else {
                            Err(API_PATH_MESSAGE@)
                        },
                    }
                }
            },
        }
    }
}

/// Accepts only the production origin, or an explicit `http://localhost`
/// with a port where the caller allows it, with the exact path of `kind`
/// and without credentials, query or fragment.
pub fn validate_endpoint(url: &WebUrl, allow_explicit_localhost: bool, kind: EndpointKind) -> (r:
    Result<(), &'static str>)
    ensures
        match r {
            Ok(_) => endpoint_verdict(url@, allow_explicit_localhost, kind) is Ok,
            Err(m) => endpoint_verdict(url@, allow_explicit_localhost, kind) == Err::<(), Seq<char>>(
                m@,
            ),
        },
{
    if !username(url).is_empty() || password(url).is_some() || query(url).is_some() || fragment(
        url,
    ).is_some() {
        return Err(CREDENTIALS_MESSAGE);
    }
    let h = match host(url) {
        Some(h) => h,
        None => return Err(HOST_MESSAGE),
    };
    let production = str_eq(scheme(url), "https") && str_eq(h, "orcestr.com") && port(
        url,
    ).is_none();
    let explicit_localhost = allow_explicit_localhost && str_eq(scheme(url), "http") && str_eq(
        h,
        "localhost",
    ) && port(url).is_some();
    if !production && !explicit_localhost {
        return Err(ORIGIN_MESSAGE);
    }
    match kind {
        EndpointKind::Authorization => {
            if !str_eq(path(url), "/oauth/authorize") {
                return Err(AUTHORIZE_PATH_MESSAGE);
            }
        },
        EndpointKind::ApiBase => {
            let p = path(url);
            if !str_eq(p, "/api/v1") && !str_eq(p, "/api/v1/") {
                return Err(API_PATH_MESSAGE);
            }
        },
    }
    Ok(())
}

/// What `load_endpoint` gives for the environment variable `name`, set to
/// `explicit` or unset: the serialization of the accepted URL, or the
/// message of the refusal.
pub open spec fn load_outcome(
    name: Seq<char>,
    explicit: Option<Seq<char>>,
    default: Seq<char>,
    kind: EndpointKind,
    debug_build: bool,
) -> Result<Seq<char>, Seq<char>> {
    let value = match explicit {
        Some(v) => v,
        None => default,
    };
    match parsed_url(trim_seq(value)) {
        None => Err(name + " is not a valid absolute URL"@),
        Some(u) => match endpoint_verdict(u, debug_build && explicit is Some, kind) {
            Err(m) => Err(name + " "@ + m),
            Ok(_) => Ok(u),
        },
    }
}

pub open spec fn opt_str_view(o: Option<&str>) -> Option<Seq<char>> {
    match o {
        Some(s) => Some(s@),
        None => None,
    }
}

/// Parses and validates one endpoint. `explicit` is the value of the
/// environment variable `environment_name`, where it is set; a debug build
/// accepts localhost only from such an explicit value.
pub fn load_endpoint(
    environment_name: &str,
    explicit: Option<&str>,
    default: &str,
    kind: EndpointKind,
    debug_build: bool,
) -> (r: Result<WebUrl, String>)
    ensures
        match r {
            Ok(u) => load_outcome(
                environment_name@,
                opt_str_view(explicit),
                default@,
                kind,
                debug_build,
            ) == Ok::<Seq<char>, Seq<char>>(u@),
            Err(m) => load_outcome(
                environment_name@,
                opt_str_view(explicit),
                default@,
                kind,
                debug_build,
            ) == Err::<Seq<char>, Seq<char>>(m@),
        },
{
    let value = match explicit {
        Some(v) => v,
        None => default,
    };
    let parsed = match parse_url(str_trim(value)) {
        Some(u) => u,
        None => return Err(concat_str(environment_name, " is not a valid absolute URL")),
    };
    let allow_explicit_localhost = debug_build && explicit.is_some();
    match validate_endpoint(&parsed, allow_explicit_localhost, kind) {
        Err(message) => {
            let prefix = concat_str(environment_name, " ");
            let full = concat_str(prefix.as_str(), message);
            proof {
                assert(full@ == environment_name@ + " "@ + message@);
            }
            Err(full)
        },
        Ok(_) => Ok(parsed),
    }
}

/// The last character of `s` is `/`.
pub open spec fn ends_with_slash(s: Seq<char>) -> bool {
    s.len() > 0 && s.last() == '/'
}

pub fn str_ends_with_slash(s: &str) -> (r: bool)
    ensures
        r == ends_with_slash(s@),
{
    let mut last: Option<char> = None;
    for c in it: s.chars()
        invariant
            it.seq() == s@,
            it.index() == 0 ==> last is None,
            it.index() > 0 ==> last == Some(s@[it.index() - 1]),
    {
        last = Some(c);
    }
    match last {
        Some(c) => c == '/',
        None => false,
    }
}

/// The API base as it is kept: with a trailing slash, so that relative
/// paths resolve below it.
pub open spec fn api_base_with_slash(u: Seq<char>) -> Seq<char> {
    if ends_with_slash(url_path(u)) {
        u
    } else {
        url_with_path(u, API_BASE_PATH@)
    }
}

/// `u` can grow by `extra` bytes and stay within what `url::Url` holds.
pub open spec fn fits(u: Seq<char>, extra: nat) -> bool {
    byte_len(u) + extra <= URL_SIZE_LIMIT
}

pub fn fits_exec(u: &WebUrl, extra: u64) -> (r: bool)
    ensures
        r == fits(u@, extra as nat),
{
    let len = str_byte_len(u.as_str()) as u64;
    len <= URL_SIZE_LIMIT && extra <= URL_SIZE_LIMIT - len
}

/// `u` can take `s` as a new path or fragment: percent-encoding makes at
/// most three bytes of each byte, and a separator is added.
pub fn fits_after(u: &WebUrl, s: &str) -> (r: bool)
    ensures
        r == fits(u@, 3 * byte_len(s@) + 1),
{
    let n = str_byte_len(s) as u64;
    if n > URL_SIZE_LIMIT {
        return false;
    }
    fits_exec(u, 3 * n + 1)
}

/// What `AuthConfig::browser_login_endpoint` gives for the authorization
/// endpoint `a`: the sign-in page on its origin, or the message of the
/// refusal. A debug build accepts `http://localhost` with a port.
pub open spec fn browser_login_verdict(a: Seq<char>, debug_build: bool) -> Result<Seq<char>, Seq<char>> {
    let allow = debug_build && url_scheme(a) == "http"@ && url_host(a) == Some("localhost"@)
        && url_port(a) is Some;
    match endpoint_verdict(a, allow, EndpointKind::Authorization) {
        Err(m) => Err(m),
        Ok(_) => if fits(a, 3 * byte_len(LOGIN_PATH@) + 1) {
            Ok(url_with_path(a, LOGIN_PATH@))
        } else {
            Err(AUTHORIZE_PATH_MESSAGE@)
        },
    }
}

pub open spec fn url_opt_view(o: Option<WebUrl>) -> Option<Seq<char>> {
    match o {
        Some(u) => Some(u@),
        None => None,
    }
}

/// Where the application signs in and which API it calls.
pub struct AuthConfig {
    pub authorization_endpoint: WebUrl,
    pub api_base: WebUrl,
    /// A debug build, which accepts an explicit localhost endpoint.
    pub debug_build: bool,
}

impl AuthConfig {
    /// The configuration from the environment: `authorize_override` and
    /// `api_override` are the values of `ORCESTR_AUTHORIZE_URL` and
    /// `ORCESTR_API_BASE_URL` where they are set.
    pub fn load(authorize_override: Option<&str>, api_override: Option<&str>, debug_build: bool) -> (r:
        Result<AuthConfig, String>)
        ensures
            ({
                let a = load_outcome(
                    AUTHORIZE_URL_VARIABLE@,
                    opt_str_view(authorize_override),
                    PRODUCTION_AUTHORIZE_URL@,
                    EndpointKind::Authorization,
                    debug_build,
                );
                let b = load_outcome(
                    API_BASE_URL_VARIABLE@,
                    opt_str_view(api_override),
                    PRODUCTION_API_BASE_URL@,
                    EndpointKind::ApiBase,
                    debug_build,
                );
                &&& r matches Ok(c) ==> {
                    &&& a == Ok::<Seq<char>, Seq<char>>(c.authorization_endpoint@)
                    &&& b is Ok
                    &&& c.api_base@ == api_base_with_slash(b->Ok_0)
                    &&& c.debug_build == debug_build
                }
                &&& a matches Err(m) ==> (r matches Err(e) && e@ == m)
                &&& a is Ok ==> (b matches Err(m) ==> (r matches Err(e) && e@ == m))
                &&& (a is Ok && b is Ok && (ends_with_slash(url_path(b->Ok_0)) || fits(
                    b->Ok_0,
                    3 * byte_len(API_BASE_PATH@) + 1,
                ))) ==> r is Ok
            }),
    {
        let authorization_endpoint = load_endpoint(
            AUTHORIZE_URL_VARIABLE,
            authorize_override,
            PRODUCTION_AUTHORIZE_URL,
            EndpointKind::Authorization,
            debug_build,
        )?;
        let mut api_base = load_endpoint(
            API_BASE_URL_VARIABLE,
            api_override,
            PRODUCTION_API_BASE_URL,
            EndpointKind::ApiBase,
            debug_build,
        )?;
        if !str_ends_with_slash(path(&api_base)) {
            // A URL this close to the size limit cannot take the slash.
            if !fits_after(&api_base, API_BASE_PATH) {
                return Err(concat_str(API_BASE_URL_VARIABLE, " is not a valid absolute URL"));
            }
            set_path(&mut api_base, API_BASE_PATH);
        }
        Ok(AuthConfig { authorization_endpoint, api_base, debug_build })
    }

    /// `path` resolved against the API base.
    fn api(&self, relative: &str) -> (r: Option<WebUrl>)
        ensures
            url_opt_view(r) == joined_url(self.api_base@, relative@),
    {
        join_url(&self.api_base, relative)
    }

    /// `relative` resolved against the API base, with one query pair
    /// appended, where the URL can hold it.
    fn api_with_pair(&self, relative: &str, key: &str, value: &str) -> (r: Option<WebUrl>)
        ensures
            r matches Some(u) ==> (joined_url(self.api_base@, relative@) matches Some(j) && u@
                == url_with_pair(j, key@, value@)),
            joined_url(self.api_base@, relative@) is None ==> r is None,
            (joined_url(self.api_base@, relative@) matches Some(j) && fits(
                j,
                3 * byte_len(key@) + 3 * byte_len(value@) + 2,
            )) ==> r is Some,
    {
        let mut url = match self.api(relative) {
            Some(u) => u,
            None => return None,
        };
        let key_len = str_byte_len(key) as u64;
        let value_len = str_byte_len(value) as u64;
        if key_len > URL_SIZE_LIMIT || value_len > URL_SIZE_LIMIT {
            return None;
        }
        if !fits_exec(&url, 3 * key_len + 3 * value_len + 2) {
            return None;
        }
        append_pair(&mut url, key, value);
        Some(url)
    }

    /// The sign-in methods, for the browser origin of the authorization
    /// endpoint, which owns the callback of the providers' web SDKs.
    pub fn methods_endpoint(&self) -> (r: Option<WebUrl>)
        ensures
            r matches Some(u) ==> (joined_url(self.api_base@, "auth/methods/"@) matches Some(j)
                && u@ == url_with_pair(j, "origin"@, url_origin(self.authorization_endpoint@))),
            joined_url(self.api_base@, "auth/methods/"@) is None ==> r is None,
            (joined_url(self.api_base@, "auth/methods/"@) matches Some(j) && fits(
                j,
                3 * byte_len("origin"@) + 3 * byte_len(url_origin(self.authorization_endpoint@))
                    + 2,
            )) ==> r is Some,
    {
        let browser_origin = origin(&self.authorization_endpoint);
        self.api_with_pair("auth/methods/", "origin", browser_origin.as_str())
    }

    /// The page of the browser sign-in, on the origin of the validated
    /// authorization endpoint.
    pub fn browser_login_endpoint(&self) -> (r: Result<WebUrl, &'static str>)
        ensures
            match r {
                Ok(u) => browser_login_verdict(self.authorization_endpoint@, self.debug_build)
                    == Ok::<Seq<char>, Seq<char>>(u@),
                Err(m) => browser_login_verdict(self.authorization_endpoint@, self.debug_build)
                    == Err::<Seq<char>, Seq<char>>(m@),
            },
            r matches Ok(u) ==> byte_len(u@) <= URL_SIZE_LIMIT,
    {
        let a = &self.authorization_endpoint;
        let allow_localhost = self.debug_build && str_eq(scheme(a), "http") && match host(a) {
            Some(h) => str_eq(h, "localhost"),
            None => false,
        } && port(a).is_some();
        validate_endpoint(a, allow_localhost, EndpointKind::Authorization)?;
        // A validated endpoint is short; the check keeps the rewrite within
        // what a URL can hold.
        if !fits_after(a, LOGIN_PATH) {
            return Err(AUTHORIZE_PATH_MESSAGE);
        }
        let mut url = clone_url(a);
        set_path(&mut url, LOGIN_PATH);
        Ok(url)
    }

    pub fn native_login_endpoint(&self) -> (r: Option<WebUrl>)
        ensures
            url_opt_view(r) == joined_url(self.api_base@, "auth/token/login/"@),
    {
        self.api("auth/token/login/")
    }

    pub fn native_refresh_endpoint(&self) -> (r: Option<WebUrl>)
        ensures
            url_opt_view(r) == joined_url(self.api_base@, "auth/token/refresh/"@),
    {
        self.api("auth/token/refresh/")
    }

    pub fn native_logout_endpoint(&self) -> (r: Option<WebUrl>)
        ensures
            url_opt_view(r) == joined_url(self.api_base@, "auth/token/logout/"@),
    {
        self.api("auth/token/logout/")
    }

    pub fn native_me_endpoint(&self) -> (r: Option<WebUrl>)
        ensures
            url_opt_view(r) == joined_url(self.api_base@, "auth/me/"@),
    {
        self.api("auth/me/")
    }

    pub fn password_reset_request_endpoint(&self) -> (r: Option<WebUrl>)
        ensures
            url_opt_view(r) == joined_url(self.api_base@, "auth/password/reset/request/"@),
    {
        self.api("auth/password/reset/request/")
    }

    pub fn password_reset_confirm_endpoint(&self) -> (r: Option<WebUrl>)
        ensures
            url_opt_view(r) == joined_url(self.api_base@, "auth/password/reset/confirm/"@),
    {
        self.api("auth/password/reset/confirm/")
    }

    /// The legal documents of the registration, in `language`.
    pub fn legal_documents_endpoint(&self, language: &str) -> (r: Option<WebUrl>)
        ensures
            r matches Some(u) ==> (joined_url(self.api_base@, "legal/registration-documents/"@) matches Some(
                j,
            ) && u@ == url_with_pair(j, "language"@, language@)),
            joined_url(self.api_base@, "legal/registration-documents/"@) is None ==> r is None,
            (joined_url(self.api_base@, "legal/registration-documents/"@) matches Some(j) && fits(
                j,
                3 * byte_len("language"@) + 3 * byte_len(language@) + 2,
            )) ==> r is Some,
    {
        self.api_with_pair("legal/registration-documents/", "language", language)
    }

    pub fn oauth_token_endpoint(&self) -> (r: Option<WebUrl>)
        ensures
            url_opt_view(r) == joined_url(self.api_base@, "auth/oauth2/token/"@),
    {
        self.api("auth/oauth2/token/")
    }

    pub fn oauth_revoke_endpoint(&self) -> (r: Option<WebUrl>)
        ensures
            url_opt_view(r) == joined_url(self.api_base@, "auth/oauth2/revoke/"@),
    {
        self.api("auth/oauth2/revoke/")
    }

    pub fn oauth_userinfo_endpoint(&self) -> (r: Option<WebUrl>)
        ensures
            url_opt_view(r) == joined_url(self.api_base@, "auth/oauth2/userinfo/"@),
    {
        self.api("auth/oauth2/userinfo/")
    }
}


/// Without an explicit debug override, an endpoint is accepted only on the
/// production origin: HTTPS, the host `orcestr.com`, the default port, no
/// credentials, query or fragment.
pub proof fn law_release_endpoints_are_production_only(u: Seq<char>, kind: EndpointKind)
    requires
        endpoint_verdict(u, false, kind) is Ok,
    ensures
        url_scheme(u) == "https"@,
        url_host(u) == Some("orcestr.com"@),
        url_port(u) is None,
        url_username(u).len() == 0,
        url_password(u) is None,
        url_query(u) is None,
        url_fragment(u) is None,
{
}

} // verus!
