//! Validation of what crosses the authentication boundary: renderer
//! requests, API responses and the user profile.
use vstd::prelude::*;
use crate::api_error::{ApiError, is_invalid_response, is_plain_error};
use crate::json::{Json, object_get, get_member, set_member};
use crate::secret_store::StoredSessionKind;
use crate::text::{
    byte_len, has_control, is_blank_seq, is_trimmed_seq, all_bytes_in, ByteClass, views,
    split_seq, contains_control, is_blank, is_trimmed, str_byte_len, bytes_in_class, str_eq,
    split_str,
};

verus! {

pub const MAX_AUTH_CODE_LENGTH: usize = 4 * 1024;
pub const MAX_TOKEN_LENGTH: usize = 24 * 1024;
pub const MAX_RESPONSE_LENGTH: usize = 256 * 1024;
pub const MAX_LEGAL_DOCUMENTS: usize = 16;

#[derive(Clone, Copy, Debug, PartialEq, Eq, Structural)]
pub enum OAuthProvider {
    Google,
    Github,
    Yandex,
}

impl OAuthProvider {
    pub open spec fn name(self) -> Seq<char> {
        match self {
            OAuthProvider::Google => "google"@,
            OAuthProvider::Github => "github"@,
            OAuthProvider::Yandex => "yandex"@,
        }
    }

    pub fn as_str(self) -> (r: &'static str)
        ensures
            r@ == self.name(),
    {
        match self {
            OAuthProvider::Google => "google",
            OAuthProvider::Github => "github",
            OAuthProvider::Yandex => "yandex",
        }
    }
}

/// One of the provider names that the application knows.
pub open spec fn known_provider(name: Seq<char>) -> bool {
    name == "google"@ || name == "github"@ || name == "yandex"@
}

pub proof fn lemma_provider_names_distinct()
    ensures
        "google"@ != "github"@,
        "google"@ != "yandex"@,
        "github"@ != "yandex"@,
{
    reveal_strlit("google");
    reveal_strlit("github");
    reveal_strlit("yandex");
    assert("google"@[1] != "github"@[1]);
    assert("google"@[0] != "yandex"@[0]);
    assert("github"@[0] != "yandex"@[0]);
}

/// The index of a known provider name among google, github, yandex.
fn provider_index(name: &str) -> (r: Option<usize>)
    ensures
        r is Some == known_provider(name@),
        r matches Some(k) ==> k < 3 && (k == 0 ==> name@ == "google"@) && (k == 1 ==> name@
            == "github"@) && (k == 2 ==> name@ == "yandex"@),
{
    if str_eq(name, "google") {
        Some(0)
    } else if str_eq(name, "github") {
        Some(1)
    } else if str_eq(name, "yandex") {
        Some(2)
    } else {
        None
    }
}

/// A refreshed pair of tokens. The access token stays in process memory.
#[derive(Debug)]
pub struct TokenPair {
    pub access_token: String,
    pub refresh_token: String,
}

/// A token that may be kept: not empty, without surrounding whitespace,
/// bounded, free of control characters.
pub open spec fn valid_token_spec(v: Seq<char>) -> bool {
    &&& v.len() > 0
    &&& is_trimmed_seq(v)
    &&& byte_len(v) <= MAX_TOKEN_LENGTH
    &&& !has_control(v)
}

pub fn valid_token(value: &str) -> (r: bool)
    ensures
        r == valid_token_spec(value@),
{
    !value.is_empty() && is_trimmed(value) && str_byte_len(value) <= MAX_TOKEN_LENGTH
        && !contains_control(value)
}

pub fn validate_token_pair(access_token: String, refresh_token: String) -> (r: Result<
    TokenPair,
    ApiError,
>)
    ensures
        r is Ok == (valid_token_spec(access_token@) && valid_token_spec(refresh_token@)),
        r matches Ok(p) ==> p.access_token == access_token && p.refresh_token == refresh_token,
        r matches Err(e) ==> is_invalid_response(e),
{
    if !valid_token(access_token.as_str()) || !valid_token(refresh_token.as_str()) {
        return Err(ApiError::invalid_response());
    }
    Ok(TokenPair { access_token, refresh_token })
}

/// The token response of the native login and refresh endpoints.
#[derive(Debug)]
pub struct NativeTokenResponse {
    pub access_token: String,
    pub refresh_token: String,
}

impl NativeTokenResponse {
    pub fn validate(self) -> (r: Result<TokenPair, ApiError>)
        ensures
            r is Ok == (valid_token_spec(self.access_token@) && valid_token_spec(
                self.refresh_token@,
            )),
            r matches Ok(p) ==> p.access_token == self.access_token && p.refresh_token
                == self.refresh_token,
            r matches Err(e) ==> is_invalid_response(e),
    {
        validate_token_pair(self.access_token, self.refresh_token)
    }
}

/// The token response of the OAuth token endpoint.
#[derive(Debug)]
pub struct OAuthTokenResponse {
    pub access_token: String,
    pub refresh_token: Option<String>,
    pub token_type: String,
    pub scope: Option<String>,
}

pub open spec fn ascii_lower(b: u8) -> u8 {
    if 0x41 <= b && b <= 0x5a {
        (b + 0x20) as u8
    } else {
        b
    }
}

/// `str::eq_ignore_ascii_case`.
pub open spec fn eq_ignore_ascii_case_spec(a: Seq<u8>, b: Seq<u8>) -> bool {
    a.len() == b.len() && forall|i: int| 0 <= i < a.len() ==> ascii_lower(#[trigger] a[i])
        == ascii_lower(b[i])
}

pub fn eq_ignore_ascii_case(a: &str, b: &str) -> (r: bool)
    ensures
        r == eq_ignore_ascii_case_spec(
            vstd::utf8::encode_utf8(a@),
            vstd::utf8::encode_utf8(b@),
        ),
{
    let ab = a.as_bytes();
    let bb = b.as_bytes();
    if ab.len() != bb.len() {
        return false;
    }
    let mut i: usize = 0;
    while i < ab.len()
        invariant
            ab@ == vstd::utf8::encode_utf8(a@),
            bb@ == vstd::utf8::encode_utf8(b@),
            ab@.len() == bb@.len(),
            i <= ab@.len(),
            forall|j: int| 0 <= j < i ==> ascii_lower(#[trigger] ab@[j]) == ascii_lower(bb@[j]),
        decreases ab@.len() - i,
    {
        let x: u8 = if 0x41 <= ab[i] && ab[i] <= 0x5a {
            ab[i] + 0x20
        } else {
            ab[i]
        };
        let y: u8 = if 0x41 <= bb[i] && bb[i] <= 0x5a {
            bb[i] + 0x20
        } else {
            bb[i]
        };
        if x != y {
            return false;
        }
        i = i + 1;
    }
    true
}

/// The scopes that the application requests.
pub open spec fn requested_scope(t: Seq<char>) -> bool {
    t == "openid"@ || t == "profile"@ || t == "email"@ || t == "offline_access"@
}

/// A space-separated scope list that names exactly the requested scopes,
/// each once, each a well-formed scope token.
pub open spec fn scope_set_matches_spec(value: Seq<char>) -> bool {
    let tokens = split_seq(value, ' ');
    &&& forall|i: int|
        0 <= i < tokens.len() ==> (#[trigger] tokens[i]).len() > 0 && all_bytes_in(
            vstd::utf8::encode_utf8(tokens[i]),
            ByteClass::ScopeToken,
        ) && requested_scope(tokens[i])
    &&& forall|i: int, j: int| 0 <= i < j < tokens.len() ==> tokens[i] != tokens[j]
    &&& tokens.contains("openid"@)
    &&& tokens.contains("profile"@)
    &&& tokens.contains("email"@)
    &&& tokens.contains("offline_access"@)
}

fn contains_str(list: &Vec<String>, upto: usize, item: &str) -> (r: bool)
    requires
        upto <= list@.len(),
    ensures
        r == exists|j: int| 0 <= j < upto && (#[trigger] list@[j])@ == item@,
{
    let mut i: usize = 0;
    while i < upto
        invariant
            i <= upto <= list@.len(),
            forall|j: int| 0 <= j < i ==> (#[trigger] list@[j])@ != item@,
        decreases upto - i,
    {
        if str_eq(list[i].as_str(), item) {
            return true;
        }
        i = i + 1;
    }
    false
}

pub fn scope_set_matches(value: &str) -> (r: bool)
    ensures
        r == scope_set_matches_spec(value@),
{
    let tokens = split_str(value, ' ');
    let ghost t = split_seq(value@, ' ');
    assert(views(tokens@) == t);
    let mut i: usize = 0;
    while i < tokens.len()
        invariant
            t == split_seq(value@, ' '),
            views(tokens@) == t,
            i <= tokens@.len(),
            forall|k: int|
                0 <= k < i ==> (#[trigger] t[k]).len() > 0 && all_bytes_in(
                    vstd::utf8::encode_utf8(t[k]),
                    ByteClass::ScopeToken,
                ) && requested_scope(t[k]),
            forall|k: int, l: int| 0 <= k < l < i ==> t[k] != t[l],
        decreases tokens@.len() - i,
    {
        let token = tokens[i].as_str();
        assert(token@ == t[i as int]);
        if token.is_empty() || !bytes_in_class(token, ByteClass::ScopeToken) || !(str_eq(
            token,
            "openid",
        ) || str_eq(token, "profile") || str_eq(token, "email") || str_eq(
            token,
            "offline_access",
        )) {
            proof {
                assert(!((t[i as int]).len() > 0 && all_bytes_in(
                    vstd::utf8::encode_utf8(t[i as int]),
                    ByteClass::ScopeToken,
                ) && requested_scope(t[i as int])));
            }
            return false;
        }
        if contains_str(&tokens, i, token) {
            proof {
                let k = choose|k: int| 0 <= k < i && (#[trigger] tokens@[k])@ == token@;
                assert(t[k] == t[i as int]);
                assert(!(forall|a: int, b: int| 0 <= a < b < t.len() ==> t[a] != t[b]));
            }
            return false;
        }
        proof {
            assert forall|k: int| 0 <= k < i implies t[k] != t[i as int] by {
                assert(tokens@[k]@ == t[k]);
            }
        }
        i = i + 1;
    }
    let has_openid = contains_str(&tokens, tokens.len(), "openid");
    let has_profile = contains_str(&tokens, tokens.len(), "profile");
    let has_email = contains_str(&tokens, tokens.len(), "email");
    let has_offline = contains_str(&tokens, tokens.len(), "offline_access");
    proof {
        if has_openid {
            let k = choose|k: int| 0 <= k < tokens@.len() && (#[trigger] tokens@[k])@ == "openid"@;
            assert(t[k] == "openid"@);
        }
        if has_profile {
            let k = choose|k: int| 0 <= k < tokens@.len() && (#[trigger] tokens@[k])@ == "profile"@;
            assert(t[k] == "profile"@);
        }
        if has_email {
            let k = choose|k: int| 0 <= k < tokens@.len() && (#[trigger] tokens@[k])@ == "email"@;
            assert(t[k] == "email"@);
        }
        if has_offline {
            let k = choose|k: int|
                0 <= k < tokens@.len() && (#[trigger] tokens@[k])@ == "offline_access"@;
            assert(t[k] == "offline_access"@);
        }
        if t.contains("openid"@) {
            let k = choose|k: int| 0 <= k < t.len() && t[k] == "openid"@;
            assert(tokens@[k]@ == "openid"@);
        }
        if t.contains("profile"@) {
            let k = choose|k: int| 0 <= k < t.len() && t[k] == "profile"@;
            assert(tokens@[k]@ == "profile"@);
        }
        if t.contains("email"@) {
            let k = choose|k: int| 0 <= k < t.len() && t[k] == "email"@;
            assert(tokens@[k]@ == "email"@);
        }
        if t.contains("offline_access"@) {
            let k = choose|k: int| 0 <= k < t.len() && t[k] == "offline_access"@;
            assert(tokens@[k]@ == "offline_access"@);
        }
    }
    has_openid && has_profile && has_email && has_offline
}

impl OAuthTokenResponse {
    /// A Bearer token response that carries a refresh token and, where it
    /// names scopes, exactly the requested ones.
    pub open spec fn accepted(&self) -> bool {
        &&& self.refresh_token is Some
        &&& eq_ignore_ascii_case_spec(
            vstd::utf8::encode_utf8(self.token_type@),
            vstd::utf8::encode_utf8("Bearer"@),
        )
        &&& self.scope matches Some(s) ==> scope_set_matches_spec(s@)
        &&& valid_token_spec(self.access_token@)
        &&& valid_token_spec(self.refresh_token->0@)
    }

    pub fn validate(self) -> (r: Result<TokenPair, ApiError>)
        ensures
            r is Ok == self.accepted(),
            r matches Ok(p) ==> p.access_token == self.access_token && Some(p.refresh_token)
                == self.refresh_token,
            r matches Err(e) ==> is_invalid_response(e),
    {
        let refresh_token = match self.refresh_token {
            Some(t) => t,
            None => return Err(ApiError::invalid_response()),
        };
        if !eq_ignore_ascii_case(self.token_type.as_str(), "Bearer") {
            return Err(ApiError::invalid_response());
        }
        match &self.scope {
            Some(scope) => if !scope_set_matches(scope.as_str()) {
                return Err(ApiError::invalid_response());
            },
            None => {},
        }
        validate_token_pair(self.access_token, refresh_token)
    }
}

/// A slug of a legal document: lowercase ASCII letters, digits and `-`.
pub open spec fn valid_slug_spec(v: Seq<char>) -> bool {
    v.len() > 0 && byte_len(v) <= 128 && all_bytes_in(vstd::utf8::encode_utf8(v), ByteClass::Slug)
}

pub fn valid_slug(value: &str) -> (r: bool)
    ensures
        r == valid_slug_spec(value@),
{
    !value.is_empty() && str_byte_len(value) <= 128 && bytes_in_class(value, ByteClass::Slug)
}

/// A language of the legal documents.
pub open spec fn legal_language(v: Seq<char>) -> bool {
    v == "en"@ || v == "ru"@
}

pub fn is_legal_language(value: &str) -> (r: bool)
    ensures
        r == legal_language(value@),
{
    str_eq(value, "en") || str_eq(value, "ru")
}

/// What the renderer may know of the sign-in methods.
#[derive(Debug)]
pub struct AuthMethods {
    pub email_password_allowed: bool,
    pub allowed_oauth_providers: Vec<String>,
    pub oauth_client_ids: Vec<(String, String)>,
    pub country_known: bool,
    pub allowed_email_domains: Vec<String>,
}

/// The sign-in methods as the API sends them.
#[derive(Debug)]
pub struct MethodsResponse {
    pub email_password_allowed: bool,
    pub allowed_oauth_providers: Vec<String>,
    pub oauth_client_ids: Vec<(String, String)>,
    pub country_known: bool,
    pub allowed_email_domains: Vec<String>,
    pub country_code: String,
}

impl MethodsResponse {
    /// Known providers, each listed once; client ids for known providers,
    /// not blank and bounded; email domains not blank, bounded, printable.
    pub open spec fn accepted(&self) -> bool {
        &&& forall|i: int|
            0 <= i < self.allowed_oauth_providers@.len() ==> known_provider(
                (#[trigger] self.allowed_oauth_providers@[i])@,
            )
        &&& forall|i: int, j: int|
            0 <= i < j < self.allowed_oauth_providers@.len()
                ==> self.allowed_oauth_providers@[i]@ != self.allowed_oauth_providers@[j]@
        &&& forall|i: int|
            0 <= i < self.oauth_client_ids@.len() ==> known_provider(
                (#[trigger] self.oauth_client_ids@[i]).0@,
            ) && !is_blank_seq(self.oauth_client_ids@[i].1@) && byte_len(
                self.oauth_client_ids@[i].1@,
            ) <= 512
        &&& forall|i: int|
            0 <= i < self.allowed_email_domains@.len() ==> !is_blank_seq(
                (#[trigger] self.allowed_email_domains@[i])@,
            ) && byte_len(self.allowed_email_domains@[i]@) <= 255 && !has_control(
                self.allowed_email_domains@[i]@,
            )
    }

    pub fn validate(self) -> (r: Result<AuthMethods, ApiError>)
        ensures
            r is Ok == self.accepted(),
            r matches Ok(m) ==> m.email_password_allowed == self.email_password_allowed
                && m.allowed_oauth_providers == self.allowed_oauth_providers && m.oauth_client_ids
                == self.oauth_client_ids && m.country_known == self.country_known
                && m.allowed_email_domains == self.allowed_email_domains,
            r matches Err(e) ==> is_invalid_response(e),
    {
        let providers = &self.allowed_oauth_providers;
        let mut seen: [bool; 3] = [false, false, false];
        let mut i: usize = 0;
        while i < providers.len()
            invariant
                providers@ == self.allowed_oauth_providers@,
                i <= providers@.len(),
                forall|k: int| 0 <= k < i ==> known_provider((#[trigger] providers@[k])@),
                forall|k: int, l: int| 0 <= k < l < i ==> providers@[k]@ != providers@[l]@,
                seen[0] == exists|k: int| 0 <= k < i && (#[trigger] providers@[k])@ == "google"@,
                seen[1] == exists|k: int| 0 <= k < i && (#[trigger] providers@[k])@ == "github"@,
                seen[2] == exists|k: int| 0 <= k < i && (#[trigger] providers@[k])@ == "yandex"@,
            decreases providers@.len() - i,
        {
            let index = match provider_index(providers[i].as_str()) {
                Some(k) => k,
                None => return Err(ApiError::invalid_response()),
            };
            if seen[index] {
                proof {
                    let name = providers@[i as int]@;
                    let k = choose|k: int| 0 <= k < i && (#[trigger] providers@[k])@ == name;
                    assert(providers@[k]@ == providers@[i as int]@);
                }
                return Err(ApiError::invalid_response());
            }
            proof {
                assert forall|k: int| 0 <= k < i implies providers@[k]@ != providers@[i as int]@ by {
                    if providers@[k]@ == providers@[i as int]@ {
                        assert(providers@[k]@ == providers@[i as int]@);
                    }
                }
            }
            seen[index] = true;
            proof {
                lemma_provider_names_distinct();
                let name = providers@[i as int]@;
                assert(seen[0] == exists|k: int| 0 <= k < i + 1 && (#[trigger] providers@[k])@ == "google"@) by {
                    if index == 0 {
                        assert(providers@[i as int]@ == "google"@);
                    } else if name == "google"@ {
                        assert(false);
                    }
                }
                assert(seen[1] == exists|k: int| 0 <= k < i + 1 && (#[trigger] providers@[k])@ == "github"@) by {
                    if index == 1 {
                        assert(providers@[i as int]@ == "github"@);
                    } else if name == "github"@ {
                        assert(false);
                    }
                }
                assert(seen[2] == exists|k: int| 0 <= k < i + 1 && (#[trigger] providers@[k])@ == "yandex"@) by {
                    if index == 2 {
                        assert(providers@[i as int]@ == "yandex"@);
                    } else if name == "yandex"@ {
                        assert(false);
                    }
                }
            }
            i = i + 1;
        }
        let ids = &self.oauth_client_ids;
        let mut i: usize = 0;
        while i < ids.len()
            invariant
                ids@ == self.oauth_client_ids@,
                providers@ == self.allowed_oauth_providers@,
                forall|k: int| 0 <= k < providers@.len() ==> known_provider((#[trigger] providers@[k])@),
                forall|k: int, l: int| 0 <= k < l < providers@.len() ==> providers@[k]@ != providers@[l]@,
                i <= ids@.len(),
                forall|k: int|
                    0 <= k < i ==> known_provider((#[trigger] ids@[k]).0@) && !is_blank_seq(
                        ids@[k].1@,
                    ) && byte_len(ids@[k].1@) <= 512,
            decreases ids@.len() - i,
        {
            if provider_index(ids[i].0.as_str()).is_none() || is_blank(ids[i].1.as_str())
                || str_byte_len(ids[i].1.as_str()) > 512 {
                return Err(ApiError::invalid_response());
            }
            i = i + 1;
        }
        let domains = &self.allowed_email_domains;
        let mut i: usize = 0;
        while i < domains.len()
            invariant
                domains@ == self.allowed_email_domains@,
                ids@ == self.oauth_client_ids@,
                providers@ == self.allowed_oauth_providers@,
                forall|k: int| 0 <= k < providers@.len() ==> known_provider((#[trigger] providers@[k])@),
                forall|k: int, l: int| 0 <= k < l < providers@.len() ==> providers@[k]@ != providers@[l]@,
                forall|k: int|
                    0 <= k < ids@.len() ==> known_provider((#[trigger] ids@[k]).0@) && !is_blank_seq(
                        ids@[k].1@,
                    ) && byte_len(ids@[k].1@) <= 512,
                i <= domains@.len(),
                forall|k: int|
                    0 <= k < i ==> !is_blank_seq((#[trigger] domains@[k])@) && byte_len(
                        domains@[k]@,
                    ) <= 255 && !has_control(domains@[k]@),
            decreases domains@.len() - i,
        {
            if is_blank(domains[i].as_str()) || str_byte_len(domains[i].as_str()) > 255
                || contains_control(domains[i].as_str()) {
                return Err(ApiError::invalid_response());
            }
            i = i + 1;
        }
        Ok(
            AuthMethods {
                email_password_allowed: self.email_password_allowed,
                allowed_oauth_providers: self.allowed_oauth_providers,
                oauth_client_ids: self.oauth_client_ids,
                country_known: self.country_known,
                allowed_email_domains: self.allowed_email_domains,
            },
        )
    }
}

/// A legal document that the renderer may offer.
#[derive(Debug)]
pub struct LegalDocument {
    pub document_slug: String,
    pub title: String,
    pub version: String,
    pub language: String,
    pub required_for_registration: bool,
}

/// A legal document as the API sends it.
#[derive(Debug)]
pub struct LegalDocumentResponse {
    pub document_slug: String,
    pub title: String,
    pub version: String,
    pub language: String,
    pub required_for_registration: bool,
}

impl LegalDocumentResponse {
    pub open spec fn accepted(&self) -> bool {
        &&& valid_slug_spec(self.document_slug@)
        &&& !is_blank_seq(self.title@)
        &&& byte_len(self.title@) <= 512
        &&& !is_blank_seq(self.version@)
        &&& byte_len(self.version@) <= 64
        &&& legal_language(self.language@)
    }

    pub fn validate(self) -> (r: Result<LegalDocument, ApiError>)
        ensures
            r is Ok == self.accepted(),
            r matches Ok(d) ==> d.document_slug == self.document_slug && d.title == self.title
                && d.version == self.version && d.language == self.language
                && d.required_for_registration == self.required_for_registration,
            r matches Err(e) ==> is_invalid_response(e),
    {
        if !valid_slug(self.document_slug.as_str()) || is_blank(self.title.as_str())
            || str_byte_len(self.title.as_str()) > 512 || is_blank(self.version.as_str())
            || str_byte_len(self.version.as_str()) > 64 || !is_legal_language(
            self.language.as_str(),
        ) {
            return Err(ApiError::invalid_response());
        }
        Ok(
            LegalDocument {
                document_slug: self.document_slug,
                title: self.title,
                version: self.version,
                language: self.language,
                required_for_registration: self.required_for_registration,
            },
        )
    }
}

/// A legal document that the user accepted when signing in.
#[derive(Debug)]
pub struct LegalAcceptance {
    pub document_slug: String,
    pub version: String,
    pub language: String,
}

/// A sign-in request of the renderer.
#[derive(Debug)]
pub struct LoginRequest {
    pub username: String,
    pub password: String,
    pub accepted_legal_documents: Vec<LegalAcceptance>,
}

/// A request of the renderer to set a new password with a reset code.
#[derive(Debug)]
pub struct PasswordResetConfirmRequest {
    pub email: String,
    pub code: String,
    pub password: String,
}

pub open spec fn acceptance_accepted(a: LegalAcceptance) -> bool {
    &&& valid_slug_spec(a.document_slug@)
    &&& !is_blank_seq(a.version@)
    &&& byte_len(a.version@) <= 64
    &&& legal_language(a.language@)
}

pub open spec fn valid_username(u: Seq<char>) -> bool {
    !is_blank_seq(u) && byte_len(u) <= 255 && !has_control(u)
}

pub open spec fn valid_password(p: Seq<char>) -> bool {
    p.len() > 0 && byte_len(p) <= 1024
}

pub open spec fn valid_consents(docs: Seq<LegalAcceptance>) -> bool {
    docs.len() <= MAX_LEGAL_DOCUMENTS && forall|i: int|
        0 <= i < docs.len() ==> acceptance_accepted(#[trigger] docs[i])
}

/// Checks a sign-in request; the first rule it breaks names the error.
pub fn validate_login(request: &LoginRequest) -> (r: Result<(), ApiError>)
    ensures
        r is Ok == (valid_username(request.username@) && valid_password(request.password@)
            && valid_consents(request.accepted_legal_documents@)),
        r matches Err(e) ==> {
            if !valid_username(request.username@) {
                is_plain_error(e, 400, "invalid_native_request"@, "Email or username is invalid."@)
            } else if !valid_password(request.password@) {
                is_plain_error(e, 400, "invalid_native_request"@, "Password is invalid."@)
            } else {
                is_plain_error(
                    e,
                    400,
                    "invalid_native_request"@,
                    "Legal consent payload is invalid."@,
                )
            }
        },
{
    let username = request.username.as_str();
    if is_blank(username) || str_byte_len(username) > 255 || contains_control(username) {
        return Err(ApiError::command("Email or username is invalid."));
    }
    let password = request.password.as_str();
    if password.is_empty() || str_byte_len(password) > 1024 {
        return Err(ApiError::command("Password is invalid."));
    }
    let docs = &request.accepted_legal_documents;
    if docs.len() > MAX_LEGAL_DOCUMENTS {
        return Err(ApiError::command("Legal consent payload is invalid."));
    }
    let mut i: usize = 0;
    while i < docs.len()
        invariant
            docs@ == request.accepted_legal_documents@,
            valid_username(request.username@),
            valid_password(request.password@),
            i <= docs@.len(),
            forall|k: int| 0 <= k < i ==> acceptance_accepted(#[trigger] docs@[k]),
        decreases docs@.len() - i,
    {
        let d = &docs[i];
        if !valid_slug(d.document_slug.as_str()) || is_blank(d.version.as_str()) || str_byte_len(
            d.version.as_str(),
        ) > 64 || !is_legal_language(d.language.as_str()) {
            return Err(ApiError::command("Legal consent payload is invalid."));
        }
        i = i + 1;
    }
    Ok(())
}

/// An email address as the API accepts it: 3 to 255 bytes, without
/// surrounding whitespace or control characters, with an `@`.
pub open spec fn valid_email_spec(e: Seq<char>) -> bool {
    &&& 3 <= byte_len(e) <= 255
    &&& is_trimmed_seq(e)
    &&& e.contains('@')
    &&& !has_control(e)
}

fn contains_char(s: &str, target: char) -> (r: bool)
    ensures
        r == s@.contains(target),
{
    let mut found = false;
    for c in it: s.chars()
        invariant
            it.seq() == s@,
            found == (exists|j: int| 0 <= j < it.index() && s@[j] == target),
    {
        if c == target {
            found = true;
        }
    }
    found
}

pub fn validate_email(email: &str) -> (r: Result<(), ApiError>)
    ensures
        r is Ok == valid_email_spec(email@),
        r matches Err(e) ==> is_plain_error(e, 400, "invalid_native_request"@, "Email is invalid."@),
{
    let len = str_byte_len(email);
    if !(3 <= len && len <= 255) || !is_trimmed(email) || !contains_char(email, '@')
        || contains_control(email) {
        return Err(ApiError::command("Email is invalid."));
    }
    Ok(())
}

pub open spec fn valid_reset_code(c: Seq<char>) -> bool {
    4 <= byte_len(c) <= 32 && !has_control(c)
}

pub open spec fn valid_new_password(p: Seq<char>) -> bool {
    8 <= byte_len(p) <= 1024
}

pub fn validate_password_reset_confirm(request: &PasswordResetConfirmRequest) -> (r: Result<
    (),
    ApiError,
>)
    ensures
        r is Ok == (valid_email_spec(request.email@) && valid_reset_code(request.code@)
            && valid_new_password(request.password@)),
        r matches Err(e) ==> {
            if !valid_email_spec(request.email@) {
                is_plain_error(e, 400, "invalid_native_request"@, "Email is invalid."@)
            } else if !valid_reset_code(request.code@) {
                is_plain_error(e, 400, "invalid_native_request"@, "Password reset code is invalid."@)
            } else {
                is_plain_error(e, 400, "invalid_native_request"@, "New password length is invalid."@)
            }
        },
{
    validate_email(request.email.as_str())?;
    let code_len = str_byte_len(request.code.as_str());
    if !(4 <= code_len && code_len <= 32) || contains_control(request.code.as_str()) {
        return Err(ApiError::command("Password reset code is invalid."));
    }
    let password_len = str_byte_len(request.password.as_str());
    if !(8 <= password_len && password_len <= 1024) {
        return Err(ApiError::command("New password length is invalid."));
    }
    Ok(())
}

/// An OAuth `state`: 16 to 512 unreserved URL characters.
pub open spec fn valid_state_spec(v: Seq<char>) -> bool {
    16 <= byte_len(v) <= 512 && all_bytes_in(vstd::utf8::encode_utf8(v), ByteClass::OAuthState)
}

pub fn validate_state(value: &str) -> (r: Result<(), ApiError>)
    ensures
        r is Ok == valid_state_spec(value@),
        r matches Err(e) ==> is_plain_error(e, 400, "invalid_native_request"@, "OAuth state is invalid."@),
{
    let len = str_byte_len(value);
    if !(16 <= len && len <= 512) || !bytes_in_class(value, ByteClass::OAuthState) {
        return Err(ApiError::command("OAuth state is invalid."));
    }
    Ok(())
}

/// Appends one chunk of a response body, refusing any body that would grow
/// past `MAX_RESPONSE_LENGTH`, with or without a declared length.
pub fn append_bounded_chunk(bytes: &mut Vec<u8>, chunk: &[u8]) -> (r: Result<(), ApiError>)
    ensures
        r is Ok == (old(bytes)@.len() + chunk@.len() <= MAX_RESPONSE_LENGTH),
        r is Ok ==> final(bytes)@ == old(bytes)@ + chunk@,
        r matches Err(e) ==> final(bytes)@ == old(bytes)@ && is_invalid_response(e),
{
    if bytes.len() > MAX_RESPONSE_LENGTH || chunk.len() > MAX_RESPONSE_LENGTH - bytes.len() {
        return Err(ApiError::invalid_response());
    }
    let ghost before = bytes@;
    bytes.extend_from_slice(chunk);
    proof {
        assert forall|i: int| 0 <= i < bytes@.len() implies bytes@[i] == (before + chunk@)[i] by {
            if i >= before.len() {
                assert(cloned::<u8>(chunk@[i - before.len()], bytes@[i]));
            }
        }
        assert(bytes@ =~= before + chunk@);
    }
    Ok(())
}

/// The text of the member named `key`, where it is a string.
pub open spec fn string_member(entries: Seq<(String, Json)>, key: Seq<char>) -> Option<Seq<char>> {
    match object_get(entries, key) {
        Some(Json::String(s)) => Some(s@),
        _ => None,
    }
}

/// The member named `key` is a string that is not blank.
pub open spec fn nonblank_member(entries: Seq<(String, Json)>, key: Seq<char>) -> bool {
    string_member(entries, key) matches Some(s) && !is_blank_seq(s)
}

/// A profile of the native API: an `id` that is a number or a non-empty
/// string, and a username that is not blank.
pub open spec fn password_profile_ok(entries: Seq<(String, Json)>) -> bool {
    &&& match object_get(entries, "id"@) {
        Some(Json::Number(_)) => true,
        Some(Json::String(s)) => s@.len() > 0,
        _ => false,
    }
    &&& nonblank_member(entries, "username"@)
}

/// The username of an OAuth profile: the preferred username, else the
/// email, each where it is a non-blank string, else the subject.
pub open spec fn oauth_username(entries: Seq<(String, Json)>, subject: Seq<char>) -> Seq<char> {
    if nonblank_member(entries, "preferred_username"@) {
        string_member(entries, "preferred_username"@)->0
    } else if nonblank_member(entries, "email"@) {
        string_member(entries, "email"@)->0
    } else {
        subject
    }
}

pub open spec fn profile_accepted(kind: StoredSessionKind, profile: Json) -> bool {
    match profile {
        Json::Object(entries) => match kind {
            StoredSessionKind::Password => password_profile_ok(entries@),
            StoredSessionKind::OAuth2 => nonblank_member(entries@, "sub"@),
        },
        _ => false,
    }
}

/// A clone of the member named `key`, where it is a non-blank string.
fn nonblank_member_exec(entries: &Vec<(String, Json)>, key: &str) -> (r: Option<String>)
    ensures
        r is Some == nonblank_member(entries@, key@),
        r matches Some(s) ==> string_member(entries@, key@) == Some(s@),
{
    match get_member(entries, key) {
        Some(Json::String(s)) => if is_blank(s.as_str()) {
            None
        } else {
            Some(s.clone())
        },
        _ => None,
    }
}

/// Brings a profile to the user shape that the renderer shows: a native
/// profile must carry an id and a username; an OAuth profile gets its
/// subject as `id` and its best display name as `username`.
pub fn normalize_profile(kind: StoredSessionKind, profile: Json) -> (r: Result<Json, ApiError>)
    ensures
        r is Ok == profile_accepted(kind, profile),
        r matches Err(e) ==> is_invalid_response(e),
        r matches Ok(v) ==> match kind {
            StoredSessionKind::Password => v == profile,
            StoredSessionKind::OAuth2 => v matches Json::Object(out) && profile matches Json::Object(
                inp,
            ) && string_member(out@, "id"@) == string_member(inp@, "sub"@) && string_member(
                out@,
                "username"@,
            ) == Some(oauth_username(inp@, string_member(inp@, "sub"@)->0)) && forall|k: Seq<char>|
                k != "id"@ && k != "username"@ ==> #[trigger] object_get(out@, k) == object_get(
                    inp@,
                    k,
                ),
        },
{
    let mut entries = match profile {
        Json::Object(entries) => entries,
        _ => return Err(ApiError::invalid_response()),
    };
    match kind {
        StoredSessionKind::Password => {
            let id_valid = match get_member(&entries, "id") {
                Some(Json::Number(_)) => true,
                Some(Json::String(s)) => !s.as_str().is_empty(),
                _ => false,
            };
            let username_valid = nonblank_member_exec(&entries, "username").is_some();
            if !id_valid || !username_valid {
                return Err(ApiError::invalid_response());
            }
            Ok(Json::Object(entries))
        },
        StoredSessionKind::OAuth2 => {
            let subject = match nonblank_member_exec(&entries, "sub") {
                Some(s) => s,
                None => return Err(ApiError::invalid_response()),
            };
            let username = match nonblank_member_exec(&entries, "preferred_username") {
                Some(u) => u,
                None => match nonblank_member_exec(&entries, "email") {
                    Some(u) => u,
                    None => subject.clone(),
                },
            };
            let ghost inp = entries@;
            let ghost username_view = username@;
            let ghost subject_view = subject@;
            set_member(&mut entries, "id".to_owned(), Json::String(subject));
            set_member(&mut entries, "username".to_owned(), Json::String(username));
            proof {
                reveal_strlit("id");
                reveal_strlit("username");
                assert("id"@.len() != "username"@.len());
                assert(string_member(entries@, "id"@) == Some(subject_view));
                assert(string_member(entries@, "username"@) == Some(username_view));
            }
            Ok(Json::Object(entries))
        },
    }
}


/// The token type is compared without regard to ASCII case: two responses
/// that differ only in the ASCII case of their token type are accepted
/// alike, and `bearer` in any case is accepted where the rest is valid.
pub proof fn law_token_type_ignores_ascii_case(a: OAuthTokenResponse, b: OAuthTokenResponse)
    requires
        a.access_token == b.access_token,
        a.refresh_token == b.refresh_token,
        a.scope == b.scope,
        vstd::utf8::encode_utf8(a.token_type@).len() == vstd::utf8::encode_utf8(b.token_type@).len(),
        forall|i: int|
            0 <= i < vstd::utf8::encode_utf8(a.token_type@).len() ==> {
                let x = #[trigger] vstd::utf8::encode_utf8(a.token_type@)[i];
                let y = vstd::utf8::encode_utf8(b.token_type@)[i];
                (if 0x41 <= x <= 0x5a { x + 0x20 } else { x as int }) == (if 0x41 <= y <= 0x5a { y + 0x20 } else { y as int })
            },
    ensures
        a.accepted() == b.accepted(),
        ({
            let bytes = vstd::utf8::encode_utf8(a.token_type@);
            &&& bytes.len() == 6
            &&& (bytes[0] == 0x42 || bytes[0] == 0x62)
            &&& (bytes[1] == 0x45 || bytes[1] == 0x65)
            &&& (bytes[2] == 0x41 || bytes[2] == 0x61)
            &&& (bytes[3] == 0x52 || bytes[3] == 0x72)
            &&& (bytes[4] == 0x45 || bytes[4] == 0x65)
            &&& (bytes[5] == 0x52 || bytes[5] == 0x72)
            &&& a.refresh_token is Some
            &&& a.scope is None
            &&& valid_token_spec(a.access_token@)
            &&& valid_token_spec(a.refresh_token->0@)
        }) ==> a.accepted(),
{
    let ea = vstd::utf8::encode_utf8(a.token_type@);
    let eb = vstd::utf8::encode_utf8(b.token_type@);
    let bearer = vstd::utf8::encode_utf8("Bearer"@);
    lemma_bearer_bytes();
    assert forall|i: int| 0 <= i < ea.len() implies ascii_lower(#[trigger] ea[i]) == ascii_lower(eb[i]) by {
        let x = ea[i];
        let y = eb[i];
        assert((if 0x41 <= x <= 0x5a { x + 0x20 } else { x as int }) == (if 0x41 <= y <= 0x5a { y + 0x20 } else { y as int }));
    }
    if eq_ignore_ascii_case_spec(ea, bearer) {
        assert forall|i: int| 0 <= i < eb.len() implies ascii_lower(#[trigger] eb[i]) == ascii_lower(bearer[i]) by {
            assert(ascii_lower(ea[i]) == ascii_lower(eb[i]));
        }
    }
    if eq_ignore_ascii_case_spec(eb, bearer) {
        assert forall|i: int| 0 <= i < ea.len() implies ascii_lower(#[trigger] ea[i]) == ascii_lower(bearer[i]) by {
            assert(ascii_lower(ea[i]) == ascii_lower(eb[i]));
        }
    }
}

/// The UTF-8 bytes of `Bearer`.
proof fn lemma_bearer_bytes()
    ensures
        vstd::utf8::encode_utf8("Bearer"@) == seq![0x42u8, 0x65u8, 0x61u8, 0x72u8, 0x65u8, 0x72u8],
{
    reveal_strlit("Bearer");
    let s = "Bearer"@;
    reveal_with_fuel(vstd::utf8::encode_utf8, 7);
    crate::text::lemma_ascii_scalar('B');
    crate::text::lemma_ascii_scalar('e');
    crate::text::lemma_ascii_scalar('a');
    crate::text::lemma_ascii_scalar('r');
    assert(s.drop_first() =~= seq!['e', 'a', 'r', 'e', 'r']);
    assert(s.drop_first().drop_first() =~= seq!['a', 'r', 'e', 'r']);
    assert(s.drop_first().drop_first().drop_first() =~= seq!['r', 'e', 'r']);
    assert(s.drop_first().drop_first().drop_first().drop_first() =~= seq!['e', 'r']);
    assert(s.drop_first().drop_first().drop_first().drop_first().drop_first() =~= seq!['r']);
    assert(s.drop_first().drop_first().drop_first().drop_first().drop_first().drop_first() =~= Seq::<char>::empty());
    assert(vstd::utf8::encode_utf8(s) =~= seq![0x42u8, 0x65u8, 0x61u8, 0x72u8, 0x65u8, 0x72u8]);
}

} // verus!
