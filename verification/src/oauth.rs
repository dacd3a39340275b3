//! The browser authorization: its secrets, the URL that starts it, the
//! callback that ends it, and the legal documents that it links to.
use vstd::prelude::*;
use base64::Engine;
use sha2::Digest;
use crate::api_error::{ApiError, is_plain_error};
use crate::auth::{MAX_AUTH_CODE_LENGTH, valid_slug, valid_slug_spec, valid_state_spec, validate_state};
use crate::text::{
    ByteClass, all_bytes_in, byte_len, bytes_in_class, chars_of, split_seq, split_str, str_byte_len,
    str_eq, string_push, views,
};
use crate::weburl::{
    WebUrl, clear_query, fragment, host, parse_url, parsed_url, password, path, port, query,
    query_pairs, scheme, url_fragment, url_host, url_password, url_path, url_port, url_query,
    url_query_pairs, url_scheme, url_username, url_without_query, username,
};
use crate::auth::OAuthProvider;
use crate::config::{
    AuthConfig, CLIENT_ID, REDIRECT_URI, SCOPE, browser_login_verdict, fits, fits_exec,
};
use crate::text::{concat_str, ends_with, has_prefix, has_suffix, starts_with};
use crate::weburl::{
    URL_SIZE_LIMIT, append_pair, clone_url, joined_url, join_url, set_fragment, url_with_fragment,
    url_with_pair,
};

verus! {

pub const MAX_AUTHORIZATION_URL_LENGTH: usize = 8 * 1024;
pub const MAX_BROWSER_LOGIN_URL_LENGTH: usize = 8 * 1024;
pub const MAX_LEGAL_DOCUMENT_URL_LENGTH: usize = 2048;
/// Random bytes of an OAuth `state`.
pub const STATE_BYTES: usize = 32;
/// Random bytes of a PKCE code verifier.
pub const CODE_VERIFIER_BYTES: usize = 48;

pub const COMMAND_CODE: &'static str = "invalid_native_request";

// ---------------------------------------------------------------------
// Randomness, hashing and encoding
// ---------------------------------------------------------------------

/// `getrandom::fill`: fills `dest` from the system's random source. Nothing
/// is stated of the bytes, nor of when it fails.
#[verifier::external_body]
fn fill_random(dest: &mut Vec<u8>) -> (r: Result<(), ()>)
    ensures
        final(dest)@.len() == old(dest)@.len(),
{
    match getrandom::fill(dest.as_mut_slice()) {
        Ok(()) => Ok(()),
        Err(_) => Err(()),
    }
}

/// What `URL_SAFE_NO_PAD.encode` returns for `bytes`.
pub uninterp spec fn base64_url_no_pad(bytes: Seq<u8>) -> Seq<char>;

/// `base64::engine::general_purpose::URL_SAFE_NO_PAD.encode`: four
/// characters of the URL-safe alphabet for every three bytes, the last
/// group without padding.
#[verifier::external_body]
fn encode_base64_url(bytes: &[u8]) -> (r: String)
    requires
        bytes@.len() <= usize::MAX / 2,
    ensures
        r@ == base64_url_no_pad(bytes@),
        byte_len(r@) == (4 * bytes@.len() + 2) / 3,
        all_bytes_in(vstd::utf8::encode_utf8(r@), ByteClass::Base64Url),
{
    base64::engine::general_purpose::URL_SAFE_NO_PAD.encode(bytes)
}

/// What `Sha256::digest` returns for `data`.
pub uninterp spec fn sha256_digest(data: Seq<u8>) -> Seq<u8>;

/// `sha2::Sha256::digest`: the 32-byte SHA-256 hash of `data`.
#[verifier::external_body]
fn sha256(data: &[u8]) -> (r: Vec<u8>)
    ensures
        r@ == sha256_digest(data@),
        r@.len() == 32,
{
    sha2::Sha256::digest(data).to_vec()
}

/// A string of the URL-safe base64 alphabet, as random secrets are.
pub open spec fn base64_url_text(s: Seq<char>, byte_length: nat) -> bool {
    &&& byte_len(s) == (4 * byte_length + 2) / 3
    &&& all_bytes_in(vstd::utf8::encode_utf8(s), ByteClass::Base64Url)
}

/// `byte_length` random bytes, encoded in URL-safe base64 without padding.
pub fn random_base64_url(byte_length: usize) -> (r: Result<String, ApiError>)
    requires
        byte_length <= usize::MAX / 2,
    ensures
        r matches Ok(s) ==> base64_url_text(s@, byte_length as nat) && exists|bytes: Seq<u8>|
            bytes.len() == byte_length && s@ == base64_url_no_pad(bytes),
        r matches Err(e) ==> is_plain_error(
            e,
            500,
            "secure_random_unavailable"@,
            "Secure authorization could not be initialized."@,
        ),
{
    let mut bytes: Vec<u8> = Vec::new();
    let mut i: usize = 0;
    while i < byte_length
        invariant
            bytes@.len() == i,
            i <= byte_length,
        decreases byte_length - i,
    {
        bytes.push(0);
        i = i + 1;
    }
    if fill_random(&mut bytes).is_err() {
        return Err(
            ApiError::new(
                500,
                "secure_random_unavailable",
                "Secure authorization could not be initialized.",
            ),
        );
    }
    let encoded = encode_base64_url(bytes.as_slice());
    Ok(encoded)
}

/// The PKCE challenge of a code verifier: `BASE64URL(SHA256(verifier))`.
pub open spec fn challenge_of(verifier: Seq<char>) -> Seq<char> {
    base64_url_no_pad(sha256_digest(vstd::utf8::encode_utf8(verifier)))
}

/// The S256 code challenge of `code_verifier`.
pub fn code_challenge(code_verifier: &str) -> (r: String)
    ensures
        r@ == challenge_of(code_verifier@),
        base64_url_text(r@, 32),
{
    let digest = sha256(code_verifier.as_bytes());
    encode_base64_url(digest.as_slice())
}

// ---------------------------------------------------------------------
// Legal documents
// ---------------------------------------------------------------------

/// The slug of a legal document path: `legal/<slug>` or `ru/legal/<slug>`.
pub open spec fn legal_slug(segments: Seq<Seq<char>>) -> Option<Seq<char>> {
    if segments.len() == 2 && segments[0] == "legal"@ {
        Some(segments[1])
    } else if segments.len() == 3 && segments[0] == "ru"@ && segments[1] == "legal"@ {
        Some(segments[2])
    } else {
        None
    }
}

/// What `validate_legal_document_url` decides of `value`: the serialization
/// of the accepted URL, or the message of the refusal.
pub open spec fn legal_url_verdict(value: Seq<char>) -> Result<Seq<char>, Seq<char>> {
    if byte_len(value) > MAX_LEGAL_DOCUMENT_URL_LENGTH {
        Err("Legal document URL is too long."@)
    } else {
        match parsed_url(value) {
            None => Err("Legal document URL is invalid."@),
            Some(u) => if url_scheme(u) != "https"@ || url_host(u) != Some("orcestr.com"@)
                || url_port(u) is Some || url_username(u).len() != 0 || url_password(u) is Some
                || url_query(u) is Some || url_fragment(u) is Some {
                Err("Legal document URL is not allowed."@)
            } else if url_path(u).len() == 0 || url_path(u)[0] != '/' {
                Err("Legal document path is invalid."@)
            } else {
                match legal_slug(
                    split_seq(url_path(u).subrange(1, url_path(u).len() as int), '/'),
                ) {
                    None => Err("Legal document path is not allowed."@),
                    Some(slug) => if valid_slug_spec(slug) {
                        Ok(u)
                    } else {
                        Err("Legal document slug is invalid."@)
                    },
                }
            },
        }
    }
}

/// `s` without its first character.
fn drop_first_char(s: &str) -> (r: String)
    requires
        s@.len() > 0,
    ensures
        r@ == s@.subrange(1, s@.len() as int),
{
    let chars = chars_of(s);
    let mut out = String::new();
    let mut i: usize = 1;
    while i < chars.len()
        invariant
            chars@ == s@,
            1 <= i <= chars@.len(),
            out@ == s@.subrange(1, i as int),
        decreases chars@.len() - i,
    {
        let ghost before = out@;
        string_push(&mut out, chars[i]);
        proof {
            assert(out@ =~= s@.subrange(1, i + 1));
        }
        i = i + 1;
    }
    out
}

/// Accepts only `https://orcestr.com/legal/<slug>` and
/// `https://orcestr.com/ru/legal/<slug>`, without credentials, port, query
/// or fragment.
pub fn validate_legal_document_url(value: &str) -> (r: Result<WebUrl, ApiError>)
    ensures
        match r {
            Ok(u) => legal_url_verdict(value@) == Ok::<Seq<char>, Seq<char>>(u@),
            Err(e) => legal_url_verdict(value@) matches Err(m) && is_plain_error(
                e,
                400,
                COMMAND_CODE@,
                m,
            ),
        },
{
    if str_byte_len(value) > MAX_LEGAL_DOCUMENT_URL_LENGTH {
        return Err(ApiError::command("Legal document URL is too long."));
    }
    let url = match parse_url(value) {
        Some(u) => u,
        None => return Err(ApiError::command("Legal document URL is invalid.")),
    };
    let host_ok = match host(&url) {
        Some(h) => str_eq(h, "orcestr.com"),
        None => false,
    };
    if !str_eq(scheme(&url), "https") || !host_ok || port(&url).is_some() || !username(
        &url,
    ).is_empty() || password(&url).is_some() || query(&url).is_some() || fragment(
        &url,
    ).is_some() {
        return Err(ApiError::command("Legal document URL is not allowed."));
    }
    let p = path(&url);
    let chars = chars_of(p);
    if chars.len() == 0 || chars[0] != '/' {
        return Err(ApiError::command("Legal document path is invalid."));
    }
    let rest = drop_first_char(p);
    let segments = split_str(rest.as_str(), '/');
    proof {
        assert(views(segments@).len() == segments@.len());
    }
    let slug: &String = if segments.len() == 2 && str_eq(segments[0].as_str(), "legal") {
        &segments[1]
    } else if segments.len() == 3 && str_eq(segments[0].as_str(), "ru") && str_eq(
        segments[1].as_str(),
        "legal",
    ) {
        &segments[2]
    } else {
        return Err(ApiError::command("Legal document path is not allowed."));
    };
    proof {
        assert(views(segments@)[0] == segments@[0]@);
        assert(views(segments@)[1] == segments@[1]@);
        if segments@.len() == 3 {
            assert(views(segments@)[2] == segments@[2]@);
        }
    }
    if !valid_slug(slug.as_str()) {
        return Err(ApiError::command("Legal document slug is invalid."));
    }
    Ok(url)
}

// ---------------------------------------------------------------------
// The callback
// ---------------------------------------------------------------------

/// The value of the first pair under `key`.
pub open spec fn lookup(pairs: Seq<(Seq<char>, Seq<char>)>, key: Seq<char>) -> Option<Seq<char>>
    decreases pairs.len(),
{
    if pairs.len() == 0 {
        None
    } else if pairs[0].0 == key {
        Some(pairs[0].1)
    } else {
        lookup(pairs.drop_first(), key)
    }
}

/// What `strict_query` decides of the pairs of a query: all of them, where
/// every key is allowed and none repeats; else the first offence.
pub open spec fn strict_query_verdict(
    pairs: Seq<(Seq<char>, Seq<char>)>,
    allowed: Seq<Seq<char>>,
) -> Result<Seq<(Seq<char>, Seq<char>)>, Seq<char>>
    decreases pairs.len(),
{
    if pairs.len() == 0 {
        Ok(pairs)
    } else {
        match strict_query_verdict(pairs.drop_last(), allowed) {
            Err(m) => Err(m),
            Ok(prev) => if !allowed.contains(pairs.last().0) {
                Err("OAuth callback contains an unexpected parameter."@)
            } else if lookup(prev, pairs.last().0) is Some {
                Err("OAuth callback contains a duplicate parameter."@)
            } else {
                Ok(pairs)
            },
        }
    }
}

pub open spec fn pair_views(v: Seq<(String, String)>) -> Seq<(Seq<char>, Seq<char>)> {
    v.map_values(|p: (String, String)| (p.0@, p.1@))
}

pub open spec fn str_views(v: Seq<&str>) -> Seq<Seq<char>> {
    v.map_values(|s: &str| s@)
}

/// Once a prefix of the pairs is refused, so is the whole query, for the
/// same reason.
pub proof fn lemma_strict_query_prefix_err(
    pairs: Seq<(Seq<char>, Seq<char>)>,
    allowed: Seq<Seq<char>>,
    k: int,
)
    requires
        0 <= k <= pairs.len(),
        strict_query_verdict(pairs.take(k), allowed) is Err,
    ensures
        strict_query_verdict(pairs, allowed) == strict_query_verdict(pairs.take(k), allowed),
    decreases pairs.len() - k,
{
    if k < pairs.len() {
        assert(pairs.take(k + 1).drop_last() =~= pairs.take(k));
        lemma_strict_query_prefix_err(pairs, allowed, k + 1);
    } else {
        assert(pairs.take(k) =~= pairs);
    }
}

/// `allowed` holds `key`.
fn allowed_contains(allowed: &[&str], key: &str) -> (r: bool)
    ensures
        r == str_views(allowed@).contains(key@),
{
    let mut i: usize = 0;
    while i < allowed.len()
        invariant
            i <= allowed@.len(),
            forall|j: int| 0 <= j < i ==> allowed@[j]@ != key@,
        decreases allowed@.len() - i,
    {
        if str_eq(allowed[i], key) {
            assert(str_views(allowed@)[i as int] == key@);
            return true;
        }
        i = i + 1;
    }
    proof {
        if str_views(allowed@).contains(key@) {
            let j = choose|j: int| 0 <= j < str_views(allowed@).len() && str_views(allowed@)[j] == key@;
            assert(allowed@[j]@ == key@);
        }
    }
    false
}

/// The value under `key` in `pairs`.
pub fn query_get<'a>(pairs: &'a Vec<(String, String)>, key: &str) -> (r: Option<&'a String>)
    ensures
        match r {
            Some(v) => lookup(pair_views(pairs@), key@) == Some(v@),
            None => lookup(pair_views(pairs@), key@) is None,
        },
{
    let ghost pv = pair_views(pairs@);
    let mut i: usize = 0;
    proof {
        assert(pv.subrange(0, pv.len() as int) =~= pv);
    }
    while i < pairs.len()
        invariant
            pv == pair_views(pairs@),
            i <= pairs@.len(),
            lookup(pv, key@) == lookup(pv.subrange(i as int, pv.len() as int), key@),
        decreases pairs@.len() - i,
    {
        let ghost rest = pv.subrange(i as int, pv.len() as int);
        assert(rest[0] == (pairs@[i as int].0@, pairs@[i as int].1@));
        if str_eq(pairs[i].0.as_str(), key) {
            return Some(&pairs[i].1);
        }
        assert(rest.drop_first() == pv.subrange(i + 1, pv.len() as int));
        i = i + 1;
    }
    None
}

/// The pairs of the query of `url`, each key allowed and none repeated.
pub fn strict_query(url: &WebUrl, allowed: &[&str]) -> (r: Result<Vec<(String, String)>, ApiError>)
    ensures
        match r {
            Ok(q) => strict_query_verdict(url_query_pairs(url@), str_views(allowed@)) == Ok::<
                Seq<(Seq<char>, Seq<char>)>,
                Seq<char>,
            >(pair_views(q@)),
            Err(e) => strict_query_verdict(url_query_pairs(url@), str_views(allowed@)) matches Err(
                m,
            ) && is_plain_error(e, 400, COMMAND_CODE@, m),
        },
{
    let pairs = query_pairs(url);
    let ghost all = url_query_pairs(url@);
    let mut result: Vec<(String, String)> = Vec::new();
    let mut i: usize = 0;
    proof {
        assert(all.take(0) =~= Seq::<(Seq<char>, Seq<char>)>::empty());
        assert(pair_views(result@) =~= Seq::<(Seq<char>, Seq<char>)>::empty());
    }
    while i < pairs.len()
        invariant
            all == url_query_pairs(url@),
            pairs@.len() == all.len(),
            forall|j: int|
                0 <= j < pairs@.len() ==> (#[trigger] pairs@[j]).0@ == all[j].0 && pairs@[j].1@
                    == all[j].1,
            i <= pairs@.len(),
            strict_query_verdict(all.take(i as int), str_views(allowed@)) == Ok::<
                Seq<(Seq<char>, Seq<char>)>,
                Seq<char>,
            >(pair_views(result@)),
        decreases pairs@.len() - i,
    {
        let key = &pairs[i].0;
        let value = &pairs[i].1;
        proof {
            assert(all.take(i + 1).drop_last() =~= all.take(i as int));
            assert(all.take(i + 1).last() == all[i as int]);
        }
        if !allowed_contains(allowed, key.as_str()) {
            proof {
                lemma_strict_query_prefix_err(all, str_views(allowed@), i + 1);
            }
            return Err(ApiError::command("OAuth callback contains an unexpected parameter."));
        }
        if query_get(&result, key.as_str()).is_some() {
            proof {
                lemma_strict_query_prefix_err(all, str_views(allowed@), i + 1);
            }
            return Err(ApiError::command("OAuth callback contains a duplicate parameter."));
        }
        let ghost before = result@;
        result.push((key.clone(), value.clone()));
        proof {
            assert(pair_views(result@) =~= pair_views(before).push((key@, value@)));
            assert(pair_views(result@) =~= all.take(i + 1));
        }
        i = i + 1;
    }
    proof {
        assert(all.take(all.len() as int) =~= all);
    }
    Ok(result)
}

/// A callback of the browser authorization.
#[derive(Debug)]
pub enum ParsedCallback {
    /// The user authorized: a one-time code.
    Success { code: String, state: String },
    /// The user cancelled or the provider refused.
    Denied { state: String },
}

impl ParsedCallback {
    pub open spec fn state_view(&self) -> Seq<char> {
        match self {
            ParsedCallback::Success { state, .. } => state@,
            ParsedCallback::Denied { state } => state@,
        }
    }

    pub fn state(&self) -> (r: &str)
        ensures
            r@ == self.state_view(),
    {
        match self {
            ParsedCallback::Success { state, .. } => state.as_str(),
            ParsedCallback::Denied { state } => state.as_str(),
        }
    }
}

/// The keys that a callback may carry.
pub open spec fn callback_keys() -> Seq<Seq<char>> {
    seq!["code"@, "state"@, "error"@, "error_description"@]
}

/// What `parse_callback` decides of `value`: the code, where the user
/// authorized, and the state; or the message of the refusal.
pub open spec fn callback_verdict(value: Seq<char>) -> Result<(Option<Seq<char>>, Seq<char>), Seq<char>> {
    if byte_len(value) > MAX_AUTHORIZATION_URL_LENGTH {
        Err("OAuth callback is too long."@)
    } else {
        match parsed_url(value) {
            None => Err("OAuth callback is invalid."@),
            Some(u) => if url_fragment(u) is Some {
                Err("OAuth callback must not contain a fragment."@)
            } else if parsed_url(REDIRECT_URI@) != Some(url_without_query(u)) {
                Err("OAuth callback URI is not registered."@)
            } else {
                match strict_query_verdict(url_query_pairs(u), callback_keys()) {
                    Err(m) => Err(m),
                    Ok(q) => match lookup(q, "state"@) {
                        None => Err("OAuth callback state is missing."@),
                        Some(state) => if !valid_state_spec(state) {
                            Err("OAuth state is invalid."@)
                        } else {
                            let code = lookup(q, "code"@);
                            let error = lookup(q, "error"@);
                            if code is Some && error is None && code->0.len() > 0 && byte_len(
                                code->0,
                            ) <= MAX_AUTH_CODE_LENGTH && q.len() == 2 {
                                Ok((code, state))
                            } else if code is None && error is Some && error->0.len() > 0
                                && q.len() <= 3 {
                                Ok((None, state))
                            } else {
                                Err("OAuth callback parameters are invalid."@)
                            }
                        },
                    },
                }
            },
        }
    }
}

pub open spec fn parsed_callback_view(c: ParsedCallback) -> (Option<Seq<char>>, Seq<char>) {
    match c {
        ParsedCallback::Success { code, state } => (Some(code@), state@),
        ParsedCallback::Denied { state } => (None, state@),
    }
}

/// Reads a callback URL: only the registered redirect URI, with a state and
/// either a code or an error, and nothing else.
pub fn parse_callback(value: &str) -> (r: Result<ParsedCallback, ApiError>)
    ensures
        match r {
            Ok(c) => callback_verdict(value@) == Ok::<(Option<Seq<char>>, Seq<char>), Seq<char>>(
                parsed_callback_view(c),
            ),
            Err(e) => callback_verdict(value@) matches Err(m) && is_plain_error(
                e,
                400,
                COMMAND_CODE@,
                m,
            ),
        },
{
    if str_byte_len(value) > MAX_AUTHORIZATION_URL_LENGTH {
        return Err(ApiError::command("OAuth callback is too long."));
    }
    let parsed = match parse_url(value) {
        Some(u) => u,
        None => return Err(ApiError::command("OAuth callback is invalid.")),
    };
    if fragment(&parsed).is_some() {
        return Err(ApiError::command("OAuth callback must not contain a fragment."));
    }
    let mut base = crate::weburl::clone_url(&parsed);
    clear_query(&mut base);
    let registered = match parse_url(REDIRECT_URI) {
        Some(expected) => str_eq(base.as_str(), expected.as_str()),
        None => false,
    };
    if !registered {
        return Err(ApiError::command("OAuth callback URI is not registered."));
    }
    let allowed: [&str; 4] = ["code", "state", "error", "error_description"];
    proof {
        assert(str_views(allowed@) =~= callback_keys());
    }
    let query = strict_query(&parsed, allowed.as_slice())?;
    let state = match query_get(&query, "state") {
        Some(s) => s.clone(),
        None => return Err(ApiError::command("OAuth callback state is missing.")),
    };
    validate_state(state.as_str())?;
    let code = query_get(&query, "code");
    let error = query_get(&query, "error");
    match (code, error) {
        (Some(code), None) => {
            if !code.as_str().is_empty() && str_byte_len(code.as_str()) <= MAX_AUTH_CODE_LENGTH
                && query.len() == 2 {
                return Ok(ParsedCallback::Success { code: code.clone(), state });
            }
        },
        (None, Some(error)) => {
            if !error.as_str().is_empty() && query.len() <= 3 {
                return Ok(ParsedCallback::Denied { state });
            }
        },
        _ => {},
    }
    Err(ApiError::command("OAuth callback parameters are invalid."))
}


// ---------------------------------------------------------------------
// The URL that starts the browser authorization
// ---------------------------------------------------------------------

pub const CONFIGURATION_CODE: &'static str = "invalid_auth_configuration";
pub const ENDPOINT_INVALID_MESSAGE: &'static str =
    "The Orcestr browser authorization endpoint is invalid.";
pub const BUILD_UNSAFE_MESSAGE: &'static str =
    "The Orcestr browser authorization URL could not be built safely.";
pub const PARAMETERS_MESSAGE: &'static str = "The Orcestr browser login parameters are invalid.";
pub const RETURN_PATH_INVALID_MESSAGE: &'static str =
    "The Orcestr authorization return path is invalid.";
pub const RETURN_PATH_CHANGED_MESSAGE: &'static str =
    "The Orcestr authorization return path changed origin.";
pub const TOO_LONG_MESSAGE: &'static str = "Authorization URL is too long.";

pub open spec fn pair_str_views(v: Seq<(&str, &str)>) -> Seq<(Seq<char>, Seq<char>)> {
    v.map_values(|p: (&str, &str)| (p.0@, p.1@))
}

/// `u` with `pairs` appended to its query in order, where the URL can hold
/// each of them.
pub open spec fn with_pairs(u: Seq<char>, pairs: Seq<(Seq<char>, Seq<char>)>) -> Option<Seq<char>>
    decreases pairs.len(),
{
    if pairs.len() == 0 {
        Some(u)
    } else {
        match with_pairs(u, pairs.drop_last()) {
            None => None,
            Some(v) => {
                let (k, x) = pairs.last();
                if fits(v, 3 * byte_len(k) + 3 * byte_len(x) + 2) {
                    Some(url_with_pair(v, k, x))
                } else {
                    None
                }
            },
        }
    }
}

pub proof fn lemma_with_pairs_prefix_none(u: Seq<char>, pairs: Seq<(Seq<char>, Seq<char>)>, k: int)
    requires
        0 <= k <= pairs.len(),
        with_pairs(u, pairs.take(k)) is None,
    ensures
        with_pairs(u, pairs) is None,
    decreases pairs.len() - k,
{
    if k < pairs.len() {
        assert(pairs.take(k + 1).drop_last() =~= pairs.take(k));
        lemma_with_pairs_prefix_none(u, pairs, k + 1);
    } else {
        assert(pairs.take(k) =~= pairs);
    }
}

/// Appends `pairs` to the query of `u` in order; false where the URL cannot
/// hold them.
fn append_pairs(u: &mut WebUrl, pairs: &Vec<(&str, &str)>) -> (r: bool)
    requires
        byte_len(old(u)@) <= URL_SIZE_LIMIT,
    ensures
        r == with_pairs(old(u)@, pair_str_views(pairs@)) is Some,
        r ==> with_pairs(old(u)@, pair_str_views(pairs@)) == Some(final(u)@),
{
    let ghost start = u@;
    let ghost pv = pair_str_views(pairs@);
    let mut i: usize = 0;
    proof {
        assert(pv.take(0) =~= Seq::<(Seq<char>, Seq<char>)>::empty());
    }
    while i < pairs.len()
        invariant
            pv == pair_str_views(pairs@),
            start == old(u)@,
            i <= pairs@.len(),
            with_pairs(start, pv.take(i as int)) == Some(u@),
            byte_len(u@) <= URL_SIZE_LIMIT,
        decreases pairs@.len() - i,
    {
        let (key, value) = pairs[i];
        proof {
            assert(pv.take(i + 1).drop_last() =~= pv.take(i as int));
            assert(pv.take(i + 1).last() == (key@, value@));
        }
        let key_len = str_byte_len(key) as u64;
        let value_len = str_byte_len(value) as u64;
        if key_len > URL_SIZE_LIMIT || value_len > URL_SIZE_LIMIT || !fits_exec(
            u,
            3 * key_len + 3 * value_len + 2,
        ) {
            proof {
                assert(!fits(u@, 3 * byte_len(key@) + 3 * byte_len(value@) + 2));
                assert(with_pairs(start, pv.take(i + 1)) is None);
                lemma_with_pairs_prefix_none(start, pv, i + 1);
            }
            return false;
        }
        append_pair(u, key, value);
        i = i + 1;
    }
    proof {
        assert(pv.take(pv.len() as int) =~= pv);
    }
    true
}

/// The fragment that tells the sign-in page which provider to offer.
pub open spec fn provider_fragment(provider: OAuthProvider) -> Seq<char> {
    "provider="@ + provider.name()
}

/// The query of the authorization request, in order.
pub open spec fn authorization_pairs(state: Seq<char>, challenge: Seq<char>) -> Seq<
    (Seq<char>, Seq<char>),
> {
    seq![
        ("response_type"@, "code"@),
        ("client_id"@, CLIENT_ID@),
        ("redirect_uri"@, REDIRECT_URI@),
        ("scope"@, SCOPE@),
        ("state"@, state),
        ("code_challenge"@, challenge),
        ("code_challenge_method"@, "S256"@),
    ]
}

/// `prefix` and `part`, where there is a part.
pub open spec fn optional_part(prefix: Seq<char>, part: Option<Seq<char>>) -> Seq<char> {
    match part {
        Some(p) => prefix + p,
        None => Seq::empty(),
    }
}

/// The path, query and fragment of `u`: where the sign-in page returns to.
pub open spec fn next_of(u: Seq<char>) -> Seq<char> {
    url_path(u) + optional_part("?"@, url_query(u)) + optional_part("#"@, url_fragment(u))
}

/// What `validate_built_browser_login_url` decides: accepted, or refused
/// with a message.
pub open spec fn built_url_verdict(
    browser: Seq<char>,
    authorization: Seq<char>,
    next: Seq<char>,
    provider: OAuthProvider,
) -> Result<(), Seq<char>> {
    let same_origin = url_scheme(browser) == url_scheme(authorization) && url_host(browser)
        == url_host(authorization) && url_port(browser) == url_port(authorization);
    if !same_origin || url_path(browser) != "/login"@ || url_fragment(browser) is Some || byte_len(
        browser,
    ) > MAX_BROWSER_LOGIN_URL_LENGTH || url_path(authorization) != "/oauth/authorize"@
        || url_fragment(authorization) != Some(provider_fragment(provider)) || !has_prefix(
        next,
        "/oauth/authorize?"@,
    ) || !has_suffix(next, "#"@ + provider_fragment(provider)) {
        Err(BUILD_UNSAFE_MESSAGE@)
    } else if url_query_pairs(browser) != seq![("next"@, next), ("provider"@, provider.name())] {
        Err(PARAMETERS_MESSAGE@)
    } else {
        match joined_url(browser, next) {
            None => Err(RETURN_PATH_INVALID_MESSAGE@),
            Some(j) => if j != authorization {
                Err(RETURN_PATH_CHANGED_MESSAGE@)
            } else {
                Ok(())
            },
        }
    }
}

fn opt_str_eq(a: Option<&str>, b: Option<&str>) -> (r: bool)
    ensures
        r == (crate::weburl::opt_view(a) == crate::weburl::opt_view(b)),
{
    match (a, b) {
        (Some(x), Some(y)) => str_eq(x, y),
        (None, None) => true,
        _ => false,
    }
}

/// Checks the sign-in URL once built: same origin as the authorization
/// endpoint, the `/login` page, exactly the `next` and `provider`
/// parameters, and a `next` that resolves back to exactly the
/// authorization URL.
pub fn validate_built_browser_login_url(
    browser_login_url: &WebUrl,
    authorization_url: &WebUrl,
    next: &str,
    provider: OAuthProvider,
) -> (r: Result<(), ApiError>)
    ensures
        match r {
            Ok(_) => built_url_verdict(browser_login_url@, authorization_url@, next@, provider) is Ok,
            Err(e) => built_url_verdict(
                browser_login_url@,
                authorization_url@,
                next@,
                provider,
            ) matches Err(m) && is_plain_error(e, 500, CONFIGURATION_CODE@, m),
        },
{
    let provider_fragment = concat_str("provider=", provider.as_str());
    let fragment_suffix = concat_str("#", provider_fragment.as_str());
    let same_origin = str_eq(scheme(browser_login_url), scheme(authorization_url)) && opt_str_eq(
        host(browser_login_url),
        host(authorization_url),
    ) && port(browser_login_url) == port(authorization_url);
    let authorization_fragment_ok = match fragment(authorization_url) {
        Some(f) => str_eq(f, provider_fragment.as_str()),
        None => false,
    };
    if !same_origin || !str_eq(path(browser_login_url), "/login") || fragment(
        browser_login_url,
    ).is_some() || str_byte_len(browser_login_url.as_str()) > MAX_BROWSER_LOGIN_URL_LENGTH
        || !str_eq(path(authorization_url), "/oauth/authorize") || !authorization_fragment_ok
        || !starts_with(next, "/oauth/authorize?") || !ends_with(next, fragment_suffix.as_str()) {
        return Err(ApiError::new(500, CONFIGURATION_CODE, BUILD_UNSAFE_MESSAGE));
    }
    let pairs = query_pairs(browser_login_url);
    let ghost expected = seq![("next"@, next@), ("provider"@, provider.name())];
    let pairs_ok = pairs.len() == 2 && str_eq(pairs[0].0.as_str(), "next") && str_eq(
        pairs[0].1.as_str(),
        next,
    ) && str_eq(pairs[1].0.as_str(), "provider") && str_eq(
        pairs[1].1.as_str(),
        provider.as_str(),
    );
    proof {
        let actual = url_query_pairs(browser_login_url@);
        if pairs_ok {
            assert(actual =~= expected);
        } else if actual == expected {
            assert(actual[0] == expected[0]);
            assert(actual[1] == expected[1]);
        }
    }
    if !pairs_ok {
        return Err(ApiError::new(500, CONFIGURATION_CODE, PARAMETERS_MESSAGE));
    }
    let resolved = match join_url(browser_login_url, next) {
        Some(u) => u,
        None => return Err(ApiError::new(500, CONFIGURATION_CODE, RETURN_PATH_INVALID_MESSAGE)),
    };
    if !str_eq(resolved.as_str(), authorization_url.as_str()) {
        return Err(ApiError::new(500, CONFIGURATION_CODE, RETURN_PATH_CHANGED_MESSAGE));
    }
    Ok(())
}

pub open spec fn valid_challenge(challenge: Seq<char>) -> bool {
    byte_len(challenge) == 43 && all_bytes_in(
        vstd::utf8::encode_utf8(challenge),
        ByteClass::Base64Url,
    )
}

/// What `build_oauth_browser_login_url` gives: the serialization of the
/// sign-in URL, or the status, code and message of the error.
pub open spec fn browser_login_outcome(
    authorization_endpoint: Seq<char>,
    debug_build: bool,
    provider: OAuthProvider,
    state: Seq<char>,
    challenge: Seq<char>,
) -> Result<Seq<char>, (u16, Seq<char>, Seq<char>)> {
    if !valid_state_spec(state) {
        Err((400, COMMAND_CODE@, "OAuth state is invalid."@))
    } else if !valid_challenge(challenge) {
        Err((400, COMMAND_CODE@, "OAuth code challenge is invalid."@))
    } else {
        match browser_login_verdict(authorization_endpoint, debug_build) {
            Err(_) => Err((500, CONFIGURATION_CODE@, ENDPOINT_INVALID_MESSAGE@)),
            Ok(login) => match with_pairs(
                authorization_endpoint,
                authorization_pairs(state, challenge),
            ) {
                None => Err((400, COMMAND_CODE@, TOO_LONG_MESSAGE@)),
                Some(q) => if !fits(q, 3 * byte_len(provider_fragment(provider)) + 1) {
                    Err((400, COMMAND_CODE@, TOO_LONG_MESSAGE@))
                } else {
                    let authorization = url_with_fragment(q, provider_fragment(provider));
                    let next = next_of(authorization);
                    if byte_len(authorization) > MAX_AUTHORIZATION_URL_LENGTH || byte_len(next)
                        > MAX_AUTHORIZATION_URL_LENGTH {
                        Err((400, COMMAND_CODE@, TOO_LONG_MESSAGE@))
                    } else {
                        match with_pairs(login, seq![("next"@, next), ("provider"@, provider.name())]) {
                            None => Err((500, CONFIGURATION_CODE@, BUILD_UNSAFE_MESSAGE@)),
                            Some(b) => match built_url_verdict(b, authorization, next, provider) {
                                Err(m) => Err((500, CONFIGURATION_CODE@, m)),
                                Ok(_) => Ok(b),
                            },
                        }
                    }
                }
            },
        }
    }
}

/// The sign-in page of the authorization endpoint's origin, carrying as
/// `next` the public-client PKCE authorization request for `provider`.
pub fn build_oauth_browser_login_url(
    config: &AuthConfig,
    provider: OAuthProvider,
    state: &str,
    code_challenge: &str,
) -> (r: Result<WebUrl, ApiError>)
    ensures
        match r {
            Ok(u) => browser_login_outcome(
                config.authorization_endpoint@,
                config.debug_build,
                provider,
                state@,
                code_challenge@,
            ) == Ok::<Seq<char>, (u16, Seq<char>, Seq<char>)>(u@),
            Err(e) => browser_login_outcome(
                config.authorization_endpoint@,
                config.debug_build,
                provider,
                state@,
                code_challenge@,
            ) matches Err(f) && is_plain_error(e, f.0, f.1, f.2),
        },
{
    validate_state(state)?;
    if str_byte_len(code_challenge) != 43 || !bytes_in_class(code_challenge, ByteClass::Base64Url) {
        return Err(ApiError::command("OAuth code challenge is invalid."));
    }
    let mut browser_login_url = match config.browser_login_endpoint() {
        Ok(u) => u,
        Err(_) => return Err(ApiError::new(500, CONFIGURATION_CODE, ENDPOINT_INVALID_MESSAGE)),
    };
    let mut authorization_url = clone_url(&config.authorization_endpoint);
    let request = vec![
        ("response_type", "code"),
        ("client_id", CLIENT_ID),
        ("redirect_uri", REDIRECT_URI),
        ("scope", SCOPE),
        ("state", state),
        ("code_challenge", code_challenge),
        ("code_challenge_method", "S256"),
    ];
    proof {
        assert(pair_str_views(request@) =~= authorization_pairs(state@, code_challenge@));
    }
    if !append_pairs(&mut authorization_url, &request) {
        return Err(ApiError::command(TOO_LONG_MESSAGE));
    }
    let provider_fragment = concat_str("provider=", provider.as_str());
    if !fits_after_fragment(&authorization_url, provider_fragment.as_str()) {
        return Err(ApiError::command(TOO_LONG_MESSAGE));
    }
    set_fragment(&mut authorization_url, provider_fragment.as_str());
    let mut next = path(&authorization_url).to_owned();
    match query(&authorization_url) {
        Some(q) => {
            next = concat_str(next.as_str(), "?");
            next = concat_str(next.as_str(), q);
        },
        None => {},
    }
    match fragment(&authorization_url) {
        Some(f) => {
            next = concat_str(next.as_str(), "#");
            next = concat_str(next.as_str(), f);
        },
        None => {},
    }
    proof {
        assert(next@ =~= next_of(authorization_url@));
    }
    if str_byte_len(authorization_url.as_str()) > MAX_AUTHORIZATION_URL_LENGTH || str_byte_len(
        next.as_str(),
    ) > MAX_AUTHORIZATION_URL_LENGTH {
        return Err(ApiError::command(TOO_LONG_MESSAGE));
    }
    let login_pairs = vec![("next", next.as_str()), ("provider", provider.as_str())];
    proof {
        assert(pair_str_views(login_pairs@) =~= seq![("next"@, next@), ("provider"@, provider.name())]);
    }
    if !append_pairs(&mut browser_login_url, &login_pairs) {
        return Err(ApiError::new(500, CONFIGURATION_CODE, BUILD_UNSAFE_MESSAGE));
    }
    validate_built_browser_login_url(&browser_login_url, &authorization_url, next.as_str(), provider)?;
    Ok(browser_login_url)
}

/// `u` can take `s` as its fragment.
fn fits_after_fragment(u: &WebUrl, s: &str) -> (r: bool)
    ensures
        r == fits(u@, 3 * byte_len(s@) + 1),
{
    crate::config::fits_after(u, s)
}


/// Random secrets of the URL-safe alphabet are valid OAuth states.
pub proof fn lemma_random_state_is_valid(s: Seq<char>)
    requires
        base64_url_text(s, STATE_BYTES as nat),
    ensures
        valid_state_spec(s),
{
    let bytes = vstd::utf8::encode_utf8(s);
    assert forall|i: int| 0 <= i < bytes.len() implies crate::text::byte_in_class(
        #[trigger] bytes[i],
        ByteClass::OAuthState,
    ) by {
        assert(crate::text::byte_in_class(bytes[i], ByteClass::Base64Url));
    }
}

/// What a new browser authorization needs: its secrets and the sign-in URL
/// that carries them.
#[derive(Debug)]
pub struct OAuthStart {
    pub state: String,
    pub code_verifier: String,
    pub browser_login_url: WebUrl,
}

/// Draws the state and the PKCE code verifier of a new browser
/// authorization and builds its sign-in URL.
pub fn prepare_oauth(config: &AuthConfig, provider: OAuthProvider) -> (r: Result<OAuthStart, ApiError>)
    ensures
        r matches Ok(s) ==> {
            &&& base64_url_text(s.state@, STATE_BYTES as nat)
            &&& base64_url_text(s.code_verifier@, CODE_VERIFIER_BYTES as nat)
            &&& browser_login_outcome(
                config.authorization_endpoint@,
                config.debug_build,
                provider,
                s.state@,
                challenge_of(s.code_verifier@),
            ) == Ok::<Seq<char>, (u16, Seq<char>, Seq<char>)>(s.browser_login_url@)
        },
        r matches Err(e) ==> {
            ||| is_plain_error(
                e,
                500,
                "secure_random_unavailable"@,
                "Secure authorization could not be initialized."@,
            )
            ||| exists|state: Seq<char>, verifier: Seq<char>|
                {
                    &&& base64_url_text(state, STATE_BYTES as nat)
                    &&& base64_url_text(verifier, CODE_VERIFIER_BYTES as nat)
                    &&& (#[trigger] browser_login_outcome(
                        config.authorization_endpoint@,
                        config.debug_build,
                        provider,
                        state,
                        challenge_of(verifier),
                    )) matches Err(f)
                    &&& is_plain_error(e, f.0, f.1, f.2)
                }
        },
{
    let state = random_base64_url(STATE_BYTES)?;
    let code_verifier = random_base64_url(CODE_VERIFIER_BYTES)?;
    let challenge = code_challenge(code_verifier.as_str());
    proof {
        lemma_random_state_is_valid(state@);
    }
    let browser_login_url = match build_oauth_browser_login_url(
        config,
        provider,
        state.as_str(),
        challenge.as_str(),
    ) {
        Ok(u) => u,
        Err(e) => {
            assert(browser_login_outcome(
                config.authorization_endpoint@,
                config.debug_build,
                provider,
                state@,
                challenge_of(code_verifier@),
            ) is Err);
            return Err(e);
        },
    };
    Ok(OAuthStart { state, code_verifier, browser_login_url })
}


/// A sign-in URL that is built carries exactly two parameters, `next` and
/// the provider, on the `/login` page of the authorization endpoint's
/// origin, and its `next` resolves back to exactly the authorization
/// request: the endpoint with the PKCE request and the provider fragment.
pub proof fn law_sign_in_url_returns_to_the_authorization_request(
    authorization_endpoint: Seq<char>,
    debug_build: bool,
    provider: OAuthProvider,
    state: Seq<char>,
    challenge: Seq<char>,
    browser: Seq<char>,
)
    requires
        browser_login_outcome(authorization_endpoint, debug_build, provider, state, challenge)
            == Ok::<Seq<char>, (u16, Seq<char>, Seq<char>)>(browser),
    ensures
        with_pairs(authorization_endpoint, authorization_pairs(state, challenge)) is Some,
        ({
            let authorization = url_with_fragment(
                with_pairs(authorization_endpoint, authorization_pairs(state, challenge))->0,
                provider_fragment(provider),
            );
            &&& url_query_pairs(browser) == seq![
                ("next"@, next_of(authorization)),
                ("provider"@, provider.name()),
            ]
            &&& joined_url(browser, next_of(authorization)) == Some(authorization)
            &&& url_path(browser) == "/login"@
            &&& url_fragment(browser) is None
            &&& url_scheme(browser) == url_scheme(authorization)
            &&& url_host(browser) == url_host(authorization)
            &&& url_port(browser) == url_port(authorization)
            &&& url_fragment(authorization) == Some(provider_fragment(provider))
        }),
        valid_state_spec(state),
        valid_challenge(challenge),
{
}

/// A callback is read only from the registered redirect URI, without a
/// fragment, and only with a valid state.
pub proof fn law_callbacks_come_from_the_registered_uri(value: Seq<char>)
    requires
        callback_verdict(value) is Ok,
    ensures
        parsed_url(value) matches Some(u) && url_fragment(u) is None && parsed_url(REDIRECT_URI@)
            == Some(url_without_query(u)),
        valid_state_spec(callback_verdict(value)->Ok_0.1),
{
}


/// A refusal is read as one: a callback on the registered URI with a valid
/// state, a non-empty `error`, no code and, optionally, an
/// `error_description`, is the denial of the authorization with that state.
pub proof fn law_refusals_are_read_as_denials(
    value: Seq<char>,
    error: Seq<char>,
    description: Seq<char>,
    state: Seq<char>,
)
    requires
        byte_len(value) <= MAX_AUTHORIZATION_URL_LENGTH,
        parsed_url(value) matches Some(u) && url_fragment(u) is None && parsed_url(REDIRECT_URI@)
            == Some(url_without_query(u)) && ({
            let q = url_query_pairs(u);
            ||| q == seq![("error"@, error), ("state"@, state)]
            ||| q == seq![("state"@, state), ("error"@, error)]
            ||| q == seq![("error"@, error), ("error_description"@, description), ("state"@, state)]
        }),
        error.len() > 0,
        valid_state_spec(state),
    ensures
        callback_verdict(value) == Ok::<(Option<Seq<char>>, Seq<char>), Seq<char>>((None, state)),
{
    reveal_strlit("code");
    reveal_strlit("state");
    reveal_strlit("error");
    reveal_strlit("error_description");
    let keys = callback_keys();
    assert(keys[1] == "state"@);
    assert(keys[2] == "error"@);
    assert(keys[3] == "error_description"@);
    assert(keys.contains("state"@));
    assert(keys.contains("error"@));
    assert(keys.contains("error_description"@));
    assert("state"@ != "error"@) by {
        assert("state"@[0] != "error"@[0]);
    }
    assert("state"@ != "error_description"@) by {
        assert("state"@[0] != "error_description"@[0]);
    }
    assert("error"@ != "error_description"@) by {
        assert("error"@.len() != "error_description"@.len());
    }
    assert("code"@ != "error"@) by {
        assert("code"@[0] != "error"@[0]);
    }
    assert("code"@ != "state"@) by {
        assert("code"@[0] != "state"@[0]);
    }
    assert("code"@ != "error_description"@) by {
        assert("code"@[0] != "error_description"@[0]);
    }
    let u = parsed_url(value)->0;
    let q = url_query_pairs(u);
    let e = ("error"@, error);
    let s = ("state"@, state);
    let d = ("error_description"@, description);
    let empty = Seq::<(Seq<char>, Seq<char>)>::empty();
    assert(strict_query_verdict(empty, keys) == Ok::<Seq<(Seq<char>, Seq<char>)>, Seq<char>>(empty));
    reveal_with_fuel(lookup, 4);
    reveal_with_fuel(strict_query_verdict, 4);
    assert(seq![e].drop_first() =~= empty);
    assert(seq![s].drop_first() =~= empty);
    assert(seq![d].drop_first() =~= empty);
    assert(seq![e].drop_last() =~= empty);
    assert(seq![s].drop_last() =~= empty);
    assert(lookup(seq![e], "state"@) is None);
    assert(lookup(seq![e], "error_description"@) is None);
    assert(lookup(seq![s], "error"@) is None);
    assert(strict_query_verdict(seq![e], keys) == Ok::<Seq<(Seq<char>, Seq<char>)>, Seq<char>>(seq![e]));
    assert(strict_query_verdict(seq![s], keys) == Ok::<Seq<(Seq<char>, Seq<char>)>, Seq<char>>(seq![s]));
    if q == seq![e, s] {
        assert(seq![e, s].drop_last() =~= seq![e]);
        assert(seq![e, s].drop_first() =~= seq![s]);
        assert(strict_query_verdict(q, keys) == Ok::<Seq<(Seq<char>, Seq<char>)>, Seq<char>>(q));
        assert(lookup(q, "state"@) == Some(state));
        assert(lookup(q, "code"@) is None);
        assert(lookup(q, "error"@) == Some(error));
    } else if q == seq![s, e] {
        assert(seq![s, e].drop_last() =~= seq![s]);
        assert(seq![s, e].drop_first() =~= seq![e]);
        assert(strict_query_verdict(q, keys) == Ok::<Seq<(Seq<char>, Seq<char>)>, Seq<char>>(q));
        assert(lookup(q, "state"@) == Some(state));
        assert(lookup(q, "code"@) is None);
        assert(lookup(q, "error"@) == Some(error));
    } else {
        assert(seq![e, d, s].drop_last() =~= seq![e, d]);
        assert(seq![e, d].drop_last() =~= seq![e]);
        assert(seq![e, d].drop_first() =~= seq![d]);
        assert(seq![e, d, s].drop_first() =~= seq![d, s]);
        assert(seq![d, s].drop_first() =~= seq![s]);
        assert(lookup(seq![d], "state"@) is None);
        assert(lookup(seq![e, d], "state"@) is None);
        assert(strict_query_verdict(seq![e, d], keys) == Ok::<Seq<(Seq<char>, Seq<char>)>, Seq<char>>(seq![e, d]));
        assert(strict_query_verdict(q, keys) == Ok::<Seq<(Seq<char>, Seq<char>)>, Seq<char>>(q));
        assert(lookup(seq![s], "state"@) == Some(state));
        assert(lookup(seq![d, s], "state"@) == Some(state));
        assert(lookup(q, "state"@) == Some(state));
        assert(lookup(seq![s], "code"@) is None);
        assert(lookup(seq![d, s], "code"@) is None);
        assert(lookup(q, "code"@) is None);
        assert(lookup(q, "error"@) == Some(error));
    }
}

} // verus!
