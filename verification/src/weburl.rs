//! Absolute URLs, parsed and rewritten by the `url` crate.
//!
//! A `WebUrl` is known to the proofs by its serialization. Every `WebUrl`
//! here is what `Url::parse` gives for its own serialization: `Url::parse`
//! and `Url::join` return such URLs, and the rewrites below keep them so.
//! `Url::set_path` may break this on a URL without a host (it can leave a
//! path starting with `//` that reads back as a host), so it is only used
//! on URLs with a host. The components are therefore functions of the
//! serialization, as `Url::parse` reads it; what the crate computes from a
//! serialization is named below and stated only where its documentation
//! says it in a line.
use vstd::prelude::*;
use crate::text::byte_len;

verus! {

#[verifier::external_type_specification]
#[verifier::external_body]
pub struct ExUrl(url::Url);

/// The largest serialization that the rewrites of `url::Url` can produce:
/// they record offsets into it as `u32` and panic past that.
pub const URL_SIZE_LIMIT: u64 = 0xffff_ffff;

/// The serialization of what `Url::parse` returns for `input`, if it parses.
pub uninterp spec fn parsed_url(input: Seq<char>) -> Option<Seq<char>>;

/// The serialization of what `Url::join` returns for `input` against `base`.
pub uninterp spec fn joined_url(base: Seq<char>, input: Seq<char>) -> Option<Seq<char>>;

/// `Url::scheme`.
pub uninterp spec fn url_scheme(url: Seq<char>) -> Seq<char>;

/// `Url::username`.
pub uninterp spec fn url_username(url: Seq<char>) -> Seq<char>;

/// `Url::password`.
pub uninterp spec fn url_password(url: Seq<char>) -> Option<Seq<char>>;

/// `Url::host_str`.
pub uninterp spec fn url_host(url: Seq<char>) -> Option<Seq<char>>;

/// `Url::port`.
pub uninterp spec fn url_port(url: Seq<char>) -> Option<u16>;

/// `Url::path`.
pub uninterp spec fn url_path(url: Seq<char>) -> Seq<char>;

/// `Url::query`.
pub uninterp spec fn url_query(url: Seq<char>) -> Option<Seq<char>>;

/// `Url::fragment`.
pub uninterp spec fn url_fragment(url: Seq<char>) -> Option<Seq<char>>;

/// `Url::origin().ascii_serialization()`.
pub uninterp spec fn url_origin(url: Seq<char>) -> Seq<char>;

/// `Url::query_pairs`: the query decoded as form data, in order.
pub uninterp spec fn url_query_pairs(url: Seq<char>) -> Seq<(Seq<char>, Seq<char>)>;

/// The serialization after `Url::set_path(path)`.
pub uninterp spec fn url_with_path(url: Seq<char>, path: Seq<char>) -> Seq<char>;

/// The serialization after `Url::set_query(None)`.
pub uninterp spec fn url_without_query(url: Seq<char>) -> Seq<char>;

/// The serialization after `Url::set_fragment(Some(fragment))`.
pub uninterp spec fn url_with_fragment(url: Seq<char>, fragment: Seq<char>) -> Seq<char>;

/// The serialization after `Url::query_pairs_mut().append_pair(key, value)`.
pub uninterp spec fn url_with_pair(url: Seq<char>, key: Seq<char>, value: Seq<char>) -> Seq<char>;

/// An absolute URL.
#[derive(Debug)]
pub struct WebUrl {
    raw: url::Url,
    text: String,
}

impl View for WebUrl {
    type V = Seq<char>;

    /// The serialization, `Url::as_str`.
    closed spec fn view(&self) -> Seq<char> {
        self.text@
    }
}

/// `Option<&str>` as the spec sequence it holds.
pub open spec fn opt_view(o: Option<&str>) -> Option<Seq<char>> {
    match o {
        Some(s) => Some(s@),
        None => None,
    }
}

/// `Url::parse`. It refuses what is not an absolute URL, and a URL of more
/// than `URL_SIZE_LIMIT` bytes.
#[verifier::external_body]
pub(crate) fn parse_url(input: &str) -> (r: Option<WebUrl>)
    ensures
        match r {
            Some(u) => parsed_url(input@) == Some(u@),
            None => parsed_url(input@) is None,
        },
{
    match url::Url::parse(input) {
        Ok(raw) => Some(WebUrl { text: raw.as_str().to_owned(), raw }),
        Err(_) => None,
    }
}

/// `Url::join`: `input` resolved against `base`.
#[verifier::external_body]
pub(crate) fn join_url(base: &WebUrl, input: &str) -> (r: Option<WebUrl>)
    ensures
        match r {
            Some(u) => joined_url(base@, input@) == Some(u@),
            None => joined_url(base@, input@) is None,
        },
{
    match base.raw.join(input) {
        Ok(raw) => Some(WebUrl { text: raw.as_str().to_owned(), raw }),
        Err(_) => None,
    }
}

/// `Clone::clone` of `url::Url`: the same serialization.
#[verifier::external_body]
pub(crate) fn clone_url(u: &WebUrl) -> (r: WebUrl)
    ensures
        r@ == u@,
{
    WebUrl { raw: u.raw.clone(), text: u.text.clone() }
}

/// `Url::scheme`.
#[verifier::external_body]
pub(crate) fn scheme(u: &WebUrl) -> (r: &str)
    ensures
        r@ == url_scheme(u@),
{
    u.raw.scheme()
}

/// `Url::username`.
#[verifier::external_body]
pub(crate) fn username(u: &WebUrl) -> (r: &str)
    ensures
        r@ == url_username(u@),
{
    u.raw.username()
}

/// `Url::password`.
#[verifier::external_body]
pub(crate) fn password(u: &WebUrl) -> (r: Option<&str>)
    ensures
        opt_view(r) == url_password(u@),
{
    u.raw.password()
}

/// `Url::host_str`.
#[verifier::external_body]
pub(crate) fn host(u: &WebUrl) -> (r: Option<&str>)
    ensures
        opt_view(r) == url_host(u@),
{
    u.raw.host_str()
}

/// `Url::port`.
#[verifier::external_body]
pub(crate) fn port(u: &WebUrl) -> (r: Option<u16>)
    ensures
        r == url_port(u@),
{
    u.raw.port()
}

/// `Url::path`.
#[verifier::external_body]
pub(crate) fn path(u: &WebUrl) -> (r: &str)
    ensures
        r@ == url_path(u@),
{
    u.raw.path()
}

/// `Url::query`.
#[verifier::external_body]
pub(crate) fn query(u: &WebUrl) -> (r: Option<&str>)
    ensures
        opt_view(r) == url_query(u@),
{
    u.raw.query()
}

/// `Url::fragment`.
#[verifier::external_body]
pub(crate) fn fragment(u: &WebUrl) -> (r: Option<&str>)
    ensures
        opt_view(r) == url_fragment(u@),
{
    u.raw.fragment()
}

/// `Url::origin().ascii_serialization()`.
#[verifier::external_body]
pub(crate) fn origin(u: &WebUrl) -> (r: String)
    ensures
        r@ == url_origin(u@),
{
    u.raw.origin().ascii_serialization()
}

/// `Url::query_pairs`, each pair taken as owned strings.
#[verifier::external_body]
pub(crate) fn query_pairs(u: &WebUrl) -> (r: Vec<(String, String)>)
    ensures
        r@.len() == url_query_pairs(u@).len(),
        forall|i: int|
            0 <= i < r@.len() ==> (#[trigger] r@[i]).0@ == url_query_pairs(u@)[i].0 && r@[i].1@
                == url_query_pairs(u@)[i].1,
{
    u.raw.query_pairs().map(|(key, value)| (key.into_owned(), value.into_owned())).collect()
}

/// `Url::set_path`, on a URL with a host. The new path is percent-encoded,
/// each byte into at most three, and a leading `/` may be added.
#[verifier::external_body]
pub(crate) fn set_path(u: &mut WebUrl, new_path: &str)
    requires
        url_host(old(u)@) is Some,
        byte_len(old(u)@) + 3 * byte_len(new_path@) + 1 <= URL_SIZE_LIMIT,
    ensures
        final(u)@ == url_with_path(old(u)@, new_path@),
        byte_len(final(u)@) <= byte_len(old(u)@) + 3 * byte_len(new_path@) + 1,
{
    u.raw.set_path(new_path);
    u.text = u.raw.as_str().to_owned();
}

/// `Url::set_query(None)`: the query removed.
#[verifier::external_body]
pub(crate) fn clear_query(u: &mut WebUrl)
    ensures
        final(u)@ == url_without_query(old(u)@),
        byte_len(final(u)@) <= byte_len(old(u)@),
{
    u.raw.set_query(None);
    u.text = u.raw.as_str().to_owned();
}

/// `Url::set_fragment(Some(fragment))`. The fragment is percent-encoded,
/// each byte into at most three, after a `#`.
#[verifier::external_body]
pub(crate) fn set_fragment(u: &mut WebUrl, new_fragment: &str)
    requires
        byte_len(old(u)@) + 3 * byte_len(new_fragment@) + 1 <= URL_SIZE_LIMIT,
    ensures
        final(u)@ == url_with_fragment(old(u)@, new_fragment@),
        byte_len(final(u)@) <= byte_len(old(u)@) + 3 * byte_len(new_fragment@) + 1,
{
    u.raw.set_fragment(Some(new_fragment));
    u.text = u.raw.as_str().to_owned();
}

/// `Url::query_pairs_mut().append_pair(key, value)`. Key and value are
/// form-encoded, each byte into at most three, joined by `=` and after a
/// `?` or `&`.
#[verifier::external_body]
pub(crate) fn append_pair(u: &mut WebUrl, key: &str, value: &str)
    requires
        byte_len(old(u)@) + 3 * byte_len(key@) + 3 * byte_len(value@) + 2 <= URL_SIZE_LIMIT,
    ensures
        final(u)@ == url_with_pair(old(u)@, key@, value@),
        byte_len(final(u)@) <= byte_len(old(u)@) + 3 * byte_len(key@) + 3 * byte_len(value@) + 2,
{
    u.raw.query_pairs_mut().append_pair(key, value);
    u.text = u.raw.as_str().to_owned();
}

impl WebUrl {
    /// Parses an absolute URL.
    pub fn parse(input: &str) -> (r: Option<WebUrl>)
        ensures
            match r {
                Some(u) => parsed_url(input@) == Some(u@),
                None => parsed_url(input@) is None,
            },
    {
        parse_url(input)
    }

    /// The serialization, `Url::as_str`.
    pub fn as_str(&self) -> (r: &str)
        ensures
            r@ == self@,
    {
        self.text.as_str()
    }

    /// The serialization as an owned string.
    pub fn to_text(&self) -> (r: String)
        ensures
            r@ == self@,
    {
        self.text.clone()
    }
}

} // verus!
