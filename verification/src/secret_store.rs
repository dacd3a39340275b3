//! The records kept in the operating system's credential store, and the
//! rules that a stored credential must keep.
use vstd::prelude::*;
use crate::text::{
    byte_len, has_control, is_blank_seq, is_trimmed_seq, is_whitespace_char, trim_seq,
    contains_control, is_blank, is_trimmed, str_byte_len, str_trim, lemma_trim_fixed,
};

verus! {

pub const KEYRING_SERVICE: &'static str = "com.orcestr.realtranslate";
pub const SESSION_ACCOUNT: &'static str = "auth.refresh-session";
pub const OPENAI_ACCOUNT: &'static str = "provider.openai.api-key";
pub const SESSION_VERSION: u8 = 1;
pub const MAX_REFRESH_TOKEN_LENGTH: usize = 24 * 1024;
pub const MAX_OPENAI_API_KEY_LENGTH: usize = 8 * 1024;

/// Whether an OpenAI API key is stored; the key itself never leaves the
/// native process.
#[derive(Clone, Copy, Debug, PartialEq, Eq, Structural)]
pub struct OpenAiKeyStatus {
    pub configured: bool,
}

#[derive(Clone, Copy, Debug, PartialEq, Eq, Structural)]
pub enum StoredSessionKind {
    Password,
    OAuth2,
}

/// The refresh credential of a session, as it is stored.
#[derive(Debug)]
pub struct StoredSession {
    pub version: u8,
    pub kind: StoredSessionKind,
    pub refresh_token: String,
}

/// A refresh token that may be stored: not blank, without surrounding
/// whitespace, bounded, free of control characters.
pub open spec fn valid_refresh_token(token: Seq<char>) -> bool {
    &&& !is_blank_seq(token)
    &&& is_trimmed_seq(token)
    &&& byte_len(token) <= MAX_REFRESH_TOKEN_LENGTH
    &&& !has_control(token)
}

pub fn validate_refresh_token(token: &str) -> (r: Result<(), String>)
    ensures
        r is Ok == valid_refresh_token(token@),
        r matches Err(m) ==> m@ == "Stored refresh token is invalid"@,
{
    if is_blank(token) || !is_trimmed(token) || str_byte_len(token) > MAX_REFRESH_TOKEN_LENGTH
        || contains_control(token) {
        return Err("Stored refresh token is invalid".to_owned());
    }
    Ok(())
}

impl StoredSession {
    pub fn new(kind: StoredSessionKind, refresh_token: String) -> (r: Result<StoredSession, String>)
        ensures
            r is Ok == valid_refresh_token(refresh_token@),
            r matches Ok(s) ==> s.version == SESSION_VERSION && s.kind == kind && s.refresh_token
                == refresh_token,
            r matches Err(m) ==> m@ == "Stored refresh token is invalid"@,
    {
        validate_refresh_token(refresh_token.as_str())?;
        Ok(StoredSession { version: SESSION_VERSION, kind, refresh_token })
    }

    /// A stored record of the current version with a valid token.
    pub open spec fn valid(&self) -> bool {
        self.version == SESSION_VERSION && valid_refresh_token(self.refresh_token@)
    }

    pub fn validate(&self) -> (r: Result<(), String>)
        ensures
            r is Ok == self.valid(),
            r matches Err(m) ==> (if self.version != SESSION_VERSION {
                m@ == "Stored session version is invalid"@
            } else {
                m@ == "Stored refresh token is invalid"@
            }),
    {
        if self.version != SESSION_VERSION {
            return Err("Stored session version is invalid".to_owned());
        }
        validate_refresh_token(self.refresh_token.as_str())
    }
}

/// The credential store. Its reads and writes are made by the application;
/// the library decides what may be written.
#[derive(Debug, Default)]
pub struct SecretStore;

impl SecretStore {
    pub fn new() -> (r: SecretStore) {
        SecretStore
    }
}

/// An API key that may be stored, once surrounding whitespace is removed:
/// not empty, bounded, and made of printable ASCII without inner whitespace.
pub open spec fn valid_openai_api_key(key: Seq<char>) -> bool {
    &&& key.len() > 0
    &&& byte_len(key) <= MAX_OPENAI_API_KEY_LENGTH
    &&& forall|i: int| 0 <= i < key.len() ==> (#[trigger] key[i] as u32) < 0x80
        && !is_whitespace_char(key[i]) && !(key[i] as u32 <= 0x1f || key[i] as u32 == 0x7f)
}

/// Trims an API key and checks its format; never depends on a prefix.
pub fn normalize_openai_api_key(value: &str) -> (r: Result<&str, String>)
    ensures
        r is Ok == valid_openai_api_key(trim_seq(value@)),
        r matches Ok(k) ==> k@ == trim_seq(value@),
        r matches Err(m) ==> m@ == "OpenAI API key has an invalid format"@,
{
    let key = str_trim(value);
    if key.is_empty() || str_byte_len(key) > MAX_OPENAI_API_KEY_LENGTH {
        return Err("OpenAI API key has an invalid format".to_owned());
    }
    for c in it: key.chars()
        invariant
            it.seq() == key@,
            key@ == trim_seq(value@),
            forall|j: int|
                0 <= j < it.index() ==> (#[trigger] key@[j] as u32) < 0x80
                    && !is_whitespace_char(key@[j]) && !(key@[j] as u32 <= 0x1f || key@[j] as u32
                    == 0x7f),
    {
        let v = c as u32;
        if v >= 0x80 || crate::text::is_whitespace(c) || v <= 0x1f || v == 0x7f {
            return Err("OpenAI API key has an invalid format".to_owned());
        }
    }
    Ok(key)
}


/// What `str::trim` leaves is trimmed.
pub proof fn lemma_trim_is_trimmed(s: Seq<char>)
    ensures
        is_trimmed_seq(trim_seq(s)),
{
    lemma_trim_start_first(s);
    let t = crate::text::trim_start_seq(s);
    lemma_trim_end_keeps_start(t);
}

proof fn lemma_trim_start_first(s: Seq<char>)
    ensures
        crate::text::trim_start_seq(s).len() == 0 || !is_whitespace_char(
            crate::text::trim_start_seq(s)[0],
        ),
    decreases s.len(),
{
    if s.len() > 0 && is_whitespace_char(s[0]) {
        lemma_trim_start_first(s.subrange(1, s.len() as int));
    }
}

proof fn lemma_trim_end_keeps_start(t: Seq<char>)
    requires
        t.len() == 0 || !is_whitespace_char(t[0]),
    ensures
        is_trimmed_seq(crate::text::trim_end_seq(t)),
        crate::text::trim_end_seq(t).len() == 0 || crate::text::trim_end_seq(t)[0] == t[0],
    decreases t.len(),
{
    if t.len() > 0 && is_whitespace_char(t.last()) {
        if t.len() > 1 {
            assert(t.drop_last()[0] == t[0]);
        }
        lemma_trim_end_keeps_start(t.drop_last());
    }
}

/// Normalizing an API key twice gives what normalizing it once gives: a
/// stored key is accepted as it is.
pub proof fn law_api_key_normalization_is_idempotent(value: Seq<char>)
    requires
        valid_openai_api_key(trim_seq(value)),
    ensures
        trim_seq(trim_seq(value)) == trim_seq(value),
        valid_openai_api_key(trim_seq(trim_seq(value))),
{
    lemma_trim_is_trimmed(value);
    lemma_trim_fixed(trim_seq(value));
}

} // verus!
