//! Credential markers: where a token was stored, and what a project-local
//! credentials file holds.

use vstd::prelude::*;

use crate::text::{has_prefix, lemma_trimmed_id, starts_with, str_eq, trim, trimmed, white_space};

verus! {

/// Keychain service under which tokens are stored.
pub const SERVICE: &'static str = "deepcanvas-cli";

/// Keychain account of the device-wide token.
pub const ACCOUNT: &'static str = "default";

/// File name of stored credentials.
pub const LOCAL_FILE: &'static str = "credentials";

/// What a project-local credentials file starts with when the token itself
/// lives in the keychain.
pub const LOCAL_KEYRING_PREFIX: &'static str = "keyring:";

/// Where a token was stored.
#[derive(Debug, Clone, Copy, PartialEq, Eq, Structural)]
pub enum TokenLocation {
    Keyring,
    File,
    Local,
}

/// What a project-local credentials file holds: a pointer to a keychain
/// entry (by its identifier), or the token itself.
#[derive(Debug, Clone)]
pub enum LocalCredential {
    KeyringPointer(String),
    Token(String),
}

/// The reading of a credentials file: the trimmed text, as a keychain pointer
/// when it starts with `keyring:`.
pub open spec fn spec_local_credential(raw: Seq<char>) -> (bool, Seq<char>) {
    let t = trimmed(raw);
    if has_prefix(t, LOCAL_KEYRING_PREFIX@) {
        (true, t.skip(LOCAL_KEYRING_PREFIX@.len() as int))
    } else {
        (false, t)
    }
}

/// The pointer and payload of a reading.
pub open spec fn local_credential_view(c: LocalCredential) -> (bool, Seq<char>) {
    match c {
        LocalCredential::KeyringPointer(id) => (true, id@),
        LocalCredential::Token(t) => (false, t@),
    }
}

/// The text written to a credentials file that points at keychain entry `id`.
pub open spec fn spec_keyring_pointer(id: Seq<char>) -> Seq<char> {
    LOCAL_KEYRING_PREFIX@ + id
}

/// Reads the contents of a project-local credentials file.
pub fn parse_local_credential(raw: &str) -> (r: LocalCredential)
    ensures
        local_credential_view(r) == spec_local_credential(raw@),
{
    let t = trim(raw);
    if starts_with(t, LOCAL_KEYRING_PREFIX) {
        let n = t.unicode_len();
        let p = LOCAL_KEYRING_PREFIX.unicode_len();
        let id = t.substring_char(p, n);
        proof {
            assert(id@ =~= t@.skip(LOCAL_KEYRING_PREFIX@.len() as int));
        }
        LocalCredential::KeyringPointer(String::from_str(id))
    } else {
        LocalCredential::Token(String::from_str(t))
    }
}

/// The credentials-file text that points at keychain entry `id`.
pub fn keyring_pointer(id: &str) -> (r: String)
    ensures
        r@ == spec_keyring_pointer(id@),
{
    let mut r = String::from_str(LOCAL_KEYRING_PREFIX);
    r.append(id);
    r
}

/// The keychain account of the project-local entry `id`.
pub fn local_account(id: &str) -> (r: String)
    ensures
        r@ == "local:"@ + id@,
{
    let mut r = String::from_str("local:");
    r.append(id);
    r
}

/// The places a token is looked for, in the order they are consulted.
#[derive(Debug, Clone, Copy, PartialEq, Eq, Structural)]
pub enum TokenSource {
    /// `.deep/credentials` in the working directory or one above it.
    ProjectLocal,
    /// The device-wide keychain entry.
    Keychain,
    /// The device-wide credentials file.
    DeviceFile,
}

/// What to do after consulting one place.
#[derive(Debug, Clone)]
pub enum LookupStep {
    /// The token is found.
    Found(String),
    /// Look in the next place.
    Next(TokenSource),
    /// No token is stored anywhere.
    NotFound,
}

/// The place consulted after `source` when it holds no token.
pub open spec fn next_source(source: TokenSource) -> Option<TokenSource> {
    match source {
        TokenSource::ProjectLocal => Some(TokenSource::Keychain),
        TokenSource::Keychain => Some(TokenSource::DeviceFile),
        TokenSource::DeviceFile => None,
    }
}

/// One step of looking up the token: given what `source` held (none when it
/// holds no token, or could not be read), the token, or the next place to
/// look. A project-local token takes precedence over the device-wide ones,
/// and the keychain over the file; the file's text is trimmed.
pub fn lookup_step(source: TokenSource, held: Option<String>) -> (r: LookupStep)
    ensures
        match held {
            Some(t) => r matches LookupStep::Found(f) && f@ == (if source == TokenSource::DeviceFile {
                trimmed(t@)
            } else {
                t@
            }),
            None => match next_source(source) {
                Some(n) => r matches LookupStep::Next(m) && m == n,
                None => r is NotFound,
            },
        },
{
    match held {
        Some(t) => match source {
            TokenSource::DeviceFile => LookupStep::Found(String::from_str(trim(t.as_str()))),
            _ => LookupStep::Found(t),
        },
        None => match source {
            TokenSource::ProjectLocal => LookupStep::Next(TokenSource::Keychain),
            TokenSource::Keychain => LookupStep::Next(TokenSource::DeviceFile),
            TokenSource::DeviceFile => LookupStep::NotFound,
        },
    }
}

/// Whether a token written to the keychain may be relied on: the write
/// succeeded and reading the entry back gives the same token. (An unsigned
/// binary on macOS can write an entry that a later process cannot read.)
/// Where it may not, the token goes to a file instead.
pub fn keyring_kept(written: bool, read_back: Option<&str>, token: &str) -> (r: bool)
    ensures
        r == (written && (read_back matches Some(t) && t@ == token@)),
{
    if !written {
        return false;
    }
    match read_back {
        Some(t) => str_eq(t, token),
        None => false,
    }
}

/// A keychain pointer written to a credentials file is read back as a
/// pointer to the same entry, when the entry's identifier does not end in
/// white space.
pub proof fn lemma_keyring_pointer_round_trip(id: Seq<char>)
    requires
        id.len() > 0 ==> !white_space(id.last()),
    ensures
        spec_local_credential(spec_keyring_pointer(id)) == (true, id),
{
    reveal_strlit("keyring:");
    let t = spec_keyring_pointer(id);
    lemma_trimmed_id(t);
    assert(t.take(8) =~= LOCAL_KEYRING_PREFIX@);
    assert(t.skip(8) =~= id);
}

/// A token written to a credentials file is read back as that token, when it
/// neither starts nor ends with white space and does not start with `keyring:`.
pub proof fn lemma_token_round_trip(token: Seq<char>)
    requires
        token.len() > 0 ==> !white_space(token[0]) && !white_space(token.last()),
        !has_prefix(token, LOCAL_KEYRING_PREFIX@),
    ensures
        spec_local_credential(token) == (false, token),
{
    lemma_trimmed_id(token);
}

/// What a project-local credentials file holds after a token is stored for
/// the project: a pointer to keychain entry `id` when the keychain kept the
/// token, else the token itself.
pub fn local_credential_text(kept: bool, id: &str, token: &str) -> (r: String)
    ensures
        r@ == (if kept { spec_keyring_pointer(id@) } else { token@ }),
{
    if kept {
        keyring_pointer(id)
    } else {
        String::from_str(token)
    }
}

/// Storing a token for the project and reading the credentials file back
/// gives the keychain entry the token was stored under, or the token itself:
/// for a token that is non-empty, neither starts nor ends with white space and
/// does not start with `keyring:`, and an entry identifier that does not end
/// with white space.
pub proof fn lemma_local_credential_round_trip(kept: bool, id: Seq<char>, token: Seq<char>)
    requires
        token.len() > 0,
        !white_space(token[0]) && !white_space(token.last()),
        !has_prefix(token, LOCAL_KEYRING_PREFIX@),
        id.len() > 0 ==> !white_space(id.last()),
    ensures
        spec_local_credential(if kept { spec_keyring_pointer(id) } else { token }) == (if kept {
            (true, id)
        } else {
            (false, token)
        }),
{
    if kept {
        lemma_keyring_pointer_round_trip(id);
    } else {
        lemma_token_round_trip(token);
    }
}

} // verus!
