//! Errors of the DeepCanvas client, their one-line messages, the kind names
//! used in machine-readable output, and the hints shown under them.

use vstd::prelude::*;

use crate::text::{decimal, push_decimal};

verus! {

/// What can go wrong. Errors raised by outside services (network, keychain,
/// file system, decoders) keep the text they were reported with.
#[derive(Debug, Clone)]
pub enum DeepError {
    Network(String),
    Keyring(String),
    Io(String),
    Serde(String),
    TomlParse(String),
    NotAuthenticated,
    Unauthorized,
    SessionExpired,
    SessionDenied,
    Api { status: u16, message: String },
    InvalidTaskCode(String),
    InvalidProjectFormat,
    NoProjectBinding,
    AlreadyInitialized(String),
    Update(String),
    NoActiveTask,
    HeadlessUnavailable,
}

/// How the highlighted part of a hint line is shown.
#[derive(Debug, Clone, Copy, PartialEq, Eq, Structural)]
pub enum HintStyle {
    Plain,
    Dimmed,
    Cyan,
}

/// One hint line: plain text, a highlighted part, and plain text after it.
#[derive(Debug, Clone)]
pub struct HintLine {
    pub before: String,
    pub highlighted: String,
    pub style: HintStyle,
    pub after: String,
}

/// The parts of a hint line.
pub open spec fn hint_view(h: HintLine) -> (Seq<char>, Seq<char>, HintStyle, Seq<char>) {
    (h.before@, h.highlighted@, h.style, h.after@)
}

/// The kind name of an error in machine-readable output: its variant's name.
pub open spec fn spec_kind(e: DeepError) -> Seq<char> {
    match e {
        DeepError::Network(_) => "Network"@,
        DeepError::Keyring(_) => "Keyring"@,
        DeepError::Io(_) => "Io"@,
        DeepError::Serde(_) => "Serde"@,
        DeepError::TomlParse(_) => "TomlParse"@,
        DeepError::NotAuthenticated => "NotAuthenticated"@,
        DeepError::Unauthorized => "Unauthorized"@,
        DeepError::SessionExpired => "SessionExpired"@,
        DeepError::SessionDenied => "SessionDenied"@,
        DeepError::Api { .. } => "Api"@,
        DeepError::InvalidTaskCode(_) => "InvalidTaskCode"@,
        DeepError::InvalidProjectFormat => "InvalidProjectFormat"@,
        DeepError::NoProjectBinding => "NoProjectBinding"@,
        DeepError::AlreadyInitialized(_) => "AlreadyInitialized"@,
        DeepError::Update(_) => "Update"@,
        DeepError::NoActiveTask => "NoActiveTask"@,
        DeepError::HeadlessUnavailable => "HeadlessUnavailable"@,
    }
}

/// The one-line message of an error.
pub open spec fn spec_message(e: DeepError) -> Seq<char> {
    match e {
        DeepError::Network(m) => "network error: "@ + m@,
        DeepError::Keyring(m) => "keyring error: "@ + m@,
        DeepError::Io(m) => "io error: "@ + m@,
        DeepError::Serde(m) => "serialization error: "@ + m@,
        DeepError::TomlParse(m) => "toml parse error: "@ + m@,
        DeepError::NotAuthenticated => "not authenticated. Run `deep login` first."@,
        DeepError::Unauthorized => "authorization expired or revoked. Run `deep login` again."@,
        DeepError::SessionExpired => "session expired before approval"@,
        DeepError::SessionDenied => "session denied by user"@,
        DeepError::Api { status, message } => "api error "@ + decimal(status as nat) + ": "@ + message@,
        DeepError::InvalidTaskCode(c) => "invalid task code: "@ + c@,
        DeepError::InvalidProjectFormat => "invalid project format: expected <org-slug>/<project-slug>"@,
        DeepError::NoProjectBinding =>
            "project binding not found. Run `deep init <org>/<project>` first or use --project flag."@,
        DeepError::AlreadyInitialized(p) => ".deep/config.toml already exists at "@ + p@
            + ". Remove it first to re-init."@,
        DeepError::Update(m) => "update error: "@ + m@,
        DeepError::NoActiveTask => "no active task. Pull a task first or pass a code: deep done <code>"@,
        DeepError::HeadlessUnavailable =>
            "this command requires an interactive terminal; --headless not supported"@,
    }
}

/// A hint line without highlighted part.
pub open spec fn plain_hint(t: Seq<char>) -> (Seq<char>, Seq<char>, HintStyle, Seq<char>) {
    (t, ""@, HintStyle::Plain, ""@)
}

/// The hint lines shown under an error, telling what to do about it.
pub open spec fn spec_hints(e: DeepError) -> Seq<(Seq<char>, Seq<char>, HintStyle, Seq<char>)> {
    let run_login = ("  "@, "Run"@, HintStyle::Dimmed, ": deep login"@);
    match e {
        DeepError::NotAuthenticated => seq![run_login],
        DeepError::Unauthorized => seq![plain_hint("  Your token may be revoked."@), run_login],
        DeepError::NoProjectBinding => seq![
            ("  Use: "@, "deep init <org>/<project>"@, HintStyle::Cyan, ""@),
            ("  Or:  "@, "deep tasks --project <org>/<project>"@, HintStyle::Cyan, ""@),
        ],
        DeepError::AlreadyInitialized(p) => seq![
            ("  Remove the file first: "@, p@, HintStyle::Cyan, ""@),
        ],
        DeepError::SessionExpired => seq![plain_hint("  Authorization code expired."@), run_login],
        DeepError::SessionDenied => seq![plain_hint("  Authorization was denied in the browser."@)],
        DeepError::InvalidTaskCode(c) => seq![
            ("  Got: "@, c@, HintStyle::Cyan, ". Expected format: DC-142, ENG-7"@),
        ],
        DeepError::NoActiveTask => seq![
            ("  Pull a task first: "@, "deep pull <code>"@, HintStyle::Cyan, ""@),
            ("  Or pass a code:    "@, "deep done <code>"@, HintStyle::Cyan, ""@),
        ],
        _ => Seq::empty(),
    }
}

fn hint(before: &str, highlighted: &str, style: HintStyle, after: &str) -> (h: HintLine)
    ensures
        hint_view(h) == (before@, highlighted@, style, after@),
{
    HintLine {
        before: String::from_str(before),
        highlighted: String::from_str(highlighted),
        style,
        after: String::from_str(after),
    }
}

fn with_tail(prefix: &str, rest: &str) -> (r: String)
    ensures
        r@ == prefix@ + rest@,
{
    let mut r = String::from_str(prefix);
    r.append(rest);
    r
}

impl DeepError {
    /// The kind name used in machine-readable error output.
    pub fn kind(&self) -> (r: &'static str)
        ensures
            r@ == spec_kind(*self),
    {
        match self {
            DeepError::Network(_) => "Network",
            DeepError::Keyring(_) => "Keyring",
            DeepError::Io(_) => "Io",
            DeepError::Serde(_) => "Serde",
            DeepError::TomlParse(_) => "TomlParse",
            DeepError::NotAuthenticated => "NotAuthenticated",
            DeepError::Unauthorized => "Unauthorized",
            DeepError::SessionExpired => "SessionExpired",
            DeepError::SessionDenied => "SessionDenied",
            DeepError::Api { .. } => "Api",
            DeepError::InvalidTaskCode(_) => "InvalidTaskCode",
            DeepError::InvalidProjectFormat => "InvalidProjectFormat",
            DeepError::NoProjectBinding => "NoProjectBinding",
            DeepError::AlreadyInitialized(_) => "AlreadyInitialized",
            DeepError::Update(_) => "Update",
            DeepError::NoActiveTask => "NoActiveTask",
            DeepError::HeadlessUnavailable => "HeadlessUnavailable",
        }
    }

    /// The one-line message of the error.
    pub fn message(&self) -> (r: String)
        ensures
            r@ == spec_message(*self),
    {
        match self {
            DeepError::Network(m) => with_tail("network error: ", m.as_str()),
            DeepError::Keyring(m) => with_tail("keyring error: ", m.as_str()),
            DeepError::Io(m) => with_tail("io error: ", m.as_str()),
            DeepError::Serde(m) => with_tail("serialization error: ", m.as_str()),
            DeepError::TomlParse(m) => with_tail("toml parse error: ", m.as_str()),
            DeepError::NotAuthenticated => String::from_str("not authenticated. Run `deep login` first."),
            DeepError::Unauthorized => String::from_str(
                "authorization expired or revoked. Run `deep login` again.",
            ),
            DeepError::SessionExpired => String::from_str("session expired before approval"),
            DeepError::SessionDenied => String::from_str("session denied by user"),
            DeepError::Api { status, message } => {
                let mut r = String::from_str("api error ");
                push_decimal(&mut r, *status as u64);
                r.append(": ");
                r.append(message.as_str());
                r
            },
            DeepError::InvalidTaskCode(c) => with_tail("invalid task code: ", c.as_str()),
            DeepError::InvalidProjectFormat => String::from_str(
                "invalid project format: expected <org-slug>/<project-slug>",
            ),
            DeepError::NoProjectBinding => String::from_str(
                "project binding not found. Run `deep init <org>/<project>` first or use --project flag.",
            ),
            DeepError::AlreadyInitialized(p) => {
                let mut r = String::from_str(".deep/config.toml already exists at ");
                r.append(p.as_str());
                r.append(". Remove it first to re-init.");
                r
            },
            DeepError::Update(m) => with_tail("update error: ", m.as_str()),
            DeepError::NoActiveTask => String::from_str(
                "no active task. Pull a task first or pass a code: deep done <code>",
            ),
            DeepError::HeadlessUnavailable => String::from_str(
                "this command requires an interactive terminal; --headless not supported",
            ),
        }
    }

    /// The hint lines shown under the error.
    pub fn hints(&self) -> (r: Vec<HintLine>)
        ensures
            r@.map_values(|h: HintLine| hint_view(h)) == spec_hints(*self),
    {
        let mut r: Vec<HintLine> = Vec::new();
        match self {
            DeepError::NotAuthenticated => {
                r.push(hint("  ", "Run", HintStyle::Dimmed, ": deep login"));
            },
            DeepError::Unauthorized => {
                r.push(hint("  Your token may be revoked.", "", HintStyle::Plain, ""));
                r.push(hint("  ", "Run", HintStyle::Dimmed, ": deep login"));
            },
            DeepError::NoProjectBinding => {
                r.push(hint("  Use: ", "deep init <org>/<project>", HintStyle::Cyan, ""));
                r.push(hint("  Or:  ", "deep tasks --project <org>/<project>", HintStyle::Cyan, ""));
            },
            DeepError::AlreadyInitialized(p) => {
                r.push(hint("  Remove the file first: ", p.as_str(), HintStyle::Cyan, ""));
            },
            DeepError::SessionExpired => {
                r.push(hint("  Authorization code expired.", "", HintStyle::Plain, ""));
                r.push(hint("  ", "Run", HintStyle::Dimmed, ": deep login"));
            },
            DeepError::SessionDenied => {
                r.push(hint("  Authorization was denied in the browser.", "", HintStyle::Plain, ""));
            },
            DeepError::InvalidTaskCode(c) => {
                r.push(hint("  Got: ", c.as_str(), HintStyle::Cyan, ". Expected format: DC-142, ENG-7"));
            },
            DeepError::NoActiveTask => {
                r.push(hint("  Pull a task first: ", "deep pull <code>", HintStyle::Cyan, ""));
                r.push(hint("  Or pass a code:    ", "deep done <code>", HintStyle::Cyan, ""));
            },
            _ => {},
        }
        proof {
            assert(r@.map_values(|h: HintLine| hint_view(h)) =~= spec_hints(*self));
        }
        r
    }
}

} // verus!
