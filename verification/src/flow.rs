//! Decisions taken between the steps of the commands: polling for an
//! authorization, completing a task, linking a directory, logging out and
//! updating.

use vstd::prelude::*;

use crate::active_task::marker_names;
use crate::error::DeepError;
use crate::text::{contains, contains_seq, str_eq};
use crate::types::PollResponse;

verus! {

/// What one long-poll for an authorization came back with.
#[derive(Debug, Clone)]
pub enum PollOutcome {
    /// The server answered.
    Answer(PollResponse),
    /// The request timed out before the server answered.
    TimedOut,
    /// The request failed otherwise.
    Failed(DeepError),
}

/// What to do after a long-poll.
#[derive(Debug, Clone)]
pub enum PollStep {
    /// Ask again.
    Wait,
    /// Authorization was granted with this access token.
    Authorized(String),
    /// Stop with this error.
    Stop(DeepError),
}

/// Decides what follows a long-poll: keep waiting while the authorization is
/// pending or the request timed out; stop with the token once approved; stop
/// with an error once denied, expired, or on any other failure.
pub fn poll_step(outcome: PollOutcome) -> (r: PollStep)
    ensures
        match outcome {
            PollOutcome::Answer(PollResponse::Pending) => r is Wait,
            PollOutcome::TimedOut => r is Wait,
            PollOutcome::Answer(PollResponse::Approved { access_token }) => r == PollStep::Authorized(access_token),
            PollOutcome::Answer(PollResponse::Denied) => r == PollStep::Stop(DeepError::SessionDenied),
            PollOutcome::Answer(PollResponse::Expired) => r == PollStep::Stop(DeepError::SessionExpired),
            PollOutcome::Failed(e) => r == PollStep::Stop(e),
        },
{
    match outcome {
        PollOutcome::Answer(PollResponse::Pending) => PollStep::Wait,
        PollOutcome::TimedOut => PollStep::Wait,
        PollOutcome::Answer(PollResponse::Approved { access_token }) => PollStep::Authorized(access_token),
        PollOutcome::Answer(PollResponse::Denied) => PollStep::Stop(DeepError::SessionDenied),
        PollOutcome::Answer(PollResponse::Expired) => PollStep::Stop(DeepError::SessionExpired),
        PollOutcome::Failed(e) => PollStep::Stop(e),
    }
}

/// Whether a completion failed because the task was already done (409).
pub fn is_already_done(e: &DeepError) -> (r: bool)
    ensures
        r == (e matches DeepError::Api { status, .. } && status == 409),
{
    match e {
        DeepError::Api { status, .. } => *status == 409,
        _ => false,
    }
}

/// The message reported when task `code` turned out to be done already: the
/// server's message, then a note that the stale active marker was cleared.
pub open spec fn spec_already_done_message(message: Seq<char>, code: Seq<char>) -> Seq<char> {
    message + " ("@ + code
        + " was already done — cleared local active marker; run `deep pull <code>` for your next task)"@
}

/// The error reported when task `code` turned out to be done already.
pub fn already_done_error(message: &str, code: &str) -> (r: DeepError)
    ensures
        r matches DeepError::Api { status, message: m } && status == 409 && m@ == spec_already_done_message(
            message@,
            code@,
        ),
{
    let mut m = String::from_str(message);
    m.append(" (");
    m.append(code);
    m.append(" was already done — cleared local active marker; run `deep pull <code>` for your next task)");
    DeepError::Api { status: 409, message: m }
}

/// `deep init` without a project needs the interactive picker, which headless
/// mode does not offer.
pub fn check_init_mode(headless: bool, has_slug: bool) -> (r: Result<(), DeepError>)
    ensures
        (headless && !has_slug) ==> r == Err::<(), DeepError>(DeepError::HeadlessUnavailable),
        !(headless && !has_slug) ==> r is Ok,
{
    if headless && !has_slug {
        Err(DeepError::HeadlessUnavailable)
    } else {
        Ok(())
    }
}

/// Whether logging out is limited to the project-local credentials (scope
/// `.`).
pub fn is_local_scope(scope: Option<&str>) -> (r: bool)
    ensures
        r == (scope matches Some(s) && s@ == "."@),
{
    match scope {
        Some(s) => str_eq(s, "."),
        None => false,
    }
}

/// Whether an executable path lies in a Homebrew installation.
pub open spec fn spec_is_homebrew_path(path: Seq<char>) -> bool {
    contains_seq(path, "/Cellar/"@) || contains_seq(path, "/opt/homebrew/"@) || contains_seq(path, "/linuxbrew/"@)
}

/// Whether the running binary was installed by Homebrew, which then owns its
/// updates.
pub fn is_homebrew_path(path: &str) -> (r: bool)
    ensures
        r == spec_is_homebrew_path(path@),
{
    contains(path, "/Cellar/") || contains(path, "/opt/homebrew/") || contains(path, "/linuxbrew/")
}

/// The local files that completing a task removes.
#[derive(Debug, Clone, Copy, PartialEq, Eq, Structural)]
pub struct Cleanup {
    /// Remove the active-task marker `.deep/active`.
    pub clear_marker: bool,
    /// Remove the task's saved state `.deep/<code>/.state.json`.
    pub remove_state: bool,
}

/// What to clean up after asking to complete task `code`: `error` is none
/// when the request succeeded, and `active` is what the marker names then.
/// On success the saved state goes, and the marker too when it names `code`.
/// When the task was already done (409) both go, whatever the marker names,
/// so that the next `deep done` does not fail the same way. On any other
/// failure nothing is removed.
pub fn completion_cleanup(error: Option<&DeepError>, active: &Option<String>, code: &str) -> (r: Cleanup)
    ensures
        match error {
            None => r.remove_state && r.clear_marker == (active matches Some(a) && a@ == code@),
            Some(e) => if e matches DeepError::Api { status, .. } && status == 409 {
                r.clear_marker && r.remove_state
            } else {
                !r.clear_marker && !r.remove_state
            },
        },
{
    match error {
        None => Cleanup { clear_marker: marker_names(active, code), remove_state: true },
        Some(e) => if is_already_done(e) {
            Cleanup { clear_marker: true, remove_state: true }
        } else {
            Cleanup { clear_marker: false, remove_state: false }
        },
    }
}

/// What to do at one directory while looking for a file in it or the
/// nearest directory above it.
#[derive(Debug, Clone, Copy, PartialEq, Eq, Structural)]
pub enum SearchStep {
    /// The file is here: use it, and look no further up.
    Found,
    /// Look in the parent directory.
    Up,
    /// The root was reached without finding the file.
    NotFound,
}

pub open spec fn spec_search_step(has_file: bool, has_parent: bool) -> SearchStep {
    if has_file {
        SearchStep::Found
    } else if has_parent {
        SearchStep::Up
    } else {
        SearchStep::NotFound
    }
}

/// One step of the search for a file in a directory or its ancestors.
pub fn search_step(has_file: bool, has_parent: bool) -> (r: SearchStep)
    ensures
        r == spec_search_step(has_file, has_parent),
{
    if has_file {
        SearchStep::Found
    } else if has_parent {
        SearchStep::Up
    } else {
        SearchStep::NotFound
    }
}

/// Where the search ends when started at level `i` of `levels`, which tells
/// for each directory, from the starting one up to the root, whether it holds
/// the file.
pub open spec fn search_from(levels: Seq<bool>, i: nat) -> Option<nat>
    decreases levels.len() - i,
{
    if i >= levels.len() {
        None
    } else {
        match spec_search_step(levels[i as int], i + 1 < levels.len()) {
            SearchStep::Found => Some(i),
            SearchStep::Up => search_from(levels, i + 1),
            SearchStep::NotFound => None,
        }
    }
}

/// The nearest directory holding the file wins: the search from the starting
/// directory ends at the first level that holds the file, every level below
/// it lacks the file, and nothing above it is consulted; it finds nothing
/// only when no level holds the file.
pub proof fn lemma_nearest_ancestor_wins(levels: Seq<bool>)
    ensures
        search_from(levels, 0) matches Some(k) ==> {
            &&& k < levels.len()
            &&& levels[k as int]
            &&& forall|j: int| 0 <= j < k ==> !levels[j]
        },
        search_from(levels, 0) is None ==> forall|j: int| 0 <= j < levels.len() ==> !levels[j],
{
    lemma_search_from(levels, 0);
}

proof fn lemma_search_from(levels: Seq<bool>, i: nat)
    ensures
        search_from(levels, i) matches Some(k) ==> {
            &&& i <= k < levels.len()
            &&& levels[k as int]
            &&& forall|j: int| i <= j < k ==> !levels[j]
        },
        search_from(levels, i) is None ==> forall|j: int| i <= j < levels.len() ==> !levels[j],
    decreases levels.len() - i,
{
    if i < levels.len() && !levels[i as int] && i + 1 < levels.len() {
        lemma_search_from(levels, i + 1);
    }
}

} // verus!
