//! The active-task marker `.deep/active`, which names the task last pulled.

use vstd::prelude::*;

use crate::text::{lemma_trimmed_id, str_eq, trim, trimmed, white_space};

verus! {

/// File name of the marker, under `.deep/`.
pub const FILE_NAME: &'static str = "active";

/// The task code a marker file names: its trimmed contents, none when empty.
pub open spec fn spec_active_marker(raw: Seq<char>) -> Option<Seq<char>> {
    let t = trimmed(raw);
    if t.len() == 0 {
        None
    } else {
        Some(t)
    }
}

/// Reads the contents of a marker file.
pub fn parse_active_marker(raw: &str) -> (r: Option<String>)
    ensures
        r matches Some(c) ==> spec_active_marker(raw@) == Some(c@),
        r is None ==> spec_active_marker(raw@) is None,
{
    let t = trim(raw);
    if t.is_empty() {
        None
    } else {
        Some(String::from_str(t))
    }
}

/// Whether the marker names task `code`.
pub fn marker_names(active: &Option<String>, code: &str) -> (r: bool)
    ensures
        r == (active matches Some(a) && a@ == code@),
{
    match active {
        Some(a) => str_eq(a.as_str(), code),
        None => false,
    }
}

/// A task code written to the marker is read back unchanged, for any
/// non-empty code that neither starts nor ends with white space (every valid
/// task code among them).
pub proof fn lemma_marker_round_trip(code: Seq<char>)
    requires
        code.len() > 0,
        !white_space(code[0]),
        !white_space(code.last()),
    ensures
        spec_active_marker(code) == Some(code),
{
    lemma_trimmed_id(code);
}

} // verus!
