//! Keeping task contexts and the active-task marker out of version control.

use vstd::prelude::*;

use crate::text::{
    lemma_lines_concat, lemma_single_line, lemma_trimmed_id, lines, split_lines, str_eq, strip_cr,
    string_views, trim, trimmed,
};

verus! {

/// The ignore pattern whose presence shows that the block was added.
pub const MARKER: &'static str = ".deep/*/";

/// Header line of the added block.
pub const BLOCK_HEADER: &'static str = "# Deep CLI task contexts\n";

/// Pattern line for task context directories.
pub const MARKER_LINE: &'static str = ".deep/*/\n";

/// Pattern line for the active-task marker.
pub const ACTIVE_LINE: &'static str = ".deep/active\n";

/// Whether some line of `content`, trimmed, is the marker pattern.
pub open spec fn has_marker_line(content: Seq<char>) -> bool {
    exists|k: int| 0 <= k < lines(content).len() && trimmed(#[trigger] lines(content)[k]) == MARKER@
}

/// The new `.gitignore` text, if it must change: a new file holds the block
/// alone; an existing file without the marker line gets the block appended
/// after a blank line (and after a line feed, if it does not end with one);
/// a file with the marker line is left alone.
pub open spec fn updated_gitignore(existing: Option<Seq<char>>) -> Option<Seq<char>> {
    match existing {
        None => Some(BLOCK_HEADER@ + MARKER_LINE@ + ACTIVE_LINE@),
        Some(c) => if has_marker_line(c) {
            None
        } else {
            let base = if c.len() > 0 && c.last() == '\n' { c } else { c.push('\n') };
            Some(base + "\n"@ + BLOCK_HEADER@ + MARKER_LINE@ + ACTIVE_LINE@)
        },
    }
}

fn has_marker(content: &str) -> (r: bool)
    ensures
        r == has_marker_line(content@),
{
    let ls = split_lines(content);
    let mut k: usize = 0;
    while k < ls.len()
        invariant
            string_views(ls@) == lines(content@),
            k <= ls@.len(),
            forall|j: int| 0 <= j < k ==> trimmed(#[trigger] lines(content@)[j]) != MARKER@,
        decreases ls@.len() - k,
    {
        let t = trim(ls[k].as_str());
        proof {
            assert(ls@[k as int]@ == lines(content@)[k as int]);
        }
        if str_eq(t, MARKER) {
            return true;
        }
        k = k + 1;
    }
    false
}

/// The new `.gitignore` text for the given current one (none when the file
/// does not exist); none when the file needs no change.
pub fn update_gitignore(existing: Option<&str>) -> (r: Option<String>)
    ensures
        match r {
            Some(s) => updated_gitignore(match existing { Some(e) => Some(e@), None => None }) == Some(s@),
            None => updated_gitignore(match existing { Some(e) => Some(e@), None => None }) is None,
        },
{
    match existing {
        None => {
            let mut s = String::from_str(BLOCK_HEADER);
            s.append(MARKER_LINE);
            s.append(ACTIVE_LINE);
            Some(s)
        },
        Some(c) => {
            if has_marker(c) {
                return None;
            }
            let mut s = String::from_str(c);
            let n = c.unicode_len();
            if !(n > 0 && c.get_char(n - 1) == '\n') {
                crate::text::push_char(&mut s, '\n');
            }
            s.append("\n");
            s.append(BLOCK_HEADER);
            s.append(MARKER_LINE);
            s.append(ACTIVE_LINE);
            Some(s)
        },
    }
}

proof fn lemma_block_lines()
    ensures
        lines(MARKER_LINE@ + ACTIVE_LINE@)[0] == MARKER@,
        lines(MARKER_LINE@ + ACTIVE_LINE@).len() > 0,
        trimmed(MARKER@) == MARKER@,
{
    reveal_strlit(".deep/*/");
    reveal_strlit(".deep/*/\n");
    assert(MARKER_LINE@ =~= MARKER@.push('\n'));
    lemma_single_line(MARKER@);
    lemma_lines_concat(MARKER_LINE@, ACTIVE_LINE@);
    assert(strip_cr(MARKER@) == MARKER@);
    lemma_trimmed_id(MARKER@);
}

/// Updating `.gitignore` is idempotent: once updated, the file has the
/// marker line, so a second update changes nothing.
pub proof fn lemma_update_gitignore_idempotent(existing: Option<Seq<char>>)
    ensures
        updated_gitignore(existing) matches Some(c) ==> updated_gitignore(Some(c)) is None,
{
    lemma_block_lines();
    let tail = MARKER_LINE@ + ACTIVE_LINE@;
    reveal_strlit("# Deep CLI task contexts\n");
    reveal_strlit("\n");
    match existing {
        None => {
            let c = BLOCK_HEADER@ + MARKER_LINE@ + ACTIVE_LINE@;
            assert(c =~= BLOCK_HEADER@ + tail);
            lemma_lines_concat(BLOCK_HEADER@, tail);
            let k = lines(BLOCK_HEADER@).len() as int;
            assert(lines(c)[k] == MARKER@);
            assert(has_marker_line(c));
        },
        Some(e) => {
            if !has_marker_line(e) {
                let base = if e.len() > 0 && e.last() == '\n' { e } else { e.push('\n') };
                let head = base + "\n"@ + BLOCK_HEADER@;
                let c = base + "\n"@ + BLOCK_HEADER@ + MARKER_LINE@ + ACTIVE_LINE@;
                assert(c =~= head + tail);
                assert(head.last() == '\n');
                lemma_lines_concat(head, tail);
                let k = lines(head).len() as int;
                assert(lines(c)[k] == MARKER@);
                assert(has_marker_line(c));
            }
        },
    }
}

/// A `.gitignore` in which any line, the first one included, reads `.deep/*/`
/// once trimmed is left alone.
pub proof fn lemma_marker_line_anywhere(content: Seq<char>, k: int)
    requires
        0 <= k < lines(content).len(),
        trimmed(lines(content)[k]) == MARKER@,
    ensures
        updated_gitignore(Some(content)) is None,
{
    assert(has_marker_line(content));
}

/// A `.gitignore` that starts with the marker line is left alone, whatever
/// follows it.
pub proof fn lemma_marker_first_line(rest: Seq<char>)
    ensures
        updated_gitignore(Some(MARKER_LINE@ + rest)) is None,
{
    reveal_strlit(".deep/*/");
    reveal_strlit(".deep/*/\n");
    assert(MARKER_LINE@ =~= MARKER@.push('\n'));
    lemma_single_line(MARKER@);
    lemma_lines_concat(MARKER_LINE@, rest);
    assert(strip_cr(MARKER@) == MARKER@);
    lemma_trimmed_id(MARKER@);
    let c = MARKER_LINE@ + rest;
    assert(lines(c)[0] == MARKER@);
    lemma_marker_line_anywhere(c, 0);
}

} // verus!
