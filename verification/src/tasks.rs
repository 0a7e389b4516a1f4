//! The task list: table rows, shortened titles, readable statuses, and the
//! reading of the task the user picks.

use vstd::prelude::*;

use crate::error::DeepError;
use crate::text::{char_upper, decimal, digit_char, lemma_trimmed_id, push_char, push_decimal, trim, trimmed, upper_mapping};
use crate::types::TaskSummary;

verus! {

/// The shortened form of `s` for a column `n` characters wide: `s` itself when
/// it fits, else its first `n - 1` characters and an ellipsis.
pub open spec fn spec_truncate(s: Seq<char>, n: nat) -> Seq<char> {
    if s.len() <= n {
        s
    } else {
        s.take(n - 1).push('…')
    }
}

/// A shortened text fits its column, and text that already fits is kept
/// whole.
pub proof fn lemma_truncate_fits(s: Seq<char>, n: nat)
    requires
        n > 0,
    ensures
        spec_truncate(s, n).len() <= n,
        s.len() <= n ==> spec_truncate(s, n) == s,
        s.len() > n ==> spec_truncate(s, n).take(n - 1) == s.take(n - 1),
{
    if s.len() > n {
        assert(spec_truncate(s, n).take(n - 1) =~= s.take(n - 1));
    }
}

/// Shortens `s` to at most `n` characters, marking a cut with an ellipsis.
pub fn truncate(s: &str, n: usize) -> (r: String)
    requires
        n > 0 || s@.len() == 0,
    ensures
        r@ == spec_truncate(s@, n as nat),
{
    let len = s.unicode_len();
    if len <= n {
        return String::from_str(s);
    }
    let mut out = String::from_str(s.substring_char(0, n - 1));
    push_char(&mut out, '…');
    out
}

/// The readable form of a status and whether the next character starts a
/// word: `_` and `-` become spaces and each word starts upper-case.
pub open spec fn humanize_state(s: Seq<char>) -> (Seq<char>, bool)
    decreases s.len(),
{
    if s.len() == 0 {
        (Seq::empty(), true)
    } else {
        let (out, next_upper) = humanize_state(s.drop_last());
        let c = s.last();
        if c == '_' || c == '-' {
            (out.push(' '), true)
        } else if next_upper {
            (out + upper_mapping(c), false)
        } else {
            (out.push(c), false)
        }
    }
}

/// The readable form of a status: "in_progress" becomes "In Progress".
pub open spec fn spec_humanize(s: Seq<char>) -> Seq<char> {
    humanize_state(s).0
}

/// Turns a status such as `in_progress` into `In Progress`.
pub fn humanize_status(s: &str) -> (r: String)
    ensures
        r@ == spec_humanize(s@),
{
    let n = s.unicode_len();
    let mut out = String::new();
    let mut next_upper = true;
    let mut i: usize = 0;
    proof {
        assert(s@.take(0) =~= Seq::<char>::empty());
    }
    while i < n
        invariant
            n == s@.len(),
            i <= n,
            (out@, next_upper) == humanize_state(s@.take(i as int)),
        decreases n - i,
    {
        let c = s.get_char(i);
        proof {
            assert(s@.take(i + 1).drop_last() =~= s@.take(i as int));
            assert(s@.take(i + 1).last() == c);
        }
        if c == '_' || c == '-' {
            push_char(&mut out, ' ');
            next_upper = true;
        } else if next_upper {
            let u = char_upper(c);
            out.append(u.as_str());
            next_upper = false;
        } else {
            push_char(&mut out, c);
        }
        i = i + 1;
    }
    proof {
        assert(s@.take(n as int) =~= s@);
    }
    out
}

/// The placeholder shown for a missing value.
pub const NONE_MARK: &'static str = "—";

/// The width to which titles are shortened in the task table.
pub const TITLE_WIDTH: usize = 60;

/// The table row of the task at position `i` (numbered from 1): number, code,
/// shortened title, energy, readable status and primary document code.
pub open spec fn spec_task_row(i: nat, t: TaskSummary) -> Seq<Seq<char>> {
    seq![
        decimal(i + 1),
        t.code@,
        spec_truncate(t.title@, TITLE_WIDTH as nat),
        match t.energy {
            Some(e) => e@,
            None => NONE_MARK@,
        },
        spec_humanize(t.status@),
        match t.primary_document {
            Some(d) => d.code@,
            None => NONE_MARK@,
        },
    ]
}

/// The rows of the task table, one per task in list order.
pub fn task_rows(tasks: &Vec<TaskSummary>) -> (r: Vec<Vec<String>>)
    ensures
        r@.len() == tasks@.len(),
        forall|i: int| 0 <= i < r@.len() ==> (#[trigger] r@[i])@.map_values(|c: String| c@)
            == spec_task_row(i as nat, tasks@[i]),
{
    let mut rows: Vec<Vec<String>> = Vec::new();
    let mut i: usize = 0;
    while i < tasks.len()
        invariant
            i <= tasks@.len(),
            rows@.len() == i,
            forall|j: int| 0 <= j < i ==> (#[trigger] rows@[j])@.map_values(|c: String| c@)
                == spec_task_row(j as nat, tasks@[j]),
        decreases tasks@.len() - i,
    {
        let t = &tasks[i];
        let mut row: Vec<String> = Vec::new();
        let mut num = String::new();
        push_decimal(&mut num, (i as u64) + 1);
        row.push(num);
        row.push(t.code.clone());
        row.push(truncate(t.title.as_str(), TITLE_WIDTH));
        match &t.energy {
            Some(e) => row.push(e.clone()),
            None => row.push(String::from_str(NONE_MARK)),
        }
        row.push(humanize_status(t.status.as_str()));
        match &t.primary_document {
            Some(d) => row.push(d.code.clone()),
            None => row.push(String::from_str(NONE_MARK)),
        }
        proof {
            assert(Seq::<char>::empty() + decimal((i as u64 + 1) as nat) =~= decimal(i as nat + 1));
            assert(row@.map_values(|c: String| c@) =~= spec_task_row(i as nat, tasks@[i as int]));
        }
        rows.push(row);
        i = i + 1;
    }
    rows
}

/// The value of a run of decimal digits.
pub open spec fn digits_value(d: Seq<char>) -> nat
    decreases d.len(),
{
    if d.len() == 0 {
        0
    } else {
        digits_value(d.drop_last()) * 10 + ((d.last() as u32) - ('0' as u32)) as nat
    }
}

/// The part of `s` after an optional leading `+`.
pub open spec fn unsigned_digits(s: Seq<char>) -> Seq<char> {
    if s.len() > 0 && s[0] == '+' {
        s.drop_first()
    } else {
        s
    }
}

/// What `str::parse::<usize>` reads: an optional `+`, then one or more ASCII
/// digits whose value fits in a `usize`.
pub open spec fn spec_parse_usize(s: Seq<char>) -> Option<nat> {
    let d = unsigned_digits(s);
    if d.len() > 0 && (forall|j: int| 0 <= j < d.len() ==> '0' <= #[trigger] d[j] && d[j] <= '9')
        && digits_value(d) <= usize::MAX {
        Some(digits_value(d))
    } else {
        None
    }
}

/// The value of a run of digits does not shrink as digits are added.
proof fn lemma_digits_value_grows(d: Seq<char>, k: int, j: int)
    requires
        0 <= k <= j <= d.len(),
        forall|x: int| 0 <= x < d.len() ==> '0' <= #[trigger] d[x] && d[x] <= '9',
    ensures
        digits_value(d.take(k)) <= digits_value(d.take(j)),
    decreases j - k,
{
    if k < j {
        lemma_digits_value_grows(d, k, j - 1);
        assert(d.take(j).drop_last() =~= d.take(j - 1));
        assert(d.take(j).last() == d[j - 1]);
    }
}

/// Reads `s` as `str::parse::<usize>` does: an optional `+`, then one or more
/// ASCII digits whose value fits in a `usize`.
fn parse_usize(s: &str) -> (r: Option<usize>)
    ensures
        r is None <==> spec_parse_usize(s@) is None,
        r matches Some(v) ==> spec_parse_usize(s@) == Some(v as nat),
{
    let n: usize = s.unicode_len();
    let start: usize = if n > 0 && s.get_char(0) == '+' { 1 } else { 0 };
    let ghost d = unsigned_digits(s@);
    proof {
        assert(d =~= s@.skip(start as int));
    }
    if start == n {
        proof {
            assert(d.len() == 0);
            assert(spec_parse_usize(s@) is None);
        }
        return None;
    }
    let mut i: usize = start;
    while i < n
        invariant
            start <= i <= n,
            n == s@.len(),
            d =~= s@.skip(start as int),
            d == unsigned_digits(s@),
            forall|x: int| 0 <= x < i - start ==> '0' <= #[trigger] d[x] && d[x] <= '9',
        decreases n - i,
    {
        let c = s.get_char(i);
        if !('0' <= c && c <= '9') {
            proof {
                assert(d[i - start] == c);
                assert(!(forall|x: int| 0 <= x < d.len() ==> '0' <= #[trigger] d[x] && d[x] <= '9'));
                assert(spec_parse_usize(s@) is None);
            }
            return None;
        }
        i = i + 1;
    }
    let mut acc: usize = 0;
    let mut k: usize = start;
    proof {
        assert(d.take(0) =~= Seq::<char>::empty());
    }
    while k < n
        invariant
            start <= k <= n,
            n == s@.len(),
            d =~= s@.skip(start as int),
            d == unsigned_digits(s@),
            d.len() > 0,
            forall|x: int| 0 <= x < d.len() ==> '0' <= #[trigger] d[x] && d[x] <= '9',
            acc as nat == digits_value(d.take(k - start)),
        decreases n - k,
    {
        let c = s.get_char(k);
        proof {
            assert(d[k - start] == c);
        }
        let dv: usize = ((c as u32) - ('0' as u32)) as usize;
        proof {
            assert(d.take(k - start + 1).drop_last() =~= d.take(k - start));
            assert(d.take(k - start + 1).last() == c);
            assert(digits_value(d.take(k - start + 1)) == digits_value(d.take(k - start)) * 10 + dv);
            lemma_digits_value_grows(d, k - start + 1, d.len() as int);
            assert(d.take(d.len() as int) =~= d);
        }
        let m = match acc.checked_mul(10) {
            Some(m) => m,
            None => {
                proof {
                    assert(digits_value(d) > usize::MAX);
                    assert(spec_parse_usize(s@) is None);
                }
                return None;
            },
        };
        acc = match m.checked_add(dv) {
            Some(x) => x,
            None => {
                proof {
                    assert(digits_value(d) > usize::MAX);
                    assert(spec_parse_usize(s@) is None);
                }
                return None;
            },
        };
        k = k + 1;
    }
    proof {
        assert(d.take(d.len() as int) =~= d);
    }
    Some(acc)
}

/// The question asking which of `count` tasks to start.
pub fn task_choice_prompt(count: usize) -> (r: String)
    ensures
        r@ == "Which task do you want to start? (1-"@ + decimal(count as nat) + ", Enter to skip)"@,
{
    let mut r = String::from_str("Which task do you want to start? (1-");
    push_decimal(&mut r, count as u64);
    r.append(", Enter to skip)");
    r
}

/// Reads the answer to the task question among `count` tasks: nothing when it
/// is blank; the position (from 0) of the chosen task when it is a number from
/// 1 to `count`; an input error otherwise.
pub fn parse_task_choice(answer: &str, count: usize) -> (r: Result<Option<usize>, DeepError>)
    ensures
        ({
            let t = trimmed(answer@);
            &&& t.len() == 0 ==> r == Ok::<Option<usize>, DeepError>(None)
            &&& t.len() > 0 && spec_parse_usize(t) is None ==> (r matches Err(DeepError::Io(m))
                && m@ == "not a number: "@ + t)
            &&& t.len() > 0 ==> (spec_parse_usize(t) matches Some(v) ==> {
                &&& (v == 0 || v > count) ==> (r matches Err(DeepError::Io(m)) && m@
                    == "number out of range: "@ + decimal(v) + " (expected 1-"@ + decimal(count as nat) + ")"@)
                &&& (1 <= v <= count) ==> r == Ok::<Option<usize>, DeepError>(Some((v - 1) as usize))
            })
        }),
{
    let t = trim(answer);
    if t.is_empty() {
        return Ok(None);
    }
    let n = match parse_usize(t) {
        Some(n) => n,
        None => {
            let mut m = String::from_str("not a number: ");
            m.append(t);
            return Err(DeepError::Io(m));
        },
    };
    if n == 0 || n > count {
        let mut m = String::from_str("number out of range: ");
        push_decimal(&mut m, n as u64);
        m.append(" (expected 1-");
        push_decimal(&mut m, count as u64);
        m.append(")");
        return Err(DeepError::Io(m));
    }
    Ok(Some(n - 1))
}

/// The digits of `n` in decimal, read back, give `n`.
proof fn lemma_decimal_digits(n: nat)
    ensures
        decimal(n).len() > 0,
        forall|x: int| 0 <= x < decimal(n).len() ==> '0' <= #[trigger] decimal(n)[x] && decimal(n)[x] <= '9',
        digits_value(decimal(n)) == n,
    decreases n,
{
    if n >= 10 {
        lemma_decimal_digits(n / 10);
        let d = decimal(n);
        assert(d.drop_last() =~= decimal(n / 10));
        assert(d.last() == digit_char((n % 10) as int));
        assert(((d.last() as u32) - ('0' as u32)) as nat == n % 10);
        assert(digits_value(d) == digits_value(decimal(n / 10)) * 10 + n % 10);
        assert(n == (n / 10) * 10 + n % 10);
        assert forall|x: int| 0 <= x < d.len() implies '0' <= #[trigger] d[x] && d[x] <= '9' by {
            if x < d.len() - 1 {
                assert(d[x] == decimal(n / 10)[x]);
            }
        }
    } else {
        let d = decimal(n);
        assert(d.drop_last() =~= Seq::<char>::empty());
        assert(digits_value(d.drop_last()) == 0);
        assert(((d.last() as u32) - ('0' as u32)) as nat == n);
    }
}

/// A number in decimal, as the task question shows it, is read back as that
/// number: white space around it is ignored, and every digit counts. So the
/// answer `n`, for `1 <= n <= count`, picks the task at position `n - 1`.
pub proof fn lemma_task_choice_of_decimal(n: nat)
    requires
        n <= usize::MAX,
    ensures
        trimmed(decimal(n)) == decimal(n),
        spec_parse_usize(decimal(n)) == Some(n),
{
    lemma_decimal_digits(n);
    let d = decimal(n);
    assert('0' <= d[0] && d[0] <= '9');
    assert('0' <= d[d.len() - 1] && d[d.len() - 1] <= '9');
    lemma_trimmed_id(d);
    assert(unsigned_digits(d) == d);
}

/// Each row of the task table holds, in order: the task's position counted
/// from 1, its own code, its title shortened to the column, its energy (or the
/// placeholder), its readable status and its primary document's code (or the
/// placeholder). The code cell is the task's code whatever its other fields
/// hold, so pulling a code read off the table fetches that task.
pub proof fn lemma_task_row_cells(i: nat, t: TaskSummary)
    ensures
        spec_task_row(i, t).len() == 6,
        spec_task_row(i, t)[0] == decimal(i + 1),
        spec_task_row(i, t)[1] == t.code@,
        spec_task_row(i, t)[2].len() <= TITLE_WIDTH,
        t.title@.len() <= TITLE_WIDTH ==> spec_task_row(i, t)[2] == t.title@,
        t.title@.len() > TITLE_WIDTH ==> spec_task_row(i, t)[2].take(TITLE_WIDTH - 1) == t.title@.take(
            TITLE_WIDTH - 1,
        ),
        spec_task_row(i, t)[3] == (match t.energy {
            Some(e) => e@,
            None => NONE_MARK@,
        }),
        spec_task_row(i, t)[4] == spec_humanize(t.status@),
        spec_task_row(i, t)[5] == (match t.primary_document {
            Some(d) => d.code@,
            None => NONE_MARK@,
        }),
{
    lemma_truncate_fits(t.title@, TITLE_WIDTH as nat);
}

} // verus!
