//! Task codes such as `DC-142`: validation and normalisation.

use vstd::prelude::*;

use crate::error::DeepError;
use crate::text::{find_char, index_of_char, lemma_find_char_at, to_uppercase, uppercased, string_views};

verus! {

/// An ASCII capital letter.
pub open spec fn is_upper(c: char) -> bool {
    'A' <= c && c <= 'Z'
}

/// An ASCII decimal digit.
pub open spec fn is_digit(c: char) -> bool {
    '0' <= c && c <= '9'
}

/// A task code: a non-empty run of ASCII capitals, a `-`, and a non-empty run
/// of ASCII digits.
pub open spec fn valid_task_code(s: Seq<char>) -> bool {
    let p = find_char(s, '-');
    &&& 0 < p < s.len() - 1
    &&& forall|j: int| 0 <= j < p ==> is_upper(#[trigger] s[j])
    &&& forall|j: int| p < j < s.len() ==> is_digit(#[trigger] s[j])
}

/// Whether `code` is a task code such as `DC-142` or `ENG-7`.
pub fn is_valid_task_code(code: &str) -> (r: bool)
    ensures
        r == valid_task_code(code@),
{
    let n = code.unicode_len();
    let p = index_of_char(code, '-');
    if p == 0 || p >= n || p == n - 1 {
        return false;
    }
    let mut i: usize = 0;
    while i < p
        invariant
            n == code@.len(),
            p == find_char(code@, '-'),
            0 < p < n - 1,
            i <= p,
            forall|j: int| 0 <= j < i ==> is_upper(#[trigger] code@[j]),
        decreases p - i,
    {
        let c = code.get_char(i);
        if !('A' <= c && c <= 'Z') {
            proof {
                assert(!is_upper(code@[i as int]));
            }
            return false;
        }
        i = i + 1;
    }
    let mut k: usize = p + 1;
    while k < n
        invariant
            n == code@.len(),
            p == find_char(code@, '-'),
            0 < p < n - 1,
            forall|j: int| 0 <= j < p ==> is_upper(#[trigger] code@[j]),
            p < k <= n,
            forall|j: int| p < j < k ==> is_digit(#[trigger] code@[j]),
        decreases n - k,
    {
        let c = code.get_char(k);
        if !('0' <= c && c <= '9') {
            proof {
                assert(!is_digit(code@[k as int]));
            }
            return false;
        }
        k = k + 1;
    }
    true
}

/// Every code upper-cased, when each upper-cased code is valid; otherwise the
/// first upper-cased code that is not.
pub fn normalize_task_codes(codes: &Vec<String>) -> (r: Result<Vec<String>, DeepError>)
    ensures
        r is Ok <==> forall|i: int| 0 <= i < codes@.len() ==> valid_task_code(uppercased(#[trigger] codes@[i]@)),
        r matches Ok(v) ==> string_views(v@) == string_views(codes@).map_values(|c: Seq<char>| uppercased(c)),
        r matches Err(e) ==> exists|i: int| {
            &&& 0 <= i < codes@.len()
            &&& !valid_task_code(uppercased(#[trigger] codes@[i]@))
            &&& forall|j: int| 0 <= j < i ==> valid_task_code(uppercased(#[trigger] codes@[j]@))
            &&& e matches DeepError::InvalidTaskCode(c) && c@ == uppercased(codes@[i]@)
        },
{
    let mut out: Vec<String> = Vec::new();
    let mut i: usize = 0;
    while i < codes.len()
        invariant
            i <= codes@.len(),
            out@.len() == i,
            forall|j: int| 0 <= j < i ==> valid_task_code(uppercased(#[trigger] codes@[j]@)),
            forall|j: int| 0 <= j < i ==> #[trigger] out@[j]@ == uppercased(codes@[j]@),
        decreases codes@.len() - i,
    {
        let u = to_uppercase(codes[i].as_str());
        if !is_valid_task_code(u.as_str()) {
            return Err(DeepError::InvalidTaskCode(u));
        }
        out.push(u);
        i = i + 1;
    }
    proof {
        assert(string_views(out@) =~= string_views(codes@).map_values(|c: Seq<char>| uppercased(c)));
    }
    Ok(out)
}

/// The code that `deep done` completes: the given one, or else the active one,
/// upper-cased; an error when there is neither or it is not a task code.
pub fn resolve_done_code(task_code: Option<String>, active: Option<String>) -> (r: Result<String, DeepError>)
    ensures
        (task_code is None && active is None) ==> r == Err::<String, DeepError>(DeepError::NoActiveTask),
        !(task_code is None && active is None) ==> {
            let raw = match task_code {
                Some(c) => c@,
                None => active->0@,
            };
            let u = uppercased(raw);
            &&& valid_task_code(u) ==> (r matches Ok(c) && c@ == u)
            &&& !valid_task_code(u) ==> (r matches Err(DeepError::InvalidTaskCode(c)) && c@ == u)
        },
{
    let raw = match task_code {
        Some(c) => c,
        None => match active {
            Some(a) => a,
            None => return Err(DeepError::NoActiveTask),
        },
    };
    let code = to_uppercase(raw.as_str());
    if !is_valid_task_code(code.as_str()) {
        return Err(DeepError::InvalidTaskCode(code));
    }
    Ok(code)
}

/// Every code made of a non-empty run of ASCII capitals, a `-`, and a
/// non-empty run of ASCII digits is a task code, whatever the lengths of its
/// two parts (`DC-142`, `ENG-7`, `AUTH-23`).
pub proof fn lemma_task_code_shape(prefix: Seq<char>, number: Seq<char>)
    requires
        prefix.len() > 0,
        number.len() > 0,
        forall|j: int| 0 <= j < prefix.len() ==> is_upper(#[trigger] prefix[j]),
        forall|j: int| 0 <= j < number.len() ==> is_digit(#[trigger] number[j]),
    ensures
        valid_task_code(prefix + "-"@ + number),
{
    reveal_strlit("-");
    let s = prefix + "-"@ + number;
    let p = prefix.len() as int;
    assert(s[p] == '-');
    assert forall|j: int| 0 <= j < p implies s[j] != '-' && is_upper(#[trigger] s[j]) by {
        assert(s[j] == prefix[j]);
    }
    lemma_find_char_at(s, '-', p);
    assert forall|j: int| p < j < s.len() implies is_digit(#[trigger] s[j]) by {
        assert(s[j] == number[j - p - 1]);
    }
}

} // verus!
