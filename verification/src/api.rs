//! Request paths of the DeepCanvas API and the reading of its error answers.

use vstd::prelude::*;
use vstd::utf8::encode_utf8;

use crate::error::DeepError;
use crate::project::ProjectBinding;

verus! {

/// Bytes that percent-encoding leaves as they are: ASCII letters and digits,
/// `-`, `.`, `_` and `~`.
pub open spec fn unreserved(b: u8) -> bool {
    (0x30 <= b && b <= 0x39) || (0x41 <= b && b <= 0x5a) || (0x61 <= b && b <= 0x7a) || b == 0x2d
        || b == 0x2e || b == 0x5f || b == 0x7e
}

/// Upper-case hexadecimal digit of `d < 16`.
pub open spec fn hex_upper(d: u8) -> char {
    if d < 10 {
        (0x30 + d) as char
    } else {
        (0x41 + d - 10) as char
    }
}

/// Percent-encoding of a byte string: unreserved bytes as themselves, any
/// other byte as `%` and two upper-case hexadecimal digits.
pub open spec fn percent_encode(bytes: Seq<u8>) -> Seq<char>
    decreases bytes.len(),
{
    if bytes.len() == 0 {
        Seq::empty()
    } else {
        let b = bytes[0];
        let head = if unreserved(b) {
            seq![b as char]
        } else {
            seq!['%', hex_upper(b / 16), hex_upper(b % 16)]
        };
        head + percent_encode(bytes.drop_first())
    }
}

/// The percent-encoding of the UTF-8 bytes of `s`.
pub open spec fn url_encoded(s: Seq<char>) -> Seq<char> {
    percent_encode(encode_utf8(s))
}

/// Calls `urlencoding::encode`, which percent-encodes every UTF-8 byte of `s`
/// except ASCII letters, digits, `-`, `.`, `_` and `~`, writing the hexadecimal
/// digits in upper case.
#[verifier::external_body]
fn url_encode(s: &str) -> (r: String)
    ensures
        r@ == url_encoded(s@),
{
    urlencoding::encode(s).into_owned()
}

/// The query naming a project: `org=<org>&project=<project>`, both encoded.
pub open spec fn project_query(p: ProjectBinding) -> Seq<char> {
    "org="@ + url_encoded(p.organization_slug@) + "&project="@ + url_encoded(p.project_slug@)
}

fn push_project_query(r: &mut String, project: &ProjectBinding)
    ensures
        final(r)@ == old(r)@ + project_query(*project),
{
    r.append("org=");
    let org = url_encode(project.organization_slug.as_str());
    r.append(org.as_str());
    r.append("&project=");
    let proj = url_encode(project.project_slug.as_str());
    r.append(proj.as_str());
}

/// Path of the task list of a project.
pub fn tasks_path(project: &ProjectBinding) -> (r: String)
    ensures
        r@ == "/cli/tasks?"@ + project_query(*project),
{
    let mut r = String::from_str("/cli/tasks?");
    push_project_query(&mut r, project);
    r
}

/// Path that checks access to a project by asking for at most one task.
pub fn project_check_path(project: &ProjectBinding) -> (r: String)
    ensures
        r@ == "/cli/tasks?"@ + project_query(*project) + "&limit=1"@,
{
    let mut r = tasks_path(project);
    r.append("&limit=1");
    r
}

/// Path of the context of task `code` in a project.
pub fn task_context_path(code: &str, project: &ProjectBinding) -> (r: String)
    ensures
        r@ == "/cli/tasks/"@ + code@ + "/context?"@ + project_query(*project),
{
    let mut r = String::from_str("/cli/tasks/");
    r.append(code);
    r.append("/context?");
    push_project_query(&mut r, project);
    r
}

/// Path that completes task `code` in a project.
pub fn task_complete_path(code: &str, project: &ProjectBinding) -> (r: String)
    ensures
        r@ == "/cli/tasks/"@ + code@ + "/complete?"@ + project_query(*project),
{
    let mut r = String::from_str("/cli/tasks/");
    r.append(code);
    r.append("/complete?");
    push_project_query(&mut r, project);
    r
}

/// Path that waits for the approval of a device authorization.
pub fn poll_path(device_token: &str) -> (r: String)
    ensures
        r@ == "/cli/auth/poll?device_token="@ + device_token@ + "&wait=25"@,
{
    let mut r = String::from_str("/cli/auth/poll?device_token=");
    r.append(device_token);
    r.append("&wait=25");
    r
}

/// Whether an HTTP status reports success (2xx).
pub open spec fn is_success(status: u16) -> bool {
    200 <= status <= 299
}

/// The error an API answer stands for: none on success; `Unauthorized` on
/// 401; otherwise an API error with the status and the answer's `detail`, or
/// "unknown error" when it has none.
pub fn response_error(status: u16, detail: Option<String>) -> (r: Option<DeepError>)
    ensures
        is_success(status) <==> r is None,
        status == 401 ==> r == Some(DeepError::Unauthorized),
        !is_success(status) && status != 401 ==> (r matches Some(DeepError::Api { status: s, message: m })
            && s == status && m@ == match detail {
                Some(d) => d@,
                None => "unknown error"@,
            }),
{
    if 200 <= status && status <= 299 {
        return None;
    }
    if status == 401 {
        return Some(DeepError::Unauthorized);
    }
    let message = match detail {
        Some(d) => d,
        None => String::from_str("unknown error"),
    };
    Some(DeepError::Api { status, message })
}

} // verus!
