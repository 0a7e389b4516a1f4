//! The files a pulled task is written to: `task.md` and one markdown file per
//! linked document.

use vstd::prelude::*;

use crate::text::{contains_seq, has_suffix, occurs_at, trim, trimmed};
use crate::types::{AcceptanceCriterion, DocumentFull, TaskDetail, TaskDocuments, UserRef};

verus! {

/// `text` when present, else nothing.
pub open spec fn opt_line(label: Seq<char>, v: Option<String>) -> Seq<char> {
    match v {
        Some(x) => label + x@ + "  \n"@,
        None => Seq::empty(),
    }
}

/// The assignee line: display name (or e-mail when there is none) and e-mail.
pub open spec fn assignee_line(a: Option<UserRef>) -> Seq<char> {
    match a {
        Some(u) => {
            let name = match u.name {
                Some(n) => n@,
                None => u.email@,
            };
            "**Assignee:** "@ + name + " <"@ + u.email@ + ">  \n"@
        },
        None => Seq::empty(),
    }
}

/// Title line and the status, energy, priority and assignee lines.
pub open spec fn md_header(t: TaskDetail) -> Seq<char> {
    "# "@ + t.code@ + ": "@ + t.title@ + "\n\n"@ + "**Status:** "@ + t.status@ + "  \n"@
        + opt_line("**Energy:** "@, t.energy) + opt_line("**Priority:** "@, t.priority)
        + assignee_line(t.assignee) + "\n"@
}

/// The description section, with the description trimmed.
pub open spec fn md_description(t: TaskDetail) -> Seq<char> {
    match t.description {
        Some(d) => "## Description\n\n"@ + trimmed(d@) + "\n\n"@,
        None => Seq::empty(),
    }
}

/// One checklist line per criterion, ticked when done.
pub open spec fn criteria_lines(acs: Seq<AcceptanceCriterion>) -> Seq<char>
    decreases acs.len(),
{
    if acs.len() == 0 {
        Seq::empty()
    } else {
        let ac = acs.last();
        criteria_lines(acs.drop_last()) + "- ["@ + (if ac.is_done { "x"@ } else { " "@ }) + "] "@ + ac.text@
            + "\n"@
    }
}

/// The acceptance criteria section, when there are criteria.
pub open spec fn md_criteria(t: TaskDetail) -> Seq<char> {
    if t.acceptance_criteria@.len() > 0 {
        "## Acceptance Criteria\n\n"@ + criteria_lines(t.acceptance_criteria@) + "\n"@
    } else {
        Seq::empty()
    }
}

/// The link line of a document, marked when it is the primary one.
pub open spec fn link_line(d: DocumentFull, primary: bool) -> Seq<char> {
    "- ["@ + d.code@ + "](./"@ + d.code@ + ".md) — "@ + d.title@ + (if primary { " (primary)"@ } else { ""@ })
        + "\n"@
}

/// The link lines of the related documents.
pub open spec fn related_links(docs: Seq<DocumentFull>) -> Seq<char>
    decreases docs.len(),
{
    if docs.len() == 0 {
        Seq::empty()
    } else {
        related_links(docs.drop_last()) + link_line(docs.last(), false)
    }
}

/// The linked documents section: the primary document first, then the
/// related ones; nothing when there are none.
pub open spec fn md_links(docs: TaskDocuments) -> Seq<char> {
    if docs.primary is None && docs.related@.len() == 0 {
        Seq::empty()
    } else {
        "## Linked Documents\n\n"@ + (match docs.primary {
            Some(p) => link_line(p, true),
            None => Seq::empty(),
        }) + related_links(docs.related@)
    }
}

/// The `task.md` text of a pulled task.
pub open spec fn spec_task_md(t: TaskDetail, docs: TaskDocuments) -> Seq<char> {
    md_header(t) + md_description(t) + md_criteria(t) + md_links(docs)
}

fn push_opt_line(out: &mut String, label: &str, v: &Option<String>)
    ensures
        final(out)@ == old(out)@ + opt_line(label@, *v),
{
    match v {
        Some(x) => {
            out.append(label);
            out.append(x.as_str());
            out.append("  \n");
        },
        None => {
            proof {
                assert(old(out)@ + Seq::<char>::empty() =~= old(out)@);
            }
        },
    }
}

fn push_link_line(out: &mut String, d: &DocumentFull, primary: bool)
    ensures
        final(out)@ == old(out)@ + link_line(*d, primary),
{
    out.append("- [");
    out.append(d.code.as_str());
    out.append("](./");
    out.append(d.code.as_str());
    out.append(".md) — ");
    out.append(d.title.as_str());
    if primary {
        out.append(" (primary)");
    } else {
        out.append("");
    }
    out.append("\n");
}

fn push_assignee(out: &mut String, assignee: &Option<UserRef>)
    ensures
        final(out)@ == old(out)@ + assignee_line(*assignee),
{
    let ghost start = out@;
    match assignee {
        Some(a) => {
            out.append("**Assignee:** ");
            match &a.name {
                Some(n) => out.append(n.as_str()),
                None => out.append(a.email.as_str()),
            }
            out.append(" <");
            out.append(a.email.as_str());
            out.append(">  \n");
        },
        None => {},
    }
    proof {
        assert(out@ =~= start + assignee_line(*assignee));
    }
}

fn push_header(out: &mut String, task: &TaskDetail)
    ensures
        final(out)@ == old(out)@ + md_header(*task),
{
    let ghost start = out@;
    out.append("# ");
    out.append(task.code.as_str());
    out.append(": ");
    out.append(task.title.as_str());
    out.append("\n\n");
    out.append("**Status:** ");
    out.append(task.status.as_str());
    out.append("  \n");
    push_opt_line(out, "**Energy:** ", &task.energy);
    push_opt_line(out, "**Priority:** ", &task.priority);
    push_assignee(out, &task.assignee);
    out.append("\n");
    proof {
        assert(out@ =~= start + md_header(*task));
    }
}

fn push_description(out: &mut String, task: &TaskDetail)
    ensures
        final(out)@ == old(out)@ + md_description(*task),
{
    let ghost start = out@;
    match &task.description {
        Some(d) => {
            out.append("## Description\n\n");
            out.append(trim(d.as_str()));
            out.append("\n\n");
        },
        None => {},
    }
    proof {
        assert(out@ =~= start + md_description(*task));
    }
}

fn push_criteria(out: &mut String, task: &TaskDetail)
    ensures
        final(out)@ == old(out)@ + md_criteria(*task),
{
    let ghost before = out@;
    let acs = &task.acceptance_criteria;
    if acs.len() > 0 {
        out.append("## Acceptance Criteria\n\n");
        let ghost start = out@;
        let mut i: usize = 0;
        proof {
            assert(acs@.take(0) =~= Seq::<AcceptanceCriterion>::empty());
            assert(out@ =~= start + criteria_lines(acs@.take(0)));
        }
        while i < acs.len()
            invariant
                i <= acs@.len(),
                out@ == start + criteria_lines(acs@.take(i as int)),
            decreases acs@.len() - i,
        {
            let ac = &acs[i];
            out.append("- [");
            if ac.is_done {
                out.append("x");
            } else {
                out.append(" ");
            }
            out.append("] ");
            out.append(ac.text.as_str());
            out.append("\n");
            proof {
                assert(acs@.take(i + 1).drop_last() =~= acs@.take(i as int));
                assert(out@ =~= start + criteria_lines(acs@.take(i + 1)));
            }
            i = i + 1;
        }
        out.append("\n");
        proof {
            assert(acs@.take(acs@.len() as int) =~= acs@);
        }
    }
    proof {
        assert(out@ =~= before + md_criteria(*task));
    }
}

fn push_links(out: &mut String, docs: &TaskDocuments)
    ensures
        final(out)@ == old(out)@ + md_links(*docs),
{
    let ghost before = out@;
    let related = &docs.related;
    if docs.primary.is_some() || related.len() > 0 {
        out.append("## Linked Documents\n\n");
        match &docs.primary {
            Some(p) => push_link_line(out, p, true),
            None => {},
        }
        let ghost start = out@;
        let mut i: usize = 0;
        proof {
            assert(related@.take(0) =~= Seq::<DocumentFull>::empty());
            assert(out@ =~= start + related_links(related@.take(0)));
        }
        while i < related.len()
            invariant
                i <= related@.len(),
                out@ == start + related_links(related@.take(i as int)),
            decreases related@.len() - i,
        {
            push_link_line(out, &related[i], false);
            proof {
                assert(related@.take(i + 1).drop_last() =~= related@.take(i as int));
                assert(out@ =~= start + related_links(related@.take(i + 1)));
            }
            i = i + 1;
        }
        proof {
            assert(related@.take(related@.len() as int) =~= related@);
        }
    }
    proof {
        assert(out@ =~= before + md_links(*docs));
    }
}

/// Renders the `task.md` of a pulled task: title, status and the optional
/// energy, priority and assignee lines, the trimmed description, the
/// acceptance criteria as a checklist, and links to the documents.
pub fn format_task_md(task: &TaskDetail, docs: &TaskDocuments) -> (r: String)
    ensures
        r@ == spec_task_md(*task, *docs),
{
    let mut out = String::new();
    push_header(&mut out, task);
    push_description(&mut out, task);
    push_criteria(&mut out, task);
    push_links(&mut out, docs);
    proof {
        assert(out@ =~= spec_task_md(*task, *docs));
    }
    out
}

/// The markdown file name of a document: its code and `.md`.
pub open spec fn spec_doc_file_name(code: Seq<char>) -> Seq<char> {
    code + ".md"@
}

/// The markdown file name of a document.
pub fn doc_file_name(code: &str) -> (r: String)
    ensures
        r@ == spec_doc_file_name(code@),
{
    let mut r = String::from_str(code);
    r.append(".md");
    r
}

/// The documents of a task in the order they are written: the primary one
/// first, then the related ones.
pub open spec fn docs_in_order(docs: TaskDocuments) -> Seq<DocumentFull> {
    match docs.primary {
        Some(p) => seq![p] + docs.related@,
        None => docs.related@,
    }
}

/// The document files of a pulled task, as (file name, markdown content)
/// pairs: the primary document first, then the related ones.
pub fn document_files(docs: &TaskDocuments) -> (r: Vec<(String, String)>)
    ensures
        r@.len() == docs_in_order(*docs).len(),
        forall|i: int| 0 <= i < r@.len() ==> {
            &&& (#[trigger] r@[i]).0@ == spec_doc_file_name(docs_in_order(*docs)[i].code@)
            &&& r@[i].1@ == docs_in_order(*docs)[i].content_markdown@
        },
{
    let mut r: Vec<(String, String)> = Vec::new();
    let ghost all = docs_in_order(*docs);
    let mut offset: usize = 0;
    match &docs.primary {
        Some(p) => {
            r.push((doc_file_name(p.code.as_str()), p.content_markdown.clone()));
            offset = 1;
        },
        None => {},
    }
    let related = &docs.related;
    proof {
        if docs.primary is Some {
            assert(all =~= seq![docs.primary->0] + related@);
        } else {
            assert(all =~= related@);
        }
    }
    let mut i: usize = 0;
    while i < related.len()
        invariant
            all == docs_in_order(*docs),
            all == (if docs.primary is Some { seq![docs.primary->0] + related@ } else { related@ }),
            offset == (if docs.primary is Some { 1usize } else { 0usize }),
            i <= related@.len(),
            r@.len() == offset + i,
            forall|j: int| 0 <= j < r@.len() ==> {
                &&& (#[trigger] r@[j]).0@ == spec_doc_file_name(all[j].code@)
                &&& r@[j].1@ == all[j].content_markdown@
            },
        decreases related@.len() - i,
    {
        let d = &related[i];
        r.push((doc_file_name(d.code.as_str()), d.content_markdown.clone()));
        proof {
            assert(all[offset + i] == related@[i as int]);
        }
        i = i + 1;
    }
    r
}

proof fn lemma_related_links_split(rs: Seq<DocumentFull>, m: int, n: int)
    requires
        0 <= m <= n <= rs.len(),
    ensures
        related_links(rs.take(n)) == related_links(rs.take(m)) + related_links(rs.subrange(m, n)),
    decreases n - m,
{
    if n == m {
        assert(rs.subrange(m, n) =~= Seq::<DocumentFull>::empty());
        assert(related_links(rs.take(m)) + Seq::<char>::empty() =~= related_links(rs.take(m)));
    } else {
        lemma_related_links_split(rs, m, n - 1);
        assert(rs.take(n).drop_last() =~= rs.take(n - 1));
        assert(rs.subrange(m, n).drop_last() =~= rs.subrange(m, n - 1));
        assert(related_links(rs.take(n)) =~= related_links(rs.take(m)) + related_links(rs.subrange(m, n)));
    }
}

/// Where the link line of the `i`-th related document starts within the link
/// lines of all of them.
proof fn lemma_related_link_at(rs: Seq<DocumentFull>, i: int)
    requires
        0 <= i < rs.len(),
    ensures
        occurs_at(related_links(rs), link_line(rs[i], false), related_links(rs.take(i)).len() as int),
        related_links(rs.take(i)).len() + link_line(rs[i], false).len() == related_links(rs.take(i + 1)).len(),
{
    lemma_related_links_split(rs, i, i + 1);
    lemma_related_links_split(rs, i + 1, rs.len() as int);
    assert(rs.take(rs.len() as int) =~= rs);
    let one = rs.subrange(i, i + 1);
    assert(one.drop_last() =~= Seq::<DocumentFull>::empty());
    assert(one.last() == rs[i]);
    assert(related_links(one.drop_last()) == Seq::<char>::empty());
    assert(related_links(one) =~= link_line(rs[i], false));
    let a = related_links(rs.take(i));
    let l = link_line(rs[i], false);
    let b = related_links(rs.subrange(i + 1, rs.len() as int));
    assert(related_links(rs) =~= a + l + b);
    assert((a + l + b).subrange(a.len() as int, (a.len() + l.len()) as int) =~= l);
}

proof fn lemma_occurs_after(pre: Seq<char>, s: Seq<char>, p: Seq<char>, k: int)
    requires
        occurs_at(s, p, k),
    ensures
        occurs_at(pre + s, p, pre.len() + k),
{
    assert((pre + s).subrange(pre.len() + k, pre.len() + k + p.len()) =~= s.subrange(k, k + p.len()));
}

/// The link line of the `i`-th related document occurs after any text
/// `base`, where the lines before it end.
proof fn lemma_link_after(base: Seq<char>, rs: Seq<DocumentFull>, i: int)
    requires
        0 <= i < rs.len(),
    ensures
        occurs_at(base + related_links(rs), link_line(rs[i], false), (base.len() + related_links(rs.take(i)).len()) as int),
{
    lemma_related_link_at(rs, i);
    lemma_occurs_after(base, related_links(rs), link_line(rs[i], false), related_links(rs.take(i)).len() as int);
}

/// The lines before a later related document's line reach past an earlier
/// one's.
proof fn lemma_link_order(rs: Seq<DocumentFull>, i: int, j: int)
    requires
        0 <= i < j < rs.len(),
    ensures
        related_links(rs.take(i)).len() + link_line(rs[i], false).len() <= related_links(rs.take(j)).len(),
{
    lemma_related_link_at(rs, i);
    lemma_related_links_split(rs, i + 1, j);
}

/// The last related document's line ends the text.
proof fn lemma_last_link(base: Seq<char>, rs: Seq<DocumentFull>)
    requires
        rs.len() > 0,
    ensures
        has_suffix(base + related_links(rs), link_line(rs.last(), false)),
{
    let n = rs.len() as int;
    assert(rs.drop_last() =~= rs.take(n - 1));
    let pre = base + related_links(rs.take(n - 1));
    assert(base + related_links(rs) =~= pre + link_line(rs.last(), false));
    assert((base + related_links(rs)).skip(pre.len() as int) =~= link_line(rs.last(), false));
}

/// `task.md` lists the linked documents: when there is a primary document or
/// a related one, it has the "Linked Documents" section; it has the link line
/// of the primary document, marked as such, and that of every related
/// document, whether or not there is a primary one; and the last related
/// document's line ends the file.
pub proof fn lemma_task_md_links(t: TaskDetail, docs: TaskDocuments)
    ensures
        (docs.primary is Some || docs.related@.len() > 0) ==> contains_seq(
            spec_task_md(t, docs),
            "## Linked Documents\n\n"@,
        ),
        docs.primary matches Some(p) ==> contains_seq(spec_task_md(t, docs), link_line(p, true)),
        forall|i: int|
            0 <= i < docs.related@.len() ==> contains_seq(
                spec_task_md(t, docs),
                #[trigger] link_line(docs.related@[i], false),
            ),
        docs.related@.len() > 0 ==> has_suffix(
            spec_task_md(t, docs),
            link_line(docs.related@.last(), false),
        ),
{
    let md = spec_task_md(t, docs);
    let rs = docs.related@;
    let body = md_header(t) + md_description(t) + md_criteria(t);
    if docs.primary is Some || rs.len() > 0 {
        let head = "## Linked Documents\n\n"@;
        let pl = match docs.primary {
            Some(p) => link_line(p, true),
            None => Seq::<char>::empty(),
        };
        let base = body + head + pl;
        assert(md =~= base + related_links(rs));
        assert forall|i: int| 0 <= i < rs.len() implies contains_seq(md, #[trigger] link_line(rs[i], false)) by {
            lemma_link_after(base, rs, i);
        }
        if rs.len() > 0 {
            lemma_last_link(base, rs);
        }
        assert(occurs_at(md, head, body.len() as int)) by {
            assert(md.subrange(body.len() as int, (body.len() + head.len()) as int) =~= head);
        }
        if docs.primary is Some {
            assert(occurs_at(md, pl, (body + head).len() as int)) by {
                assert(md.subrange((body + head).len() as int, ((body + head).len() + pl.len()) as int) =~= pl);
            }
        }
    }
}

/// In `task.md` the related documents' link lines come in the documents'
/// order: for positions `i < j`, the line of the `i`-th document occurs, and
/// the line of the `j`-th occurs after it ends.
pub proof fn lemma_task_md_link_order(t: TaskDetail, docs: TaskDocuments, i: int, j: int) -> (pos: (int, int))
    requires
        0 <= i < j < docs.related@.len(),
    ensures
        occurs_at(spec_task_md(t, docs), link_line(docs.related@[i], false), pos.0),
        occurs_at(spec_task_md(t, docs), link_line(docs.related@[j], false), pos.1),
        pos.0 + link_line(docs.related@[i], false).len() <= pos.1,
{
    let md = spec_task_md(t, docs);
    let rs = docs.related@;
    let body = md_header(t) + md_description(t) + md_criteria(t);
    let pl = match docs.primary {
        Some(p) => link_line(p, true),
        None => Seq::<char>::empty(),
    };
    let base = body + "## Linked Documents\n\n"@ + pl;
    assert(md =~= base + related_links(rs));
    lemma_link_after(base, rs, i);
    lemma_link_after(base, rs, j);
    lemma_link_order(rs, i, j);
    ((base.len() + related_links(rs.take(i)).len()) as int, (base.len() + related_links(rs.take(j)).len()) as int)
}

} // verus!
