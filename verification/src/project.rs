//! The binding of a working directory to a DeepCanvas project.

use vstd::prelude::*;

use crate::error::DeepError;
use crate::text::{find_char, index_of_char, lemma_find_char_at};
use crate::types::ProjectListEntry;

verus! {

/// The organization and project a directory is linked to.
#[derive(Debug, Clone)]
pub struct ProjectBinding {
    pub organization_slug: String,
    pub project_slug: String,
}

/// The two slugs of `<org-slug>/<project-slug>`, split at the first `/`; none
/// when there is no `/` or either side is empty.
pub open spec fn spec_from_flag(s: Seq<char>) -> Option<(Seq<char>, Seq<char>)> {
    let p = find_char(s, '/');
    if 0 < p && p + 1 < s.len() {
        Some((s.take(p), s.skip(p + 1)))
    } else {
        None
    }
}

/// The contents of `.deep/config.toml` for a binding.
pub open spec fn spec_to_toml(org: Seq<char>, proj: Seq<char>) -> Seq<char> {
    "[project]\norganization_slug = \""@ + org + "\"\nproject_slug = \""@ + proj + "\"\n"@
}

impl ProjectBinding {
    /// Reads `<org-slug>/<project-slug>`.
    pub fn from_flag(s: &str) -> (r: Result<ProjectBinding, DeepError>)
        ensures
            spec_from_flag(s@) is None ==> r == Err::<ProjectBinding, DeepError>(DeepError::InvalidProjectFormat),
            spec_from_flag(s@) matches Some((o, p)) ==> (r matches Ok(b) && b.organization_slug@ == o
                && b.project_slug@ == p),
    {
        let n = s.unicode_len();
        let p = index_of_char(s, '/');
        if p == 0 || p >= n || p + 1 >= n {
            return Err(DeepError::InvalidProjectFormat);
        }
        let org = s.substring_char(0, p);
        let proj = s.substring_char(p + 1, n);
        proof {
            assert(org@ =~= s@.take(p as int));
            assert(proj@ =~= s@.skip(p + 1));
        }
        Ok(ProjectBinding { organization_slug: String::from_str(org), project_slug: String::from_str(proj) })
    }

    /// The `.deep/config.toml` text that records this binding.
    pub fn to_toml(&self) -> (r: String)
        ensures
            r@ == spec_to_toml(self.organization_slug@, self.project_slug@),
    {
        let mut r = String::from_str("[project]\norganization_slug = \"");
        r.append(self.organization_slug.as_str());
        r.append("\"\nproject_slug = \"");
        r.append(self.project_slug.as_str());
        r.append("\"\n");
        r
    }

    /// The binding to a project picked from the user's project list.
    pub fn from_entry(e: &ProjectListEntry) -> (r: ProjectBinding)
        ensures
            r.organization_slug@ == e.organization_slug@,
            r.project_slug@ == e.project_slug@,
    {
        ProjectBinding { organization_slug: e.organization_slug.clone(), project_slug: e.project_slug.clone() }
    }
}

/// Writing `<org>/<project>` and reading it back gives the two slugs, when the
/// organization slug is non-empty and holds no `/` and the project slug is
/// non-empty.
pub proof fn lemma_from_flag_round_trip(org: Seq<char>, proj: Seq<char>)
    requires
        org.len() > 0,
        proj.len() > 0,
        forall|i: int| 0 <= i < org.len() ==> org[i] != '/',
    ensures
        spec_from_flag(org + "/"@ + proj) == Some((org, proj)),
{
    reveal_strlit("/");
    let s = org + "/"@ + proj;
    assert(s[org.len() as int] == '/');
    assert forall|j: int| 0 <= j < org.len() implies s[j] != '/' by {
        assert(s[j] == org[j]);
    }
    lemma_find_char_at(s, '/', org.len() as int);
    assert(s.take(org.len() as int) =~= org);
    assert(s.skip(org.len() as int + 1) =~= proj);
}

/// The label under which a project is offered for linking:
/// `<organization> / <project>  (<role>)`.
pub open spec fn spec_project_label(e: ProjectListEntry) -> Seq<char> {
    e.organization_name@ + " / "@ + e.project_name@ + "  ("@ + e.role@ + ")"@
}

/// The labels of the projects offered for linking, in list order.
pub fn project_labels(projects: &Vec<ProjectListEntry>) -> (r: Vec<String>)
    ensures
        r@.len() == projects@.len(),
        forall|i: int| 0 <= i < r@.len() ==> #[trigger] r@[i]@ == spec_project_label(projects@[i]),
{
    let mut r: Vec<String> = Vec::new();
    let mut i: usize = 0;
    while i < projects.len()
        invariant
            i <= projects@.len(),
            r@.len() == i,
            forall|j: int| 0 <= j < i ==> #[trigger] r@[j]@ == spec_project_label(projects@[j]),
        decreases projects@.len() - i,
    {
        let e = &projects[i];
        let mut l = String::from_str(e.organization_name.as_str());
        l.append(" / ");
        l.append(e.project_name.as_str());
        l.append("  (");
        l.append(e.role.as_str());
        l.append(")");
        r.push(l);
        i = i + 1;
    }
    r
}

} // verus!
