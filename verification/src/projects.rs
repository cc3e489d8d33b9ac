//! The project store: an ordered list of named projects, loaded from and
//! saved to the persisted document, with case-insensitive uniqueness of
//! names checked on load and enforced on addition.

use vstd::prelude::*;
use crate::document::{
    render, parse_document, render_document, parse_document_text, chars_of, string_of,
};

verus! {

/// The lowercase form of a name, as the platform's case folding gives
/// it.  Two names denote the same project exactly when these agree.
pub uninterp spec fn lower_of(s: Seq<char>) -> Seq<char>;

/// Relies on str::to_lowercase: the lowercase form of the text, a
/// function of its characters alone.
#[verifier::external_body]
fn lowercase(s: &str) -> (r: String)
    ensures
        r@ == lower_of(s@),
{
    s.to_lowercase()
}

/// One tracked project; its name is its sole identity.
#[derive(Clone, Debug, PartialEq)]
pub struct Project {
    pub name: String,
}

impl View for Project {
    type V = Seq<char>;

    open spec fn view(&self) -> Seq<char> {
        self.name@
    }
}

/// The names of a list of projects, in order.
pub open spec fn names_of(ps: Seq<Project>) -> Seq<Seq<char>> {
    ps.map(|i: int, p: Project| p.name@)
}

/// The ordered collection of projects.
#[derive(Debug, PartialEq)]
pub struct ProjectData {
    pub projects: Vec<Project>,
}

impl View for ProjectData {
    type V = Seq<Seq<char>>;

    open spec fn view(&self) -> Seq<Seq<char>> {
        names_of(self.projects@)
    }
}

/// What can go wrong around the store.  Reading and writing the file
/// itself is the caller's business; it wraps its failures in `IOError`.
#[derive(Debug, PartialEq)]
pub enum ProjectDataError {
    DeserializationError(String),
    IOError(String),
    ProjectNameConflict(String),
    SerializationError(String),
}

// ---------------------------------------------------------------------
// Collisions
// ---------------------------------------------------------------------

/// The first name among `ns[..upto]` whose lowercase form is `key`, in
/// its original casing.
pub open spec fn lookup_conflict(ns: Seq<Seq<char>>, upto: int, key: Seq<char>) -> Option<
    Seq<char>,
>
    decreases upto,
{
    if upto <= 0 || upto > ns.len() {
        None
    } else {
        match lookup_conflict(ns, upto - 1, key) {
            Some(n) => Some(n),
            None => if lower_of(ns[upto - 1]) == key {
                Some(ns[upto - 1])
            } else {
                None
            },
        }
    }
}

/// Scanning `ns[j..]` in order: at the first name that collides with an
/// earlier one, the earlier name in its original casing.
pub open spec fn first_conflict_from(ns: Seq<Seq<char>>, j: int) -> Option<Seq<char>>
    decreases ns.len() - j,
{
    if j < 0 || j >= ns.len() {
        None
    } else {
        match lookup_conflict(ns, j, lower_of(ns[j])) {
            Some(n) => Some(n),
            None => first_conflict_from(ns, j + 1),
        }
    }
}

/// The collision a whole list of names holds, if any: the first-seen
/// name of the first colliding pair, in its original casing.
pub open spec fn first_conflict(ns: Seq<Seq<char>>) -> Option<Seq<char>> {
    first_conflict_from(ns, 0)
}

/// Once a name with the sought lowercase form stands before position
/// `i`, every longer prefix still reports the first such name.
proof fn lemma_lookup_found(ns: Seq<Seq<char>>, i: int, j: int, key: Seq<char>)
    requires
        0 <= i < j <= ns.len(),
        lookup_conflict(ns, i, key) is None,
        lower_of(ns[i]) == key,
    ensures
        lookup_conflict(ns, j, key) == Some(ns[i]),
    decreases j,
{
    if j > i + 1 {
        lemma_lookup_found(ns, i, j - 1, key);
    }
}

/// Appending a name does not change what a prefix of the old list holds.
proof fn lemma_lookup_push(ns: Seq<Seq<char>>, x: Seq<char>, upto: int, key: Seq<char>)
    requires
        0 <= upto <= ns.len(),
    ensures
        lookup_conflict(ns.push(x), upto, key) == lookup_conflict(ns, upto, key),
    decreases upto,
{
    if upto > 0 {
        lemma_lookup_push(ns, x, upto - 1, key);
    }
}

proof fn lemma_push_unique_from(ns: Seq<Seq<char>>, x: Seq<char>, j: int)
    requires
        0 <= j <= ns.len(),
        first_conflict_from(ns, j) is None,
        lookup_conflict(ns, ns.len() as int, lower_of(x)) is None,
    ensures
        first_conflict_from(ns.push(x), j) is None,
    decreases ns.len() - j,
{
    let m = ns.push(x);
    if j < ns.len() {
        assert(m[j] == ns[j]);
        assert(lookup_conflict(ns, j, lower_of(ns[j])) is None);
        assert(first_conflict_from(ns, j + 1) is None);
        lemma_lookup_push(ns, x, j, lower_of(ns[j]));
        lemma_push_unique_from(ns, x, j + 1);
        assert(lookup_conflict(m, j, lower_of(m[j])) is None);
    } else {
        assert(m[j] == x);
        lemma_lookup_push(ns, x, ns.len() as int, lower_of(x));
        assert(lookup_conflict(m, j, lower_of(m[j])) is None);
        assert(first_conflict_from(m, j + 1) is None);
    }
}

/// A store free of collisions stays free of them when a name that
/// collides with none of its records is appended.
pub proof fn lemma_add_keeps_unique(ns: Seq<Seq<char>>, name: Seq<char>)
    ensures
        (first_conflict(ns) is None && lookup_conflict(ns, ns.len() as int, lower_of(name))
            is None) ==> first_conflict(ns.push(name)) is None,
{
    if first_conflict(ns) is None && lookup_conflict(ns, ns.len() as int, lower_of(name))
        is None {
        lemma_push_unique_from(ns, name, 0);
    }
}

/// The first colliding pair of the stored record names, found by
/// scanning in order; the reported name is the first-seen one.
fn find_conflict(projects: &Vec<Project>) -> (r: Option<String>)
    ensures
        match r {
            Some(n) => first_conflict(names_of(projects@)) == Some(n@),
            None => first_conflict(names_of(projects@)) is None,
        },
{
    let ghost ns = names_of(projects@);
    let n = projects.len();
    proof {
        assert(ns.len() == n);
    }
    let mut j: usize = 0;
    while j < n
        invariant
            j <= n,
            n == projects@.len(),
            ns == names_of(projects@),
            ns.len() == n,
            first_conflict(ns) == first_conflict_from(ns, j as int),
        decreases n - j,
    {
        proof {
            assert(ns[j as int] == projects@[j as int].name@);
        }
        let low_j = lowercase(projects[j].name.as_str());
        let mut i: usize = 0;
        while i < j
            invariant
                i <= j < n,
                n == projects@.len(),
                ns == names_of(projects@),
                ns.len() == n,
                low_j@ == lower_of(ns[j as int]),
                lookup_conflict(ns, i as int, lower_of(ns[j as int])) is None,
                first_conflict(ns) == first_conflict_from(ns, j as int),
            decreases j - i,
        {
            proof {
                assert(ns[i as int] == projects@[i as int].name@);
            }
            let low_i = lowercase(projects[i].name.as_str());
            if low_i == low_j {
                proof {
                    lemma_lookup_found(ns, i as int, j as int, lower_of(ns[j as int]));
                    assert(first_conflict_from(ns, j as int) == Some(ns[i as int]));
                }
                return Some(projects[i].name.clone());
            }
            i = i + 1;
        }
        j = j + 1;
    }
    None
}

// ---------------------------------------------------------------------
// The store's operations
// ---------------------------------------------------------------------

/// What loading a document must come to: the parsed record list when the
/// document is well formed and free of collisions — an absent `projects`
/// entry gives a store with zero records, not an error; the name
/// conflict, reporting the first-seen casing, when records collide; and
/// a deserialization error, carrying the fixed diagnostic below, exactly
/// when the document reads as no record list.
pub open spec fn loads_to(doc: Seq<char>, r: Result<ProjectData, ProjectDataError>) -> bool {
    match parse_document(doc) {
        None => r matches Err(ProjectDataError::DeserializationError(m)) && m@
            == "malformed project document"@,
        Some(ns) => match first_conflict(ns) {
            None => r matches Ok(pd) && pd@ == ns,
            Some(n) => r matches Err(ProjectDataError::ProjectNameConflict(m)) && m@ == n,
        },
    }
}

/// The round-trip law: loading the rendered document of a store free of
/// name collisions yields that store back.  `render` is what `as_toml`
/// promises to produce and `loads_to` is what `from_toml` promises to
/// satisfy, so any saved well-formed store loads as itself.
pub proof fn lemma_load_save_round_trip(ns: Seq<Seq<char>>, r: Result<ProjectData, ProjectDataError>)
    ensures
        (first_conflict(ns) is None && loads_to(render(ns), r)) ==> (r matches Ok(pd) && pd@
            == ns),
{
    crate::document::lemma_parse_render(ns);
}

impl ProjectData {
    /// A well-formed store holds no two names that collide
    /// case-insensitively.
    pub open spec fn wf(&self) -> bool {
        first_conflict(self@) is None
    }

    /// Loads a store from the persisted document's text.  A blank
    /// document, which holds no `projects` entry, loads as the empty
    /// store.
    pub fn from_toml(document: &str) -> (r: Result<ProjectData, ProjectDataError>)
        ensures
            loads_to(document@, r),
    {
        match parse_document_text(document) {
            None => Err(
                ProjectDataError::DeserializationError("malformed project document".to_owned()),
            ),
            Some(names) => {
                let n = names.len();
                let mut projects: Vec<Project> = Vec::new();
                let mut i: usize = 0;
                while i < n
                    invariant
                        i <= n,
                        n == names@.len(),
                        projects@.len() == i,
                        forall|k: int| 0 <= k < i ==> projects@[k].name@ == names@[k]@,
                    decreases n - i,
                {
                    projects.push(Project { name: names[i].clone() });
                    i = i + 1;
                }
                let pd = ProjectData { projects };
                proof {
                    assert forall|k: int| 0 <= k < n implies pd@[k] == names.deep_view()[k] by {
                        assert(pd@[k] == pd.projects@[k].name@);
                    }
                    assert(pd@ =~= names.deep_view());
                }
                match find_conflict(&pd.projects) {
                    Some(duplicate) => Err(ProjectDataError::ProjectNameConflict(duplicate)),
                    None => Ok(pd),
                }
            },
        }
    }

    /// Renders the store as the canonical persisted document.  This
    /// cannot fail; the error side only models the taxonomy callers
    /// handle.
    pub fn as_toml(&self) -> (r: Result<String, ProjectDataError>)
        ensures
            r matches Ok(text) && text@ == render(self@),
    {
        let n = self.projects.len();
        let mut names: Vec<String> = Vec::new();
        let mut i: usize = 0;
        while i < n
            invariant
                i <= n,
                n == self.projects@.len(),
                names@.len() == i,
                forall|k: int| 0 <= k < i ==> names@[k]@ == self.projects@[k].name@,
            decreases n - i,
        {
            names.push(self.projects[i].name.clone());
            i = i + 1;
        }
        proof {
            assert forall|k: int| 0 <= k < n implies names.deep_view()[k] == self@[k] by {
                assert(self@[k] == self.projects@[k].name@);
            }
            assert(names.deep_view() =~= self@);
        }
        Ok(render_document(&names))
    }

    /// Loads a store from the document's text when one was present, and
    /// gives the empty store when none was: a missing document is the
    /// first run, not an error.
    pub fn read(document: Option<&str>) -> (r: Result<ProjectData, ProjectDataError>)
        ensures
            match document {
                None => r matches Ok(pd) && pd@ == Seq::<Seq<char>>::empty(),
                Some(doc) => loads_to(doc@, r),
            },
    {
        match document {
            None => {
                let pd = ProjectData { projects: Vec::new() };
                proof {
                    assert(pd@ =~= Seq::<Seq<char>>::empty());
                }
                Ok(pd)
            },
            Some(doc) => Self::from_toml(doc),
        }
    }

    /// The record, if any, whose name collides case-insensitively with
    /// the candidate: the stored name, in its original casing.
    pub fn project_name_collision(&self, name: &str) -> (r: Option<String>)
        ensures
            match r {
                Some(n) => lookup_conflict(self@, self@.len() as int, lower_of(name@)) == Some(
                    n@,
                ),
                None => lookup_conflict(self@, self@.len() as int, lower_of(name@)) is None,
            },
    {
        let ghost ns = self@;
        let n = self.projects.len();
        proof {
            assert(ns.len() == n);
        }
        let low = lowercase(name);
        let mut i: usize = 0;
        while i < n
            invariant
                i <= n,
                n == self.projects@.len(),
                ns == self@,
                ns.len() == n,
                low@ == lower_of(name@),
                lookup_conflict(ns, i as int, lower_of(name@)) is None,
            decreases n - i,
        {
            proof {
                assert(ns[i as int] == self.projects@[i as int].name@);
            }
            let low_i = lowercase(self.projects[i].name.as_str());
            if low_i == low {
                proof {
                    lemma_lookup_found(ns, i as int, n as int, lower_of(name@));
                }
                return Some(self.projects[i].name.clone());
            }
            i = i + 1;
        }
        None
    }

    /// A new store with the candidate appended, the original left
    /// untouched; or the name conflict, reporting the colliding stored
    /// name in its original casing, when one exists.  A store free of
    /// collisions stays so.
    pub fn add(&self, project_name: &str) -> (r: Result<ProjectData, ProjectDataError>)
        ensures
            match r {
                Ok(pd) => lookup_conflict(self@, self@.len() as int, lower_of(project_name@))
                    is None && pd@ == self@.push(project_name@),
                Err(e) => {
                    &&& e matches ProjectDataError::ProjectNameConflict(n)
                    &&& lookup_conflict(self@, self@.len() as int, lower_of(project_name@))
                        == Some(n@)
                },
            },
            match r {
                Ok(pd) => self.wf() ==> pd.wf(),
                Err(_) => true,
            },
    {
        match self.project_name_collision(project_name) {
            Some(existing) => Err(ProjectDataError::ProjectNameConflict(existing)),
            None => {
                let n = self.projects.len();
                let mut new_projects: Vec<Project> = Vec::new();
                let mut i: usize = 0;
                while i < n
                    invariant
                        i <= n,
                        n == self.projects@.len(),
                        new_projects@.len() == i,
                        forall|k: int| 0 <= k < i ==> new_projects@[k].name@
                            == self.projects@[k].name@,
                    decreases n - i,
                {
                    new_projects.push(Project { name: self.projects[i].name.clone() });
                    i = i + 1;
                }
                new_projects.push(Project { name: project_name.to_owned() });
                let pd = ProjectData { projects: new_projects };
                proof {
                    assert forall|k: int| 0 <= k < n + 1 implies pd@[k] == self@.push(
                        project_name@,
                    )[k] by {
                        assert(pd@[k] == pd.projects@[k].name@);
                        if k < n {
                            assert(self@[k] == self.projects@[k].name@);
                        }
                    }
                    assert(pd@ =~= self@.push(project_name@));
                    lemma_add_keeps_unique(self@, project_name@);
                }
                Ok(pd)
            },
        }
    }

}

impl ProjectDataError {
    /// A human-readable account of the error, as the shell reports it.
    pub fn message(&self) -> (r: String)
        ensures
            r@ == match self {
                ProjectDataError::DeserializationError(m) => "Failed to deserialize config: "@
                    + m@,
                ProjectDataError::IOError(m) => "failed to read project data ("@ + m@ + ")"@,
                ProjectDataError::ProjectNameConflict(n) => "a project named \""@ + n@
                    + "\" already exists"@,
                ProjectDataError::SerializationError(m) => "Failed to serialize config: "@ + m@,
            },
    {
        match self {
            ProjectDataError::DeserializationError(m) => {
                let mut v = chars_of("Failed to deserialize config: ");
                let mut t = chars_of(m.as_str());
                v.append(&mut t);
                string_of(&v)
            },
            ProjectDataError::IOError(m) => {
                let mut v = chars_of("failed to read project data (");
                let mut t = chars_of(m.as_str());
                v.append(&mut t);
                let mut c = chars_of(")");
                v.append(&mut c);
                string_of(&v)
            },
            ProjectDataError::ProjectNameConflict(n) => {
                let mut v = chars_of("a project named \"");
                let mut t = chars_of(n.as_str());
                v.append(&mut t);
                let mut c = chars_of("\" already exists");
                v.append(&mut c);
                string_of(&v)
            },
            ProjectDataError::SerializationError(m) => {
                let mut v = chars_of("Failed to serialize config: ");
                let mut t = chars_of(m.as_str());
                v.append(&mut t);
                string_of(&v)
            },
        }
    }
}

} // verus!

