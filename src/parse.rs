//! The registry document: the projects it tracks and where they come from.

use vstd::prelude::*;
use vstd::string::*;
use crate::text::texts;

verus! {

/// The kind of place a project can be fetched from.
#[derive(Debug, Clone, Copy, PartialEq, Eq, Structural)]
pub enum SourceType {
    /// A git repository
    Git,
    /// A web URL
    Web,
}

/// Where a project's files can be fetched from when its directory is missing.
#[derive(Debug)]
pub struct Source {
    pub source_type: SourceType,
    pub url: String,
}

pub struct SourceView {
    pub source_type: SourceType,
    pub url: Seq<char>,
}

impl View for Source {
    type V = SourceView;

    open spec fn view(&self) -> SourceView {
        SourceView { source_type: self.source_type, url: self.url@ }
    }
}

/// One tracked project. `path` is relative to the registry's root directory.
#[derive(Debug)]
pub struct Project {
    pub name: String,
    pub path: String,
    pub description: Option<String>,
    pub languages: Vec<String>,
    pub source: Option<Source>,
}

pub struct ProjectView {
    pub name: Seq<char>,
    pub path: Seq<char>,
    pub description: Option<Seq<char>>,
    pub languages: Seq<Seq<char>>,
    pub source: Option<SourceView>,
}

impl View for Project {
    type V = ProjectView;

    open spec fn view(&self) -> ProjectView {
        ProjectView {
            name: self.name@,
            path: self.path@,
            description: match self.description {
                Some(d) => Some(d@),
                None => None,
            },
            languages: texts(self.languages@),
            source: match self.source {
                Some(s) => Some(s@),
                None => None,
            },
        }
    }
}

/// The registry: the editor to open projects with, the root directory (relative
/// to the home directory) under which they live, and the projects themselves.
#[derive(Debug)]
pub struct ProjectConfig {
    pub version: String,
    /// The editor to use when opening a project (e.g. "code", "vim", "nano")
    /// Must support opening a directory the following way: `editor /path/to/directory`
    pub editor: String,
    pub root_dir: String,
    pub projects: Vec<Project>,
}

pub struct ProjectConfigView {
    pub version: Seq<char>,
    pub editor: Seq<char>,
    pub root_dir: Seq<char>,
    pub projects: Seq<ProjectView>,
}

impl View for ProjectConfig {
    type V = ProjectConfigView;

    open spec fn view(&self) -> ProjectConfigView {
        ProjectConfigView {
            version: self.version@,
            editor: self.editor@,
            root_dir: self.root_dir@,
            projects: self.projects@.map_values(|p: Project| p@),
        }
    }
}

/// The first project of `ps` named `name`, if any.
pub open spec fn find_in(ps: Seq<ProjectView>, name: Seq<char>) -> Option<ProjectView>
    decreases ps.len(),
{
    if ps.len() == 0 {
        None
    } else {
        match find_in(ps.drop_last(), name) {
            Some(p) => Some(p),
            None => if ps.last().name == name {
                Some(ps.last())
            } else {
                None
            },
        }
    }
}

/// Some project of `ps` is named `name`.
pub open spec fn has_name(ps: Seq<ProjectView>, name: Seq<char>) -> bool {
    exists|i: int| 0 <= i < ps.len() && #[trigger] ps[i].name == name
}

/// No two projects of `ps` share a name.
pub open spec fn names_unique(ps: Seq<ProjectView>) -> bool {
    forall|i: int, j: int| 0 <= i < j < ps.len() ==> #[trigger] ps[i].name != #[trigger] ps[j].name
}

/// Some project of `ps` is stored at `path`.
pub open spec fn has_path(ps: Seq<ProjectView>, path: Seq<char>) -> bool {
    exists|i: int| 0 <= i < ps.len() && #[trigger] ps[i].path == path
}

/// The folders that no project of `ps` is stored at, in their order.
pub open spec fn unregistered(ps: Seq<ProjectView>, folders: Seq<Seq<char>>) -> Seq<Seq<char>> {
    folders.filter(|f: Seq<char>| !has_path(ps, f))
}

/// `find_in` finds a project exactly when one has the name, and then the first.
pub proof fn lemma_find_in(ps: Seq<ProjectView>, name: Seq<char>)
    ensures
        find_in(ps, name) is Some <==> has_name(ps, name),
        find_in(ps, name) matches Some(p) ==> p.name == name && exists|i: int|
            0 <= i < ps.len() && ps[i] == p && forall|j: int| 0 <= j < i ==> ps[j].name != name,
    decreases ps.len(),
{
    if ps.len() > 0 {
        let rest = ps.drop_last();
        lemma_find_in(rest, name);
        if has_name(rest, name) {
            let i = choose|i: int| 0 <= i < rest.len() && #[trigger] rest[i].name == name;
            assert(ps[i].name == name);
        }
        if has_name(ps, name) && !has_name(rest, name) {
            let i = choose|i: int| 0 <= i < ps.len() && #[trigger] ps[i].name == name;
            if i < ps.len() - 1 {
                assert(rest[i].name == name);
            }
        }
        if find_in(rest, name) is None && ps.last().name == name {
            assert(ps[ps.len() - 1] == ps.last());
            assert forall|j: int| 0 <= j < ps.len() - 1 implies ps[j].name != name by {
                assert(rest[j] == ps[j]);
            }
        }
        if let Some(p) = find_in(rest, name) {
            let i = choose|i: int|
                0 <= i < rest.len() && rest[i] == p && forall|j: int|
                    0 <= j < i ==> rest[j].name != name;
            assert(ps[i] == p);
            assert forall|j: int| 0 <= j < i implies ps[j].name != name by {
                assert(rest[j] == ps[j]);
            }
        }
    }
}

/// A fresh registry: no projects, opened with `code`, under `my_projects`.
pub open spec fn default_registry() -> ProjectConfigView {
    ProjectConfigView {
        version: "1.0"@,
        editor: "code"@,
        root_dir: "my_projects"@,
        projects: Seq::empty(),
    }
}

impl ProjectConfig {
    pub fn new() -> (r: ProjectConfig)
        ensures
            r@ == default_registry(),
    {
        let r = ProjectConfig {
            version: String::from_str("1.0"),
            root_dir: String::from_str("my_projects"),
            editor: String::from_str("code"),
            projects: Vec::new(),
        };
        assert(r@.projects =~= Seq::<ProjectView>::empty());
        r
    }

    pub fn add_project(&mut self, project: Project)
        requires
            !has_name(old(self)@.projects, project@.name),
        ensures
            final(self)@ == (ProjectConfigView {
                projects: old(self)@.projects.push(project@),
                ..old(self)@
            }),
    {
        self.projects.push(project);
        assert(self@.projects =~= old(self)@.projects.push(project@));
    }

    pub fn find_project(&self, project_name: &str) -> (r: Option<&Project>)
        ensures
            r is Some <==> find_in(self@.projects, project_name@) is Some,
            r matches Some(p) ==> find_in(self@.projects, project_name@) == Some(p@),
    {
        let mut i: usize = 0;
        assert(self@.projects.subrange(0, 0) =~= Seq::<ProjectView>::empty());
        while i < self.projects.len()
            invariant
                i <= self.projects@.len(),
                find_in(self@.projects.subrange(0, i as int), project_name@) is None,
            decreases self.projects@.len() - i,
        {
            let ghost next = self@.projects.subrange(0, i as int + 1);
            assert(next.drop_last() =~= self@.projects.subrange(0, i as int));
            if crate::text::text_eq(self.projects[i].name.as_str(), project_name) {
                proof {
                    lemma_find_prefix(self@.projects, i as int + 1, project_name@);
                }
                return Some(&self.projects[i]);
            }
            i = i + 1;
        }
        assert(self@.projects.subrange(0, self.projects@.len() as int) =~= self@.projects);
        None
    }

    /// The folders among `folders` that no project is stored at, in their
    /// order. `folders` are the names of the root directory's subdirectories.
    pub fn get_unregistered_folders(&self, folders: &Vec<String>) -> (r: Vec<String>)
        ensures
            texts(r@) == unregistered(self@.projects, texts(folders@)),
    {
        let mut r: Vec<String> = Vec::new();
        let mut i: usize = 0;
        while i < folders.len()
            invariant
                i <= folders@.len(),
                texts(r@) == unregistered(self@.projects, texts(folders@).subrange(0, i as int)),
            decreases folders@.len() - i,
        {
            let ghost before = texts(folders@).subrange(0, i as int);
            let ghost f = folders@[i as int]@;
            assert(texts(folders@).subrange(0, i as int + 1) =~= before.push(f));
            proof {
                before.lemma_filter_push(f, |g: Seq<char>| !has_path(self@.projects, g));
            }
            let mut registered = false;
            let mut j: usize = 0;
            while j < self.projects.len()
                invariant
                    j <= self.projects@.len(),
                    i < folders@.len(),
                    f == folders@[i as int]@,
                    registered <==> exists|k: int| 0 <= k < j && #[trigger] self@.projects[k].path == f,
                decreases self.projects@.len() - j,
            {
                if self.projects[j].path == folders[i] {
                    registered = true;
                }
                assert(self@.projects[j as int].path == self.projects@[j as int].path@);
                j = j + 1;
            }
            assert(registered == has_path(self@.projects, f));
            if !registered {
                let ghost prev = r@;
                r.push(folders[i].clone());
                assert(texts(r@) =~= texts(prev).push(f));
            }
            i = i + 1;
        }
        assert(texts(folders@).subrange(0, folders@.len() as int) =~= texts(folders@));
        r
    }
}

/// A project found in the first `n` of `ps` is the one found in all of them.
proof fn lemma_find_prefix(ps: Seq<ProjectView>, n: int, name: Seq<char>)
    requires
        0 < n <= ps.len(),
        find_in(ps.subrange(0, n - 1), name) is None,
        ps[n - 1].name == name,
    ensures
        find_in(ps, name) == Some(ps[n - 1]),
    decreases ps.len(),
{
    let pre = ps.subrange(0, n);
    assert(pre.drop_last() =~= ps.subrange(0, n - 1));
    assert(find_in(pre, name) == Some(ps[n - 1]));
    if n < ps.len() {
        assert(ps.drop_last().subrange(0, n - 1) =~= ps.subrange(0, n - 1));
        assert(ps.drop_last()[n - 1] == ps[n - 1]);
        lemma_find_prefix(ps.drop_last(), n, name);
    } else {
        assert(pre =~= ps);
    }
}

} // verus!
