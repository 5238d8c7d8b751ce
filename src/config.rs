//! The registry's operations: resolving a project to its directory, the add
//! and remove workflows, and what they ask of the user.
//!
//! Each workflow is a sequence of steps. The caller prompts, checks the disk
//! and fetches; each step takes what came of that and says what to do next.

pub mod fetchers;
pub mod prompts;

use crate::error::RegistryError;
use crate::listing::{header_of, is_sorted_order, project_table, row_of, Columns, ProjectTable};
use crate::paths::{is_within, join_path, path_join, register, relative_to};
use crate::parse::{
    default_registry, find_in, has_name, lemma_find_in, names_unique, Project, ProjectConfig, ProjectConfigView,
    ProjectView, Source, SourceType, SourceView,
};
use crate::text::{lower_of, lowercase, texts};
use fetchers::{get_fetcher, Fetcher, GitFetcher};
use prompts::Prompter;
use vstd::prelude::*;
use vstd::string::*;

verus! {

/// The registry of one run of the tool.
pub struct Config {
    config: ProjectConfig,
}

impl View for Config {
    type V = ProjectConfigView;

    closed spec fn view(&self) -> ProjectConfigView {
        self.config@
    }
}

/// Relies on `dirs::home_dir`: the user's home directory, where it can be
/// determined and is valid UTF-8. Nothing is promised of its value.
#[verifier::external_body]
fn home_directory() -> (r: Option<String>) {
    dirs::home_dir().and_then(|p| p.to_str().map(|s| s.to_string()))
}

/// Relies on `dirs::config_dir`: the user's configuration directory, where it
/// can be determined and is valid UTF-8. Nothing is promised of its value.
#[verifier::external_body]
fn config_directory() -> (r: Option<String>) {
    dirs::config_dir().and_then(|p| p.to_str().map(|s| s.to_string()))
}

/// The registry document's place within the configuration directory.
pub open spec fn config_file_in(config_dir: Seq<char>) -> Seq<char> {
    path_join(config_dir, "project-manager/projects.json"@)
}

/// The path of the registry document within the configuration directory
/// `config_dir`.
pub fn config_file_path_in(config_dir: &str) -> (r: String)
    ensures
        r@ == config_file_in(config_dir@),
{
    join_path(config_dir, "project-manager/projects.json")
}

/// The path of the registry document, within the user's configuration
/// directory.
pub fn get_config_file_path() -> (r: Result<String, RegistryError>)
    ensures
        r matches Ok(p) ==> exists|c: Seq<char>| p@ == #[trigger] config_file_in(c),
        r matches Err(e) ==> e == RegistryError::HomeOrConfigDirUnresolvable,
{
    match config_directory() {
        Some(dir) => Ok(config_file_path_in(dir.as_str())),
        None => Err(RegistryError::HomeOrConfigDirUnresolvable),
    }
}

/// A project on its way into the registry: where it will live, where it comes
/// from, and its name once the user has given one that is free.
pub struct NewProject {
    path: String,
    source: Option<Source>,
    name: Option<String>,
}

pub struct NewProjectView {
    pub path: Seq<char>,
    pub source: Option<SourceView>,
    pub name: Option<Seq<char>>,
}

impl View for NewProject {
    type V = NewProjectView;

    closed spec fn view(&self) -> NewProjectView {
        NewProjectView {
            path: self.path@,
            source: match self.source {
                Some(s) => Some(s@),
                None => None,
            },
            name: match self.name {
                Some(n) => Some(n@),
                None => None,
            },
        }
    }
}

impl NewProject {
    /// Where the project will live, relative to the root directory.
    pub fn path(&self) -> (r: &str)
        ensures
            r@ == self@.path,
    {
        self.path.as_str()
    }

    /// The name given so far, if any.
    pub fn name(&self) -> (r: Option<&str>)
        ensures
            r is None <==> self@.name is None,
            r matches Some(n) ==> self@.name == Some(n@),
    {
        match &self.name {
            Some(n) => Some(n.as_str()),
            None => None,
        }
    }

    /// Where the project's files can be fetched from again, if known.
    pub fn source(&self) -> (r: Option<&Source>)
        ensures
            r is None <==> self@.source is None,
            r matches Some(s) ==> self@.source == Some(s@),
    {
        match &self.source {
            Some(s) => Some(s),
            None => None,
        }
    }

    /// The same draft, with `source` as where the project comes from.
    pub fn with_source(self, source: Option<Source>) -> (r: NewProject)
        ensures
            r@ == (NewProjectView {
                source: match source {
                    Some(s) => Some(s@),
                    None => None,
                },
                ..self@
            }),
    {
        NewProject { path: self.path, source, name: self.name }
    }
}

/// The question the add workflow puts next: the name while the draft has
/// none, then the description.
pub open spec fn add_question_text(draft: NewProjectView) -> Seq<char> {
    if draft.name is None {
        "Enter project name: "@
    } else {
        "Enter project description: "@
    }
}

/// The question the add workflow puts next for `draft`.
pub fn add_question(draft: &NewProject) -> (r: &'static str)
    ensures
        r@ == add_question_text(draft@),
{
    if draft.name.is_none() {
        "Enter project name: "
    } else {
        "Enter project description: "
    }
}

/// The project that `draft`, named `name`, becomes with `description`.
pub open spec fn completed(draft: NewProjectView, name: Seq<char>, description: Seq<char>) -> ProjectView {
    ProjectView {
        name,
        path: draft.path,
        description: Some(description),
        languages: Seq::empty(),
        source: draft.source,
    }
}

/// What the add workflow does after an answer.
pub enum AddStep {
    /// The name is taken: ask for another.
    NameTaken(NewProject),
    /// The name is free: ask for the description.
    AskDescription(NewProject),
    /// The project has been added to the registry.
    Added,
}

/// A project on its way out of the registry.
pub struct Removal {
    name: String,
    directory: String,
    directory_confirmed: bool,
}

pub struct RemovalView {
    pub name: Seq<char>,
    pub directory: Seq<char>,
    /// Whether the user has agreed to delete the directory.
    pub directory_confirmed: bool,
}

impl View for Removal {
    type V = RemovalView;

    closed spec fn view(&self) -> RemovalView {
        RemovalView {
            name: self.name@,
            directory: self.directory@,
            directory_confirmed: self.directory_confirmed,
        }
    }
}

impl Removal {
    /// The name of the project being removed.
    pub fn name(&self) -> (r: &str)
        ensures
            r@ == self@.name,
    {
        self.name.as_str()
    }

    /// The project's directory.
    pub fn directory(&self) -> (r: &str)
        ensures
            r@ == self@.directory,
    {
        self.directory.as_str()
    }

    /// Whether the user has agreed to delete the directory.
    pub fn directory_confirmed(&self) -> (r: bool)
        ensures
            r == self@.directory_confirmed,
    {
        self.directory_confirmed
    }
}

/// The question the remove workflow puts next: whether to delete the
/// directory at all, then whether to remove the project from the registry.
/// Both name the project.
pub open spec fn remove_question_text(removal: RemovalView) -> Seq<char> {
    if removal.directory_confirmed {
        "Do you want to remove "@ + removal.name + " from the project list? (y/N): "@
    } else {
        "Are you sure you want to remove "@ + removal.name + "? (y/N): "@
    }
}

/// The question the remove workflow puts next for `removal`.
pub fn remove_question(removal: &Removal) -> (r: String)
    ensures
        r@ == remove_question_text(removal@),
{
    if removal.directory_confirmed {
        String::from_str("Do you want to remove ").concat(removal.name.as_str()).concat(
            " from the project list? (y/N): ",
        )
    } else {
        String::from_str("Are you sure you want to remove ").concat(removal.name.as_str()).concat(
            "? (y/N): ",
        )
    }
}

/// What the remove workflow does after an answer.
pub enum RemoveStep {
    /// Ask whether to remove the project from the registry too.
    ConfirmEntry(Removal),
    /// Stop: nothing is removed.
    Aborted,
    /// Delete this directory, recursively, if it exists.
    DeleteDirectory(String),
}

/// An answer, lowercased, that agrees.
pub open spec fn is_yes(lowered: Seq<char>) -> bool {
    lowered == seq!['y'] || lowered == seq!['y', 'e', 's']
}

/// Whether `lowered`, an answer already lowercased, agrees: `y` or `yes`.
pub fn is_confirmation(lowered: &str) -> (r: bool)
    ensures
        r == is_yes(lowered@),
{
    let n = lowered.unicode_len();
    if n == 1 {
        let r = lowered.get_char(0) == 'y';
        proof {
            if r {
                assert(lowered@ =~= seq!['y']);
            }
        }
        r
    } else if n == 3 {
        let r = lowered.get_char(0) == 'y' && lowered.get_char(1) == 'e' && lowered.get_char(2)
            == 's';
        proof {
            if r {
                assert(lowered@ =~= seq!['y', 'e', 's']);
            }
            if lowered@ == seq!['y', 'e', 's'] {
                assert(lowered@[1] == 'e');
                assert(lowered@[2] == 's');
            }
        }
        r
    } else {
        assert(seq!['y'].len() == 1 && seq!['y', 'e', 's'].len() == 3);
        false
    }
}

/// The projects of `ps` not named `name`, in their order.
pub open spec fn without_name(ps: Seq<ProjectView>, name: Seq<char>) -> Seq<ProjectView> {
    ps.filter(|p: ProjectView| p.name != name)
}

/// How a project comes to have its directory.
pub enum Materialization {
    /// The directory is there: nothing is fetched.
    Present,
    /// Fetch the project with `fetcher` from `url` into its directory.
    Fetch { fetcher: Fetcher, url: String },
}

/// The text after the last `/` of `url`; all of it when it has none.
pub open spec fn last_segment(url: Seq<char>) -> Seq<char>
    decreases url.len(),
{
    if url.len() == 0 {
        Seq::empty()
    } else if url.last() == '/' {
        Seq::empty()
    } else {
        last_segment(url.drop_last()).push(url.last())
    }
}

/// The directory a project fetched from `url` is given: the last segment of
/// the URL, without a trailing `.git`.
pub open spec fn source_dir_name(url: Seq<char>) -> Seq<char> {
    let seg = last_segment(url);
    if seg.len() >= 4 && seg.subrange(seg.len() - 4, seg.len() as int) == seq!['.', 'g', 'i', 't'] {
        seg.subrange(0, seg.len() - 4)
    } else {
        seg
    }
}

/// A relative path that leads out of the directory it is taken from: `..`.
pub open spec fn is_parent_step(n: Seq<char>) -> bool {
    n == seq!['.', '.']
}

/// Whether `n` is `..`.
pub fn parent_step(n: &str) -> (r: bool)
    ensures
        r == is_parent_step(n@),
{
    if n.unicode_len() == 2 && n.get_char(0) == '.' && n.get_char(1) == '.' {
        assert(n@ =~= seq!['.', '.']);
        return true;
    }
    proof {
        if n@ == seq!['.', '.'] {
            assert(n@[0] == '.' && n@[1] == '.');
        }
    }
    false
}

/// The directory a project fetched from `url` is given.
pub fn source_dir(url: &str) -> (r: String)
    ensures
        r@ == source_dir_name(url@),
{
    let n = url.unicode_len();
    let mut start: usize = 0;
    let mut i: usize = 0;
    assert(url@.subrange(0, 0) =~= Seq::<char>::empty());
    while i < n
        invariant
            n == url@.len(),
            start <= i <= n,
            last_segment(url@.subrange(0, i as int)) == url@.subrange(start as int, i as int),
        decreases n - i,
    {
        let ghost next = url@.subrange(0, i as int + 1);
        assert(next.drop_last() =~= url@.subrange(0, i as int));
        if url.get_char(i) == '/' {
            start = i + 1;
            assert(url@.subrange(start as int, i as int + 1) =~= Seq::<char>::empty());
        } else {
            assert(url@.subrange(start as int, i as int).push(url@[i as int]) =~= url@.subrange(
                start as int,
                i as int + 1,
            ));
        }
        i = i + 1;
    }
    assert(url@.subrange(0, n as int) =~= url@);
    let seg = url.substring_char(start, n);
    let m = seg.unicode_len();
    if m >= 4 && seg.get_char(m - 4) == '.' && seg.get_char(m - 3) == 'g' && seg.get_char(m - 2)
        == 'i' && seg.get_char(m - 1) == 't' {
        assert(seg@.subrange(m - 4, m as int) =~= seq!['.', 'g', 'i', 't']);
        return String::from_str(seg.substring_char(0, m - 4));
    }
    proof {
        if m >= 4 && seg@.subrange(m - 4, m as int) == seq!['.', 'g', 'i', 't'] {
            assert(seg@[m - 4] == seg@.subrange(m - 4, m as int)[0]);
            assert(seg@[m - 3] == seg@.subrange(m - 4, m as int)[1]);
            assert(seg@[m - 2] == seg@.subrange(m - 4, m as int)[2]);
            assert(seg@[m - 1] == seg@.subrange(m - 4, m as int)[3]);
        }
    }
    String::from_str(seg)
}

/// The keys a listing is ordered by: each project's name, lowercased.
pub open spec fn lowered_names(ps: Seq<ProjectView>) -> Seq<Seq<char>> {
    ps.map_values(|p: ProjectView| lower_of(p.name))
}

/// The add workflow's step on `answer`, taking the registry from `before` to
/// `after`. While the draft has no name, the answer is the name: refused if a
/// project has it, else kept. Then the answer is the description and the
/// project is appended, unless its name was taken meanwhile. Only appending
/// changes the registry.
pub open spec fn add_step(
    before: ProjectConfigView,
    draft: NewProjectView,
    answer: Seq<char>,
    after: ProjectConfigView,
    r: AddStep,
) -> bool {
    match draft.name {
        None => after == before && if has_name(before.projects, answer) {
            r matches AddStep::NameTaken(d) && d@ == draft
        } else {
            r matches AddStep::AskDescription(d) && d@ == (NewProjectView {
                name: Some(answer),
                ..draft
            })
        },
        Some(name) => if has_name(before.projects, name) {
            &&& after == before
            &&& r matches AddStep::NameTaken(d) && d@ == (NewProjectView { name: None, ..draft })
        } else {
            &&& after == (ProjectConfigView {
                projects: before.projects.push(completed(draft, name, answer)),
                ..before
            })
            &&& find_in(after.projects, name) == Some(completed(draft, name, answer))
            &&& r is Added
        },
    }
}

/// The remove workflow's step on `answer`, taking the registry from `before`
/// to `after`. First the answer decides whether to go on: declining stops
/// with nothing changed. Then the directory is deleted either way, and the
/// project leaves the registry only if the answer agrees.
pub open spec fn remove_step(
    before: ProjectConfigView,
    removal: RemovalView,
    answer: Seq<char>,
    after: ProjectConfigView,
    r: RemoveStep,
) -> bool {
    if !removal.directory_confirmed {
        &&& after == before
        &&& if is_yes(lower_of(answer)) {
            r matches RemoveStep::ConfirmEntry(rm) && rm@ == (RemovalView {
                directory_confirmed: true,
                ..removal
            })
        } else {
            r is Aborted
        }
    } else {
        &&& r matches RemoveStep::DeleteDirectory(d) && d@ == removal.directory
        &&& after == if is_yes(lower_of(answer)) {
            ProjectConfigView { projects: without_name(before.projects, removal.name), ..before }
        } else {
            before
        }
    }
}

/// Declining a question of the remove workflow: at the first question nothing
/// changes and nothing is deleted; at the second the directory is deleted and
/// the project is still found by its name, as it was before.
pub proof fn lemma_remove_declined(
    before: ProjectConfigView,
    removal: RemovalView,
    answer: Seq<char>,
    after: ProjectConfigView,
    r: RemoveStep,
)
    requires
        remove_step(before, removal, answer, after, r),
        !is_yes(lower_of(answer)),
    ensures
        !removal.directory_confirmed ==> after == before && r is Aborted,
        removal.directory_confirmed ==> r is DeleteDirectory && find_in(after.projects, removal.name)
            == find_in(before.projects, removal.name),
{
}

/// A project appended under a name no project has is the one found by it.
pub proof fn lemma_find_after_add(ps: Seq<ProjectView>, p: ProjectView)
    requires
        !has_name(ps, p.name),
    ensures
        find_in(ps.push(p), p.name) == Some(p),
{
    lemma_find_in(ps, p.name);
    assert(ps.push(p).drop_last() =~= ps);
}

/// Appending a project under a name no project has keeps the names unique.
pub proof fn lemma_add_keeps_names_unique(ps: Seq<ProjectView>, p: ProjectView)
    requires
        names_unique(ps),
        !has_name(ps, p.name),
    ensures
        names_unique(ps.push(p)),
{
    let qs = ps.push(p);
    assert forall|i: int, j: int| 0 <= i < j < qs.len() implies #[trigger] qs[i].name
        != #[trigger] qs[j].name by {
        if j == ps.len() {
            assert(qs[i] == ps[i]);
            if ps[i].name == p.name {
                assert(has_name(ps, p.name));
            }
        } else {
            assert(qs[i] == ps[i] && qs[j] == ps[j]);
        }
    }
}

impl Config {
    /// The registry as it was loaded, or a fresh one where there was none to
    /// load or it could not be read.
    pub fn new(loaded: Option<ProjectConfig>) -> (r: Config)
        ensures
            match loaded {
                Some(c) => r@ == c@,
                None => r@ == default_registry(),
            },
    {
        let config = match loaded {
            Some(cfg) => cfg,
            None => ProjectConfig::new(),
        };
        Config { config }
    }

    pub fn inner(&self) -> (r: &ProjectConfig)
        ensures
            r@ == self@,
    {
        &self.config
    }

    pub fn inner_mut(&mut self) -> (r: &mut ProjectConfig)
        ensures
            r@ == old(self)@,
            final(self)@ == final(r)@,
    {
        &mut self.config
    }

    /// The root directory under `home`, the user's home directory.
    pub fn root_directory_in(&self, home: &str) -> (r: String)
        ensures
            r@ == path_join(home@, self@.root_dir),
    {
        join_path(home, self.config.root_dir.as_str())
    }

    /// The root directory under the user's home directory.
    pub fn get_root_directory(&self) -> (r: Result<String, RegistryError>)
        ensures
            r matches Ok(p) ==> exists|h: Seq<char>| p@ == #[trigger] path_join(h, self@.root_dir),
            r matches Err(e) ==> e == RegistryError::HomeOrConfigDirUnresolvable,
    {
        match home_directory() {
            Some(home) => Ok(self.root_directory_in(home.as_str())),
            None => Err(RegistryError::HomeOrConfigDirUnresolvable),
        }
    }

    /// The directory of a project stored at `project_path`, under `root`.
    pub fn get_project_directory(&self, root: &str, project_path: &str) -> (r: String)
        ensures
            r@ == path_join(root@, project_path@),
    {
        join_path(root, project_path)
    }

    /// The directory of the project named `project_name`, under `root`.
    pub fn locate_project(&self, root: &str, project_name: &str) -> (r: Result<String, RegistryError>)
        ensures
            match find_in(self@.projects, project_name@) {
                None => r == Err::<String, RegistryError>(RegistryError::NotFound),
                Some(p) => r matches Ok(d) && d@ == path_join(root@, p.path),
            },
    {
        match self.config.find_project(project_name) {
            Some(project) => Ok(self.get_project_directory(root, project.path.as_str())),
            None => Err(RegistryError::NotFound),
        }
    }

    /// What it takes for the project named `project_name` to have its
    /// directory, given whether the directory exists. Nothing is fetched where
    /// it does.
    pub fn resolve_or_fetch(&self, project_name: &str, directory_exists: bool) -> (r: Result<
        Materialization,
        RegistryError,
    >)
        ensures
            match find_in(self@.projects, project_name@) {
                None => r == Err::<Materialization, RegistryError>(RegistryError::NotFound),
                Some(p) => if directory_exists {
                    r matches Ok(Materialization::Present)
                } else {
                    match p.source {
                        None => r == Err::<Materialization, RegistryError>(
                            RegistryError::SourceUnavailable,
                        ),
                        Some(s) => if s.source_type == SourceType::Git {
                            r matches Ok(Materialization::Fetch { fetcher, url }) && fetcher == Fetcher::Git(
                                GitFetcher,
                            ) && url@ == s.url
                        } else {
                            r == Err::<Materialization, RegistryError>(
                                RegistryError::UnsupportedSourceType,
                            )
                        },
                    }
                },
            },
    {
        let project = match self.config.find_project(project_name) {
            Some(p) => p,
            None => return Err(RegistryError::NotFound),
        };
        if directory_exists {
            return Ok(Materialization::Present);
        }
        match &project.source {
            None => Err(RegistryError::SourceUnavailable),
            Some(source) => match get_fetcher(source) {
                Some(fetcher) => Ok(Materialization::Fetch { fetcher, url: source.url.clone() }),
                None => Err(RegistryError::UnsupportedSourceType),
            },
        }
    }

    /// Starts adding the directory `project_dir`, which must lie within `root`.
    /// `project_dir` is canonical. Where its files can be fetched from again
    /// is attached afterwards, with `NewProject::with_source`.
    pub fn add_project(&self, root: &str, project_dir: &str) -> (r: Result<NewProject, RegistryError>)
        ensures
            r is Ok <==> is_within(project_dir@, root@),
            r matches Ok(d) ==> d@ == (NewProjectView {
                path: relative_to(project_dir@, root@),
                source: None,
                name: None,
            }),
            r matches Err(e) ==> e == RegistryError::PathOutsideRoot,
    {
        let path = register(project_dir, root)?;
        Ok(NewProject { path, source: None, name: None })
    }

    /// Starts adding a project to be fetched from `source`: its directory is
    /// named after the last segment of the source's URL. Only a name that
    /// leads out of the root, `..`, is refused.
    pub fn add_project_from_source(&self, source: Source) -> (r: Result<NewProject, RegistryError>)
        ensures
            r is Ok <==> !is_parent_step(source_dir_name(source@.url)),
            r matches Ok(d) ==> d@ == (NewProjectView {
                path: source_dir_name(source@.url),
                source: Some(source@),
                name: None,
            }),
            r matches Err(e) ==> e == RegistryError::PathOutsideRoot,
    {
        let path = source_dir(source.url.as_str());
        if parent_step(path.as_str()) {
            return Err(RegistryError::PathOutsideRoot);
        }
        Ok(NewProject { path, source: Some(source), name: None })
    }

    /// Takes the user's answer to the add workflow's current question: the
    /// name while `draft` has none, then the description, after which the
    /// project is appended. A name that is taken is refused and asked again.
    pub fn answer_add(&mut self, draft: NewProject, answer: String) -> (r: AddStep)
        ensures
            names_unique(old(self)@.projects) ==> names_unique(final(self)@.projects),
            add_step(old(self)@, draft@, answer@, final(self)@, r),
    {
        let ghost d0 = draft@;
        let NewProject { path, source, name } = draft;
        proof {
            lemma_find_in(self@.projects, answer@);
        }
        match name {
            None => {
                if self.config.find_project(answer.as_str()).is_some() {
                    let d = NewProject { path, source, name: None };
                    assert(d@ == d0);
                    AddStep::NameTaken(d)
                } else {
                    AddStep::AskDescription(NewProject { path, source, name: Some(answer) })
                }
            },
            Some(name) => {
                proof {
                    lemma_find_in(self@.projects, name@);
                }
                if self.config.find_project(name.as_str()).is_some() {
                    AddStep::NameTaken(NewProject { path, source, name: None })
                } else {
                    let project = Project {
                        name,
                        path,
                        description: Some(answer),
                        languages: Vec::new(),
                        source,
                    };
                    assert(project@ == completed(d0, d0.name->0, answer@)) by {
                        assert(project@.languages =~= Seq::<Seq<char>>::empty());
                    }
                    proof {
                        lemma_find_after_add(self@.projects, project@);
                        if names_unique(self@.projects) {
                            lemma_add_keeps_names_unique(self@.projects, project@);
                        }
                    }
                    self.config.add_project(project);
                    AddStep::Added
                }
            },
        }
    }

    /// Starts removing the project named `project_name`, whose directory lies
    /// under `root`.
    pub fn remove_project(&self, root: &str, project_name: &str) -> (r: Result<Removal, RegistryError>)
        ensures
            match find_in(self@.projects, project_name@) {
                None => r == Err::<Removal, RegistryError>(RegistryError::NotFound),
                Some(p) => r matches Ok(rm) && rm@ == (RemovalView {
                    name: project_name@,
                    directory: path_join(root@, p.path),
                    directory_confirmed: false,
                }),
            },
    {
        let directory = self.locate_project(root, project_name)?;
        Ok(Removal { name: String::from_str(project_name), directory, directory_confirmed: false })
    }

    /// Takes the user's answer to the remove workflow's current question.
    /// First: delete the directory at all? Declining stops with nothing
    /// changed. Then: remove the project from the registry too? Either way the
    /// directory is deleted; the project stays registered unless the answer
    /// agrees.
    pub fn answer_remove(&mut self, removal: Removal, answer: &str) -> (r: RemoveStep)
        ensures
            remove_step(old(self)@, removal@, answer@, final(self)@, r),
    {
        let lowered = lowercase(answer);
        let yes = is_confirmation(lowered.as_str());
        let Removal { name, directory, directory_confirmed } = removal;
        if !directory_confirmed {
            if yes {
                return RemoveStep::ConfirmEntry(
                    Removal { name, directory, directory_confirmed: true },
                );
            } else {
                return RemoveStep::Aborted;
            }
        }
        if yes {
            self.remove_named(name.as_str());
        }
        RemoveStep::DeleteDirectory(directory)
    }

    /// Removes every project named `name`.
    fn remove_named(&mut self, name: &str)
        ensures
            final(self)@ == (ProjectConfigView {
                projects: without_name(old(self)@.projects, name@),
                ..old(self)@
            }),
    {
        let mut rest: Vec<Project> = Vec::new();
        std::mem::swap(&mut self.config.projects, &mut rest);
        let ghost all = old(self)@.projects;
        let ghost keep = |p: ProjectView| p.name != name@;
        let mut kept: Vec<Project> = Vec::new();
        let ghost mut j: int = 0;
        assert(all.subrange(0, 0).filter(keep) =~= Seq::<ProjectView>::empty());
        while rest.len() > 0
            invariant
                keep == (|p: ProjectView| p.name != name@),
                0 <= j <= all.len(),
                rest@.len() == all.len() - j,
                forall|k: int| 0 <= k < rest@.len() ==> #[trigger] rest@[k]@ == all[j + k],
                kept@.map_values(|p: Project| p@) == all.subrange(0, j).filter(keep),
                self.config.version@ == old(self)@.version,
                self.config.editor@ == old(self)@.editor,
                self.config.root_dir@ == old(self)@.root_dir,
            decreases rest@.len(),
        {
            let ghost before = all.subrange(0, j);
            assert(all.subrange(0, j + 1) =~= before.push(all[j]));
            proof {
                before.lemma_filter_push(all[j], keep);
            }
            let ghost prev = kept@;
            let ghost prev_rest = rest@;
            let p = rest.remove(0);
            assert(p@ == all[j]);
            if !crate::text::text_eq(p.name.as_str(), name) {
                kept.push(p);
                assert(kept@.map_values(|p: Project| p@) =~= prev.map_values(|p: Project| p@).push(
                    all[j],
                ));
                assert(kept@.map_values(|p: Project| p@) == all.subrange(0, j + 1).filter(keep));
            } else {
                assert(kept@.map_values(|p: Project| p@) == all.subrange(0, j + 1).filter(keep));
            }
            proof {
                assert forall|k: int| 0 <= k < rest@.len() implies #[trigger] rest@[k]@ == all[j + 1
                    + k] by {
                    assert(rest@[k] == prev_rest[k + 1]);
                }
                j = j + 1;
            }
        }
        assert(all.subrange(0, all.len() as int) =~= all);
        self.config.projects = kept;
    }

    /// The listing of the registry: a row per project, ordered by name
    /// without regard to case (projects whose names differ only in case keep
    /// their order), with the columns asked for.
    pub fn list_projects(&self, path: bool, description: bool, languages: bool, source: bool) -> (r:
        ProjectTable)
        ensures
            ({
                let c = Columns { path, description, languages, source };
                &&& texts(r.header@) == header_of(c)
                &&& exists|order: Seq<usize>|
                    {
                        &&& is_sorted_order(lowered_names(self@.projects), order)
                        &&& r.rows@.len() == order.len()
                        &&& forall|k: int|
                            0 <= k < order.len() ==> texts(#[trigger] r.rows@[k]@) == row_of(
                                self@.projects[order[k] as int],
                                c,
                            )
                    }
            }),
    {
        let projects = &self.config.projects;
        let mut keys: Vec<String> = Vec::new();
        let mut i: usize = 0;
        while i < projects.len()
            invariant
                projects == &self.config.projects,
                i <= projects@.len(),
                texts(keys@) == lowered_names(self@.projects).subrange(0, i as int),
            decreases projects@.len() - i,
        {
            let ghost prev = keys@;
            keys.push(lowercase(projects[i].name.as_str()));
            assert(texts(keys@) =~= texts(prev).push(lower_of(self@.projects[i as int].name)));
            assert(texts(keys@) =~= lowered_names(self@.projects).subrange(0, i as int + 1));
            i = i + 1;
        }
        assert(texts(keys@) =~= lowered_names(self@.projects));
        project_table(projects, &keys, Columns { path, description, languages, source })
    }

    /// Asks `prompter` the add workflow's current question, `add_question`
    /// of `draft`, and takes the answer as `answer_add` does. Where the
    /// prompter fails, nothing changes.
    pub fn prompt_add<P: Prompter>(&mut self, prompter: &P, draft: NewProject) -> (r: Result<
        AddStep,
        RegistryError,
    >)
        ensures
            names_unique(old(self)@.projects) ==> names_unique(final(self)@.projects),
            r is Err ==> final(self)@ == old(self)@,
            r matches Ok(step) ==> exists|answer: Seq<char>|
                #[trigger] add_step(old(self)@, draft@, answer, final(self)@, step),
    {
        let question = add_question(&draft);
        match prompter.get_input(question) {
            Ok(answer) => {
                let ghost d = draft@;
                let ghost a = answer@;
                let step = self.answer_add(draft, answer);
                assert(add_step(old(self)@, d, a, self@, step));
                Ok(step)
            },
            Err(e) => Err(e),
        }
    }

    /// Asks `prompter` the remove workflow's current question,
    /// `remove_question` of `removal`, and takes the answer as
    /// `answer_remove` does. Where the prompter fails, nothing changes.
    pub fn prompt_remove<P: Prompter>(&mut self, prompter: &P, removal: Removal) -> (r: Result<
        RemoveStep,
        RegistryError,
    >)
        ensures
            r is Err ==> final(self)@ == old(self)@,
            r matches Ok(step) ==> exists|answer: Seq<char>|
                #[trigger] remove_step(old(self)@, removal@, answer, final(self)@, step),
    {
        let question = remove_question(&removal);
        match prompter.get_input(question.as_str()) {
            Ok(answer) => {
                let ghost rm = removal@;
                let step = self.answer_remove(removal, answer.as_str());
                assert(remove_step(old(self)@, rm, answer@, self@, step));
                Ok(step)
            },
            Err(e) => Err(e),
        }
    }
}

} // verus!
