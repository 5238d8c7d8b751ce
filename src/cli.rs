//! The commands of the tool, as its command line states them.

use crate::parse::{Source, SourceType};
use vstd::prelude::*;
use vstd::string::*;

verus! {

/// A parsed command line.
#[derive(Debug)]
pub struct Cli {
    pub command: Commands,
}

/// One command: each runs one operation on the registry.
#[derive(Debug)]
pub enum Commands {
    /// Open a project in the configured editor, fetching it first if needed.
    Open { project_name: String },
    /// Print a project's directory, fetching it first if needed.
    Pwd { project_name: String },
    /// Add an existing directory under the root as a project.
    Add { directory: String },
    /// Remove a project, and its directory.
    Remove { directory: String },
    /// Add a project to be fetched from a git URL.
    AddSource { url: String },
    /// List the projects, with the columns asked for.
    List { path: bool, description: bool, languages: bool, source: bool },
    /// Open the registry document in the configured editor.
    Edit,
    /// Show the folders under the root that no project is stored at.
    Inspect,
}

impl Commands {
    /// Whether the command changes the registry, which is then saved.
    pub fn mutates_registry(&self) -> (r: bool)
        ensures
            r == (self is Add || self is Remove || self is AddSource),
    {
        match self {
            Commands::Add { .. } | Commands::Remove { .. } | Commands::AddSource { .. } => true,
            _ => false,
        }
    }
}

/// The source that `add-source` registers for `url`: a git repository.
pub fn git_source(url: &str) -> (r: Source)
    ensures
        r@.source_type == SourceType::Git,
        r@.url == url@,
{
    Source { source_type: SourceType::Git, url: String::from_str(url) }
}

/// The tool's version, labelled with the commit it was built from.
pub fn version_label(commit_hash: &str) -> (r: String)
    ensures
        r@ == "0.1.0-"@ + commit_hash@,
{
    String::from_str("0.1.0-").concat(commit_hash)
}

} // verus!
