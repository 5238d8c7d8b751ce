//! Which way a project's source is fetched, by the kind of the source.
//!
//! Adding a kind of source that can be fetched means adding its fetcher here
//! and its entry in `get_fetcher`; nothing else changes.

use crate::error::RegistryError;
use crate::parse::{Source, SourceType};
use vstd::prelude::*;

verus! {

/// Fetches a project from a git repository: a full clone of the source's URL
/// into the project's directory, authenticated by the user's SSH agent.
#[derive(Debug, Clone, Copy, PartialEq, Eq, Structural)]
pub struct GitFetcher;

/// The ways of fetching a project, one per kind of source that can be
/// fetched.
#[derive(Debug, Clone, Copy, PartialEq, Eq, Structural)]
pub enum Fetcher {
    Git(GitFetcher),
}

/// The fetcher for `source`, where its kind can be fetched at all.
pub fn get_fetcher(source: &Source) -> (r: Option<Fetcher>)
    ensures
        r is Some <==> source.source_type == SourceType::Git,
        source.source_type == SourceType::Git ==> r == Some(Fetcher::Git(GitFetcher)),
{
    match source.source_type {
        SourceType::Git => Some(Fetcher::Git(GitFetcher)),
        SourceType::Web => None,
    }
}

/// The error a failed fetch stands for: `CredentialsError` where the fetch
/// could not authenticate, `IoError` for any other failure.
pub fn fetch_failure(authentication: bool, message: String) -> (r: RegistryError)
    ensures
        authentication ==> r == RegistryError::CredentialsError(message),
        !authentication ==> r == RegistryError::IoError(message),
{
    if authentication {
        RegistryError::CredentialsError(message)
    } else {
        RegistryError::IoError(message)
    }
}

} // verus!
