//! Questions put to the user by the add and remove workflows.

use crate::error::RegistryError;
use vstd::prelude::*;

verus! {

/// Puts a question to the user and returns the line answered, without its
/// surrounding whitespace. The tool answers from the terminal; a script of
/// answers can stand in for it.
pub trait Prompter {
    fn get_input(&self, prompt: &str) -> Result<String, RegistryError>;
}

} // verus!
