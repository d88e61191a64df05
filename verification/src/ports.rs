use vstd::prelude::*;
use crate::domain::Schema;

verus! {

/// What a catalog entry is: a folder to descend into or a runnable script.
#[derive(Debug, Clone, Copy, PartialEq, Eq, Structural)]
pub enum WorkspaceEntryKind {
    Directory,
    Script,
}

/// One entry of the catalog listing.
#[derive(Debug, Clone)]
pub struct WorkspaceEntry {
    pub path: String,
    pub kind: WorkspaceEntryKind,
}

/// What running a script produced.
#[derive(Debug, Clone)]
pub struct ScriptRunOutput {
    pub stdout: String,
    pub stderr: String,
    pub exit_code: Option<i32>,
    pub success: bool,
}

/// Source of catalog listings and schemas; implemented outside the
/// library by a filesystem-backed repository.
pub trait ScriptRepository {
    fn list_entries(&self, dir: &str) -> Result<Vec<WorkspaceEntry>, String>;

    fn list_scripts_recursive(&self) -> Result<Vec<String>, String>;

    fn read_schema(&self, script: &str) -> Result<Schema, String>;
}

/// Launches a script with arguments; implemented outside the library.
pub trait ScriptRunner {
    fn run(&self, script: &str, args: &Vec<String>) -> Result<ScriptRunOutput, String>;
}

} // verus!
