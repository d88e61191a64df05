use vstd::prelude::*;
use crate::domain::Schema;
use crate::ports::{ScriptRepository, ScriptRunOutput, ScriptRunner, WorkspaceEntry};

verus! {

/// Ties a catalog source and a runner together for the session: every
/// call goes straight through to the collaborator.
pub struct ScriptService<R: ScriptRepository, N: ScriptRunner> {
    pub repo: R,
    pub runner: N,
}

impl<R: ScriptRepository, N: ScriptRunner> ScriptService<R, N> {
    pub fn new(repo: R, runner: N) -> ScriptService<R, N> {
        ScriptService { repo, runner }
    }

    pub fn list_entries(&self, dir: &str) -> Result<Vec<WorkspaceEntry>, String> {
        self.repo.list_entries(dir)
    }

    pub fn load_schema(&self, script: &str) -> Result<Schema, String> {
        self.repo.read_schema(script)
    }

    pub fn run_script(&self, script: &str, args: &Vec<String>) -> Result<ScriptRunOutput, String> {
        self.runner.run(script, args)
    }
}

} // verus!
