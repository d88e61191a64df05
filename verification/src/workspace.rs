use vstd::prelude::*;
use crate::strutil::{append_chars, chars_to_string, str_to_chars};

verus! {

/// The fixed layout of a scripts workspace: the root folder, the folder
/// of installed flavors, the history folder and the config file.
pub struct Workspace {
    pub root: String,
    pub omaken_dir: String,
    pub history_dir: String,
    pub config_path: String,
}

/// `base` with `/` and `tail` appended.
pub open spec fn spec_path_join(base: Seq<char>, tail: Seq<char>) -> Seq<char> {
    base + seq!['/'] + tail
}

pub fn path_join(base: &str, tail: &str) -> (r: String)
    ensures
        r@ == spec_path_join(base@, tail@),
{
    let mut out = str_to_chars(base);
    out.push('/');
    append_chars(&mut out, &str_to_chars(tail));
    chars_to_string(&out)
}

impl Workspace {
    pub fn new(root: String) -> (r: Workspace)
        ensures
            r.root@ == root@,
            r.omaken_dir@ == spec_path_join(root@, ".omaken"@),
            r.history_dir@ == spec_path_join(root@, ".history"@),
            r.config_path@ == spec_path_join(root@, "omakure.toml"@),
    {
        let omaken_dir = path_join(root.as_str(), ".omaken");
        let history_dir = path_join(root.as_str(), ".history");
        let config_path = path_join(root.as_str(), "omakure.toml");
        Workspace { root, omaken_dir, history_dir, config_path }
    }

    pub fn root(&self) -> (r: &String)
        ensures
            r@ == self.root@,
    {
        &self.root
    }

    pub fn omaken_dir(&self) -> (r: &String)
        ensures
            r@ == self.omaken_dir@,
    {
        &self.omaken_dir
    }

    pub fn history_dir(&self) -> (r: &String)
        ensures
            r@ == self.history_dir@,
    {
        &self.history_dir
    }

    pub fn search_db_path(&self) -> (r: String)
        ensures
            r@ == spec_path_join(self.history_dir@, "search-index.sqlite"@),
    {
        path_join(self.history_dir.as_str(), "search-index.sqlite")
    }

    pub fn config_path(&self) -> (r: &String)
        ensures
            r@ == self.config_path@,
    {
        &self.config_path
    }

    pub fn envs_dir(&self) -> (r: String)
        ensures
            r@ == spec_path_join(self.omaken_dir@, "envs"@),
    {
        path_join(self.omaken_dir.as_str(), "envs")
    }
}

/// The configuration file written into a fresh workspace.
pub fn default_config() -> (r: String)
    ensures
        r@ == "# Omakure workspace configuration\n[workspace]\nversion = 1\n"@,
{
    String::from_str("# Omakure workspace configuration\n[workspace]\nversion = 1\n")
}

} // verus!
