use vstd::prelude::*;
use crate::initcmd::spec_init_args;

verus! {

/// What the scripted `init` entry point was asked to create.
#[derive(Debug)]
pub struct InitOptions {
    pub name: String,
    pub scripts_dir: String,
}

/// Parse the scripted `init` arguments; the grammar is that of
/// `parse_init_args`.
pub fn parse_args(args: &Vec<String>, scripts_dir: String) -> (r: Result<InitOptions, String>)
    ensures
        args@.len() == 0 ==> (r matches Err(e) && e@ == "Missing script name. Use `omakure init <script-name>`."@),
        args@.len() > 0 ==> match r {
            Ok(o) => spec_init_args(args.deep_view(), 0, None) == Ok::<Seq<char>, Seq<char>>(o.name@) && o.scripts_dir@ == scripts_dir@,
            Err(e) => spec_init_args(args.deep_view(), 0, None) == Err::<Seq<char>, Seq<char>>(e@),
        },
{
    match crate::initcmd::parse_init_args(args, scripts_dir) {
        Ok(o) => Ok(InitOptions { name: o.name, scripts_dir: o.scripts_dir }),
        Err(e) => Err(e),
    }
}

} // verus!
