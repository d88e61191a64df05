use vstd::prelude::*;
use crate::strutil::{
    append_chars, chars_eq, chars_to_string, spec_lower, spec_trim, spec_trim_char,
    spec_trim_char_back, str_to_chars, subrange_vec, trim_chars,
};

verus! {

/// Which shell a completion script was asked for.
#[derive(Debug)]
pub struct CompletionOptions {
    pub shell: String,
}

/// Parse the completion arguments: exactly one shell name.
pub fn parse_completion_args(args: &Vec<String>) -> (r: Result<CompletionOptions, String>)
    ensures
        args@.len() == 0 ==> (r matches Err(e) && e@ == "Missing shell name. Use `omakure completion <shell>`."@),
        args@.len() > 1 ==> (r matches Err(e) && e@ == "completion expects a single shell argument"@),
        args@.len() == 1 ==> (r matches Ok(o) && o.shell@ == args@[0]@),
{
    if args.len() == 0 {
        return Err(String::from_str("Missing shell name. Use `omakure completion <shell>`."));
    }
    if args.len() > 1 {
        return Err(String::from_str("completion expects a single shell argument"));
    }
    Ok(CompletionOptions { shell: args[0].clone() })
}

/// What `config` was asked to describe.
#[derive(Debug)]
pub struct ConfigOptions {
    pub scripts_dir: String,
}

/// Parse the config arguments: none are accepted.
pub fn parse_config_args(args: &Vec<String>, scripts_dir: String) -> (r: Result<ConfigOptions, String>)
    ensures
        args@.len() == 0 ==> (r matches Ok(o) && o.scripts_dir@ == scripts_dir@),
        args@.len() > 0 ==> (r matches Err(e) && e@ == "config does not accept arguments"@),
{
    if args.len() > 0 {
        return Err(String::from_str("config does not accept arguments"));
    }
    Ok(ConfigOptions { scripts_dir })
}

/// What `doctor` was asked to check.
#[derive(Debug)]
pub struct DoctorOptions {
    pub scripts_dir: String,
}

/// Parse the doctor arguments: none are accepted.
pub fn parse_doctor_args(args: &Vec<String>, scripts_dir: String) -> (r: Result<DoctorOptions, String>)
    ensures
        args@.len() == 0 ==> (r matches Ok(o) && o.scripts_dir@ == scripts_dir@),
        args@.len() > 0 ==> (r matches Err(e) && e@ == "doctor does not accept arguments"@),
{
    if args.len() > 0 {
        return Err(String::from_str("doctor does not accept arguments"));
    }
    Ok(DoctorOptions { scripts_dir })
}

/// What the script listing was asked for.
#[derive(Debug)]
pub struct ListOptions {
    pub scripts_dir: String,
}

/// Parse the script-listing arguments: none are accepted.
pub fn parse_list_args(args: &Vec<String>, scripts_dir: String) -> (r: Result<ListOptions, String>)
    ensures
        args@.len() == 0 ==> (r matches Ok(o) && o.scripts_dir@ == scripts_dir@),
        args@.len() > 0 ==> (r matches Err(e) && e@ == "scripts does not accept arguments"@),
{
    if args.len() > 0 {
        return Err(String::from_str("scripts does not accept arguments"));
    }
    Ok(ListOptions { scripts_dir })
}

/// What `uninstall` was asked to remove.
#[derive(Debug)]
pub struct UninstallOptions {
    pub scripts_dir: String,
    pub remove_scripts: bool,
}

/// The result of walking the uninstall arguments: whether the scripts
/// folder goes too, or the refusing message.
pub open spec fn spec_uninstall_args(args: Seq<Seq<char>>, i: int, flag: bool) -> Result<bool, Seq<char>>
    decreases args.len() - i,
{
    if i < 0 || i >= args.len() {
        Ok(flag)
    } else if args[i] == "--scripts"@ {
        spec_uninstall_args(args, i + 1, true)
    } else {
        Err("Unknown uninstall arg: "@ + args[i])
    }
}

/// Parse the uninstall arguments: only `--scripts` is accepted.
pub fn parse_uninstall_args(args: &Vec<String>, scripts_dir: String) -> (r: Result<UninstallOptions, String>)
    ensures
        r matches Ok(o) ==> spec_uninstall_args(args.deep_view(), 0, false) == Ok::<bool, Seq<char>>(o.remove_scripts) && o.scripts_dir@ == scripts_dir@,
        r matches Err(e) ==> spec_uninstall_args(args.deep_view(), 0, false) == Err::<bool, Seq<char>>(e@),
{
    let n = args.len();
    let mut flag = false;
    let mut i: usize = 0;
    while i < n
        invariant
            n == args@.len(),
            i <= n,
            spec_uninstall_args(args.deep_view(), 0, false) == spec_uninstall_args(args.deep_view(), i as int, flag),
        decreases n - i,
    {
        proof {
            assert(args.deep_view()[i as int] == args@[i as int]@);
        }
        if chars_eq(&str_to_chars(args[i].as_str()), &str_to_chars("--scripts")) {
            flag = true;
            i = i + 1;
        } else {
            let mut msg = str_to_chars("Unknown uninstall arg: ");
            append_chars(&mut msg, &str_to_chars(args[i].as_str()));
            return Err(chars_to_string(&msg));
        }
    }
    Ok(UninstallOptions { scripts_dir, remove_scripts: flag })
}

/// A Windows path prepared for comparison: trimmed of whitespace and
/// quotes, trailing separators dropped, slashes turned to backslashes,
/// letters lowercased.
pub open spec fn spec_normalize_path(p: Seq<char>) -> Seq<char> {
    let t = spec_trim_char(spec_trim(p), '"');
    let t2 = spec_trim_char_back(spec_trim_char_back(t, '\\'), '/');
    spec_lower(t2.map_values(|c: char| if c == '/' { '\\' } else { c }))
}

pub fn normalize_path(path: &str) -> (r: String)
    ensures
        r@ == spec_normalize_path(path@),
{
    let t = crate::strutil::trim_char_chars(&trim_chars(&str_to_chars(path)), '"');
    let t1 = crate::strutil::trim_char_chars_back(&t, '\\');
    let t2 = crate::strutil::trim_char_chars_back(&t1, '/');
    let mut mapped: Vec<char> = Vec::new();
    let mut i: usize = 0;
    while i < t2.len()
        invariant
            i <= t2@.len(),
            mapped@ == t2@.take(i as int).map_values(|c: char| if c == '/' { '\\' } else { c }),
        decreases t2@.len() - i,
    {
        let c = t2[i];
        if c == '/' {
            mapped.push('\\');
        } else {
            mapped.push(c);
        }
        proof {
            assert(t2@.take(i + 1).map_values(|c: char| if c == '/' { '\\' } else { c }) =~= t2@.take(i as int).map_values(|c: char| if c == '/' { '\\' } else { c }).push(if t2@[i as int] == '/' { '\\' } else { t2@[i as int] }));
        }
        i = i + 1;
    }
    proof {
        assert(t2@.take(t2@.len() as int) =~= t2@);
    }
    chars_to_string(&crate::strutil::lower_chars(&mapped))
}

/// What `update` was asked to fetch.
#[derive(Debug)]
pub struct UpdateOptions {
    pub repo: String,
    pub version: Option<String>,
    pub scripts_dir: String,
}

/// The result of walking the update arguments over the starting repo
/// and version.
pub open spec fn spec_update_args(args: Seq<Seq<char>>, i: int, repo: Seq<char>, version: Option<Seq<char>>) -> Result<(Seq<char>, Option<Seq<char>>), Seq<char>>
    decreases args.len() - i,
{
    if i < 0 || i >= args.len() {
        Ok((repo, version))
    } else if args[i] == "--repo"@ {
        if i + 1 < args.len() {
            spec_update_args(args, i + 2, args[i + 1], version)
        } else {
            Err("Missing value for --repo"@)
        }
    } else if args[i] == "--version"@ {
        if i + 1 < args.len() {
            spec_update_args(args, i + 2, repo, Some(args[i + 1]))
        } else {
            Err("Missing value for --version"@)
        }
    } else {
        Err("Unknown update arg: "@ + args[i])
    }
}

/// Parse the update arguments over the starting repo and version.
fn parse_update_over(args: &Vec<String>, scripts_dir: String, repo_start: String, version_start: Option<String>) -> (r: Result<UpdateOptions, String>)
    ensures
        ({
            let ver0 = match &version_start { Some(v) => Some(v@), None => None::<Seq<char>> };
            match r {
                Ok(o) => (spec_update_args(args.deep_view(), 0, repo_start@, ver0) matches Ok(p) && p.0 == o.repo@ && (match &o.version { Some(v) => p.1 == Some(v@), None => p.1 is None })) && o.scripts_dir@ == scripts_dir@,
                Err(e) => spec_update_args(args.deep_view(), 0, repo_start@, ver0) == Err::<(Seq<char>, Option<Seq<char>>), Seq<char>>(e@),
            }
        }),
{
    let ghost repo0 = repo_start@;
    let ghost ver0 = match &version_start {
        Some(v) => Some(v@),
        None => None::<Seq<char>>,
    };
    let mut repo = repo_start;
    let mut version = version_start;
    let n = args.len();
    let mut i: usize = 0;
    while i < n
        invariant
            n == args@.len(),
            i <= n,
            repo0 == repo_start@,
            ver0 == (match &version_start { Some(v) => Some(v@), None => None::<Seq<char>> }),
            spec_update_args(args.deep_view(), 0, repo0, ver0) == spec_update_args(args.deep_view(), i as int, repo@, match &version { Some(v) => Some(v@), None => None }),
        decreases n - i,
    {
        proof {
            assert(args.deep_view()[i as int] == args@[i as int]@);
            if i + 1 < n {
                assert(args.deep_view()[i + 1] == args@[i + 1]@);
            }
        }
        if chars_eq(&str_to_chars(args[i].as_str()), &str_to_chars("--repo")) {
            if i + 1 < n {
                repo = args[i + 1].clone();
                i = i + 2;
            } else {
                return Err(String::from_str("Missing value for --repo"));
            }
        } else if chars_eq(&str_to_chars(args[i].as_str()), &str_to_chars("--version")) {
            if i + 1 < n {
                version = Some(args[i + 1].clone());
                i = i + 2;
            } else {
                return Err(String::from_str("Missing value for --version"));
            }
        } else {
            let mut msg = str_to_chars("Unknown update arg: ");
            append_chars(&mut msg, &str_to_chars(args[i].as_str()));
            return Err(chars_to_string(&msg));
        }
    }
    Ok(UpdateOptions { repo, version, scripts_dir })
}

/// Parse the update arguments over the defaults the environment gave:
/// `--repo` and `--version` override them.
pub fn parse_update_args(args: &Vec<String>, scripts_dir: String, env_repo: Option<String>, env_version: Option<String>) -> (r: Result<UpdateOptions, String>)
    ensures
        ({
            let repo0 = match &env_repo { Some(v) => v@, None => "This-Is-NPC/omakure"@ };
            let ver0 = match &env_version { Some(v) => Some(v@), None => None::<Seq<char>> };
            match r {
                Ok(o) => (spec_update_args(args.deep_view(), 0, repo0, ver0) matches Ok(p) && p.0 == o.repo@ && (match &o.version { Some(v) => p.1 == Some(v@), None => p.1 is None })) && o.scripts_dir@ == scripts_dir@,
                Err(e) => spec_update_args(args.deep_view(), 0, repo0, ver0) == Err::<(Seq<char>, Option<Seq<char>>), Seq<char>>(e@),
            }
        }),
{
    let repo_start: String = match env_repo {
        Some(v) => v,
        None => String::from_str("This-Is-NPC/omakure"),
    };
    parse_update_over(args, scripts_dir, repo_start, env_version)
}

/// The version text as a release tag: a leading `v` added where there
/// is none.
pub open spec fn spec_version_tag(v: Seq<char>) -> Seq<char> {
    if v.len() > 0 && v[0] == 'v' {
        v
    } else {
        seq!['v'] + v
    }
}

pub fn normalize_version_tag(version: &str) -> (r: String)
    ensures
        r@ == spec_version_tag(version@),
{
    let cs = str_to_chars(version);
    if cs.len() > 0 && cs[0] == 'v' {
        chars_to_string(&cs)
    } else {
        let mut out: Vec<char> = Vec::new();
        out.push('v');
        append_chars(&mut out, &cs);
        chars_to_string(&out)
    }
}

/// The release archive name for a platform: the tag, operating system
/// and architecture, zipped on Windows and tarred elsewhere.
pub fn release_asset(version: &str, os: &str, arch: &str) -> (r: String)
    ensures
        os@ == "windows"@ ==> r@ == "omakure-"@ + version@ + "-"@ + os@ + "-"@ + arch@ + ".zip"@,
        os@ != "windows"@ ==> r@ == "omakure-"@ + version@ + "-"@ + os@ + "-"@ + arch@ + ".tar.gz"@,
{
    let mut out = str_to_chars("omakure-");
    append_chars(&mut out, &str_to_chars(version));
    append_chars(&mut out, &str_to_chars("-"));
    append_chars(&mut out, &str_to_chars(os));
    append_chars(&mut out, &str_to_chars("-"));
    append_chars(&mut out, &str_to_chars(arch));
    if chars_eq(&str_to_chars(os), &str_to_chars("windows")) {
        append_chars(&mut out, &str_to_chars(".zip"));
        proof {
            assert(out@ =~= "omakure-"@ + version@ + "-"@ + os@ + "-"@ + arch@ + ".zip"@);
        }
    } else {
        append_chars(&mut out, &str_to_chars(".tar.gz"));
        proof {
            assert(out@ =~= "omakure-"@ + version@ + "-"@ + os@ + "-"@ + arch@ + ".tar.gz"@);
        }
    }
    chars_to_string(&out)
}

} // verus!
