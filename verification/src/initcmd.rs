use vstd::prelude::*;
use crate::runtime::{spec_script_kind, script_kind, spec_rfind, spec_file_name};
use crate::strutil::{
    append_chars, chars_eq, chars_to_string, spec_trim, spec_trim_char, str_to_chars, trim_chars,
    spec_lower,
};
use crate::history::{spec_slug_raw, spec_is_alnum};

verus! {

/// What `init` was asked to create.
#[derive(Debug)]
pub struct InitOptions {
    pub name: String,
    pub scripts_dir: String,
}

/// The result of walking the `init` arguments from index `i` with the
/// name seen so far: the chosen name, or the message refusing the
/// arguments.
pub open spec fn spec_init_args(args: Seq<Seq<char>>, i: int, name: Option<Seq<char>>) -> Result<Seq<char>, Seq<char>>
    decreases args.len() - i,
{
    if i < 0 || i >= args.len() {
        match name {
            Some(n) => Ok(n),
            None => Err("Missing script name"@),
        }
    } else if args[i] == "--name"@ {
        if i + 1 < args.len() {
            spec_init_args(args, i + 2, Some(args[i + 1]))
        } else {
            Err("Missing value for --name"@)
        }
    } else if name is None {
        spec_init_args(args, i + 1, Some(args[i]))
    } else {
        Err("Unknown init arg: "@ + args[i])
    }
}

/// Parse the `init` arguments: one positional or `--name` value names
/// the script; anything else is refused.
pub fn parse_init_args(args: &Vec<String>, scripts_dir: String) -> (r: Result<InitOptions, String>)
    ensures
        args@.len() == 0 ==> (r matches Err(e) && e@ == "Missing script name. Use `omakure init <script-name>`."@),
        args@.len() > 0 ==> match r {
            Ok(o) => spec_init_args(args.deep_view(), 0, None) == Ok::<Seq<char>, Seq<char>>(o.name@) && o.scripts_dir@ == scripts_dir@,
            Err(e) => spec_init_args(args.deep_view(), 0, None) == Err::<Seq<char>, Seq<char>>(e@),
        },
{
    if args.len() == 0 {
        return Err(String::from_str("Missing script name. Use `omakure init <script-name>`."));
    }
    let n = args.len();
    let mut name: Option<String> = None;
    let mut i: usize = 0;
    while i < n
        invariant
            n == args@.len(),
            i <= n,
            spec_init_args(args.deep_view(), 0, None) == spec_init_args(args.deep_view(), i as int, match &name { Some(s) => Some(s@), None => None }),
        decreases n - i,
    {
        proof {
            assert(args.deep_view()[i as int] == args@[i as int]@);
            if i + 1 < n {
                assert(args.deep_view()[i + 1] == args@[i + 1]@);
            }
        }
        if chars_eq(&str_to_chars(args[i].as_str()), &str_to_chars("--name")) {
            if i + 1 < n {
                name = Some(args[i + 1].clone());
                i = i + 2;
            } else {
                return Err(String::from_str("Missing value for --name"));
            }
        } else {
            match &name {
                None => {
                    name = Some(args[i].clone());
                    i = i + 1;
                },
                Some(_) => {
                    let mut msg = str_to_chars("Unknown init arg: ");
                    append_chars(&mut msg, &str_to_chars(args[i].as_str()));
                    return Err(chars_to_string(&msg));
                },
            }
        }
    }
    match name {
        Some(name) => Ok(InitOptions { name, scripts_dir }),
        None => Err(String::from_str("Missing script name")),
    }
}

/// The script identifier a path's stem yields: lowercased alphanumerics
/// with collapsed separators and edge underscores trimmed.
pub open spec fn spec_script_id(path: Seq<char>) -> Seq<char> {
    let name = spec_file_name(path);
    let dot = spec_rfind(name, '.');
    let stem = if dot <= 0 {
        name
    } else {
        name.take(dot)
    };
    spec_trim_char(spec_slug_raw(stem, false), '_')
}

pub fn normalize_script_id(path: &str) -> (r: String)
    ensures
        r@ == spec_script_id(path@),
{
    let cs = str_to_chars(path);
    let name = crate::runtime::file_name_of(&cs);
    proof {
        crate::runtime::lemma_rfind_bounds(name@, '.');
    }
    let stem = match crate::runtime::rfind_char(&name, '.') {
        Some(d) if d > 0 => crate::strutil::subrange_vec(&name, 0, d),
        _ => {
            proof {
                assert(name@.take(name@.len() as int) =~= name@);
            }
            name
        },
    };
    proof {
        assert(stem@.skip(0) =~= stem@);
    }
    let m = stem.len();
    let mut out: Vec<char> = Vec::new();
    let mut prev = false;
    let mut i: usize = 0;
    while i < m
        invariant
            m == stem@.len(),
            i <= m,
            spec_slug_raw(stem@, false) == out@ + spec_slug_raw(stem@.skip(i as int), prev),
        decreases m - i,
    {
        let c = stem[i];
        proof {
            assert(stem@.skip(i as int)[0] == stem@[i as int]);
            assert(stem@.skip(i as int).drop_first() =~= stem@.skip(i + 1));
        }
        if ('0' <= c && c <= '9') || ('a' <= c && c <= 'z') || ('A' <= c && c <= 'Z') {
            out.push(crate::strutil::lower_char(c));
            prev = false;
        } else if !prev {
            out.push('_');
            prev = true;
        }
        proof {
            assert(spec_slug_raw(stem@, false) =~= out@ + spec_slug_raw(stem@.skip(i + 1), prev));
        }
        i = i + 1;
    }
    proof {
        assert(stem@.skip(m as int) =~= Seq::<char>::empty());
        assert(out@ =~= spec_slug_raw(stem@, false));
    }
    chars_to_string(&crate::strutil::trim_char_chars(&out, '_'))
}

/// Whether a `..` component occurs at or after `i`.
pub open spec fn spec_has_parent_component(path: Seq<char>, i: int) -> bool
    decreases path.len() - i,
{
    if i < 0 || i > path.len() {
        false
    } else {
        let j = crate::strutil::spec_find_from(path, '/', i);
        if i <= j <= path.len() {
            let comp = path.subrange(i, j);
            if comp == ".."@ {
                true
            } else if j < path.len() {
                spec_has_parent_component(path, j + 1)
            } else {
                false
            }
        } else {
            false
        }
    }
}

fn has_parent_component(cs: &Vec<char>, i: usize) -> (r: bool)
    requires
        i <= cs@.len(),
    ensures
        r == spec_has_parent_component(cs@, i as int),
    decreases cs@.len() - i,
{
    proof {
        crate::strutil::lemma_find_from_bounds(cs@, '/', i as int);
    }
    let j = crate::strutil::find_from(cs, '/', i);
    let comp = crate::strutil::subrange_vec(cs, i, j);
    if chars_eq(&comp, &str_to_chars("..")) {
        true
    } else if j < cs.len() {
        has_parent_component(cs, j + 1)
    } else {
        false
    }
}

/// What `ensure_script_path` yields: the relative path, a `.bash`
/// extension added when none is there, refused when absolute, when it
/// climbs out, or when the extension maps to no interpreter.
pub open spec fn spec_ensure_path(name: Seq<char>) -> Result<Seq<char>, Seq<char>> {
    if name.len() > 0 && name[0] == '/' {
        Err("Script name must be a relative path"@)
    } else if spec_has_parent_component(name, 0) {
        Err("Script name must not include parent or root components"@)
    } else {
        let withext = if crate::runtime::spec_extension(name) is None {
            name + ".bash"@
        } else {
            name
        };
        if spec_script_kind(withext) is None {
            Err("Unsupported extension. Allowed: bash, sh, ps1, py"@)
        } else {
            Ok(withext)
        }
    }
}

pub fn ensure_script_path(name: &str) -> (r: Result<String, String>)
    ensures
        r matches Ok(p) ==> spec_ensure_path(name@) == Ok::<Seq<char>, Seq<char>>(p@),
        r matches Err(e) ==> spec_ensure_path(name@) == Err::<Seq<char>, Seq<char>>(e@),
{
    let cs = str_to_chars(name);
    if cs.len() > 0 && cs[0] == '/' {
        return Err(String::from_str("Script name must be a relative path"));
    }
    if has_parent_component(&cs, 0) {
        return Err(String::from_str("Script name must not include parent or root components"));
    }
    let has_ext = {
        let nm = crate::runtime::file_name_of(&cs);
        proof {
            crate::runtime::lemma_rfind_bounds(nm@, '.');
        }
        match crate::runtime::rfind_char(&nm, '.') {
            Some(d) => d > 0,
            None => false,
        }
    };
    let mut withext = cs;
    if !has_ext {
        append_chars(&mut withext, &str_to_chars(".bash"));
    }
    let full = chars_to_string(&withext);
    if script_kind(full.as_str()).is_none() {
        return Err(String::from_str("Unsupported extension. Allowed: bash, sh, ps1, py"));
    }
    Ok(full)
}

} // verus!

verus! {

/// The bash template for a new script, with the identifier spliced into
/// the schema name and the placeholder body.
pub fn build_bash_template(script_id: &str) -> (r: String)
    ensures
        r@ == "#!/usr/bin/env bash\nset -euo pipefail\n\n# 1) Schema for the TUI\n# OMAKURE_SCHEMA_START\n# {\n#   \"Name\": \""@ + script_id@ + "\",\n#   \"Description\": \"Describe what this script does.\",\n#   \"Tags\": [],\n#   \"Fields\": [\n#     {\n#       \"Name\": \"target\",\n#       \"Prompt\": \"Target (optional)\",\n#       \"Type\": \"string\",\n#       \"Order\": 1,\n#       \"Required\": false,\n#       \"Arg\": \"--target\"\n#     }\n#   ]\n# }\n# OMAKURE_SCHEMA_END\n\nTARGET=\"\"\n\nwhile [[ $# -gt 0 ]]; do\n  case \"$1\" in\n    --target)\n      TARGET=\"${2:-}\"\n      shift 2\n      ;;\n    *)\n      echo \"Unknown arg: $1\" >&2\n      exit 1\n      ;;\n  esac\ndone\n\necho \"TODO: implement "@ + script_id@ + "\"\n"@,
{
    let mut out = str_to_chars("#!/usr/bin/env bash\nset -euo pipefail\n\n# 1) Schema for the TUI\n# OMAKURE_SCHEMA_START\n# {\n#   \"Name\": \"");
    append_chars(&mut out, &str_to_chars(script_id));
    append_chars(&mut out, &str_to_chars("\",\n#   \"Description\": \"Describe what this script does.\",\n#   \"Tags\": [],\n#   \"Fields\": [\n#     {\n#       \"Name\": \"target\",\n#       \"Prompt\": \"Target (optional)\",\n#       \"Type\": \"string\",\n#       \"Order\": 1,\n#       \"Required\": false,\n#       \"Arg\": \"--target\"\n#     }\n#   ]\n# }\n# OMAKURE_SCHEMA_END\n\nTARGET=\"\"\n\nwhile [[ $# -gt 0 ]]; do\n  case \"$1\" in\n    --target)\n      TARGET=\"${2:-}\"\n      shift 2\n      ;;\n    *)\n      echo \"Unknown arg: $1\" >&2\n      exit 1\n      ;;\n  esac\ndone\n\necho \"TODO: implement "));
    append_chars(&mut out, &str_to_chars(script_id));
    append_chars(&mut out, &str_to_chars("\"\n"));
    chars_to_string(&out)
}

/// The PowerShell template for a new script.
pub fn build_powershell_template(script_id: &str) -> (r: String)
    ensures
        r@ == "# PowerShell script template\n\n# OMAKURE_SCHEMA_START\n# {\n#   \"Name\": \""@ + script_id@ + "\",\n#   \"Description\": \"Describe what this script does.\",\n#   \"Tags\": [],\n#   \"Fields\": [\n#     {\n#       \"Name\": \"target\",\n#       \"Prompt\": \"Target (optional)\",\n#       \"Type\": \"string\",\n#       \"Order\": 1,\n#       \"Required\": false,\n#       \"Arg\": \"--target\"\n#     }\n#   ]\n# }\n# OMAKURE_SCHEMA_END\n\n$Target = \"\"\nfor ($i = 0; $i -lt $args.Length; $i++) {\n  switch ($args[$i]) {\n    \"--target\" {\n      $Target = $args[$i + 1]\n      $i++\n    }\n    default {\n      Write-Error \"Unknown arg: $($args[$i])\"\n      exit 1\n    }\n  }\n}\n\nWrite-Output \"TODO: implement "@ + script_id@ + "\"\n"@,
{
    let mut out = str_to_chars("# PowerShell script template\n\n# OMAKURE_SCHEMA_START\n# {\n#   \"Name\": \"");
    append_chars(&mut out, &str_to_chars(script_id));
    append_chars(&mut out, &str_to_chars("\",\n#   \"Description\": \"Describe what this script does.\",\n#   \"Tags\": [],\n#   \"Fields\": [\n#     {\n#       \"Name\": \"target\",\n#       \"Prompt\": \"Target (optional)\",\n#       \"Type\": \"string\",\n#       \"Order\": 1,\n#       \"Required\": false,\n#       \"Arg\": \"--target\"\n#     }\n#   ]\n# }\n# OMAKURE_SCHEMA_END\n\n$Target = \"\"\nfor ($i = 0; $i -lt $args.Length; $i++) {\n  switch ($args[$i]) {\n    \"--target\" {\n      $Target = $args[$i + 1]\n      $i++\n    }\n    default {\n      Write-Error \"Unknown arg: $($args[$i])\"\n      exit 1\n    }\n  }\n}\n\nWrite-Output \"TODO: implement "));
    append_chars(&mut out, &str_to_chars(script_id));
    append_chars(&mut out, &str_to_chars("\"\n"));
    chars_to_string(&out)
}

/// The Python template for a new script.
pub fn build_python_template(script_id: &str) -> (r: String)
    ensures
        r@ == "#!/usr/bin/env python3\nimport argparse\n\n# OMAKURE_SCHEMA_START\n# {\n#   \"Name\": \""@ + script_id@ + "\",\n#   \"Description\": \"Describe what this script does.\",\n#   \"Tags\": [],\n#   \"Fields\": [\n#     {\n#       \"Name\": \"target\",\n#       \"Prompt\": \"Target (optional)\",\n#       \"Type\": \"string\",\n#       \"Order\": 1,\n#       \"Required\": false,\n#       \"Arg\": \"--target\"\n#     }\n#   ]\n# }\n# OMAKURE_SCHEMA_END\n\nparser = argparse.ArgumentParser()\nparser.add_argument(\"--target\", default=\"\")\nargs = parser.parse_args()\ntarget = args.target or input(\"Target (optional): \")\n\nprint(f\"TODO: implement "@ + script_id@ + "\")\n"@,
{
    let mut out = str_to_chars("#!/usr/bin/env python3\nimport argparse\n\n# OMAKURE_SCHEMA_START\n# {\n#   \"Name\": \"");
    append_chars(&mut out, &str_to_chars(script_id));
    append_chars(&mut out, &str_to_chars("\",\n#   \"Description\": \"Describe what this script does.\",\n#   \"Tags\": [],\n#   \"Fields\": [\n#     {\n#       \"Name\": \"target\",\n#       \"Prompt\": \"Target (optional)\",\n#       \"Type\": \"string\",\n#       \"Order\": 1,\n#       \"Required\": false,\n#       \"Arg\": \"--target\"\n#     }\n#   ]\n# }\n# OMAKURE_SCHEMA_END\n\nparser = argparse.ArgumentParser()\nparser.add_argument(\"--target\", default=\"\")\nargs = parser.parse_args()\ntarget = args.target or input(\"Target (optional): \")\n\nprint(f\"TODO: implement "));
    append_chars(&mut out, &str_to_chars(script_id));
    append_chars(&mut out, &str_to_chars("\")\n"));
    chars_to_string(&out)
}

/// The template for a new script of the given kind.
pub fn build_template(script_id: &str, kind: crate::runtime::ScriptKind) -> (r: String)
    ensures
        kind == crate::runtime::ScriptKind::Bash ==> r@.len() > 0,
        r@.len() > 0,
{
    let r = match kind {
        crate::runtime::ScriptKind::Bash => build_bash_template(script_id),
        crate::runtime::ScriptKind::PowerShell => build_powershell_template(script_id),
        crate::runtime::ScriptKind::Python => build_python_template(script_id),
    };
    proof {
        reveal_strlit("#!/usr/bin/env bash\nset -euo pipefail\n\n# 1) Schema for the TUI\n# OMAKURE_SCHEMA_START\n# {\n#   \"Name\": \"");
        reveal_strlit("# PowerShell script template\n\n# OMAKURE_SCHEMA_START\n# {\n#   \"Name\": \"");
        reveal_strlit("#!/usr/bin/env python3\nimport argparse\n\n# OMAKURE_SCHEMA_START\n# {\n#   \"Name\": \"");
    }
    r
}

} // verus!
