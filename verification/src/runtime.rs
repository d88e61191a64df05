use vstd::prelude::*;
use crate::strutil::{chars_eq, lower_chars, str_to_chars, subrange_vec, spec_lower};

verus! {

/// The interpreters this tool can launch.
#[derive(Debug, Copy, Clone, PartialEq, Eq, Structural)]
pub enum ScriptKind {
    Bash,
    PowerShell,
    Python,
}

/// The last index holding `c`, or -1 when there is none.
pub open spec fn spec_rfind(s: Seq<char>, c: char) -> int
    decreases s.len(),
{
    if s.len() == 0 {
        -1
    } else if s[s.len() - 1] == c {
        s.len() - 1
    } else {
        spec_rfind(s.drop_last(), c)
    }
}

pub proof fn lemma_rfind_bounds(s: Seq<char>, c: char)
    ensures
        -1 <= spec_rfind(s, c) < s.len(),
        spec_rfind(s, c) >= 0 ==> s[spec_rfind(s, c)] == c,
        forall|j: int| spec_rfind(s, c) < j < s.len() ==> s[j] != c,
    decreases s.len(),
{
    if s.len() > 0 && s[s.len() - 1] != c {
        lemma_rfind_bounds(s.drop_last(), c);
        assert(forall|j: int| 0 <= j < s.len() - 1 ==> s[j] == s.drop_last()[j]);
    }
}

/// The last index at or before `from` holding `c`, found by scanning
/// backwards.
pub fn rfind_char(s: &Vec<char>, c: char) -> (r: Option<usize>)
    ensures
        match r {
            Some(i) => i == spec_rfind(s@, c) && i < s@.len(),
            None => spec_rfind(s@, c) == -1,
        },
{
    let mut b: usize = s.len();
    proof {
        assert(s@.take(s@.len() as int) =~= s@);
    }
    while b > 0
        invariant
            b <= s@.len(),
            spec_rfind(s@, c) == spec_rfind(s@.take(b as int), c),
        decreases b,
    {
        if s[b - 1] == c {
            proof {
                assert(s@.take(b as int)[b - 1] == s@[b - 1]);
            }
            return Some(b - 1);
        }
        proof {
            assert(s@.take(b as int).drop_last() =~= s@.take(b - 1));
        }
        b = b - 1;
    }
    proof {
        assert(s@.take(0) =~= Seq::<char>::empty());
    }
    None
}

/// The file name part of a path: what follows the last separator.
pub open spec fn spec_file_name(path: Seq<char>) -> Seq<char> {
    path.skip(spec_rfind(path, '/') + 1)
}

pub fn file_name_of(path: &Vec<char>) -> (r: Vec<char>)
    ensures
        r@ == spec_file_name(path@),
{
    proof {
        lemma_rfind_bounds(path@, '/');
    }
    match rfind_char(path, '/') {
        Some(i) => {
            let n = path.len();
            assert(i < n);
            subrange_vec(path, i + 1, n)
        },
        None => {
            proof {
                assert(path@.skip(0) =~= path@);
            }
            subrange_vec(path, 0, path.len())
        },
    }
}

/// The lowercased extension of a path's file name, where one exists: the
/// part after the last dot, which must not lead the name.
pub open spec fn spec_extension(path: Seq<char>) -> Option<Seq<char>> {
    let name = spec_file_name(path);
    let dot = spec_rfind(name, '.');
    if dot <= 0 {
        None
    } else {
        Some(spec_lower(name.skip(dot + 1)))
    }
}

/// Which interpreter a path's extension selects.
pub open spec fn spec_script_kind(path: Seq<char>) -> Option<ScriptKind> {
    match spec_extension(path) {
        None => None,
        Some(ext) => {
            if ext == "bash"@ || ext == "sh"@ {
                Some(ScriptKind::Bash)
            } else if ext == "ps1"@ {
                Some(ScriptKind::PowerShell)
            } else if ext == "py"@ {
                Some(ScriptKind::Python)
            } else {
                None
            }
        },
    }
}

pub fn script_kind(path: &str) -> (r: Option<ScriptKind>)
    ensures
        r == spec_script_kind(path@),
{
    let cs = str_to_chars(path);
    let name = file_name_of(&cs);
    proof {
        lemma_rfind_bounds(name@, '.');
    }
    let dot = match rfind_char(&name, '.') {
        Some(i) => i,
        None => {
            return None;
        },
    };
    if dot == 0 {
        return None;
    }
    let n = name.len();
    assert(dot < n);
    let ext = lower_chars(&subrange_vec(&name, dot + 1, n));
    if chars_eq(&ext, &str_to_chars("bash")) || chars_eq(&ext, &str_to_chars("sh")) {
        Some(ScriptKind::Bash)
    } else if chars_eq(&ext, &str_to_chars("ps1")) {
        Some(ScriptKind::PowerShell)
    } else if chars_eq(&ext, &str_to_chars("py")) {
        Some(ScriptKind::Python)
    } else {
        None
    }
}

/// The extensions that map to an interpreter.
pub fn script_extensions() -> (r: Vec<String>)
    ensures
        r.deep_view() =~= seq!["bash"@, "sh"@, "ps1"@, "py"@],
{
    let mut out: Vec<String> = Vec::new();
    out.push(String::from_str("bash"));
    out.push(String::from_str("sh"));
    out.push(String::from_str("ps1"));
    out.push(String::from_str("py"));
    out
}

/// The PowerShell interpreter name for the platform.
pub fn powershell_program(on_windows: bool) -> (r: String)
    ensures
        on_windows ==> r@ == "powershell"@,
        !on_windows ==> r@ == "pwsh"@,
{
    if on_windows {
        String::from_str("powershell")
    } else {
        String::from_str("pwsh")
    }
}

/// The Python interpreter name for the platform.
pub fn python_program(on_windows: bool) -> (r: String)
    ensures
        on_windows ==> r@ == "python"@,
        !on_windows ==> r@ == "python3"@,
{
    if on_windows {
        String::from_str("python")
    } else {
        String::from_str("python3")
    }
}

/// The command line that runs a script: the interpreter program and its
/// arguments, ending with the script path.
pub fn command_for_script(script: &str, on_windows: bool) -> (r: Result<(String, Vec<String>), String>)
    ensures
        spec_script_kind(script@) is None <==> r is Err,
        r matches Ok(c) ==> match spec_script_kind(script@) {
            Some(ScriptKind::Bash) => c.0@ == "bash"@ && c.1.deep_view() =~= seq![script@],
            Some(ScriptKind::PowerShell) => (on_windows ==> c.0@ == "powershell"@) && (!on_windows ==> c.0@ == "pwsh"@) && c.1.deep_view() =~= seq!["-NoProfile"@, "-File"@, script@],
            Some(ScriptKind::Python) => (on_windows ==> c.0@ == "python"@) && (!on_windows ==> c.0@ == "python3"@) && c.1.deep_view() =~= seq![script@],
            None => false,
        },
{
    let kind = match script_kind(script) {
        Some(kind) => kind,
        None => {
            return Err(String::from_str("Unsupported script type"));
        },
    };
    let mut args: Vec<String> = Vec::new();
    match kind {
        ScriptKind::Bash => {
            args.push(String::from_str(script));
            Ok((String::from_str("bash"), args))
        },
        ScriptKind::PowerShell => {
            args.push(String::from_str("-NoProfile"));
            args.push(String::from_str("-File"));
            args.push(String::from_str(script));
            Ok((powershell_program(on_windows), args))
        },
        ScriptKind::Python => {
            args.push(String::from_str(script));
            Ok((python_program(on_windows), args))
        },
    }
}

} // verus!
