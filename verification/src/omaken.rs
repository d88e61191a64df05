use vstd::prelude::*;
use crate::strutil::{
    append_chars, chars_eq, chars_to_string, spec_starts_with, spec_trim_char_back, str_to_chars,
    subrange_vec, trim_char_chars,
};
use crate::runtime::{spec_rfind, rfind_char, lemma_rfind_bounds};

verus! {

/// What the flavor listing was asked for.
#[derive(Debug)]
pub struct OmakenListOptions {
    pub workspace_root: String,
}

/// What a flavor install was asked for.
#[derive(Debug)]
pub struct OmakenInstallOptions {
    pub workspace_root: String,
    pub url: String,
    pub name: Option<String>,
}

/// Parse the flavor-listing arguments: none are accepted.
pub fn parse_list_args(args: &Vec<String>, workspace_root: String) -> (r: Result<OmakenListOptions, String>)
    ensures
        args@.len() == 0 ==> (r matches Ok(o) && o.workspace_root@ == workspace_root@),
        args@.len() > 0 ==> (r matches Err(e) && e@ == "list does not accept arguments"@),
{
    if args.len() > 0 {
        return Err(String::from_str("list does not accept arguments"));
    }
    Ok(OmakenListOptions { workspace_root })
}

/// The result of walking the install arguments: the git URL and the
/// optional folder name, or the refusing message.
pub open spec fn spec_install_args(args: Seq<Seq<char>>, i: int, url: Option<Seq<char>>, name: Option<Seq<char>>) -> Result<(Seq<char>, Option<Seq<char>>), Seq<char>>
    decreases args.len() - i,
{
    if i < 0 || i >= args.len() {
        match url {
            Some(u) => Ok((u, name)),
            None => Err("Missing git URL. Use `omakure install <git-url>`."@),
        }
    } else if args[i] == "--name"@ {
        if i + 1 < args.len() {
            spec_install_args(args, i + 2, url, Some(args[i + 1]))
        } else {
            Err("Missing value for --name"@)
        }
    } else if url is None {
        spec_install_args(args, i + 1, Some(args[i]), name)
    } else {
        Err("Unknown install arg: "@ + args[i])
    }
}

/// Parse the install arguments: one positional URL and an optional
/// `--name`.
pub fn parse_install_args(args: &Vec<String>, workspace_root: String) -> (r: Result<OmakenInstallOptions, String>)
    ensures
        args@.len() == 0 ==> (r matches Err(e) && e@ == "Missing git URL. Use `omakure install <git-url>`."@),
        args@.len() > 0 ==> match r {
            Ok(o) => (spec_install_args(args.deep_view(), 0, None, None) matches Ok(p) && p.0 == o.url@ && (match &o.name { Some(nm) => p.1 == Some(nm@), None => p.1 is None })) && o.workspace_root@ == workspace_root@,
            Err(e) => spec_install_args(args.deep_view(), 0, None, None) == Err::<(Seq<char>, Option<Seq<char>>), Seq<char>>(e@),
        },
{
    if args.len() == 0 {
        return Err(String::from_str("Missing git URL. Use `omakure install <git-url>`."));
    }
    let n = args.len();
    let mut url: Option<String> = None;
    let mut name: Option<String> = None;
    let mut i: usize = 0;
    while i < n
        invariant
            n == args@.len(),
            i <= n,
            spec_install_args(args.deep_view(), 0, None, None) == spec_install_args(
                args.deep_view(),
                i as int,
                match &url { Some(u) => Some(u@), None => None },
                match &name { Some(m) => Some(m@), None => None },
            ),
        decreases n - i,
    {
        proof {
            assert(args.deep_view()[i as int] == args@[i as int]@);
            if i + 1 < n {
                assert(args.deep_view()[i + 1] == args@[i + 1]@);
            }
        }
        if chars_eq(&str_to_chars(args[i].as_str()), &str_to_chars("--name")) {
            if i + 1 < n {
                name = Some(args[i + 1].clone());
                i = i + 2;
            } else {
                return Err(String::from_str("Missing value for --name"));
            }
        } else {
            match &url {
                None => {
                    url = Some(args[i].clone());
                    i = i + 1;
                },
                Some(_) => {
                    let mut msg = str_to_chars("Unknown install arg: ");
                    append_chars(&mut msg, &str_to_chars(args[i].as_str()));
                    return Err(chars_to_string(&msg));
                },
            }
        }
    }
    match url {
        Some(url) => Ok(OmakenInstallOptions { workspace_root, url, name }),
        None => Err(String::from_str("Missing git URL. Use `omakure install <git-url>`.")),
    }
}

/// Repeated `.git` suffixes removed.
pub open spec fn spec_strip_git(s: Seq<char>) -> Seq<char>
    decreases s.len(),
{
    if s.len() >= 4 && s.subrange(s.len() - 4, s.len() as int) == ".git"@ {
        spec_strip_git(s.take(s.len() - 4))
    } else {
        s
    }
}

/// The folder name a git URL suggests: its last path segment, trailing
/// slashes and `.git` suffixes removed.
pub open spec fn spec_infer_name(url: Seq<char>) -> Seq<char> {
    let t = spec_trim_char_back(url, '/');
    let cut = spec_rfind(t, '/');
    let last = if cut < 0 {
        t
    } else {
        t.skip(cut + 1)
    };
    spec_strip_git(last)
}

fn ends_git(v: &Vec<char>) -> (r: bool)
    ensures
        r == (v@.len() >= 4 && v@.subrange(v@.len() - 4, v@.len() as int) == ".git"@),
{
    proof {
        reveal_strlit(".git");
    }
    if v.len() < 4 {
        return false;
    }
    let n = v.len();
    let r = v[n - 4] == '.' && v[n - 3] == 'g' && v[n - 2] == 'i' && v[n - 1] == 't';
    proof {
        let sub = v@.subrange(v@.len() - 4, v@.len() as int);
        assert(sub[0] == v@[v@.len() - 4] && sub[1] == v@[v@.len() - 3] && sub[2] == v@[v@.len() - 2] && sub[3] == v@[v@.len() - 1]);
        if r {
            assert(sub =~= ".git"@);
        } else {
            assert(sub != ".git"@);
        }
    }
    r
}

pub fn infer_name_from_url(url: &str) -> (r: String)
    ensures
        r@ == spec_infer_name(url@),
{
    let cs = str_to_chars(url);
    let n0 = cs.len();
    let mut b: usize = n0;
    while b > 0 && cs[b - 1] == '/'
        invariant
            b <= n0,
            n0 == cs@.len(),
            forall|j: int| b <= j < n0 ==> cs@[j] == '/',
        decreases b,
    {
        b = b - 1;
    }
    let t = subrange_vec(&cs, 0, b);
    proof {
        crate::strutil::lemma_trim_char_back_drop(cs@, '/', b as int);
        if b > 0 {
            assert(t@[t@.len() - 1] != '/');
        }
        assert(spec_trim_char_back(cs@, '/') == t@);
        lemma_rfind_bounds(t@, '/');
    }
    let last = match rfind_char(&t, '/') {
        Some(cut) => {
            let n1 = t.len();
            assert(cut < n1);
            subrange_vec(&t, cut + 1, n1)
        },
        None => {
            proof {
                assert(t@.skip(0) =~= t@);
            }
            t
        },
    };
    let ghost lastg = last@;
    let mut cur = last;
    while ends_git(&cur)
        invariant
            spec_strip_git(cur@) == spec_strip_git(lastg),
        decreases cur@.len(),
    {
        let n2 = cur.len();
        let ghost pre = cur@;
        cur = subrange_vec(&cur, 0, n2 - 4);
        proof {
            assert(cur@ =~= pre.take(pre.len() - 4));
        }
    }
    proof {
        assert(spec_strip_git(cur@) == cur@);
    }
    chars_to_string(&cur)
}

} // verus!
