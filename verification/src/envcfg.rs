use vstd::prelude::*;
use crate::search::{lemma_lex_lt_connex, lemma_lex_lt_trans, lex_lt_chars, spec_lex_lt};
use crate::strutil::{
    append_chars, chars_eq, chars_to_string, contains_sub, lower_chars, spec_contains,
    spec_find_from, find_from, spec_lines, spec_lower, spec_starts_with, spec_trim, split_lines,
    starts_with_chars, str_to_chars, subrange_vec, trim_chars,
};

verus! {

/// The active default-value set: where the environment files live, which
/// one is active, and the defaults it defines, keyed by lowercased name
/// in file order.
#[derive(Debug)]
pub struct EnvironmentConfig {
    pub envs_dir: String,
    pub active: Option<String>,
    pub defaults: Vec<(String, String)>,
}

/// One environment file, named for selection.
#[derive(Debug)]
pub struct EnvFile {
    pub name: String,
}

/// Surrounding single or double quotes removed, where both ends carry
/// the same quote.
pub open spec fn spec_strip_quotes(v: Seq<char>) -> Seq<char> {
    if v.len() >= 2 && ((v[0] == '"' && v[v.len() - 1] == '"') || (v[0] == '\'' && v[v.len() - 1]
        == '\'')) {
        v.subrange(1, v.len() - 1)
    } else {
        v
    }
}

pub fn strip_quotes(value: &str) -> (r: String)
    ensures
        r@ == spec_trim(spec_strip_quotes(spec_trim(value@))),
{
    let t = trim_chars(&str_to_chars(value));
    let inner = if t.len() >= 2 && ((t[0] == '"' && t[t.len() - 1] == '"') || (t[0] == '\''
        && t[t.len() - 1] == '\'')) {
        subrange_vec(&t, 1, t.len() - 1)
    } else {
        proof {
            assert(t@ =~= spec_strip_quotes(t@));
        }
        t
    };
    chars_to_string(&trim_chars(&inner))
}

/// Whether a key names something sensitive: it holds one of the
/// sensitive substrings in any letter case.
pub open spec fn spec_is_sensitive_key(key: Seq<char>) -> bool {
    let l = spec_lower(key);
    ||| spec_contains(l, "password"@)
    ||| spec_contains(l, "secret"@)
    ||| spec_contains(l, "token"@)
    ||| spec_contains(l, "key"@)
    ||| spec_contains(l, "api"@)
    ||| spec_contains(l, "private"@)
    ||| spec_contains(l, "cred"@)
}

pub fn is_sensitive_key(key: &str) -> (r: bool)
    ensures
        r == spec_is_sensitive_key(key@),
{
    let l = lower_chars(&str_to_chars(key));
    contains_sub(&l, &str_to_chars("password")) || contains_sub(&l, &str_to_chars("secret"))
        || contains_sub(&l, &str_to_chars("token")) || contains_sub(&l, &str_to_chars("key"))
        || contains_sub(&l, &str_to_chars("api")) || contains_sub(&l, &str_to_chars("private"))
        || contains_sub(&l, &str_to_chars("cred"))
}

/// The key and value a line defines, or nothing for blank and comment
/// lines and lines without a key: trim, skip `#` and `;` comments, drop
/// one leading `export `, split at the first `=`, trim and unquote the
/// value.
pub open spec fn spec_line_kv(line: Seq<char>) -> Option<(Seq<char>, Seq<char>)> {
    let t0 = spec_trim(line);
    if t0.len() == 0 || t0[0] == '#' || t0[0] == ';' {
        None
    } else {
        let t = if spec_starts_with(t0, "export "@) {
            spec_trim(t0.skip(7))
        } else {
            t0
        };
        let eq = spec_find_from(t, '=', 0);
        let key = spec_trim(t.subrange(0, eq));
        let raw = if eq < t.len() {
            t.subrange(eq + 1, t.len() as int)
        } else {
            Seq::empty()
        };
        if key.len() == 0 {
            None
        } else {
            Some((key, spec_trim(spec_strip_quotes(spec_trim(raw)))))
        }
    }
}

/// Parse one line into its key and value.
pub fn line_kv(line: &Vec<char>) -> (r: Option<(String, String)>)
    ensures
        match r {
            Some(kv) => spec_line_kv(line@) == Some((kv.0@, kv.1@)),
            None => spec_line_kv(line@) is None,
        },
{
    let t0 = trim_chars(line);
    if t0.len() == 0 || t0[0] == '#' || t0[0] == ';' {
        return None;
    }
    let export_prefix = str_to_chars("export ");
    proof {
        reveal_strlit("export ");
        assert(export_prefix@.len() == 7);
    }
    let t = if starts_with_chars(&t0, &export_prefix) {
        proof {
            assert(t0@.skip(7) =~= t0@.subrange(7, t0@.len() as int));
        }
        trim_chars(&subrange_vec(&t0, 7, t0.len()))
    } else {
        t0
    };
    let eq = find_from(&t, '=', 0);
    let key = trim_chars(&subrange_vec(&t, 0, eq));
    let raw = if eq < t.len() {
        subrange_vec(&t, eq + 1, t.len())
    } else {
        Vec::new()
    };
    if key.len() == 0 {
        return None;
    }
    let vt = trim_chars(&raw);
    let inner = if vt.len() >= 2 && ((vt[0] == '"' && vt[vt.len() - 1] == '"') || (vt[0] == '\''
        && vt[vt.len() - 1] == '\'')) {
        subrange_vec(&vt, 1, vt.len() - 1)
    } else {
        proof {
            assert(vt@ =~= spec_strip_quotes(vt@));
        }
        vt
    };
    let value = trim_chars(&inner);
    Some((chars_to_string(&key), chars_to_string(&value)))
}

/// The preview rows of an environment file: every defined key with its
/// value, the value replaced by a fixed placeholder when the key is
/// sensitive and the value is not empty.
pub open spec fn spec_env_preview(lines: Seq<Seq<char>>) -> Seq<(Seq<char>, Seq<char>)>
    decreases lines.len(),
{
    if lines.len() == 0 {
        Seq::empty()
    } else {
        let rest = spec_env_preview(lines.drop_first());
        match spec_line_kv(lines[0]) {
            None => rest,
            Some(kv) => {
                let shown = if spec_is_sensitive_key(kv.0) && kv.1.len() > 0 {
                    "***"@
                } else {
                    kv.1
                };
                seq![(kv.0, shown)] + rest
            },
        }
    }
}

/// Parse an environment file's text for display, masking sensitive
/// values.
pub fn load_env_preview(contents: &str) -> (r: Vec<(String, String)>)
    ensures
        r.deep_view() == spec_env_preview(spec_lines(contents@)),
{
    let cs = str_to_chars(contents);
    let lines = split_lines(&cs);
    let n = lines.len();
    let mut out: Vec<(String, String)> = Vec::new();
    let mut i: usize = 0;
    proof {
        assert(lines.deep_view().skip(0) =~~= lines.deep_view());
    }
    while i < n
        invariant
            n == lines@.len(),
            lines.deep_view() == spec_lines(contents@),
            i <= n,
            spec_env_preview(spec_lines(contents@)) == out.deep_view() + spec_env_preview(
                lines.deep_view().skip(i as int),
            ),
        decreases n - i,
    {
        let ghost prev = out.deep_view();
        proof {
            assert(lines.deep_view()[i as int] == lines@[i as int]@);
            assert(lines.deep_view().skip(i as int)[0] == lines.deep_view()[i as int]);
            assert(lines.deep_view().skip(i as int).drop_first() =~~= lines.deep_view().skip(
                i + 1,
            ));
        }
        if let Some(kv) = line_kv(&lines[i]) {
            let ghost k0 = kv.0@;
            let ghost v1 = kv.1@;
            let masked = is_sensitive_key(kv.0.as_str()) && kv.1.unicode_len() > 0;
            let shown = if masked {
                String::from_str("***")
            } else {
                kv.1
            };
            out.push((kv.0, shown));
            proof {
                let head = if spec_is_sensitive_key(k0) && v1.len() > 0 {
                    "***"@
                } else {
                    v1
                };
                assert(out.deep_view() =~~= prev.push((k0, head)));
            }
        }
        proof {
            assert(spec_env_preview(spec_lines(contents@)) =~~= out.deep_view()
                + spec_env_preview(lines.deep_view().skip(i + 1)));
        }
        i = i + 1;
    }
    proof {
        assert(lines.deep_view().skip(n as int) =~~= Seq::<Seq<char>>::empty());
        assert(out.deep_view() =~~= spec_env_preview(spec_lines(contents@)));
    }
    out
}

/// The defaults a file defines: lowercased key and value for every line
/// with a non-empty value, in file order.
pub open spec fn spec_env_pairs(lines: Seq<Seq<char>>) -> Seq<(Seq<char>, Seq<char>)>
    decreases lines.len(),
{
    if lines.len() == 0 {
        Seq::empty()
    } else {
        let rest = spec_env_pairs(lines.drop_first());
        match spec_line_kv(lines[0]) {
            None => rest,
            Some(kv) => {
                if kv.1.len() == 0 {
                    rest
                } else {
                    seq![(spec_lower(kv.0), kv.1)] + rest
                }
            },
        }
    }
}

/// Parse an environment file's text into its default pairs.
pub fn load_env_defaults(contents: &str) -> (r: Vec<(String, String)>)
    ensures
        r.deep_view() == spec_env_pairs(spec_lines(contents@)),
{
    let cs = str_to_chars(contents);
    let lines = split_lines(&cs);
    let n = lines.len();
    let mut out: Vec<(String, String)> = Vec::new();
    let mut i: usize = 0;
    proof {
        assert(lines.deep_view().skip(0) =~~= lines.deep_view());
    }
    while i < n
        invariant
            n == lines@.len(),
            lines.deep_view() == spec_lines(contents@),
            i <= n,
            spec_env_pairs(spec_lines(contents@)) == out.deep_view() + spec_env_pairs(
                lines.deep_view().skip(i as int),
            ),
        decreases n - i,
    {
        let ghost prev = out.deep_view();
        proof {
            assert(lines.deep_view()[i as int] == lines@[i as int]@);
            assert(lines.deep_view().skip(i as int)[0] == lines.deep_view()[i as int]);
            assert(lines.deep_view().skip(i as int).drop_first() =~~= lines.deep_view().skip(
                i + 1,
            ));
        }
        if let Some(kv) = line_kv(&lines[i]) {
            let ghost k0 = kv.0@;
            let ghost v1 = kv.1@;
            if kv.1.unicode_len() > 0 {
                let lk = chars_to_string(&lower_chars(&str_to_chars(kv.0.as_str())));
                out.push((lk, kv.1));
                proof {
                    assert(out.deep_view() =~~= prev.push((spec_lower(k0), v1)));
                }
            }
        }
        proof {
            assert(spec_env_pairs(spec_lines(contents@)) =~~= out.deep_view() + spec_env_pairs(
                lines.deep_view().skip(i + 1),
            ));
        }
        i = i + 1;
    }
    proof {
        assert(lines.deep_view().skip(n as int) =~~= Seq::<Seq<char>>::empty());
        assert(out.deep_view() =~~= spec_env_pairs(spec_lines(contents@)));
    }
    out
}

/// The value the defaults give a key: that of its last pair.
pub open spec fn spec_lookup_pairs(ps: Seq<(Seq<char>, Seq<char>)>, key: Seq<char>) -> Option<
    Seq<char>,
>
    decreases ps.len(),
{
    if ps.len() == 0 {
        None
    } else if ps.last().0 == key {
        Some(ps.last().1)
    } else {
        spec_lookup_pairs(ps.drop_last(), key)
    }
}

pub fn lookup_pairs(ps: &Vec<(String, String)>, key: &str) -> (r: Option<String>)
    ensures
        match r {
            Some(v) => spec_lookup_pairs(ps.deep_view(), key@) == Some(v@),
            None => spec_lookup_pairs(ps.deep_view(), key@) is None,
        },
{
    let mut b = ps.len();
    proof {
        assert(ps.deep_view().take(b as int) =~~= ps.deep_view());
    }
    while b > 0
        invariant
            b <= ps@.len(),
            spec_lookup_pairs(ps.deep_view(), key@) == spec_lookup_pairs(
                ps.deep_view().take(b as int),
                key@,
            ),
        decreases b,
    {
        proof {
            assert(ps.deep_view().take(b as int).last() == ps.deep_view()[b - 1]);
            assert(ps.deep_view().take(b as int).drop_last() =~~= ps.deep_view().take(b - 1));
        }
        if chars_eq(&str_to_chars(ps[b - 1].0.as_str()), &str_to_chars(key)) {
            return Some(ps[b - 1].1.clone());
        }
        b = b - 1;
    }
    proof {
        assert(ps.deep_view().take(0) =~~= Seq::<(Seq<char>, Seq<char>)>::empty());
    }
    None
}

/// The first meaningful line of the pointer file: the active
/// environment's name.
pub open spec fn spec_active_name(lines: Seq<Seq<char>>) -> Option<Seq<char>>
    decreases lines.len(),
{
    if lines.len() == 0 {
        None
    } else {
        let t = spec_trim(lines[0]);
        if t.len() == 0 || t[0] == '#' || t[0] == ';' {
            spec_active_name(lines.drop_first())
        } else {
            Some(t)
        }
    }
}

/// Read the active environment's name out of the pointer file's text.
pub fn parse_active_name(contents: &str) -> (r: Option<String>)
    ensures
        match r {
            Some(v) => spec_active_name(spec_lines(contents@)) == Some(v@),
            None => spec_active_name(spec_lines(contents@)) is None,
        },
{
    let cs = str_to_chars(contents);
    let lines = split_lines(&cs);
    let n = lines.len();
    let mut i: usize = 0;
    proof {
        assert(lines.deep_view().skip(0) =~~= lines.deep_view());
    }
    while i < n
        invariant
            n == lines@.len(),
            lines.deep_view() == spec_lines(contents@),
            i <= n,
            spec_active_name(spec_lines(contents@)) == spec_active_name(
                lines.deep_view().skip(i as int),
            ),
        decreases n - i,
    {
        proof {
            assert(lines.deep_view()[i as int] == lines@[i as int]@);
            assert(lines.deep_view().skip(i as int)[0] == lines.deep_view()[i as int]);
            assert(lines.deep_view().skip(i as int).drop_first() =~~= lines.deep_view().skip(
                i + 1,
            ));
        }
        let t = trim_chars(&lines[i]);
        if t.len() > 0 && t[0] != '#' && t[0] != ';' {
            proof {
                assert(spec_active_name(lines.deep_view().skip(i as int)) == Some(t@));
            }
            return Some(chars_to_string(&t));
        }
        i = i + 1;
    }
    proof {
        assert(lines.deep_view().skip(n as int) =~~= Seq::<Seq<char>>::empty());
    }
    None
}

impl EnvironmentConfig {
    /// The default for a field name, looked up by its lowercased name.
    pub fn default_for(&self, lower_name: &str) -> (r: Option<String>)
        ensures
            match r {
                Some(v) => spec_lookup_pairs(self.defaults.deep_view(), lower_name@) == Some(v@),
                None => spec_lookup_pairs(self.defaults.deep_view(), lower_name@) is None,
            },
    {
        lookup_pairs(&self.defaults, lower_name)
    }
}

/// Resolve the environment configuration from what is on disk: the
/// pointer file's text where it exists, and the active file's text where
/// that exists. An active name whose file is missing is an error.
pub fn load_environment_config(
    envs_dir: &str,
    active_contents: &Option<String>,
    env_contents: &Option<String>,
) -> (r: Result<EnvironmentConfig, String>)
    ensures
        r matches Ok(c) ==> c.envs_dir@ == envs_dir@,
        r matches Ok(c) ==> match active_contents {
            None => c.active is None && c.defaults.deep_view() == Seq::<(Seq<char>, Seq<char>)>::empty(),
            Some(ac) => match spec_active_name(spec_lines(ac@)) {
                None => c.active is None && c.defaults.deep_view() == Seq::<(Seq<char>, Seq<char>)>::empty(),
                Some(name) => (c.active matches Some(n) && n@ == name) && (env_contents matches Some(ec) && c.defaults.deep_view() == spec_env_pairs(spec_lines(ec@))),
            },
        },
        r is Err ==> (active_contents matches Some(ac) && spec_active_name(spec_lines(ac@)) is Some && env_contents is None),
{
    let active: Option<String> = match active_contents {
        None => None,
        Some(ac) => parse_active_name(ac.as_str()),
    };
    match &active {
        None => Ok(EnvironmentConfig {
            envs_dir: String::from_str(envs_dir),
            active: None,
            defaults: Vec::new(),
        }),
        Some(name) => {
            match env_contents {
                None => {
                    let mut msg = str_to_chars("Active environment not found: ");
                    append_chars(&mut msg, &str_to_chars(envs_dir));
                    msg.push('/');
                    append_chars(&mut msg, &str_to_chars(name.as_str()));
                    Err(chars_to_string(&msg))
                },
                Some(ec) => {
                    let defaults = load_env_defaults(ec.as_str());
                    Ok(EnvironmentConfig {
                        envs_dir: String::from_str(envs_dir),
                        active: Some(name.clone()),
                        defaults,
                    })
                },
            }
        },
    }
}

/// The environment files among a directory's entries: regular files,
/// the pointer file left out, in listing order.
pub open spec fn spec_env_files(entries: Seq<(Seq<char>, bool)>) -> Seq<Seq<char>>
    decreases entries.len(),
{
    if entries.len() == 0 {
        Seq::empty()
    } else {
        let rest = spec_env_files(entries.drop_first());
        if entries[0].1 && entries[0].0 != "active"@ {
            seq![entries[0].0] + rest
        } else {
            rest
        }
    }
}

pub open spec fn spec_sorted_names(s: Seq<EnvFile>) -> bool {
    forall|i: int, j: int|
        0 <= i < j < s.len() ==> spec_lex_lt(s[i].name@, s[j].name@) || s[i].name@ == s[j].name@
}

/// Keep the environment files of a raw listing of (name, is-file) pairs,
/// sorted by name.
pub fn list_env_files(entries: &Vec<(String, bool)>) -> (r: Vec<EnvFile>)
    ensures
        r@.map_values(|f: EnvFile| f.name@).to_multiset() == spec_env_files(
            entries.deep_view(),
        ).to_multiset(),
        spec_sorted_names(r@),
{
    broadcast use vstd::seq_lib::group_to_multiset_ensures;

    let n = entries.len();
    let mut picked: Vec<EnvFile> = Vec::new();
    let mut i: usize = 0;
    proof {
        assert(entries.deep_view().skip(0) =~~= entries.deep_view());
    }
    while i < n
        invariant
            n == entries@.len(),
            i <= n,
            spec_env_files(entries.deep_view()) == picked@.map_values(|f: EnvFile| f.name@)
                + spec_env_files(entries.deep_view().skip(i as int)),
        decreases n - i,
    {
        let ghost prev = picked@.map_values(|f: EnvFile| f.name@);
        proof {
            assert(entries.deep_view().skip(i as int)[0] == entries.deep_view()[i as int]);
            assert(entries.deep_view().skip(i as int).drop_first() =~~= entries.deep_view().skip(
                i + 1,
            ));
        }
        if entries[i].1 && !chars_eq(&str_to_chars(entries[i].0.as_str()), &str_to_chars("active"))
        {
            picked.push(EnvFile { name: entries[i].0.clone() });
            proof {
                assert(picked@.map_values(|f: EnvFile| f.name@) =~~= prev.push(
                    entries.deep_view()[i as int].0,
                ));
            }
        }
        proof {
            assert(spec_env_files(entries.deep_view()) =~~= picked@.map_values(
                |f: EnvFile| f.name@,
            ) + spec_env_files(entries.deep_view().skip(i + 1)));
        }
        i = i + 1;
    }
    proof {
        assert(entries.deep_view().skip(n as int) =~~= Seq::<(Seq<char>, bool)>::empty());
        assert(picked@.map_values(|f: EnvFile| f.name@) =~~= spec_env_files(entries.deep_view()));
    }
    let mut rem = picked;
    let mut out: Vec<EnvFile> = Vec::new();
    let ghost target = spec_env_files(entries.deep_view());
    while rem.len() > 0
        invariant
            out@.map_values(|f: EnvFile| f.name@).to_multiset().add(
                rem@.map_values(|f: EnvFile| f.name@).to_multiset(),
            ) == target.to_multiset(),
            spec_sorted_names(out@),
            forall|a: int, k: int|
                #![trigger out@[a], rem@[k]]
                0 <= a < out@.len() && 0 <= k < rem@.len() ==> spec_lex_lt(
                    out@[a].name@,
                    rem@[k].name@,
                ) || out@[a].name@ == rem@[k].name@,
        decreases rem@.len(),
    {
        let n2 = rem.len();
        let mut m: usize = 0;
        let mut k: usize = 1;
        while k < n2
            invariant
                n2 == rem@.len(),
                m < n2,
                k <= n2,
                forall|t: int|
                    #![trigger rem@[t]]
                    0 <= t < k ==> spec_lex_lt(rem@[m as int].name@, rem@[t].name@)
                        || rem@[m as int].name@ == rem@[t].name@,
            decreases n2 - k,
        {
            let a = str_to_chars(rem[k].name.as_str());
            let b = str_to_chars(rem[m].name.as_str());
            proof {
                assert(a@.skip(0) =~= a@);
                assert(b@.skip(0) =~= b@);
            }
            if lex_lt_chars(&a, &b, 0) {
                proof {
                    assert forall|t: int|
                        #![trigger rem@[t]]
                        0 <= t < k + 1 implies spec_lex_lt(
                        rem@[k as int].name@,
                        rem@[t].name@,
                    ) || rem@[k as int].name@ == rem@[t].name@ by {
                        if t < k {
                            if spec_lex_lt(rem@[m as int].name@, rem@[t].name@) {
                                lemma_lex_lt_trans(
                                    rem@[k as int].name@,
                                    rem@[m as int].name@,
                                    rem@[t].name@,
                                );
                            }
                        }
                    }
                }
                m = k;
            } else {
                proof {
                    lemma_lex_lt_connex(rem@[m as int].name@, rem@[k as int].name@);
                }
            }
            k = k + 1;
        }
        let ghost old_out = out@;
        let ghost old_rem = rem@;
        let x = rem.remove(m);
        out.push(x);
        proof {
            broadcast use vstd::seq_lib::group_to_multiset_ensures;

            let f = |f: EnvFile| f.name@;
            assert(out@.map_values(f) =~~= old_out.map_values(f).push(x.name@));
            assert(rem@.map_values(f) =~~= old_rem.map_values(f).remove(m as int));
            assert(old_out.map_values(f).push(x.name@).to_multiset() =~= old_out.map_values(
                f,
            ).to_multiset().insert(x.name@));
            assert(old_rem.map_values(f).contains(x.name@)) by {
                assert(old_rem.map_values(f)[m as int] == x.name@);
            }
            assert(old_rem.map_values(f).to_multiset().count(x.name@) > 0);
            assert(old_rem.map_values(f).remove(m as int).to_multiset() =~= old_rem.map_values(
                f,
            ).to_multiset().remove(x.name@));
            assert(out@.map_values(f).to_multiset().add(rem@.map_values(f).to_multiset())
                =~= target.to_multiset());
            assert(spec_sorted_names(out@)) by {
                assert(forall|i2: int| 0 <= i2 < old_out.len() ==> out@[i2] == old_out[i2]);
                assert(out@[out@.len() - 1] == old_rem[m as int]);
            }
            assert forall|a: int, kk: int|
                #![trigger out@[a], rem@[kk]]
                0 <= a < out@.len() && 0 <= kk < rem@.len() implies spec_lex_lt(
                out@[a].name@,
                rem@[kk].name@,
            ) || out@[a].name@ == rem@[kk].name@ by {
                let orig_kk = if kk < m { kk } else { kk + 1 };
                assert(rem@[kk] == old_rem[orig_kk]);
                if a < out@.len() - 1 {
                    assert(spec_lex_lt(out@[a].name@, old_rem[orig_kk].name@) || out@[a].name@
                        == old_rem[orig_kk].name@);
                } else {
                    assert(out@[a] == old_rem[m as int]);
                }
            }
        }
    }
    proof {
        broadcast use vstd::seq_lib::group_to_multiset_ensures;

        let f = |f: EnvFile| f.name@;
        assert(rem@.map_values(f).to_multiset().len() == 0);
        assert(out@.map_values(f).to_multiset() =~= target.to_multiset());
    }
    out
}

} // verus!
