use vstd::prelude::*;
use crate::ports::{WorkspaceEntry, WorkspaceEntryKind};
use crate::runtime::{file_name_of, rfind_char, spec_file_name, spec_rfind, spec_script_kind,
    script_kind, lemma_rfind_bounds};
use crate::search::{lemma_lex_lt_connex, lemma_lex_lt_trans, lex_lt_chars, spec_lex_lt};
use crate::strutil::{chars_eq, chars_to_string, lower_chars, spec_lower, str_to_chars,
    subrange_vec};

verus! {

/// The directory component holding a path's file name, where the path
/// has one.
pub open spec fn spec_parent_name(path: Seq<char>) -> Option<Seq<char>> {
    let cut = spec_rfind(path, '/');
    if cut < 0 {
        None
    } else {
        Some(spec_file_name(path.take(cut)))
    }
}

/// The folders a catalog listing skips: version-control and history
/// bookkeeping folders, and the environments folder nested under the
/// flavor directory.
pub open spec fn spec_should_skip_dir(path: Seq<char>) -> bool {
    let name = spec_file_name(path);
    ||| name == ".history"@
    ||| name == ".git"@
    ||| (name == "envs"@ && spec_parent_name(path) == Some(".omaken"@))
}

pub fn should_skip_dir(path: &str) -> (r: bool)
    ensures
        r == spec_should_skip_dir(path@),
{
    let cs = str_to_chars(path);
    let name = file_name_of(&cs);
    if chars_eq(&name, &str_to_chars(".history")) || chars_eq(&name, &str_to_chars(".git")) {
        return true;
    }
    if !chars_eq(&name, &str_to_chars("envs")) {
        return false;
    }
    proof {
        lemma_rfind_bounds(cs@, '/');
    }
    match rfind_char(&cs, '/') {
        None => false,
        Some(cut) => {
            let prefix = subrange_vec(&cs, 0, cut);
            proof {
                assert(prefix@ =~= path@.take(cut as int));
            }
            let parent = file_name_of(&prefix);
            chars_eq(&parent, &str_to_chars(".omaken"))
        },
    }
}

/// The case-folded file name used to order catalog entries.
pub fn entry_name(path: &str) -> (r: String)
    ensures
        r@ == spec_lower(spec_file_name(path@)),
{
    let cs = str_to_chars(path);
    let name = file_name_of(&cs);
    chars_to_string(&lower_chars(&name))
}

/// What a directory walk reports about one entry before classification.
#[derive(Debug)]
pub struct RawEntry {
    pub path: String,
    pub is_dir: bool,
    pub is_file: bool,
}

/// The catalog entries a raw listing yields, in listing order:
/// directories that are not skipped, and files whose extension maps to
/// an interpreter.
pub open spec fn spec_catalog(raw: Seq<RawEntry>) -> Seq<WorkspaceEntry>
    decreases raw.len(),
{
    if raw.len() == 0 {
        Seq::empty()
    } else {
        let head = raw[0];
        let rest = spec_catalog(raw.drop_first());
        if head.is_dir && !spec_should_skip_dir(head.path@) {
            seq![WorkspaceEntry { path: head.path, kind: WorkspaceEntryKind::Directory }] + rest
        } else if !head.is_dir && head.is_file && spec_script_kind(head.path@) is Some {
            seq![WorkspaceEntry { path: head.path, kind: WorkspaceEntryKind::Script }] + rest
        } else {
            rest
        }
    }
}

pub open spec fn spec_kind_rank(k: WorkspaceEntryKind) -> int {
    match k {
        WorkspaceEntryKind::Directory => 0,
        WorkspaceEntryKind::Script => 1,
    }
}

/// The catalog display order: directories before scripts, then the
/// case-folded name.
pub open spec fn spec_entry_le(a: &WorkspaceEntry, b: &WorkspaceEntry) -> bool {
    let ra = spec_kind_rank(a.kind);
    let rb = spec_kind_rank(b.kind);
    let na = spec_lower(spec_file_name(a.path@));
    let nb = spec_lower(spec_file_name(b.path@));
    ra < rb || (ra == rb && (spec_lex_lt(na, nb) || na == nb))
}

pub proof fn lemma_entry_le_connex(a: &WorkspaceEntry, b: &WorkspaceEntry)
    ensures
        spec_entry_le(a, b) || spec_entry_le(b, a),
{
    lemma_lex_lt_connex(spec_lower(spec_file_name(a.path@)), spec_lower(spec_file_name(b.path@)));
}

pub proof fn lemma_entry_le_trans(a: &WorkspaceEntry, b: &WorkspaceEntry, c: &WorkspaceEntry)
    requires
        spec_entry_le(a, b),
        spec_entry_le(b, c),
    ensures
        spec_entry_le(a, c),
{
    let na = spec_lower(spec_file_name(a.path@));
    let nb = spec_lower(spec_file_name(b.path@));
    let nc = spec_lower(spec_file_name(c.path@));
    if spec_lex_lt(na, nb) && spec_lex_lt(nb, nc) {
        lemma_lex_lt_trans(na, nb, nc);
    }
}

pub fn entry_le(a: &WorkspaceEntry, b: &WorkspaceEntry) -> (r: bool)
    ensures
        r == spec_entry_le(a, b),
{
    let ra: u8 = match a.kind {
        WorkspaceEntryKind::Directory => 0,
        WorkspaceEntryKind::Script => 1,
    };
    let rb: u8 = match b.kind {
        WorkspaceEntryKind::Directory => 0,
        WorkspaceEntryKind::Script => 1,
    };
    if ra < rb {
        return true;
    }
    if ra > rb {
        return false;
    }
    let na = lower_chars(&file_name_of(&str_to_chars(a.path.as_str())));
    let nb = lower_chars(&file_name_of(&str_to_chars(b.path.as_str())));
    proof {
        assert(na@.skip(0) =~= na@);
        assert(nb@.skip(0) =~= nb@);
    }
    if lex_lt_chars(&na, &nb, 0) {
        return true;
    }
    chars_eq(&na, &nb)
}

pub open spec fn spec_sorted_entries(s: Seq<WorkspaceEntry>) -> bool {
    forall|i: int, j: int| 0 <= i < j < s.len() ==> spec_entry_le(&s[i], &s[j])
}

/// Sort catalog entries into display order; the result holds the same
/// entries as a multiset.
pub fn sort_entries(v: Vec<WorkspaceEntry>) -> (r: Vec<WorkspaceEntry>)
    ensures
        spec_sorted_entries(r@),
        r@.to_multiset() == v@.to_multiset(),
{
    broadcast use vstd::seq_lib::group_to_multiset_ensures;

    let mut rem = v;
    let mut out: Vec<WorkspaceEntry> = Vec::new();
    while rem.len() > 0
        invariant
            out@.to_multiset().add(rem@.to_multiset()) == v@.to_multiset(),
            spec_sorted_entries(out@),
            forall|a: int, k: int|
                0 <= a < out@.len() && 0 <= k < rem@.len() ==> #[trigger] spec_entry_le(
                    &out@[a],
                    &rem@[k],
                ),
        decreases rem@.len(),
    {
        let n = rem.len();
        let mut m: usize = 0;
        let mut k: usize = 1;
        while k < n
            invariant
                n == rem@.len(),
                m < n,
                k <= n,
                forall|t: int| 0 <= t < k ==> spec_entry_le(&rem@[m as int], &rem@[t]),
            decreases n - k,
        {
            if entry_le(&rem[k], &rem[m]) {
                proof {
                    assert forall|t: int| 0 <= t < k + 1 implies spec_entry_le(
                        &rem@[k as int],
                        &rem@[t],
                    ) by {
                        if t < k {
                            lemma_entry_le_trans(&rem@[k as int], &rem@[m as int], &rem@[t]);
                        } else {
                            lemma_entry_le_connex(&rem@[k as int], &rem@[k as int]);
                        }
                    }
                }
                m = k;
            } else {
                proof {
                    lemma_entry_le_connex(&rem@[m as int], &rem@[k as int]);
                }
            }
            k = k + 1;
        }
        let ghost old_out = out@;
        let ghost old_rem = rem@;
        let x = rem.remove(m);
        out.push(x);
        proof {
            broadcast use vstd::seq_lib::group_to_multiset_ensures;

            assert(out@ =~= old_out.push(x));
            assert(rem@ =~= old_rem.remove(m as int));
            assert(old_out.push(x).to_multiset() =~= old_out.to_multiset().insert(x));
            assert(old_rem.contains(x)) by {
                assert(old_rem[m as int] == x);
            }
            assert(old_rem.to_multiset().count(x) > 0);
            assert(old_rem.remove(m as int).to_multiset() =~= old_rem.to_multiset().remove(x));
            assert(out@.to_multiset().add(rem@.to_multiset()) =~= v@.to_multiset());
            assert(spec_sorted_entries(out@)) by {
                assert(forall|i: int| 0 <= i < old_out.len() ==> out@[i] == old_out[i]);
                assert(out@[out@.len() - 1] == old_rem[m as int]);
            }
            assert forall|a: int, kk: int|
                0 <= a < out@.len() && 0 <= kk < rem@.len() implies #[trigger] spec_entry_le(
                &out@[a],
                &rem@[kk],
            ) by {
                let orig_kk = if kk < m { kk } else { kk + 1 };
                assert(rem@[kk] == old_rem[orig_kk]);
                if a < out@.len() - 1 {
                    assert(spec_entry_le(&out@[a], &old_rem[orig_kk]));
                } else {
                    assert(out@[a] == old_rem[m as int]);
                    assert(spec_entry_le(&old_rem[m as int], &old_rem[orig_kk]));
                }
            }
        }
    }
    proof {
        broadcast use vstd::seq_lib::group_to_multiset_ensures;

        assert(rem@.to_multiset().len() == 0);
        assert(out@.to_multiset() =~= v@.to_multiset());
    }
    out
}

/// Classify a raw directory listing and sort it into display order.
pub fn list_entries(raw: Vec<RawEntry>) -> (r: Vec<WorkspaceEntry>)
    ensures
        r@.to_multiset() == spec_catalog(raw@).to_multiset(),
        spec_sorted_entries(r@),
{
    let n = raw.len();
    let mut picked: Vec<WorkspaceEntry> = Vec::new();
    let mut i: usize = 0;
    proof {
        assert(raw@.skip(0) =~= raw@);
    }
    while i < n
        invariant
            n == raw@.len(),
            i <= n,
            spec_catalog(raw@) == picked@ + spec_catalog(raw@.skip(i as int)),
        decreases n - i,
    {
        let e = &raw[i];
        proof {
            assert(raw@.skip(i as int)[0] == raw@[i as int]);
            assert(raw@.skip(i as int).drop_first() =~= raw@.skip(i + 1));
        }
        if e.is_dir {
            if !should_skip_dir(e.path.as_str()) {
                picked.push(WorkspaceEntry {
                    path: e.path.clone(),
                    kind: WorkspaceEntryKind::Directory,
                });
            }
        } else if e.is_file && script_kind(e.path.as_str()).is_some() {
            picked.push(WorkspaceEntry { path: e.path.clone(), kind: WorkspaceEntryKind::Script });
        }
        proof {
            assert(spec_catalog(raw@) =~= picked@ + spec_catalog(raw@.skip(i + 1)));
        }
        i = i + 1;
    }
    proof {
        assert(picked@ =~= spec_catalog(raw@));
    }
    sort_entries(picked)
}

} // verus!
