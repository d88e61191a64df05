use vstd::prelude::*;
use crate::strutil::{
    append_chars, chars_eq, chars_to_string, contains_sub, join_chars, lower_chars, spec_contains,
    spec_join, spec_lower, spec_tokens, spec_trim, split_tokens, str_to_chars, subrange_vec,
    trim_chars, spec_find_from, find_from,
};

verus! {

/// The state of the background index rebuild, polled by the session.
#[derive(Debug)]
pub enum SearchStatus {
    Idle,
    Indexing,
    Ready { script_count: usize },
    Error(String),
}

/// What two status values meaning the same thing looks like: same
/// variant, fields equal, messages equal character for character.
pub open spec fn status_eq_spec(a: &SearchStatus, b: &SearchStatus) -> bool {
    match (a, b) {
        (SearchStatus::Idle, SearchStatus::Idle) => true,
        (SearchStatus::Indexing, SearchStatus::Indexing) => true,
        (
            SearchStatus::Ready { script_count: x },
            SearchStatus::Ready { script_count: y },
        ) => x == y,
        (SearchStatus::Error(x), SearchStatus::Error(y)) => x@ == y@,
        _ => false,
    }
}

impl SearchStatus {
    /// A copy of this status.
    pub fn duplicate(&self) -> (r: SearchStatus)
        ensures
            status_eq_spec(&r, self),
    {
        match self {
            SearchStatus::Idle => SearchStatus::Idle,
            SearchStatus::Indexing => SearchStatus::Indexing,
            SearchStatus::Ready { script_count } => SearchStatus::Ready {
                script_count: *script_count,
            },
            SearchStatus::Error(m) => SearchStatus::Error(m.clone()),
        }
    }

    /// Whether two status values are the same.
    pub fn same_as(&self, other: &SearchStatus) -> (r: bool)
        ensures
            r == status_eq_spec(self, other),
    {
        match (self, other) {
            (SearchStatus::Idle, SearchStatus::Idle) => true,
            (SearchStatus::Indexing, SearchStatus::Indexing) => true,
            (
                SearchStatus::Ready { script_count: x },
                SearchStatus::Ready { script_count: y },
            ) => *x == *y,
            (SearchStatus::Error(x), SearchStatus::Error(y)) => *x == *y,
            _ => false,
        }
    }
}

/// One row of a query result.
#[derive(Debug)]
pub struct SearchResult {
    pub script_path: String,
    pub display_name: String,
    pub description: Option<String>,
    pub tags: Vec<String>,
    pub schema_error: Option<String>,
}

/// One stored field row of a script.
#[derive(Debug)]
pub struct SearchField {
    pub name: String,
    pub prompt: Option<String>,
    pub kind: String,
    pub required: bool,
}

/// A record with its ordered fields, as the detail pane shows it.
#[derive(Debug)]
pub struct SearchDetails {
    pub display_name: String,
    pub description: Option<String>,
    pub tags: Vec<String>,
    pub fields: Vec<SearchField>,
    pub schema_error: Option<String>,
}

/// Everything the index stores about one script.
#[derive(Debug)]
pub struct SearchRecord {
    pub script_path: String,
    pub display_name: String,
    pub description: Option<String>,
    pub tags_raw: Option<String>,
    pub search_blob: String,
    pub schema_error: Option<String>,
    pub indexed_at: i64,
    pub fields: Vec<SearchField>,
}

pub open spec fn opt_view(o: &Option<String>) -> Option<Seq<char>> {
    match o {
        Some(s) => Some(s@),
        None => None,
    }
}

/// What Unicode case folding makes of a string; a function of its
/// characters alone.
pub uninterp spec fn lower_of(s: Seq<char>) -> Seq<char>;

/// Relies on `str::to_lowercase`: the Unicode lowercase mapping of the
/// string, determined by its characters alone; an empty string stays
/// empty.
#[verifier::external_body]
fn lowercase(s: &str) -> (r: String)
    ensures
        r@ == lower_of(s@),
        s@.len() == 0 ==> r@.len() == 0,
{
    s.to_lowercase()
}

/// The searchable parts contributed by the fields: each field's name,
/// prompt where present, and kind.
pub open spec fn spec_field_parts(fs: Seq<SearchField>) -> Seq<Seq<char>>
    decreases fs.len(),
{
    if fs.len() == 0 {
        Seq::empty()
    } else {
        (seq![fs[0].name@] + (match fs[0].prompt {
            Some(p) => seq![p@],
            None => Seq::empty(),
        }) + seq![fs[0].kind@]) + spec_field_parts(fs.drop_first())
    }
}

/// The search blob: path, display name, description, tags and field
/// parts, space-joined and lowercased.
pub open spec fn spec_search_blob(
    path: Seq<char>,
    name: Seq<char>,
    desc: Option<Seq<char>>,
    tags: Seq<Seq<char>>,
    fs: Seq<SearchField>,
) -> Seq<char> {
    let parts = seq![path, name] + (match desc {
        Some(d) => seq![d],
        None => Seq::<Seq<char>>::empty(),
    }) + tags + spec_field_parts(fs);
    lower_of(spec_join(parts, " "@))
}

/// Build the lowercase search blob of one record.
pub fn build_search_blob(
    script_path: &str,
    display_name: &str,
    description: &Option<String>,
    tags: &Vec<String>,
    fields: &Vec<SearchField>,
) -> (r: String)
    ensures
        r@ == spec_search_blob(
            script_path@,
            display_name@,
            opt_view(description),
            tags.deep_view(),
            fields@,
        ),
{
    let mut parts: Vec<Vec<char>> = Vec::new();
    parts.push(str_to_chars(script_path));
    parts.push(str_to_chars(display_name));
    if let Some(d) = description {
        parts.push(str_to_chars(d.as_str()));
    }
    let ghost head = parts.deep_view();
    let mut i: usize = 0;
    while i < tags.len()
        invariant
            i <= tags@.len(),
            parts.deep_view() == head + tags.deep_view().take(i as int),
        decreases tags@.len() - i,
    {
        let ghost prev = parts.deep_view();
        let t = str_to_chars(tags[i].as_str());
        parts.push(t);
        proof {
            assert(parts.deep_view() =~~= prev.push(tags.deep_view()[i as int]));
            assert(parts.deep_view() =~~= head + tags.deep_view().take(i + 1));
        }
        i = i + 1;
    }
    proof {
        assert(tags.deep_view().take(tags@.len() as int) =~~= tags.deep_view());
    }
    let ghost head2 = parts.deep_view();
    let mut j: usize = 0;
    while j < fields.len()
        invariant
            j <= fields@.len(),
            parts.deep_view() == head2 + spec_field_parts(fields@.take(j as int)),
        decreases fields@.len() - j,
    {
        let ghost prev = parts.deep_view();
        let f = &fields[j];
        parts.push(str_to_chars(f.name.as_str()));
        if let Some(p) = &f.prompt {
            parts.push(str_to_chars(p.as_str()));
        }
        parts.push(str_to_chars(f.kind.as_str()));
        proof {
            lemma_field_parts_snoc(fields@, j as int);
            let fp = seq![fields@[j as int].name@] + (match fields@[j as int].prompt {
                Some(p) => seq![p@],
                None => Seq::<Seq<char>>::empty(),
            }) + seq![fields@[j as int].kind@];
            assert(parts.deep_view() =~~= prev + fp);
            assert(parts.deep_view() =~~= head2 + spec_field_parts(fields@.take(j + 1)));
        }
        j = j + 1;
    }
    proof {
        assert(fields@.take(fields@.len() as int) =~= fields@);
        let sparts = seq![script_path@, display_name@] + (match opt_view(description) {
            Some(d) => seq![d],
            None => Seq::<Seq<char>>::empty(),
        }) + tags.deep_view() + spec_field_parts(fields@);
        assert(parts.deep_view() =~~= sparts);
    }
    let joined = chars_to_string(&join_chars(&parts, &str_to_chars(" ")));
    lowercase(joined.as_str())
}

proof fn lemma_field_parts_snoc(fs: Seq<SearchField>, j: int)
    requires
        0 <= j < fs.len(),
    ensures
        spec_field_parts(fs.take(j + 1)) == spec_field_parts(fs.take(j)) + (
        seq![fs[j].name@] + (match fs[j].prompt {
            Some(p) => seq![p@],
            None => Seq::<Seq<char>>::empty(),
        }) + seq![fs[j].kind@]),
    decreases j,
{
    let a = fs.take(j + 1);
    let b = fs.take(j);
    if j == 0 {
        assert(b =~= Seq::<SearchField>::empty());
        assert(a.drop_first() =~= Seq::<SearchField>::empty());
        assert(spec_field_parts(a) =~~= spec_field_parts(b) + (seq![fs[j].name@] + (
        match fs[j].prompt {
            Some(p) => seq![p@],
            None => Seq::<Seq<char>>::empty(),
        }) + seq![fs[j].kind@]));
    } else {
        lemma_field_parts_snoc(fs.drop_first(), j - 1);
        assert(a.drop_first() =~= fs.drop_first().take(j));
        assert(b.drop_first() =~= fs.drop_first().take(j - 1));
        assert(a[0] == fs[0] && b[0] == fs[0]);
        assert(spec_field_parts(a) =~~= spec_field_parts(b) + (seq![fs[j].name@] + (
        match fs[j].prompt {
            Some(p) => seq![p@],
            None => Seq::<Seq<char>>::empty(),
        }) + seq![fs[j].kind@]));
    }
}

/// The query tokens: whitespace-separated, each lowercased.
pub open spec fn spec_split_query(q: Seq<char>) -> Seq<Seq<char>> {
    spec_tokens(q).map_values(|t: Seq<char>| lower_of(t))
}

pub fn split_query(query: &str) -> (r: Vec<String>)
    ensures
        r.deep_view() == spec_split_query(query@),
{
    let cs = str_to_chars(query);
    let toks = split_tokens(&cs);
    let mut out: Vec<String> = Vec::new();
    let mut i: usize = 0;
    while i < toks.len()
        invariant
            i <= toks@.len(),
            toks.deep_view() == spec_tokens(query@),
            out.deep_view() == spec_split_query(query@).take(i as int),
        decreases toks@.len() - i,
    {
        let ghost prev = out.deep_view();
        let low = lowercase(chars_to_string(&toks[i]).as_str());
        out.push(low);
        proof {
            assert(toks@[i as int]@ == spec_tokens(query@)[i as int]);
            assert(out.deep_view() =~~= prev.push(lower_of(spec_tokens(query@)[i as int])));
            assert(out.deep_view() =~~= spec_split_query(query@).take(i + 1));
        }
        i = i + 1;
    }
    proof {
        assert(out.deep_view() =~~= spec_split_query(query@));
    }
    out
}

/// The tags of a stored record: comma-separated, trimmed, empties
/// dropped.
pub open spec fn spec_parse_tags_from(s: Seq<char>, i: int) -> Seq<Seq<char>>
    decreases s.len() - i,
{
    if i < 0 || i > s.len() {
        Seq::empty()
    } else {
        let j = spec_find_from(s, ',', i);
        if i <= j <= s.len() {
            let t = spec_trim(s.subrange(i, j));
            let head = if t.len() > 0 {
                seq![t]
            } else {
                Seq::<Seq<char>>::empty()
            };
            if j < s.len() {
                head + spec_parse_tags_from(s, j + 1)
            } else {
                head
            }
        } else {
            Seq::empty()
        }
    }
}

pub open spec fn spec_parse_tags_opt(raw: Option<Seq<char>>) -> Seq<Seq<char>> {
    match raw {
        Some(s) => spec_parse_tags_from(s, 0),
        None => Seq::empty(),
    }
}

pub open spec fn spec_parse_tags(raw: &Option<String>) -> Seq<Seq<char>> {
    spec_parse_tags_opt(opt_view(raw))
}

pub fn parse_tags(tags_raw: &Option<String>) -> (r: Vec<String>)
    ensures
        r.deep_view() == spec_parse_tags(tags_raw),
{
    let mut out: Vec<String> = Vec::new();
    let s = match tags_raw {
        Some(s) => s,
        None => {
            return out;
        },
    };
    let cs = str_to_chars(s.as_str());
    let n = cs.len();
    let mut i: usize = 0;
    let mut done = false;
    while !done
        invariant
            n == cs@.len(),
            cs@ == s@,
            i <= n + 1,
            done ==> spec_parse_tags_from(s@, 0) == out.deep_view(),
            !done ==> i <= n && spec_parse_tags_from(s@, 0) == out.deep_view()
                + spec_parse_tags_from(s@, i as int),
        decreases n + 1 - i, (if done { 0int } else { 1int }),
    {
        let ghost prev = out.deep_view();
        let j = find_from(&cs, ',', i);
        let t = trim_chars(&subrange_vec(&cs, i, j));
        if t.len() > 0 {
            out.push(chars_to_string(&t));
            proof {
                assert(out.deep_view() =~~= prev.push(spec_trim(s@.subrange(i as int, j as int))));
            }
        }
        if j < n {
            proof {
                assert(spec_parse_tags_from(s@, 0) =~~= out.deep_view() + spec_parse_tags_from(
                    s@,
                    j + 1,
                ));
            }
            i = j + 1;
        } else {
            proof {
                assert(spec_parse_tags_from(s@, 0) =~~= out.deep_view());
            }
            done = true;
        }
    }
    out
}

/// Replace the pattern characters of a LIKE expression so they match
/// literally: backslash, percent and underscore each get a leading
/// backslash.
pub open spec fn spec_escape_like(s: Seq<char>) -> Seq<char>
    decreases s.len(),
{
    if s.len() == 0 {
        Seq::empty()
    } else {
        let head = if s[0] == '\\' || s[0] == '%' || s[0] == '_' {
            seq!['\\', s[0]]
        } else {
            seq![s[0]]
        };
        head + spec_escape_like(s.drop_first())
    }
}

pub fn escape_like(input: &str) -> (r: String)
    ensures
        r@ == spec_escape_like(input@),
{
    let cs = str_to_chars(input);
    let n = cs.len();
    let mut out: Vec<char> = Vec::new();
    let mut i: usize = 0;
    proof {
        assert(input@.skip(0) =~= input@);
    }
    while i < n
        invariant
            n == cs@.len(),
            cs@ == input@,
            i <= n,
            spec_escape_like(input@) == out@ + spec_escape_like(input@.skip(i as int)),
        decreases n - i,
    {
        let c = cs[i];
        proof {
            assert(input@.skip(i as int)[0] == input@[i as int]);
            assert(input@.skip(i as int).drop_first() =~= input@.skip(i + 1));
        }
        if c == '\\' || c == '%' || c == '_' {
            out.push('\\');
            out.push(c);
        } else {
            out.push(c);
        }
        proof {
            assert(spec_escape_like(input@) =~= out@ + spec_escape_like(input@.skip(i + 1)));
        }
        i = i + 1;
    }
    proof {
        assert(input@.skip(n as int) =~= Seq::<char>::empty());
        assert(out@ =~= spec_escape_like(input@));
    }
    chars_to_string(&out)
}

/// Whether a blob satisfies a query: every token occurs in it as a
/// substring.
pub open spec fn spec_blob_match(blob: Seq<char>, tokens: Seq<Seq<char>>) -> bool {
    forall|i: int| 0 <= i < tokens.len() ==> spec_contains(blob, #[trigger] tokens[i])
}

/// An empty query matches every blob.
pub proof fn lemma_empty_query_matches_all(blob: Seq<char>)
    ensures
        spec_blob_match(blob, spec_split_query(Seq::empty())),
{
    assert(spec_tokens(Seq::empty()).len() == 0);
}

pub fn blob_matches(blob: &Vec<char>, tokens: &Vec<String>) -> (r: bool)
    ensures
        r == spec_blob_match(blob@, tokens.deep_view()),
{
    let n = tokens.len();
    let mut i: usize = 0;
    while i < n
        invariant
            n == tokens@.len(),
            i <= n,
            forall|k: int| 0 <= k < i ==> spec_contains(blob@, #[trigger] tokens.deep_view()[k]),
        decreases n - i,
    {
        let t = str_to_chars(tokens[i].as_str());
        if !contains_sub(blob, &t) {
            proof {
                assert(!spec_contains(blob@, tokens.deep_view()[i as int]));
            }
            return false;
        }
        i = i + 1;
    }
    true
}

} // verus!

verus! {

/// Strict lexicographic order on character sequences, by code point.
pub open spec fn spec_lex_lt(a: Seq<char>, b: Seq<char>) -> bool
    decreases a.len(),
{
    if b.len() == 0 {
        false
    } else if a.len() == 0 {
        true
    } else if a[0] != b[0] {
        a[0] < b[0]
    } else {
        spec_lex_lt(a.drop_first(), b.drop_first())
    }
}

pub proof fn lemma_lex_lt_connex(a: Seq<char>, b: Seq<char>)
    ensures
        spec_lex_lt(a, b) || spec_lex_lt(b, a) || a == b,
    decreases a.len(),
{
    if a.len() > 0 && b.len() > 0 && a[0] == b[0] {
        lemma_lex_lt_connex(a.drop_first(), b.drop_first());
        if a.drop_first() == b.drop_first() {
            assert(a =~= b) by {
                assert(forall|i: int|
                    1 <= i < a.len() ==> a[i] == a.drop_first()[i - 1] && b[i] == b.drop_first()[i
                        - 1]);
            }
        }
    }
}

pub proof fn lemma_lex_lt_trans(a: Seq<char>, b: Seq<char>, c: Seq<char>)
    requires
        spec_lex_lt(a, b),
        spec_lex_lt(b, c),
    ensures
        spec_lex_lt(a, c),
    decreases a.len(),
{
    if a.len() > 0 && b.len() > 0 && c.len() > 0 && a[0] == b[0] && b[0] == c[0] {
        lemma_lex_lt_trans(a.drop_first(), b.drop_first(), c.drop_first());
    }
}

pub proof fn lemma_lex_lt_irrefl(a: Seq<char>)
    ensures
        !spec_lex_lt(a, a),
    decreases a.len(),
{
    if a.len() > 0 {
        lemma_lex_lt_irrefl(a.drop_first());
    }
}

pub fn lex_lt_chars(a: &Vec<char>, b: &Vec<char>, i: usize) -> (r: bool)
    requires
        i <= a@.len(),
        i <= b@.len(),
    ensures
        r == spec_lex_lt(a@.skip(i as int), b@.skip(i as int)),
    decreases a@.len() - i,
{
    if i == b.len() {
        false
    } else if i == a.len() {
        true
    } else if a[i] != b[i] {
        proof {
            assert(a@.skip(i as int)[0] == a@[i as int]);
            assert(b@.skip(i as int)[0] == b@[i as int]);
        }
        a[i] < b[i]
    } else {
        proof {
            assert(a@.skip(i as int)[0] == a@[i as int]);
            assert(b@.skip(i as int)[0] == b@[i as int]);
            assert(a@.skip(i as int).drop_first() =~= a@.skip(i + 1));
            assert(b@.skip(i as int).drop_first() =~= b@.skip(i + 1));
        }
        lex_lt_chars(a, b, i + 1)
    }
}

/// The display order of query results: case-insensitive display name,
/// then case-insensitive path.
pub open spec fn spec_res_le(x: &SearchResult, y: &SearchResult) -> bool {
    let nx = spec_lower(x.display_name@);
    let ny = spec_lower(y.display_name@);
    let px = spec_lower(x.script_path@);
    let py = spec_lower(y.script_path@);
    spec_lex_lt(nx, ny) || (nx == ny && (spec_lex_lt(px, py) || px == py))
}

pub proof fn lemma_res_le_connex(x: &SearchResult, y: &SearchResult)
    ensures
        spec_res_le(x, y) || spec_res_le(y, x),
{
    lemma_lex_lt_connex(spec_lower(x.display_name@), spec_lower(y.display_name@));
    lemma_lex_lt_connex(spec_lower(x.script_path@), spec_lower(y.script_path@));
}

pub proof fn lemma_res_le_trans(x: &SearchResult, y: &SearchResult, z: &SearchResult)
    requires
        spec_res_le(x, y),
        spec_res_le(y, z),
    ensures
        spec_res_le(x, z),
{
    let nx = spec_lower(x.display_name@);
    let ny = spec_lower(y.display_name@);
    let nz = spec_lower(z.display_name@);
    let px = spec_lower(x.script_path@);
    let py = spec_lower(y.script_path@);
    let pz = spec_lower(z.script_path@);
    if spec_lex_lt(nx, ny) && spec_lex_lt(ny, nz) {
        lemma_lex_lt_trans(nx, ny, nz);
    }
    if nx == ny && ny == nz && spec_lex_lt(px, py) && spec_lex_lt(py, pz) {
        lemma_lex_lt_trans(px, py, pz);
    }
}

pub fn res_le(x: &SearchResult, y: &SearchResult) -> (r: bool)
    ensures
        r == spec_res_le(x, y),
{
    let nx = lower_chars(&str_to_chars(x.display_name.as_str()));
    let ny = lower_chars(&str_to_chars(y.display_name.as_str()));
    proof {
        assert(nx@.skip(0) =~= nx@);
        assert(ny@.skip(0) =~= ny@);
    }
    if lex_lt_chars(&nx, &ny, 0) {
        return true;
    }
    if !chars_eq(&nx, &ny) {
        return false;
    }
    let px = lower_chars(&str_to_chars(x.script_path.as_str()));
    let py = lower_chars(&str_to_chars(y.script_path.as_str()));
    proof {
        assert(px@.skip(0) =~= px@);
        assert(py@.skip(0) =~= py@);
    }
    if lex_lt_chars(&px, &py, 0) {
        return true;
    }
    chars_eq(&px, &py)
}

/// Sorted in display order.
pub open spec fn spec_sorted_results(s: Seq<SearchResult>) -> bool {
    forall|i: int, j: int| 0 <= i < j < s.len() ==> spec_res_le(&s[i], &s[j])
}

/// No two rows name the same script.
pub open spec fn distinct_paths(s: Seq<SearchResult>) -> bool {
    forall|i: int, j: int| 0 <= i < j < s.len() ==> (#[trigger] s[i].script_path@) != (#[trigger] s[j].script_path@)
}

/// No row of one list names the same script as a row of the other.
pub open spec fn cross_distinct_paths(a: Seq<SearchResult>, b: Seq<SearchResult>) -> bool {
    forall|i: int, j: int| 0 <= i < a.len() && 0 <= j < b.len() ==> (#[trigger] a[i].script_path@) != (#[trigger] b[j].script_path@)
}

/// Sort results into display order. The result holds the same elements,
/// as a multiset.
pub fn sort_results(v: Vec<SearchResult>) -> (r: Vec<SearchResult>)
    ensures
        spec_sorted_results(r@),
        r@.to_multiset() == v@.to_multiset(),
        distinct_paths(v@) ==> distinct_paths(r@),
{
    broadcast use vstd::seq_lib::group_to_multiset_ensures;

    let ghost orig_distinct = distinct_paths(v@);
    let mut rem = v;
    let mut out: Vec<SearchResult> = Vec::new();
    while rem.len() > 0
        invariant
            out@.to_multiset().add(rem@.to_multiset()) == v@.to_multiset(),
            spec_sorted_results(out@),
            orig_distinct == distinct_paths(v@),
            orig_distinct ==> distinct_paths(out@) && distinct_paths(rem@) && cross_distinct_paths(out@, rem@),
            forall|a: int, k: int|
                0 <= a < out@.len() && 0 <= k < rem@.len() ==> #[trigger] spec_res_le(
                    &out@[a],
                    &rem@[k],
                ),
        decreases rem@.len(),
    {
        let n = rem.len();
        let mut m: usize = 0;
        let mut k: usize = 1;
        while k < n
            invariant
                n == rem@.len(),
                m < k <= n || (k <= n && m == 0),
                m < n,
                forall|t: int| 0 <= t < k ==> spec_res_le(&rem@[m as int], &rem@[t]),
            decreases n - k,
        {
            if res_le(&rem[k], &rem[m]) {
                proof {
                    assert forall|t: int| 0 <= t < k + 1 implies spec_res_le(
                        &rem@[k as int],
                        &rem@[t],
                    ) by {
                        if t < k {
                            lemma_res_le_trans(&rem@[k as int], &rem@[m as int], &rem@[t]);
                        } else {
                            lemma_res_le_connex(&rem@[k as int], &rem@[k as int]);
                        }
                    }
                }
                m = k;
            } else {
                proof {
                    lemma_res_le_connex(&rem@[m as int], &rem@[k as int]);
                }
            }
            k = k + 1;
        }
        let ghost old_out = out@;
        let ghost old_rem = rem@;
        let x = rem.remove(m);
        out.push(x);
        proof {
            broadcast use vstd::seq_lib::group_to_multiset_ensures;

            assert(out@ =~= old_out.push(x));
            assert(rem@ =~= old_rem.remove(m as int));
            assert(old_out.push(x).to_multiset() =~= old_out.to_multiset().insert(x));
            assert(old_rem.contains(x)) by {
                assert(old_rem[m as int] == x);
            }
            assert(old_rem.to_multiset().count(x) > 0);
            assert(old_rem.remove(m as int).to_multiset() =~= old_rem.to_multiset().remove(x));
            assert(out@.to_multiset().add(rem@.to_multiset()) =~= v@.to_multiset());
            assert(spec_sorted_results(out@)) by {
                assert(forall|i: int| 0 <= i < old_out.len() ==> out@[i] == old_out[i]);
                assert(out@[out@.len() - 1] == old_rem[m as int]);
            }
            assert forall|a: int, kk: int|
                0 <= a < out@.len() && 0 <= kk < rem@.len() implies #[trigger] spec_res_le(
                &out@[a],
                &rem@[kk],
            ) by {
                let orig_kk = if kk < m { kk } else { kk + 1 };
                assert(rem@[kk] == old_rem[orig_kk]);
                if a < out@.len() - 1 {
                    assert(spec_res_le(&out@[a], &old_rem[orig_kk]));
                } else {
                    assert(out@[a] == old_rem[m as int]);
                    assert(spec_res_le(&old_rem[m as int], &old_rem[orig_kk]));
                }
            }
            if orig_distinct {
                assert(distinct_paths(out@)) by {
                    assert(forall|q: int| 0 <= q < old_out.len() ==> out@[q] == old_out[q]);
                    assert(out@[out@.len() - 1] == old_rem[m as int]);
                }
                assert(distinct_paths(rem@)) by {
                    assert forall|q: int, w: int|
                        0 <= q < w < rem@.len() implies (#[trigger] rem@[q].script_path@) != (
                    #[trigger] rem@[w].script_path@) by {
                        let oq = if q < m { q } else { q + 1 };
                        let ow = if w < m { w } else { w + 1 };
                        assert(rem@[q] == old_rem[oq] && rem@[w] == old_rem[ow]);
                    }
                }
                assert(cross_distinct_paths(out@, rem@)) by {
                    assert forall|a: int, kk: int|
                        0 <= a < out@.len() && 0 <= kk < rem@.len() implies (
                    #[trigger] out@[a].script_path@) != (#[trigger] rem@[kk].script_path@) by {
                        let orig_kk = if kk < m { kk } else { kk + 1 };
                        assert(rem@[kk] == old_rem[orig_kk]);
                        if a < out@.len() - 1 {
                            assert(out@[a] == old_out[a]);
                        } else {
                            assert(out@[a] == old_rem[m as int]);
                            assert(orig_kk != m);
                        }
                    }
                }
            }
        }
    }
    proof {
        broadcast use vstd::seq_lib::group_to_multiset_ensures;

        assert(rem@.to_multiset().len() == 0);
        assert(out@.to_multiset() =~= v@.to_multiset());
    }
    out
}

} // verus!

verus! {

/// The raw tags column of a record: the tags comma-joined, or nothing
/// when there are none.
pub open spec fn spec_tags_raw(tags: Seq<Seq<char>>) -> Option<Seq<char>> {
    if tags.len() == 0 {
        None
    } else {
        Some(spec_join(tags, ","@))
    }
}

/// The tag list a schema declares, empty when it declares none.
pub open spec fn spec_schema_tags(s: &crate::domain::Schema) -> Seq<Seq<char>> {
    match &s.tags {
        Some(t) => t.deep_view(),
        None => Seq::empty(),
    }
}

/// Build the index record of one script: on a resolved schema, its name,
/// description, tags and fields; on a failed resolution, the file name
/// and the error message. The search blob always covers the record.
pub fn build_record(
    relative: String,
    file_name: String,
    schema: Result<crate::domain::Schema, String>,
    indexed_at: i64,
) -> (r: SearchRecord)
    ensures
        r.script_path@ == relative@,
        r.indexed_at == indexed_at,
        schema matches Ok(s) ==> {
            &&& r.schema_error is None
            &&& r.display_name@ == s.name@
            &&& opt_view(&r.description) == opt_view(&s.description)
            &&& opt_view(&r.tags_raw) == spec_tags_raw(spec_schema_tags(&s))
            &&& r.fields@.len() == s.fields@.len()
            &&& (forall|i: int| 0 <= i < s.fields@.len() ==> {
                &&& (#[trigger] r.fields@[i]).name@ == s.fields@[i].name@
                &&& r.fields@[i].prompt == s.fields@[i].prompt
                &&& r.fields@[i].kind@ == s.fields@[i].kind@
                &&& r.fields@[i].required == (s.fields@[i].required == Some(true))
            })
            &&& r.search_blob@ == spec_search_blob(relative@, s.name@, opt_view(&s.description), spec_schema_tags(&s), r.fields@)
        },
        schema matches Err(e) ==> {
            &&& (r.schema_error matches Some(m) && m@ == e@)
            &&& r.display_name@ == file_name@
            &&& r.description is None
            &&& r.tags_raw is None
            &&& r.fields@.len() == 0
            &&& r.search_blob@ == spec_search_blob(relative@, file_name@, None, Seq::empty(), r.fields@)
        },
{
    match schema {
        Ok(s) => {
            let mut fields: Vec<SearchField> = Vec::new();
            let mut i: usize = 0;
            while i < s.fields.len()
                invariant
                    i <= s.fields@.len(),
                    fields@.len() == i,
                    forall|k: int| 0 <= k < i ==> {
                        &&& (#[trigger] fields@[k]).name@ == s.fields@[k].name@
                        &&& fields@[k].prompt == s.fields@[k].prompt
                        &&& fields@[k].kind@ == s.fields@[k].kind@
                        &&& fields@[k].required == (s.fields@[k].required == Some(true))
                    },
                decreases s.fields@.len() - i,
            {
                let f = &s.fields[i];
                let required = match f.required {
                    Some(b) => b,
                    None => false,
                };
                fields.push(SearchField {
                    name: f.name.clone(),
                    prompt: crate::store::clone_opt_string(&f.prompt),
                    kind: f.kind.clone(),
                    required,
                });
                i = i + 1;
            }
            let tags: Vec<String> = match &s.tags {
                Some(t) => crate::strutil::clone_strings(t),
                None => Vec::new(),
            };
            proof {
                assert(tags.deep_view() =~~= spec_schema_tags(&s));
            }
            let tags_raw: Option<String> = if tags.len() == 0 {
                None
            } else {
                let mut parts: Vec<Vec<char>> = Vec::new();
                let mut j: usize = 0;
                while j < tags.len()
                    invariant
                        j <= tags@.len(),
                        parts.deep_view() == tags.deep_view().take(j as int),
                    decreases tags@.len() - j,
                {
                    let ghost prev = parts.deep_view();
                    let part = str_to_chars(tags[j].as_str());
                    proof {
                        assert(part@ == tags.deep_view()[j as int]);
                    }
                    parts.push(part);
                    proof {
                        assert(parts.deep_view() =~~= prev.push(tags.deep_view()[j as int]));
                        assert(parts.deep_view() =~~= tags.deep_view().take(j + 1));
                    }
                    j = j + 1;
                }
                proof {
                    assert(parts.deep_view() =~~= tags.deep_view());
                }
                Some(chars_to_string(&join_chars(&parts, &str_to_chars(","))))
            };
            let search_blob = build_search_blob(
                relative.as_str(),
                s.name.as_str(),
                &s.description,
                &tags,
                &fields,
            );
            SearchRecord {
                script_path: relative,
                display_name: s.name,
                description: s.description,
                tags_raw,
                search_blob,
                schema_error: None,
                indexed_at,
                fields,
            }
        },
        Err(e) => {
            let fields: Vec<SearchField> = Vec::new();
            let no_tags: Vec<String> = Vec::new();
            let search_blob = build_search_blob(
                relative.as_str(),
                file_name.as_str(),
                &None,
                &no_tags,
                &fields,
            );
            proof {
                assert(no_tags.deep_view() =~~= Seq::<Seq<char>>::empty());
            }
            SearchRecord {
                script_path: relative,
                display_name: file_name,
                description: None,
                tags_raw: None,
                search_blob,
                schema_error: Some(e),
                indexed_at,
                fields,
            }
        },
    }
}

} // verus!
