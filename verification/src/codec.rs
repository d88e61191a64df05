use vstd::prelude::*;
use crate::json::{
    digits_end, lemma_skip_value_end, lemma_str_body_end, lemma_ws_end, lit_end, number_end,
    parse_string, skip_value, spec_is_digit, spec_lit_end, spec_number_end, spec_parse_string,
    spec_skip_value, ws_end, ws_end_exec, digits_end_exec,
};
use crate::strutil::{chars_to_string, str_to_chars};

verus! {

/// The keys of an object's members, each with the position where its
/// value starts, and the position after the closing brace. `i` points at
/// the first key.
pub open spec fn spec_members(s: Seq<char>, i: int) -> Option<(Seq<(Seq<char>, int)>, int)>
    decreases s.len() - i, 1int,
{
    if i < 0 || i >= s.len() {
        None
    } else {
        match spec_parse_string(s, i) {
            None => None,
            Some(key) => {
                if !(i < key.1 <= s.len()) {
                    None
                } else {
                    let c = ws_end(s, key.1);
                    if !(key.1 <= c <= s.len()) || c >= s.len() || s[c] != ':' {
                        None
                    } else {
                        let v = ws_end(s, c + 1);
                        if !(c + 1 <= v <= s.len()) {
                            None
                        } else {
                            match spec_skip_value(s, v) {
                                None => None,
                                Some(e) => {
                                    if !(v < e <= s.len()) {
                                        None
                                    } else {
                                        let k = ws_end(s, e);
                                        if !(e <= k <= s.len()) {
                                            None
                                        } else if k < s.len() && s[k] == '}' {
                                            Some((seq![(key.0, v)], k + 1))
                                        } else if k < s.len() && s[k] == ',' {
                                            let nxt = ws_end(s, k + 1);
                                            if k + 1 <= nxt <= s.len() {
                                                match spec_members(s, nxt) {
                                                    None => None,
                                                    Some(rest) => Some(
                                                        (seq![(key.0, v)] + rest.0, rest.1),
                                                    ),
                                                }
                                            } else {
                                                None
                                            }
                                        } else {
                                            None
                                        }
                                    }
                                },
                            }
                        }
                    }
                }
            },
        }
    }
}

/// The members of a whole object token at `i`, where one stands there.
pub open spec fn spec_obj_members(s: Seq<char>, i: int) -> Option<(Seq<(Seq<char>, int)>, int)> {
    if 0 <= i < s.len() && s[i] == '{' {
        let j = ws_end(s, i + 1);
        if !(i + 1 <= j <= s.len()) {
            None
        } else if j < s.len() && s[j] == '}' {
            Some((Seq::empty(), j + 1))
        } else {
            spec_members(s, j)
        }
    } else {
        None
    }
}

pub proof fn lemma_members_end(s: Seq<char>, i: int)
    requires
        0 <= i <= s.len(),
    ensures
        spec_members(s, i) matches Some(r) ==> i < r.1 <= s.len(),
    decreases s.len() - i,
{
    if 0 <= i < s.len() {
        match spec_parse_string(s, i) {
            Some(key) => {
                if i < key.1 <= s.len() {
                    let c = ws_end(s, key.1);
                    lemma_ws_end(s, key.1);
                    if key.1 <= c <= s.len() && c < s.len() && s[c] == ':' {
                        let v = ws_end(s, c + 1);
                        lemma_ws_end(s, c + 1);
                        if c + 1 <= v <= s.len() {
                            match spec_skip_value(s, v) {
                                Some(e) => {
                                    if v < e <= s.len() {
                                        let k = ws_end(s, e);
                                        lemma_ws_end(s, e);
                                        if e <= k <= s.len() && k < s.len() && s[k] == ',' {
                                            let nxt = ws_end(s, k + 1);
                                            lemma_ws_end(s, k + 1);
                                            if k + 1 <= nxt <= s.len() {
                                                lemma_members_end(s, nxt);
                                            }
                                        }
                                    }
                                },
                                None => {},
                            }
                        }
                    }
                }
            },
            None => {},
        }
    }
}

pub proof fn lemma_obj_members_end(s: Seq<char>, i: int)
    requires
        0 <= i <= s.len(),
    ensures
        spec_obj_members(s, i) matches Some(r) ==> i < r.1 <= s.len(),
{
    if 0 <= i < s.len() && s[i] == '{' {
        lemma_ws_end(s, i + 1);
        let j = ws_end(s, i + 1);
        if i + 1 <= j <= s.len() {
            lemma_members_end(s, j);
        }
    }
}

/// The view of an executable member list.
pub open spec fn mem_v(v: Seq<(Vec<char>, usize)>) -> Seq<(Seq<char>, int)> {
    v.map_values(|p: (Vec<char>, usize)| (p.0@, p.1 as int))
}

fn members(s: &Vec<char>, i: usize) -> (r: Option<(Vec<(Vec<char>, usize)>, usize)>)
    requires
        i <= s@.len(),
    ensures
        match r {
            Some(p) => spec_members(s@, i as int) == Some((mem_v(p.0@), p.1 as int)) && i < p.1 <= s@.len() && (forall|k: int| 0 <= k < p.0@.len() ==> (#[trigger] p.0@[k]).1 <= s@.len()),
            None => spec_members(s@, i as int) is None,
        },
    decreases s@.len() - i,
{
    proof {
        lemma_members_end(s@, i as int);
    }
    if i >= s.len() {
        return None;
    }
    let key = match parse_string(s, i) {
        None => {
            return None;
        },
        Some(p) => p,
    };
    let c = ws_end_exec(s, key.1);
    if c >= s.len() || s[c] != ':' {
        return None;
    }
    let v = ws_end_exec(s, c + 1);
    let e = match skip_value(s, v) {
        None => {
            return None;
        },
        Some(e) => e,
    };
    let k = ws_end_exec(s, e);
    if k < s.len() && s[k] == '}' {
        let mut out: Vec<(Vec<char>, usize)> = Vec::new();
        out.push((key.0, v));
        proof {
            assert(mem_v(out@) =~= seq![(spec_parse_string(s@, i as int)->Some_0.0, v as int)]);
        }
        Some((out, k + 1))
    } else if k < s.len() && s[k] == ',' {
        let nxt = ws_end_exec(s, k + 1);
        match members(s, nxt) {
            None => None,
            Some(rest) => {
                let mut out: Vec<(Vec<char>, usize)> = Vec::new();
                out.push((key.0, v));
                let mut restv = rest.0;
                let mut t: usize = 0;
                let ghost restg = restv@;
                while t < restv.len()
                    invariant
                        t <= restv@.len(),
                        restv@ == restg,
                        out@.len() == t + 1,
                        forall|q: int| 1 <= q < t + 1 ==> (#[trigger] out@[q]).0@ == restg[q - 1].0@ && out@[q].1 == restg[q - 1].1,
                        out@[0].0@ == spec_parse_string(s@, i as int)->Some_0.0 && out@[0].1 == v,
                        forall|k: int| 0 <= k < restg.len() ==> (#[trigger] restg[k]).1 <= s@.len(),
                        v <= s@.len(),
                    decreases restv@.len() - t,
                {
                    out.push((crate::strutil::clone_chars(&restv[t].0), restv[t].1));
                    proof {
                        assert(out@[t + 1].0@ == restg[t as int].0@ && out@[t + 1].1 == restg[t as int].1);
                    }
                    t = t + 1;
                }
                proof {
                    assert(mem_v(out@) =~= seq![(spec_parse_string(s@, i as int)->Some_0.0, v as int)] + mem_v(restg));
                }
                Some((out, rest.1))
            },
        }
    } else {
        None
    }
}

/// The members of one object token.
pub fn obj_members(s: &Vec<char>, i: usize) -> (r: Option<(Vec<(Vec<char>, usize)>, usize)>)
    requires
        i <= s@.len(),
    ensures
        match r {
            Some(p) => spec_obj_members(s@, i as int) == Some((mem_v(p.0@), p.1 as int)) && i < p.1 <= s@.len() && (forall|k: int| 0 <= k < p.0@.len() ==> (#[trigger] p.0@[k]).1 <= s@.len()),
            None => spec_obj_members(s@, i as int) is None,
        },
{
    if i < s.len() && s[i] == '{' {
        let j = ws_end_exec(s, i + 1);
        if j < s.len() && s[j] == '}' {
            let out: Vec<(Vec<char>, usize)> = Vec::new();
            proof {
                assert(mem_v(out@) =~= Seq::<(Seq<char>, int)>::empty());
            }
            Some((out, j + 1))
        } else {
            members(s, j)
        }
    } else {
        None
    }
}

/// The value position of the first member with the key, where one
/// exists.
pub open spec fn spec_find_key(ms: Seq<(Seq<char>, int)>, key: Seq<char>) -> Option<int>
    decreases ms.len(),
{
    if ms.len() == 0 {
        None
    } else if ms[0].0 == key {
        Some(ms[0].1)
    } else {
        spec_find_key(ms.drop_first(), key)
    }
}

/// How many members carry the key.
pub open spec fn spec_key_count(ms: Seq<(Seq<char>, int)>, key: Seq<char>) -> nat
    decreases ms.len(),
{
    if ms.len() == 0 {
        0
    } else if ms[0].0 == key {
        1 + spec_key_count(ms.drop_first(), key)
    } else {
        spec_key_count(ms.drop_first(), key)
    }
}

/// Find a key's value position and whether it occurs exactly once or
/// not at all.
pub fn find_key(ms: &Vec<(Vec<char>, usize)>, key: &Vec<char>) -> (r: (Option<usize>, bool))
    ensures
        match r.0 {
            Some(p) => spec_find_key(mem_v(ms@), key@) == Some(p as int),
            None => spec_find_key(mem_v(ms@), key@) is None,
        },
        r.1 == (spec_key_count(mem_v(ms@), key@) <= 1),
{
    let n = ms.len();
    let mut first: Option<usize> = None;
    let mut count: usize = 0;
    let mut i: usize = 0;
    proof {
        assert(mem_v(ms@).skip(0) =~= mem_v(ms@));
    }
    while i < n
        invariant
            n == ms@.len(),
            i <= n,
            count <= i,
            spec_find_key(mem_v(ms@), key@) == (match first {
                Some(p) => Some(p as int),
                None => spec_find_key(mem_v(ms@).skip(i as int), key@),
            }),
            spec_key_count(mem_v(ms@), key@) == count + spec_key_count(mem_v(ms@).skip(i as int), key@),
            first is None ==> count == 0,
            first is Some ==> count >= 1,
        decreases n - i,
    {
        proof {
            assert(mem_v(ms@).skip(i as int)[0] == mem_v(ms@)[i as int]);
            assert(mem_v(ms@).skip(i as int).drop_first() =~= mem_v(ms@).skip(i + 1));
        }
        if crate::strutil::chars_eq(&ms[i].0, key) {
            if first.is_none() {
                first = Some(ms[i].1);
            }
            count = count + 1;
        }
        i = i + 1;
    }
    proof {
        assert(mem_v(ms@).skip(n as int) =~= Seq::<(Seq<char>, int)>::empty());
    }
    (first, count <= 1)
}

} // verus!

verus! {

/// The value of the decimal digits in `[i, e)`.
pub open spec fn spec_digits_val(s: Seq<char>, i: int, e: int) -> int
    decreases e - i,
{
    if i >= e {
        0
    } else {
        spec_digits_val(s, i, e - 1) * 10 + ((s[e - 1] as u32) - ('0' as u32))
    }
}

pub open spec fn spec_all_digits(s: Seq<char>, i: int, e: int) -> bool {
    forall|k: int| i <= k < e ==> spec_is_digit(#[trigger] s[k])
}

/// An unsigned 32-bit integer token: a plain digit run within range.
pub open spec fn spec_parse_u32(s: Seq<char>, i: int) -> Option<(u32, int)> {
    match spec_number_end(s, i) {
        None => None,
        Some(e) => {
            if 0 <= i < e <= s.len() && e - i <= 10 && spec_all_digits(s, i, e) && spec_digits_val(s, i, e) <= u32::MAX {
                Some((spec_digits_val(s, i, e) as u32, e))
            } else {
                None
            }
        },
    }
}

fn parse_u32(s: &Vec<char>, i: usize) -> (r: Option<(u32, usize)>)
    requires
        i <= s@.len(),
    ensures
        match r {
            Some(p) => spec_parse_u32(s@, i as int) == Some((p.0, p.1 as int)) && i < p.1 <= s@.len(),
            None => spec_parse_u32(s@, i as int) is None,
        },
{
    let e = match number_end(s, i) {
        None => {
            return None;
        },
        Some(e) => e,
    };
    if e - i > 10 {
        return None;
    }
    let mut acc: u64 = 0;
    let mut k: usize = i;
    while k < e
        invariant
            i <= k <= e <= s@.len(),
            i < e,
            spec_number_end(s@, i as int) == Some(e as int),
            e - i <= 10,
            spec_all_digits(s@, i as int, k as int),
            acc == spec_digits_val(s@, i as int, k as int),
            acc <= 0xFFFF_FFFFu64,
        decreases e - k,
    {
        let c = s[k];
        if !('0' <= c && c <= '9') {
            proof {
                assert(!spec_is_digit(s@[k as int]));
            }
            return None;
        }
        acc = acc * 10 + ((c as u32) as u64 - ('0' as u32) as u64);
        k = k + 1;
        if acc > 0xFFFF_FFFFu64 {
            // any further digits only grow the value past the range
            proof {
                lemma_digits_val_nonneg(s@, i as int, k as int);
                lemma_digits_val_grows(s@, i as int, k as int, e as int);
            }
            return None;
        }
    }
    Some((acc as u32, e))
}

/// More digits never shrink the value.
proof fn lemma_digits_val_grows(s: Seq<char>, i: int, m: int, e: int)
    requires
        i <= m <= e,
        spec_digits_val(s, i, m) >= 0,
    ensures
        spec_digits_val(s, i, e) >= spec_digits_val(s, i, m) || !spec_all_digits(s, m, e),
    decreases e - m,
{
    if m < e {
        if spec_all_digits(s, m, e) {
            assert(spec_is_digit(s[e - 1]));
            lemma_digits_val_grows(s, i, m, e - 1);
            if spec_digits_val(s, i, e - 1) >= spec_digits_val(s, i, m) {
                assert(spec_digits_val(s, i, e) == spec_digits_val(s, i, e - 1) * 10 + ((s[e - 1] as u32) - ('0' as u32)));
                assert(spec_digits_val(s, i, e - 1) * 10 >= spec_digits_val(s, i, e - 1)) by {
                    lemma_digits_val_nonneg(s, i, e - 1);
                }
                assert((s[e - 1] as u32) - ('0' as u32) >= 0);
            } else {
                assert(!spec_all_digits(s, m, e - 1));
                assert(false);
            }
        }
    }
}

proof fn lemma_digits_val_nonneg(s: Seq<char>, i: int, e: int)
    ensures
        spec_digits_val(s, i, e) >= 0 || !spec_all_digits(s, i, e),
    decreases e - i,
{
    if i < e {
        if spec_all_digits(s, i, e) {
            assert(spec_all_digits(s, i, e - 1));
            lemma_digits_val_nonneg(s, i, e - 1);
            assert(spec_is_digit(s[e - 1]));
        }
    }
}

/// A signed 64-bit integer token: an optional minus and a digit run
/// within range.
pub open spec fn spec_parse_i64(s: Seq<char>, i: int) -> Option<(i64, int)> {
    match spec_number_end(s, i) {
        None => None,
        Some(e) => {
            if !(0 <= i < e <= s.len()) {
                None
            } else {
                let neg = s[i] == '-';
                let d0 = if neg {
                    i + 1
                } else {
                    i
                };
                if e - d0 <= 19 && d0 < e && spec_all_digits(s, d0, e) {
                    let mag = spec_digits_val(s, d0, e);
                    if neg && mag <= 0x8000_0000_0000_0000 {
                        Some(((-mag) as i64, e))
                    } else if !neg && mag <= 0x7FFF_FFFF_FFFF_FFFF {
                        Some((mag as i64, e))
                    } else {
                        None
                    }
                } else {
                    None
                }
            }
        },
    }
}

fn parse_i64(s: &Vec<char>, i: usize) -> (r: Option<(i64, usize)>)
    requires
        i <= s@.len(),
    ensures
        match r {
            Some(p) => spec_parse_i64(s@, i as int) == Some((p.0, p.1 as int)) && i < p.1 <= s@.len(),
            None => spec_parse_i64(s@, i as int) is None,
        },
{
    let e = match number_end(s, i) {
        None => {
            return None;
        },
        Some(e) => e,
    };
    let neg = s[i] == '-';
    let d0 = if neg {
        i + 1
    } else {
        i
    };
    if e - d0 > 19 || d0 >= e {
        return None;
    }
    let mut acc: u64 = 0;
    let mut k: usize = d0;
    while k < e
        invariant
            i <= d0 <= k <= e <= s@.len(),
            i < e,
            spec_number_end(s@, i as int) == Some(e as int),
            neg == (s@[i as int] == '-'),
            d0 == (if neg { i + 1 } else { i as int }),
            d0 < e,
            e - d0 <= 19,
            spec_all_digits(s@, d0 as int, k as int),
            acc == spec_digits_val(s@, d0 as int, k as int),
            acc <= 0x8000_0000_0000_0000u64,
        decreases e - k,
    {
        let c = s[k];
        if !('0' <= c && c <= '9') {
            proof {
                assert(!spec_is_digit(s@[k as int]));
            }
            return None;
        }
        let d: u64 = (c as u32) as u64 - ('0' as u32) as u64;
        if acc > (0x8000_0000_0000_0000u64 - d) / 10 {
            proof {
                assert(spec_digits_val(s@, d0 as int, k + 1) == spec_digits_val(s@, d0 as int, k as int) * 10 + d);
                assert(acc * 10 + d > 0x8000_0000_0000_0000u64) by (nonlinear_arith)
                    requires acc > (0x8000_0000_0000_0000u64 - d) / 10 && d <= 9 && acc >= 0;
                lemma_digits_val_nonneg(s@, d0 as int, k + 1);
                lemma_digits_val_grows(s@, d0 as int, k + 1, e as int);
            }
            return None;
        }
        proof {
            assert(acc * 10 + d <= 0x8000_0000_0000_0000u64) by (nonlinear_arith)
                requires acc <= (0x8000_0000_0000_0000u64 - d) / 10 && d <= 9 && acc >= 0;
        }
        acc = acc * 10 + d;
        k = k + 1;
    }
    if neg {
        if acc > 0x8000_0000_0000_0000u64 {
            return None;
        }
        if acc == 0x8000_0000_0000_0000u64 {
            Some((i64::MIN, e))
        } else {
            Some((-(acc as i64), e))
        }
    } else {
        if acc > 0x7FFF_FFFF_FFFF_FFFFu64 {
            return None;
        }
        Some((acc as i64, e))
    }
}

/// A string token or the null literal.
pub open spec fn spec_parse_opt_string(s: Seq<char>, i: int) -> Option<(Option<Seq<char>>, int)> {
    if 0 <= i < s.len() && s[i] == 'n' {
        match spec_lit_end(s, i, "null"@) {
            None => None,
            Some(e) => Some((None, e)),
        }
    } else {
        match spec_parse_string(s, i) {
            None => None,
            Some(p) => Some((Some(p.0), p.1)),
        }
    }
}

fn parse_opt_string(s: &Vec<char>, i: usize) -> (r: Option<(Option<Vec<char>>, usize)>)
    requires
        i <= s@.len(),
    ensures
        match r {
            Some(p) => (match p.0 {
                Some(v) => spec_parse_opt_string(s@, i as int) == Some((Some(v@), p.1 as int)),
                None => spec_parse_opt_string(s@, i as int) == Some((None::<Seq<char>>, p.1 as int)),
            }) && i < p.1 <= s@.len(),
            None => spec_parse_opt_string(s@, i as int) is None,
        },
{
    if i < s.len() && s[i] == 'n' {
        proof {
            reveal_strlit("null");
        }
        match lit_end(s, i, &str_to_chars("null")) {
            None => None,
            Some(e) => Some((None, e)),
        }
    } else {
        match parse_string(s, i) {
            None => None,
            Some(p) => Some((Some(p.0), p.1)),
        }
    }
}

/// A boolean literal.
pub open spec fn spec_parse_bool_tok(s: Seq<char>, i: int) -> Option<(bool, int)> {
    match spec_lit_end(s, i, "true"@) {
        Some(e) => Some((true, e)),
        None => match spec_lit_end(s, i, "false"@) {
            Some(e) => Some((false, e)),
            None => None,
        },
    }
}

fn parse_bool_tok(s: &Vec<char>, i: usize) -> (r: Option<(bool, usize)>)
    requires
        i <= s@.len(),
    ensures
        match r {
            Some(p) => spec_parse_bool_tok(s@, i as int) == Some((p.0, p.1 as int)) && i < p.1 <= s@.len(),
            None => spec_parse_bool_tok(s@, i as int) is None,
        },
{
    proof {
        reveal_strlit("true");
        reveal_strlit("false");
    }
    match lit_end(s, i, &str_to_chars("true")) {
        Some(e) => Some((true, e)),
        None => match lit_end(s, i, &str_to_chars("false")) {
            Some(e) => Some((false, e)),
            None => None,
        },
    }
}

/// The remaining string elements of an array whose next element starts
/// at `i`.
pub open spec fn spec_str_items(s: Seq<char>, i: int) -> Option<(Seq<Seq<char>>, int)>
    decreases s.len() - i,
{
    if i < 0 || i >= s.len() {
        None
    } else {
        match spec_parse_string(s, i) {
            None => None,
            Some(p) => {
                if !(i < p.1 <= s.len()) {
                    None
                } else {
                    let k = ws_end(s, p.1);
                    if !(p.1 <= k <= s.len()) {
                        None
                    } else if k < s.len() && s[k] == ']' {
                        Some((seq![p.0], k + 1))
                    } else if k < s.len() && s[k] == ',' {
                        let nxt = ws_end(s, k + 1);
                        if k + 1 <= nxt <= s.len() {
                            match spec_str_items(s, nxt) {
                                None => None,
                                Some(rest) => Some((seq![p.0] + rest.0, rest.1)),
                            }
                        } else {
                            None
                        }
                    } else {
                        None
                    }
                }
            },
        }
    }
}

/// A whole array of strings at `i`.
pub open spec fn spec_parse_str_arr(s: Seq<char>, i: int) -> Option<(Seq<Seq<char>>, int)> {
    if 0 <= i < s.len() && s[i] == '[' {
        let j = ws_end(s, i + 1);
        if !(i + 1 <= j <= s.len()) {
            None
        } else if j < s.len() && s[j] == ']' {
            Some((Seq::empty(), j + 1))
        } else {
            spec_str_items(s, j)
        }
    } else {
        None
    }
}

pub proof fn lemma_str_items_end(s: Seq<char>, i: int)
    requires
        0 <= i <= s.len(),
    ensures
        spec_str_items(s, i) matches Some(r) ==> i < r.1 <= s.len(),
    decreases s.len() - i,
{
    if 0 <= i < s.len() {
        match spec_parse_string(s, i) {
            Some(p) => {
                if i < p.1 <= s.len() {
                    lemma_ws_end(s, p.1);
                    let k = ws_end(s, p.1);
                    if p.1 <= k <= s.len() && k < s.len() && s[k] == ',' {
                        lemma_ws_end(s, k + 1);
                        let nxt = ws_end(s, k + 1);
                        if k + 1 <= nxt <= s.len() {
                            lemma_str_items_end(s, nxt);
                        }
                    }
                }
            },
            None => {},
        }
    }
}

fn str_items(s: &Vec<char>, i: usize) -> (r: Option<(Vec<String>, usize)>)
    requires
        i <= s@.len(),
    ensures
        match r {
            Some(p) => spec_str_items(s@, i as int) == Some((p.0.deep_view(), p.1 as int)) && i < p.1 <= s@.len(),
            None => spec_str_items(s@, i as int) is None,
        },
    decreases s@.len() - i,
{
    proof {
        lemma_str_items_end(s@, i as int);
    }
    if i >= s.len() {
        return None;
    }
    let p = match parse_string(s, i) {
        None => {
            return None;
        },
        Some(p) => p,
    };
    let head = crate::strutil::chars_to_string(&p.0);
    let k = ws_end_exec(s, p.1);
    if k < s.len() && s[k] == ']' {
        let mut out: Vec<String> = Vec::new();
        out.push(head);
        proof {
            assert(out.deep_view() =~~= seq![spec_parse_string(s@, i as int)->Some_0.0]);
        }
        Some((out, k + 1))
    } else if k < s.len() && s[k] == ',' {
        let nxt = ws_end_exec(s, k + 1);
        match str_items(s, nxt) {
            None => None,
            Some(rest) => {
                let mut out: Vec<String> = Vec::new();
                out.push(head);
                let ghost restg = rest.0.deep_view();
                let mut rv = rest.0;
                let mut t: usize = 0;
                while t < rv.len()
                    invariant
                        t <= rv@.len(),
                        rv.deep_view() == restg,
                        out@.len() == t + 1,
                        forall|q: int| 1 <= q < t + 1 ==> (#[trigger] out@[q])@ == restg[q - 1],
                        out@[0]@ == spec_parse_string(s@, i as int)->Some_0.0,
                    decreases rv@.len() - t,
                {
                    out.push(rv[t].clone());
                    proof {
                        assert(rv.deep_view()[t as int] == rv@[t as int]@);
                    }
                    t = t + 1;
                }
                proof {
                    assert(out.deep_view() =~~= seq![spec_parse_string(s@, i as int)->Some_0.0] + restg);
                }
                Some((out, rest.1))
            },
        }
    } else {
        None
    }
}

pub fn parse_str_arr(s: &Vec<char>, i: usize) -> (r: Option<(Vec<String>, usize)>)
    requires
        i <= s@.len(),
    ensures
        match r {
            Some(p) => spec_parse_str_arr(s@, i as int) == Some((p.0.deep_view(), p.1 as int)) && i < p.1 <= s@.len(),
            None => spec_parse_str_arr(s@, i as int) is None,
        },
{
    if i < s.len() && s[i] == '[' {
        let j = ws_end_exec(s, i + 1);
        if j < s.len() && s[j] == ']' {
            let out: Vec<String> = Vec::new();
            proof {
                assert(out.deep_view() =~~= Seq::<Seq<char>>::empty());
            }
            Some((out, j + 1))
        } else {
            str_items(s, j)
        }
    } else {
        None
    }
}

} // verus!

verus! {

/// The parsed form of one field declaration.
pub struct FieldV {
    pub name: Seq<char>,
    pub prompt: Option<Seq<char>>,
    pub kind: Seq<char>,
    pub order: u32,
    pub required: Option<bool>,
    pub default: Option<Seq<char>>,
    pub choices: Option<Seq<Seq<char>>>,
    pub arg: Option<Seq<char>>,
}

/// The parsed form of one output declaration.
pub struct OutputV {
    pub name: Seq<char>,
    pub kind: Seq<char>,
}

/// The parsed form of a whole schema block.
pub struct SchemaV {
    pub name: Seq<char>,
    pub description: Option<Seq<char>>,
    pub tags: Option<Seq<Seq<char>>>,
    pub fields: Seq<FieldV>,
    pub outputs: Option<Seq<OutputV>>,
}

pub open spec fn field_v(f: &crate::domain::Field) -> FieldV {
    FieldV {
        name: f.name@,
        prompt: crate::search::opt_view(&f.prompt),
        kind: f.kind@,
        order: f.order,
        required: f.required,
        default: crate::search::opt_view(&f.default),
        choices: match &f.choices {
            Some(cs) => Some(cs.deep_view()),
            None => None,
        },
        arg: crate::search::opt_view(&f.arg),
    }
}

pub open spec fn output_v(o: &crate::domain::SchemaOutput) -> OutputV {
    OutputV { name: o.name@, kind: o.kind@ }
}

pub open spec fn schema_v(s: &crate::domain::Schema) -> SchemaV {
    SchemaV {
        name: s.name@,
        description: crate::search::opt_view(&s.description),
        tags: match &s.tags {
            Some(t) => Some(t.deep_view()),
            None => None,
        },
        fields: s.fields@.map_values(|f: crate::domain::Field| field_v(&f)),
        outputs: match &s.outputs {
            Some(os) => Some(os@.map_values(|o: crate::domain::SchemaOutput| output_v(&o))),
            None => None,
        },
    }
}

/// A required string member's text: the key must be present exactly
/// where the lookup said, holding a string token.
pub open spec fn spec_req_string(s: Seq<char>, ms: Seq<(Seq<char>, int)>, key: Seq<char>) -> Option<Seq<char>> {
    match spec_find_key(ms, key) {
        None => None,
        Some(p) => match spec_parse_string(s, p) {
            None => None,
            Some(v) => Some(v.0),
        },
    }
}

/// An optional string member: absent or null reads as nothing.
/// The outer option is the parse outcome, the inner the value.
pub open spec fn spec_opt_string_mem(s: Seq<char>, ms: Seq<(Seq<char>, int)>, key: Seq<char>) -> Option<Option<Seq<char>>> {
    match spec_find_key(ms, key) {
        None => Some(None),
        Some(p) => match spec_parse_opt_string(s, p) {
            None => None,
            Some(v) => Some(v.0),
        },
    }
}

/// An optional boolean member.
pub open spec fn spec_opt_bool_mem(s: Seq<char>, ms: Seq<(Seq<char>, int)>, key: Seq<char>) -> Option<Option<bool>> {
    match spec_find_key(ms, key) {
        None => Some(None),
        Some(p) => {
            if 0 <= p < s.len() && s[p] == 'n' {
                match spec_lit_end(s, p, "null"@) {
                    None => None,
                    Some(_e) => Some(None),
                }
            } else {
                match spec_parse_bool_tok(s, p) {
                    None => None,
                    Some(v) => Some(Some(v.0)),
                }
            }
        },
    }
}

/// An optional array-of-strings member.
pub open spec fn spec_opt_str_arr_mem(s: Seq<char>, ms: Seq<(Seq<char>, int)>, key: Seq<char>) -> Option<Option<Seq<Seq<char>>>> {
    match spec_find_key(ms, key) {
        None => Some(None),
        Some(p) => {
            if 0 <= p < s.len() && s[p] == 'n' {
                match spec_lit_end(s, p, "null"@) {
                    None => None,
                    Some(_e) => Some(None),
                }
            } else {
                match spec_parse_str_arr(s, p) {
                    None => None,
                    Some(v) => Some(Some(v.0)),
                }
            }
        },
    }
}

/// No key of the list occurs twice among the members.
pub open spec fn spec_keys_unique(ms: Seq<(Seq<char>, int)>, keys: Seq<Seq<char>>) -> bool {
    forall|i: int| 0 <= i < keys.len() ==> spec_key_count(ms, #[trigger] keys[i]) <= 1
}

/// The field a member list defines: Name, Type and Order are required,
/// the rest read as nothing when absent or null. A repeated known key
/// fails.
pub open spec fn spec_field_from(s: Seq<char>, ms: Seq<(Seq<char>, int)>) -> Option<FieldV> {
    if !spec_keys_unique(ms, seq!["Name"@, "Prompt"@, "Type"@, "Order"@, "Required"@, "Default"@, "Choices"@, "Arg"@]) {
        None
    } else {
        match spec_req_string(s, ms, "Name"@) {
            None => None,
            Some(name) => match spec_req_string(s, ms, "Type"@) {
                None => None,
                Some(kind) => match spec_find_key(ms, "Order"@) {
                    None => None,
                    Some(op) => match spec_parse_u32(s, op) {
                        None => None,
                        Some(order) => match spec_opt_string_mem(s, ms, "Prompt"@) {
                            None => None,
                            Some(prompt) => match spec_opt_bool_mem(s, ms, "Required"@) {
                                None => None,
                                Some(required) => match spec_opt_string_mem(s, ms, "Default"@) {
                                    None => None,
                                    Some(default) => match spec_opt_str_arr_mem(s, ms, "Choices"@) {
                                        None => None,
                                        Some(choices) => match spec_opt_string_mem(s, ms, "Arg"@) {
                                            None => None,
                                            Some(arg) => Some(FieldV {
                                                name,
                                                prompt,
                                                kind,
                                                order: order.0,
                                                required,
                                                default,
                                                choices,
                                                arg,
                                            }),
                                        },
                                    },
                                },
                            },
                        },
                    },
                },
            },
        }
    }
}

/// The output a member list defines: Name and Type.
pub open spec fn spec_output_from(s: Seq<char>, ms: Seq<(Seq<char>, int)>) -> Option<OutputV> {
    if !spec_keys_unique(ms, seq!["Name"@, "Type"@]) {
        None
    } else {
        match spec_req_string(s, ms, "Name"@) {
            None => None,
            Some(name) => match spec_req_string(s, ms, "Type"@) {
                None => None,
                Some(kind) => Some(OutputV { name, kind }),
            },
        }
    }
}

/// The remaining field objects of an array whose next element starts at
/// `i`.
pub open spec fn spec_field_items(s: Seq<char>, i: int) -> Option<(Seq<FieldV>, int)>
    decreases s.len() - i,
{
    if i < 0 || i >= s.len() {
        None
    } else {
        match spec_obj_members(s, i) {
            None => None,
            Some(m) => {
                if !(i < m.1 <= s.len()) {
                    None
                } else {
                    match spec_field_from(s, m.0) {
                        None => None,
                        Some(fv) => {
                            let k = ws_end(s, m.1);
                            if !(m.1 <= k <= s.len()) {
                                None
                            } else if k < s.len() && s[k] == ']' {
                                Some((seq![fv], k + 1))
                            } else if k < s.len() && s[k] == ',' {
                                let nxt = ws_end(s, k + 1);
                                if k + 1 <= nxt <= s.len() {
                                    match spec_field_items(s, nxt) {
                                        None => None,
                                        Some(rest) => Some((seq![fv] + rest.0, rest.1)),
                                    }
                                } else {
                                    None
                                }
                            } else {
                                None
                            }
                        },
                    }
                }
            },
        }
    }
}

pub open spec fn spec_parse_fields_arr(s: Seq<char>, i: int) -> Option<(Seq<FieldV>, int)> {
    if 0 <= i < s.len() && s[i] == '[' {
        let j = ws_end(s, i + 1);
        if !(i + 1 <= j <= s.len()) {
            None
        } else if j < s.len() && s[j] == ']' {
            Some((Seq::empty(), j + 1))
        } else {
            spec_field_items(s, j)
        }
    } else {
        None
    }
}

/// The remaining output objects of an array.
pub open spec fn spec_output_items(s: Seq<char>, i: int) -> Option<(Seq<OutputV>, int)>
    decreases s.len() - i,
{
    if i < 0 || i >= s.len() {
        None
    } else {
        match spec_obj_members(s, i) {
            None => None,
            Some(m) => {
                if !(i < m.1 <= s.len()) {
                    None
                } else {
                    match spec_output_from(s, m.0) {
                        None => None,
                        Some(ov) => {
                            let k = ws_end(s, m.1);
                            if !(m.1 <= k <= s.len()) {
                                None
                            } else if k < s.len() && s[k] == ']' {
                                Some((seq![ov], k + 1))
                            } else if k < s.len() && s[k] == ',' {
                                let nxt = ws_end(s, k + 1);
                                if k + 1 <= nxt <= s.len() {
                                    match spec_output_items(s, nxt) {
                                        None => None,
                                        Some(rest) => Some((seq![ov] + rest.0, rest.1)),
                                    }
                                } else {
                                    None
                                }
                            } else {
                                None
                            }
                        },
                    }
                }
            },
        }
    }
}

pub open spec fn spec_parse_outputs_arr(s: Seq<char>, i: int) -> Option<(Seq<OutputV>, int)> {
    if 0 <= i < s.len() && s[i] == '[' {
        let j = ws_end(s, i + 1);
        if !(i + 1 <= j <= s.len()) {
            None
        } else if j < s.len() && s[j] == ']' {
            Some((Seq::empty(), j + 1))
        } else {
            spec_output_items(s, j)
        }
    } else {
        None
    }
}

/// The schema an object's member list defines: Name and Fields are
/// required; Description, Tags and Outputs read as nothing when absent
/// or null; other members are ignored.
pub open spec fn spec_schema_from(s: Seq<char>, ms: Seq<(Seq<char>, int)>) -> Option<SchemaV> {
    if !spec_keys_unique(ms, seq!["Name"@, "Description"@, "Tags"@, "Fields"@, "Outputs"@]) {
        None
    } else {
        match spec_req_string(s, ms, "Name"@) {
            None => None,
            Some(name) => match spec_opt_string_mem(s, ms, "Description"@) {
                None => None,
                Some(description) => match spec_opt_str_arr_mem(s, ms, "Tags"@) {
                    None => None,
                    Some(tags) => match spec_find_key(ms, "Fields"@) {
                        None => None,
                        Some(fp) => match spec_parse_fields_arr(s, fp) {
                            None => None,
                            Some(fields) => match spec_find_key(ms, "Outputs"@) {
                                None => Some(SchemaV {
                                    name,
                                    description,
                                    tags,
                                    fields: fields.0,
                                    outputs: None,
                                }),
                                Some(op) => {
                                    if 0 <= op < s.len() && s[op] == 'n' {
                                        match spec_lit_end(s, op, "null"@) {
                                            None => None,
                                            Some(_e) => Some(SchemaV {
                                                name,
                                                description,
                                                tags,
                                                fields: fields.0,
                                                outputs: None,
                                            }),
                                        }
                                    } else {
                                        match spec_parse_outputs_arr(s, op) {
                                            None => None,
                                            Some(os) => Some(SchemaV {
                                                name,
                                                description,
                                                tags,
                                                fields: fields.0,
                                                outputs: Some(os.0),
                                            }),
                                        }
                                    }
                                },
                            },
                        },
                    },
                },
            },
        }
    }
}

/// The first position at or after `i` where a brace opens an object that
/// reads as a schema, and that schema.
pub open spec fn spec_parse_schema_text(s: Seq<char>, i: int) -> Option<SchemaV>
    decreases s.len() - i,
{
    if i < 0 || i >= s.len() {
        None
    } else {
        let j = crate::strutil::spec_find_from(s, '{', i);
        if !(i <= j) || j >= s.len() {
            None
        } else {
            match spec_obj_members(s, j) {
                Some(m) => match spec_schema_from(s, m.0) {
                    Some(sv) => Some(sv),
                    None => spec_parse_schema_text(s, j + 1),
                },
                None => spec_parse_schema_text(s, j + 1),
            }
        }
    }
}

} // verus!

verus! {

fn req_string(s: &Vec<char>, ms: &Vec<(Vec<char>, usize)>, key: &str) -> (r: Option<String>)
    requires
        forall|k: int| 0 <= k < ms@.len() ==> (#[trigger] ms@[k]).1 <= s@.len(),
    ensures
        match r {
            Some(v) => spec_req_string(s@, mem_v(ms@), key@) == Some(v@),
            None => spec_req_string(s@, mem_v(ms@), key@) is None,
        },
{
    let (pos, _) = find_key(ms, &str_to_chars(key));
    match pos {
        None => None,
        Some(p) => {
            proof {
                lemma_find_key_in_range(mem_v(ms@), key@, ms@, s@);
            }
            match parse_string(s, p) {
                None => None,
                Some(v) => Some(crate::strutil::chars_to_string(&v.0)),
            }
        },
    }
}

proof fn lemma_find_key_in_range(msv: Seq<(Seq<char>, int)>, key: Seq<char>, ms: Seq<(Vec<char>, usize)>, s: Seq<char>)
    requires
        msv == mem_v(ms),
        forall|k: int| 0 <= k < ms.len() ==> (#[trigger] ms[k]).1 <= s.len(),
    ensures
        spec_find_key(msv, key) matches Some(p) ==> 0 <= p <= s.len(),
    decreases ms.len(),
{
    if ms.len() > 0 {
        assert(msv[0] == (ms[0].0@, ms[0].1 as int));
        if msv[0].0 != key {
            assert(msv.drop_first() =~= mem_v(ms.drop_first()));
            lemma_find_key_in_range(msv.drop_first(), key, ms.drop_first(), s);
        }
    }
}

fn opt_string_mem(s: &Vec<char>, ms: &Vec<(Vec<char>, usize)>, key: &str) -> (r: Option<Option<String>>)
    requires
        forall|k: int| 0 <= k < ms@.len() ==> (#[trigger] ms@[k]).1 <= s@.len(),
    ensures
        match r {
            Some(Some(v)) => spec_opt_string_mem(s@, mem_v(ms@), key@) == Some(Some(v@)),
            Some(None) => spec_opt_string_mem(s@, mem_v(ms@), key@) == Some(None::<Seq<char>>),
            None => spec_opt_string_mem(s@, mem_v(ms@), key@) is None,
        },
{
    let (pos, _) = find_key(ms, &str_to_chars(key));
    match pos {
        None => Some(None),
        Some(p) => {
            proof {
                lemma_find_key_in_range(mem_v(ms@), key@, ms@, s@);
            }
            match parse_opt_string(s, p) {
                None => None,
                Some(v) => match v.0 {
                    Some(cs) => Some(Some(crate::strutil::chars_to_string(&cs))),
                    None => Some(None),
                },
            }
        },
    }
}

fn opt_bool_mem(s: &Vec<char>, ms: &Vec<(Vec<char>, usize)>, key: &str) -> (r: Option<Option<bool>>)
    requires
        forall|k: int| 0 <= k < ms@.len() ==> (#[trigger] ms@[k]).1 <= s@.len(),
    ensures
        match r {
            Some(v) => spec_opt_bool_mem(s@, mem_v(ms@), key@) == Some(v),
            None => spec_opt_bool_mem(s@, mem_v(ms@), key@) is None,
        },
{
    let (pos, _) = find_key(ms, &str_to_chars(key));
    match pos {
        None => Some(None),
        Some(p) => {
            proof {
                lemma_find_key_in_range(mem_v(ms@), key@, ms@, s@);
            }
            if p < s.len() && s[p] == 'n' {
                proof {
                    reveal_strlit("null");
                }
                match lit_end(s, p, &str_to_chars("null")) {
                    None => None,
                    Some(_e) => Some(None),
                }
            } else {
                match parse_bool_tok(s, p) {
                    None => None,
                    Some(v) => Some(Some(v.0)),
                }
            }
        },
    }
}

fn opt_str_arr_mem(s: &Vec<char>, ms: &Vec<(Vec<char>, usize)>, key: &str) -> (r: Option<Option<Vec<String>>>)
    requires
        forall|k: int| 0 <= k < ms@.len() ==> (#[trigger] ms@[k]).1 <= s@.len(),
    ensures
        match r {
            Some(Some(v)) => spec_opt_str_arr_mem(s@, mem_v(ms@), key@) == Some(Some(v.deep_view())),
            Some(None) => spec_opt_str_arr_mem(s@, mem_v(ms@), key@) == Some(None::<Seq<Seq<char>>>),
            None => spec_opt_str_arr_mem(s@, mem_v(ms@), key@) is None,
        },
{
    let (pos, _) = find_key(ms, &str_to_chars(key));
    match pos {
        None => Some(None),
        Some(p) => {
            proof {
                lemma_find_key_in_range(mem_v(ms@), key@, ms@, s@);
            }
            if p < s.len() && s[p] == 'n' {
                proof {
                    reveal_strlit("null");
                }
                match lit_end(s, p, &str_to_chars("null")) {
                    None => None,
                    Some(_e) => Some(None),
                }
            } else {
                match parse_str_arr(s, p) {
                    None => None,
                    Some(v) => Some(Some(v.0)),
                }
            }
        },
    }
}

fn keys_unique(ms: &Vec<(Vec<char>, usize)>, keys: &Vec<String>) -> (r: bool)
    ensures
        r == spec_keys_unique(mem_v(ms@), keys.deep_view()),
{
    let n = keys.len();
    let mut i: usize = 0;
    while i < n
        invariant
            n == keys@.len(),
            i <= n,
            forall|k: int| 0 <= k < i ==> spec_key_count(mem_v(ms@), #[trigger] keys.deep_view()[k]) <= 1,
        decreases n - i,
    {
        let (_, unique) = find_key(ms, &str_to_chars(keys[i].as_str()));
        if !unique {
            proof {
                assert(spec_key_count(mem_v(ms@), keys.deep_view()[i as int]) > 1);
            }
            return false;
        }
        i = i + 1;
    }
    true
}

fn field_from(s: &Vec<char>, ms: &Vec<(Vec<char>, usize)>) -> (r: Option<crate::domain::Field>)
    requires
        forall|k: int| 0 <= k < ms@.len() ==> (#[trigger] ms@[k]).1 <= s@.len(),
    ensures
        match r {
            Some(f) => spec_field_from(s@, mem_v(ms@)) == Some(field_v(&f)),
            None => spec_field_from(s@, mem_v(ms@)) is None,
        },
{
    let mut keys: Vec<String> = Vec::new();
    keys.push(String::from_str("Name"));
    keys.push(String::from_str("Prompt"));
    keys.push(String::from_str("Type"));
    keys.push(String::from_str("Order"));
    keys.push(String::from_str("Required"));
    keys.push(String::from_str("Default"));
    keys.push(String::from_str("Choices"));
    keys.push(String::from_str("Arg"));
    proof {
        assert(keys.deep_view() =~~= seq!["Name"@, "Prompt"@, "Type"@, "Order"@, "Required"@, "Default"@, "Choices"@, "Arg"@]);
    }
    if !keys_unique(ms, &keys) {
        return None;
    }
    let name = match req_string(s, ms, "Name") {
        None => {
            return None;
        },
        Some(v) => v,
    };
    let kind = match req_string(s, ms, "Type") {
        None => {
            return None;
        },
        Some(v) => v,
    };
    let (order_pos, _) = find_key(ms, &str_to_chars("Order"));
    let order = match order_pos {
        None => {
            return None;
        },
        Some(p) => {
            proof {
                lemma_find_key_in_range(mem_v(ms@), "Order"@, ms@, s@);
            }
            match parse_u32(s, p) {
                None => {
                    return None;
                },
                Some(v) => v.0,
            }
        },
    };
    let prompt = match opt_string_mem(s, ms, "Prompt") {
        None => {
            return None;
        },
        Some(v) => v,
    };
    let required = match opt_bool_mem(s, ms, "Required") {
        None => {
            return None;
        },
        Some(v) => v,
    };
    let default = match opt_string_mem(s, ms, "Default") {
        None => {
            return None;
        },
        Some(v) => v,
    };
    let choices = match opt_str_arr_mem(s, ms, "Choices") {
        None => {
            return None;
        },
        Some(v) => v,
    };
    let arg = match opt_string_mem(s, ms, "Arg") {
        None => {
            return None;
        },
        Some(v) => v,
    };
    Some(crate::domain::Field { name, prompt, kind, order, required, default, choices, arg })
}

fn output_from(s: &Vec<char>, ms: &Vec<(Vec<char>, usize)>) -> (r: Option<crate::domain::SchemaOutput>)
    requires
        forall|k: int| 0 <= k < ms@.len() ==> (#[trigger] ms@[k]).1 <= s@.len(),
    ensures
        match r {
            Some(o) => spec_output_from(s@, mem_v(ms@)) == Some(output_v(&o)),
            None => spec_output_from(s@, mem_v(ms@)) is None,
        },
{
    let mut keys: Vec<String> = Vec::new();
    keys.push(String::from_str("Name"));
    keys.push(String::from_str("Type"));
    proof {
        assert(keys.deep_view() =~~= seq!["Name"@, "Type"@]);
    }
    if !keys_unique(ms, &keys) {
        return None;
    }
    let name = match req_string(s, ms, "Name") {
        None => {
            return None;
        },
        Some(v) => v,
    };
    let kind = match req_string(s, ms, "Type") {
        None => {
            return None;
        },
        Some(v) => v,
    };
    Some(crate::domain::SchemaOutput { name, kind })
}

} // verus!

verus! {

pub proof fn lemma_field_items_end(s: Seq<char>, i: int)
    requires
        0 <= i <= s.len(),
    ensures
        spec_field_items(s, i) matches Some(r) ==> i < r.1 <= s.len(),
        spec_output_items(s, i) matches Some(r) ==> i < r.1 <= s.len(),
    decreases s.len() - i,
{
    if 0 <= i < s.len() {
        match spec_obj_members(s, i) {
            Some(m) => {
                if i < m.1 <= s.len() {
                    let k = ws_end(s, m.1);
                    lemma_ws_end(s, m.1);
                    if m.1 <= k <= s.len() && k < s.len() && s[k] == ',' {
                        let nxt = ws_end(s, k + 1);
                        lemma_ws_end(s, k + 1);
                        if k + 1 <= nxt <= s.len() {
                            lemma_field_items_end(s, nxt);
                        }
                    }
                }
            },
            None => {},
        }
    }
}

/// A field list read back as its parsed form.
pub open spec fn fields_v_of(fs: Seq<crate::domain::Field>) -> Seq<FieldV> {
    fs.map_values(|f: crate::domain::Field| field_v(&f))
}

/// Fields that declare the same things read back equal.
pub proof fn lemma_field_matches_v(a: &crate::domain::Field, b: &crate::domain::Field)
    requires
        crate::session::field_matches(a, b),
    ensures
        field_v(a) == field_v(b),
{
    match (&a.choices, &b.choices) {
        (Some(ac), Some(bc)) => {
            assert(ac.deep_view() =~~= bc.deep_view());
        },
        _ => {},
    }
}

fn field_items(s: &Vec<char>, i: usize) -> (r: Option<(Vec<crate::domain::Field>, usize)>)
    requires
        i <= s@.len(),
    ensures
        match r {
            Some(p) => spec_field_items(s@, i as int) == Some((fields_v_of(p.0@), p.1 as int)) && i < p.1 <= s@.len(),
            None => spec_field_items(s@, i as int) is None,
        },
    decreases s@.len() - i,
{
    proof {
        lemma_field_items_end(s@, i as int);
    }
    if i >= s.len() {
        return None;
    }
    let m = match obj_members(s, i) {
        None => {
            return None;
        },
        Some(m) => m,
    };
    let fv = match field_from(s, &m.0) {
        None => {
            return None;
        },
        Some(fv) => fv,
    };
    let ghost headv = field_v(&fv);
    let k = ws_end_exec(s, m.1);
    if k < s.len() && s[k] == ']' {
        let mut out: Vec<crate::domain::Field> = Vec::new();
        out.push(fv);
        proof {
            assert(fields_v_of(out@) =~~= seq![headv]);
        }
        Some((out, k + 1))
    } else if k < s.len() && s[k] == ',' {
        let nxt = ws_end_exec(s, k + 1);
        match field_items(s, nxt) {
            None => None,
            Some(rest) => {
                let ghost restv = fields_v_of(rest.0@);
                let mut out: Vec<crate::domain::Field> = Vec::new();
                out.push(fv);
                let mut rv = rest.0;
                let ghost rvg = rv@;
                let mut t: usize = 0;
                while t < rv.len()
                    invariant
                        t <= rv@.len(),
                        rv@ == rvg,
                        restv == fields_v_of(rvg),
                        out@.len() == t + 1,
                        forall|q: int| 1 <= q < t + 1 ==> field_v(&out@[q]) == restv[q - 1],
                        field_v(&out@[0]) == headv,
                    decreases rv@.len() - t,
                {
                    let f = crate::session::clone_field(&rv[t]);
                    proof {
                        lemma_field_matches_v(&f, &rvg[t as int]);
                        assert(restv[t as int] == field_v(&rvg[t as int]));
                    }
                    out.push(f);
                    t = t + 1;
                }
                proof {
                    assert(fields_v_of(out@) =~~= seq![headv] + restv);
                }
                Some((out, rest.1))
            },
        }
    } else {
        None
    }
}

pub fn parse_fields_arr(s: &Vec<char>, i: usize) -> (r: Option<(Vec<crate::domain::Field>, usize)>)
    requires
        i <= s@.len(),
    ensures
        match r {
            Some(p) => spec_parse_fields_arr(s@, i as int) == Some((fields_v_of(p.0@), p.1 as int)) && i < p.1 <= s@.len(),
            None => spec_parse_fields_arr(s@, i as int) is None,
        },
{
    if i < s.len() && s[i] == '[' {
        let j = ws_end_exec(s, i + 1);
        if j < s.len() && s[j] == ']' {
            let out: Vec<crate::domain::Field> = Vec::new();
            proof {
                assert(fields_v_of(out@) =~~= Seq::<FieldV>::empty());
            }
            Some((out, j + 1))
        } else {
            field_items(s, j)
        }
    } else {
        None
    }
}

pub open spec fn outputs_v_of(os: Seq<crate::domain::SchemaOutput>) -> Seq<OutputV> {
    os.map_values(|o: crate::domain::SchemaOutput| output_v(&o))
}

fn output_items(s: &Vec<char>, i: usize) -> (r: Option<(Vec<crate::domain::SchemaOutput>, usize)>)
    requires
        i <= s@.len(),
    ensures
        match r {
            Some(p) => spec_output_items(s@, i as int) == Some((outputs_v_of(p.0@), p.1 as int)) && i < p.1 <= s@.len(),
            None => spec_output_items(s@, i as int) is None,
        },
    decreases s@.len() - i,
{
    proof {
        lemma_field_items_end(s@, i as int);
    }
    if i >= s.len() {
        return None;
    }
    let m = match obj_members(s, i) {
        None => {
            return None;
        },
        Some(m) => m,
    };
    let ov = match output_from(s, &m.0) {
        None => {
            return None;
        },
        Some(ov) => ov,
    };
    let ghost headv = output_v(&ov);
    let k = ws_end_exec(s, m.1);
    if k < s.len() && s[k] == ']' {
        let mut out: Vec<crate::domain::SchemaOutput> = Vec::new();
        out.push(ov);
        proof {
            assert(outputs_v_of(out@) =~~= seq![headv]);
        }
        Some((out, k + 1))
    } else if k < s.len() && s[k] == ',' {
        let nxt = ws_end_exec(s, k + 1);
        match output_items(s, nxt) {
            None => None,
            Some(rest) => {
                let ghost restv = outputs_v_of(rest.0@);
                let mut out: Vec<crate::domain::SchemaOutput> = Vec::new();
                out.push(ov);
                let mut rv = rest.0;
                let ghost rvg = rv@;
                let mut t: usize = 0;
                while t < rv.len()
                    invariant
                        t <= rv@.len(),
                        rv@ == rvg,
                        restv == outputs_v_of(rvg),
                        out@.len() == t + 1,
                        forall|q: int| 1 <= q < t + 1 ==> output_v(&out@[q]) == restv[q - 1],
                        output_v(&out@[0]) == headv,
                    decreases rv@.len() - t,
                {
                    let o = crate::domain::SchemaOutput {
                        name: rv[t].name.clone(),
                        kind: rv[t].kind.clone(),
                    };
                    proof {
                        assert(restv[t as int] == output_v(&rvg[t as int]));
                    }
                    out.push(o);
                    t = t + 1;
                }
                proof {
                    assert(outputs_v_of(out@) =~~= seq![headv] + restv);
                }
                Some((out, rest.1))
            },
        }
    } else {
        None
    }
}

pub fn parse_outputs_arr(s: &Vec<char>, i: usize) -> (r: Option<(Vec<crate::domain::SchemaOutput>, usize)>)
    requires
        i <= s@.len(),
    ensures
        match r {
            Some(p) => spec_parse_outputs_arr(s@, i as int) == Some((outputs_v_of(p.0@), p.1 as int)) && i < p.1 <= s@.len(),
            None => spec_parse_outputs_arr(s@, i as int) is None,
        },
{
    if i < s.len() && s[i] == '[' {
        let j = ws_end_exec(s, i + 1);
        if j < s.len() && s[j] == ']' {
            let out: Vec<crate::domain::SchemaOutput> = Vec::new();
            proof {
                assert(outputs_v_of(out@) =~~= Seq::<OutputV>::empty());
            }
            Some((out, j + 1))
        } else {
            output_items(s, j)
        }
    } else {
        None
    }
}

} // verus!

verus! {

fn schema_from(s: &Vec<char>, ms: &Vec<(Vec<char>, usize)>) -> (r: Option<crate::domain::Schema>)
    requires
        forall|k: int| 0 <= k < ms@.len() ==> (#[trigger] ms@[k]).1 <= s@.len(),
    ensures
        match r {
            Some(sch) => spec_schema_from(s@, mem_v(ms@)) == Some(schema_v(&sch)) && sch.queue is None,
            None => spec_schema_from(s@, mem_v(ms@)) is None,
        },
{
    let mut keys: Vec<String> = Vec::new();
    keys.push(String::from_str("Name"));
    keys.push(String::from_str("Description"));
    keys.push(String::from_str("Tags"));
    keys.push(String::from_str("Fields"));
    keys.push(String::from_str("Outputs"));
    proof {
        assert(keys.deep_view() =~~= seq!["Name"@, "Description"@, "Tags"@, "Fields"@, "Outputs"@]);
    }
    if !keys_unique(ms, &keys) {
        return None;
    }
    let name = match req_string(s, ms, "Name") {
        None => {
            return None;
        },
        Some(v) => v,
    };
    let description = match opt_string_mem(s, ms, "Description") {
        None => {
            return None;
        },
        Some(v) => v,
    };
    let tags = match opt_str_arr_mem(s, ms, "Tags") {
        None => {
            return None;
        },
        Some(v) => v,
    };
    let (fields_pos, _) = find_key(ms, &str_to_chars("Fields"));
    let fields = match fields_pos {
        None => {
            return None;
        },
        Some(p) => {
            proof {
                lemma_find_key_in_range(mem_v(ms@), "Fields"@, ms@, s@);
            }
            match parse_fields_arr(s, p) {
                None => {
                    return None;
                },
                Some(v) => v.0,
            }
        },
    };
    let (outputs_pos, _) = find_key(ms, &str_to_chars("Outputs"));
    let outputs = match outputs_pos {
        None => None,
        Some(p) => {
            proof {
                lemma_find_key_in_range(mem_v(ms@), "Outputs"@, ms@, s@);
            }
            if p < s.len() && s[p] == 'n' {
                proof {
                    reveal_strlit("null");
                }
                match lit_end(s, p, &str_to_chars("null")) {
                    None => {
                        return None;
                    },
                    Some(_e) => None,
                }
            } else {
                match parse_outputs_arr(s, p) {
                    None => {
                        return None;
                    },
                    Some(v) => Some(v.0),
                }
            }
        },
    };
    Some(crate::domain::Schema { name, description, tags, fields, outputs, queue: None })
}

/// Try every brace as a candidate start and accept the first one that
/// reads as a schema; surrounding non-JSON text is tolerated.
pub fn parse_schema(output: &str) -> (r: Result<crate::domain::Schema, String>)
    ensures
        r matches Ok(sch) ==> spec_parse_schema_text(output@, 0) == Some(schema_v(&sch)),
        r is Err ==> spec_parse_schema_text(output@, 0) is None,
        r matches Err(e) ==> e@ == "Schema JSON object not found in output"@,
{
    let cs = str_to_chars(output);
    let mut i: usize = 0;
    let n = cs.len();
    while i < n
        invariant
            n == cs@.len(),
            cs@ == output@,
            i <= n,
            spec_parse_schema_text(output@, 0) == spec_parse_schema_text(output@, i as int),
        decreases n - i,
    {
        proof {
            crate::strutil::lemma_find_from_bounds(cs@, '{', i as int);
        }
        let j = crate::strutil::find_from(&cs, '{', i);
        if j >= n {
            proof {
                assert(spec_parse_schema_text(output@, i as int) is None);
            }
            return Err(String::from_str("Schema JSON object not found in output"));
        }
        match obj_members(&cs, j) {
            Some(m) => {
                match schema_from(&cs, &m.0) {
                    Some(sch) => {
                        proof {
                            assert(spec_parse_schema_text(output@, i as int) == Some(schema_v(&sch)));
                        }
                        return Ok(sch);
                    },
                    None => {},
                }
            },
            None => {},
        }
        proof {
            assert(spec_parse_schema_text(output@, i as int) == spec_parse_schema_text(output@, j + 1));
        }
        i = j + 1;
    }
    proof {
        assert(spec_parse_schema_text(output@, i as int) is None);
    }
    Err(String::from_str("Schema JSON object not found in output"))
}

} // verus!

verus! {

/// The first line at or after `i` that holds the sentinel, or the line
/// count.
pub open spec fn spec_find_sentinel(lines: Seq<Seq<char>>, sent: Seq<char>, i: int) -> int
    decreases lines.len() - i,
{
    if i < 0 {
        i
    } else if i >= lines.len() {
        lines.len() as int
    } else if crate::strutil::spec_contains(lines[i], sent) {
        i
    } else {
        spec_find_sentinel(lines, sent, i + 1)
    }
}

pub proof fn lemma_find_sentinel(lines: Seq<Seq<char>>, sent: Seq<char>, i: int)
    requires
        0 <= i <= lines.len(),
    ensures
        i <= spec_find_sentinel(lines, sent, i) <= lines.len(),
    decreases lines.len() - i,
{
    if i < lines.len() && !crate::strutil::spec_contains(lines[i], sent) {
        lemma_find_sentinel(lines, sent, i + 1);
    }
}

/// The rest of a line after the first accepted comment prefix, where
/// one leads it (whitespace before the prefix is allowed).
pub open spec fn spec_strip_comment(line: Seq<char>, prefixes: Seq<Seq<char>>) -> Option<Seq<char>>
    decreases prefixes.len(),
{
    let t = crate::strutil::spec_trim_front(line);
    if prefixes.len() == 0 {
        None
    } else if crate::strutil::spec_starts_with(t, prefixes[0]) {
        Some(t.skip(prefixes[0].len() as int))
    } else {
        spec_strip_comment(line, prefixes.drop_first())
    }
}

/// What extracting the schema block from the lines yields: the
/// de-commented text between the sentinel lines, or the message saying
/// why there is none. `a` and `b` are the sentinel line indexes.
pub open spec fn spec_capture(lines: Seq<Seq<char>>, k: int, b: int, prefixes: Seq<Seq<char>>) -> Result<Seq<Seq<char>>, int>
    decreases b - k,
{
    if k >= b {
        Ok(Seq::empty())
    } else {
        match spec_strip_comment(lines[k], prefixes) {
            None => Err(k),
            Some(body) => match spec_capture(lines, k + 1, b, prefixes) {
                Err(e) => Err(e),
                Ok(rest) => Ok(seq![body] + rest),
            },
        }
    }
}

/// What `extract_schema_block` returns on the file's text: every line
/// between the start and end sentinel lines, stripped of its comment
/// prefix and joined with newlines; no block, an empty block, and an
/// uncommented line each give their error.
pub open spec fn spec_extract_block(text: Seq<char>, prefixes: Seq<Seq<char>>) -> Result<Seq<char>, Seq<char>> {
    let lines = crate::strutil::spec_lines(text);
    let a = spec_find_sentinel(lines, "OMAKURE_SCHEMA_START"@, 0);
    if a >= lines.len() {
        Err("Schema block not found"@)
    } else {
        let b = spec_find_sentinel(lines, "OMAKURE_SCHEMA_END"@, a + 1);
        if b >= lines.len() {
            Err("Schema block not found"@)
        } else if b == a + 1 {
            Err("Schema block is empty"@)
        } else {
            match spec_capture(lines, a + 1, b, prefixes) {
                Err(k) => Err("Schema block line "@ + crate::strutil::spec_dec_nat((k + 1) as nat) + " is not a comment"@),
                Ok(body) => Ok(crate::strutil::spec_join(body, seq!['\n'])),
            }
        }
    }
}

fn strip_comment(line: &Vec<char>, prefixes: &Vec<String>) -> (r: Option<Vec<char>>)
    ensures
        match r {
            Some(v) => spec_strip_comment(line@, prefixes.deep_view()) == Some(v@),
            None => spec_strip_comment(line@, prefixes.deep_view()) is None,
        },
{
    let tf = trim_front_only(line);
    let n = prefixes.len();
    let mut i: usize = 0;
    proof {
        assert(prefixes.deep_view().skip(0) =~~= prefixes.deep_view());
    }
    while i < n
        invariant
            n == prefixes@.len(),
            i <= n,
            tf@ == crate::strutil::spec_trim_front(line@),
            spec_strip_comment(line@, prefixes.deep_view()) == spec_strip_comment(line@, prefixes.deep_view().skip(i as int)),
        decreases n - i,
    {
        proof {
            assert(prefixes.deep_view().skip(i as int)[0] == prefixes.deep_view()[i as int]);
            assert(prefixes.deep_view().skip(i as int).drop_first() =~~= prefixes.deep_view().skip(i + 1));
        }
        let p = str_to_chars(prefixes[i].as_str());
        if crate::strutil::starts_with_chars(&tf, &p) {
            let body = crate::strutil::subrange_vec(&tf, p.len(), tf.len());
            proof {
                assert(body@ =~= crate::strutil::spec_trim_front(line@).skip(p@.len() as int));
            }
            return Some(body);
        }
        i = i + 1;
    }
    proof {
        assert(prefixes.deep_view().skip(n as int) =~~= Seq::<Seq<char>>::empty());
    }
    None
}

/// Trim whitespace from the front only.
fn trim_front_only(s: &Vec<char>) -> (r: Vec<char>)
    ensures
        r@ == crate::strutil::spec_trim_front(s@),
{
    let n = s.len();
    let mut a: usize = 0;
    while a < n && is_ws_pub(s[a])
        invariant
            n == s@.len(),
            a <= n,
            forall|j: int| 0 <= j < a ==> crate::strutil::spec_is_ws(s@[j]),
        decreases n - a,
    {
        a = a + 1;
    }
    let out = crate::strutil::subrange_vec(s, a, n);
    proof {
        crate::strutil::lemma_trim_front_drop(s@, a as int);
        if a < n {
            assert(!crate::strutil::spec_is_ws(out@[0]));
        }
    }
    out
}

fn is_ws_pub(c: char) -> (r: bool)
    ensures
        r == crate::strutil::spec_is_ws(c),
{
    c == ' ' || c == '\t' || c == '\n' || c == '\r'
}

/// The comment prefixes a schema block may use.
pub fn comment_prefixes() -> (r: Vec<String>)
    ensures
        r.deep_view() =~~= seq!["#"@, "//"@],
{
    let mut out: Vec<String> = Vec::new();
    out.push(String::from_str("#"));
    out.push(String::from_str("//"));
    out
}

/// Extract the comment-delimited schema block: every line between the
/// start and end sentinel lines must carry one of the accepted comment
/// prefixes; the de-commented lines are returned joined. A missing
/// block, an empty block and an uncommented line are errors.
pub fn extract_schema_block(contents: &str, prefixes: &Vec<String>) -> (r: Result<String, String>)
    ensures
        r matches Ok(v) ==> spec_extract_block(contents@, prefixes.deep_view()) == Ok::<Seq<char>, Seq<char>>(v@),
        r matches Err(e) ==> spec_extract_block(contents@, prefixes.deep_view()) == Err::<Seq<char>, Seq<char>>(e@),
{
    let cs = str_to_chars(contents);
    let lines = crate::strutil::split_lines(&cs);
    let ghost linesg = crate::strutil::spec_lines(contents@);
    let start_sent = str_to_chars("OMAKURE_SCHEMA_START");
    let end_sent = str_to_chars("OMAKURE_SCHEMA_END");
    let a = find_sentinel(&lines, &start_sent, 0, Ghost(linesg));
    if a >= lines.len() {
        return Err(String::from_str("Schema block not found"));
    }
    let b = find_sentinel(&lines, &end_sent, a + 1, Ghost(linesg));
    if b >= lines.len() {
        return Err(String::from_str("Schema block not found"));
    }
    if b == a + 1 {
        return Err(String::from_str("Schema block is empty"));
    }
    let mut body: Vec<Vec<char>> = Vec::new();
    let mut k: usize = a + 1;
    while k < b
        invariant
            a + 1 < b,
            a + 1 <= k <= b < lines@.len(),
            lines.deep_view() == linesg,
            linesg == crate::strutil::spec_lines(contents@),
            a == spec_find_sentinel(linesg, "OMAKURE_SCHEMA_START"@, 0),
            b == spec_find_sentinel(linesg, "OMAKURE_SCHEMA_END"@, a + 1),
            spec_capture(linesg, a + 1, b as int, prefixes.deep_view()) == (match spec_capture(linesg, k as int, b as int, prefixes.deep_view()) {
                Ok(rest) => Ok::<Seq<Seq<char>>, int>(body.deep_view() + rest),
                Err(e) => Err::<Seq<Seq<char>>, int>(e),
            }),
        decreases b - k,
    {
        proof {
            assert(lines.deep_view()[k as int] == lines@[k as int]@);
        }
        match strip_comment(&lines[k], prefixes) {
            None => {
                proof {
                    assert(spec_capture(linesg, k as int, b as int, prefixes.deep_view()) == Err::<Seq<Seq<char>>, int>(k as int));
                }
                let mut msg = str_to_chars("Schema block line ");
                crate::strutil::append_chars(&mut msg, &crate::strutil::u64_to_dec((k + 1) as u64));
                crate::strutil::append_chars(&mut msg, &str_to_chars(" is not a comment"));
                proof {
                    assert(msg@ =~= "Schema block line "@ + crate::strutil::spec_dec_nat((k + 1) as nat) + " is not a comment"@);
                    assert(spec_capture(linesg, a + 1, b as int, prefixes.deep_view()) == Err::<Seq<Seq<char>>, int>(k as int));
                    assert(spec_extract_block(contents@, prefixes.deep_view()) == Err::<Seq<char>, Seq<char>>(msg@));
                }
                return Err(crate::strutil::chars_to_string(&msg));
            },
            Some(v) => {
                let ghost prev = body.deep_view();
                let ghost vv = v@;
                body.push(v);
                proof {
                    assert(body.deep_view() =~~= prev.push(vv));
                    let cur = spec_capture(linesg, k as int, b as int, prefixes.deep_view());
                    let nxt = spec_capture(linesg, k + 1, b as int, prefixes.deep_view());
                    match nxt {
                        Ok(rest) => {
                            assert(cur == Ok::<Seq<Seq<char>>, int>(seq![vv] + rest));
                            assert(body.deep_view() + rest =~~= prev + (seq![vv] + rest));
                        },
                        Err(e) => {
                            assert(cur == Err::<Seq<Seq<char>>, int>(e));
                        },
                    }
                }
            },
        }
        k = k + 1;
    }
    proof {
        assert(spec_capture(linesg, b as int, b as int, prefixes.deep_view()) == Ok::<Seq<Seq<char>>, int>(Seq::empty()));
        assert(body.deep_view() + Seq::<Seq<char>>::empty() =~~= body.deep_view());
    }
    let mut nl: Vec<char> = Vec::new();
    nl.push('\n');
    proof {
        assert(nl@ =~= seq!['\n']);
    }
    let joined = crate::strutil::join_chars(&body, &nl);
    Ok(crate::strutil::chars_to_string(&joined))
}

fn find_sentinel(lines: &Vec<Vec<char>>, sent: &Vec<char>, i: usize, Ghost(linesg): Ghost<Seq<Seq<char>>>) -> (r: usize)
    requires
        i <= lines@.len(),
        lines.deep_view() == linesg,
    ensures
        r == spec_find_sentinel(linesg, sent@, i as int),
        i <= r <= lines@.len(),
    decreases lines@.len() - i,
{
    if i == lines.len() {
        return lines.len();
    }
    proof {
        assert(lines.deep_view()[i as int] == lines@[i as int]@);
    }
    if crate::strutil::contains_sub(&lines[i], sent) {
        i
    } else {
        find_sentinel(lines, sent, i + 1, Ghost(linesg))
    }
}

} // verus!

verus! {

/// The parsed form of one history record.
pub struct EntryV {
    pub timestamp: i64,
    pub script: Seq<char>,
    pub args: Seq<Seq<char>>,
    pub success: bool,
    pub exit_code: Option<i32>,
    pub stdout: Seq<char>,
    pub stderr: Seq<char>,
    pub error: Option<Seq<char>>,
}

pub open spec fn entry_v(e: &crate::history::HistoryEntry) -> EntryV {
    EntryV {
        timestamp: e.timestamp,
        script: e.script@,
        args: e.args.deep_view(),
        success: e.success,
        exit_code: e.exit_code,
        stdout: e.stdout@,
        stderr: e.stderr@,
        error: crate::search::opt_view(&e.error),
    }
}

/// An optional 32-bit integer member.
pub open spec fn spec_opt_i32_mem(s: Seq<char>, ms: Seq<(Seq<char>, int)>, key: Seq<char>) -> Option<Option<i32>> {
    match spec_find_key(ms, key) {
        None => Some(None),
        Some(p) => {
            if 0 <= p < s.len() && s[p] == 'n' {
                match spec_lit_end(s, p, "null"@) {
                    None => None,
                    Some(_e) => Some(None),
                }
            } else {
                match spec_parse_i64(s, p) {
                    None => None,
                    Some(v) => {
                        if i32::MIN <= v.0 <= i32::MAX {
                            Some(Some(v.0 as i32))
                        } else {
                            None
                        }
                    },
                }
            }
        },
    }
}

fn opt_i32_mem(s: &Vec<char>, ms: &Vec<(Vec<char>, usize)>, key: &str) -> (r: Option<Option<i32>>)
    requires
        forall|k: int| 0 <= k < ms@.len() ==> (#[trigger] ms@[k]).1 <= s@.len(),
    ensures
        match r {
            Some(v) => spec_opt_i32_mem(s@, mem_v(ms@), key@) == Some(v),
            None => spec_opt_i32_mem(s@, mem_v(ms@), key@) is None,
        },
{
    let (pos, _) = find_key(ms, &str_to_chars(key));
    match pos {
        None => Some(None),
        Some(p) => {
            proof {
                lemma_find_key_in_range(mem_v(ms@), key@, ms@, s@);
            }
            if p < s.len() && s[p] == 'n' {
                proof {
                    reveal_strlit("null");
                }
                match lit_end(s, p, &str_to_chars("null")) {
                    None => None,
                    Some(_e) => Some(None),
                }
            } else {
                match parse_i64(s, p) {
                    None => None,
                    Some(v) => {
                        if -2147483648i64 <= v.0 && v.0 <= 2147483647i64 {
                            Some(Some(v.0 as i32))
                        } else {
                            None
                        }
                    },
                }
            }
        },
    }
}

/// The record an object's member list defines.
pub open spec fn spec_entry_from(s: Seq<char>, ms: Seq<(Seq<char>, int)>) -> Option<EntryV> {
    if !spec_keys_unique(ms, seq!["timestamp"@, "script"@, "args"@, "success"@, "exit_code"@, "stdout"@, "stderr"@, "error"@]) {
        None
    } else {
        match spec_find_key(ms, "timestamp"@) {
            None => None,
            Some(tp) => match spec_parse_i64(s, tp) {
                None => None,
                Some(ts) => match spec_req_string(s, ms, "script"@) {
                    None => None,
                    Some(script) => match spec_find_key(ms, "args"@) {
                        None => None,
                        Some(ap) => match spec_parse_str_arr(s, ap) {
                            None => None,
                            Some(args) => match spec_find_key(ms, "success"@) {
                                None => None,
                                Some(sp) => match spec_parse_bool_tok(s, sp) {
                                    None => None,
                                    Some(success) => match spec_opt_i32_mem(s, ms, "exit_code"@) {
                                        None => None,
                                        Some(exit_code) => match spec_req_string(s, ms, "stdout"@) {
                                            None => None,
                                            Some(stdout) => match spec_req_string(s, ms, "stderr"@) {
                                                None => None,
                                                Some(stderr) => match spec_opt_string_mem(s, ms, "error"@) {
                                                    None => None,
                                                    Some(error) => Some(EntryV {
                                                        timestamp: ts.0,
                                                        script,
                                                        args: args.0,
                                                        success: success.0,
                                                        exit_code,
                                                        stdout,
                                                        stderr,
                                                        error,
                                                    }),
                                                },
                                            },
                                        },
                                    },
                                },
                            },
                        },
                    },
                },
            },
        }
    }
}

/// What one record file's text reads back as: one object, surrounding
/// whitespace allowed, nothing else in the file.
pub open spec fn spec_parse_entry(text: Seq<char>) -> Option<EntryV> {
    let j = ws_end(text, 0);
    if !(0 <= j <= text.len()) {
        None
    } else {
        match spec_obj_members(text, j) {
            None => None,
            Some(m) => {
                if !(j < m.1 <= text.len()) {
                    None
                } else if ws_end(text, m.1) != text.len() {
                    None
                } else {
                    spec_entry_from(text, m.0)
                }
            },
        }
    }
}

/// Read one record back from its file's text.
pub fn parse_history_entry(text: &str) -> (r: Option<crate::history::HistoryEntry>)
    ensures
        match r {
            Some(e) => spec_parse_entry(text@) == Some(entry_v(&e)),
            None => spec_parse_entry(text@) is None,
        },
{
    let cs = str_to_chars(text);
    let j = ws_end_exec(&cs, 0);
    let m = match obj_members(&cs, j) {
        None => {
            return None;
        },
        Some(m) => m,
    };
    if ws_end_exec(&cs, m.1) != cs.len() {
        return None;
    }
    let mut keys: Vec<String> = Vec::new();
    keys.push(String::from_str("timestamp"));
    keys.push(String::from_str("script"));
    keys.push(String::from_str("args"));
    keys.push(String::from_str("success"));
    keys.push(String::from_str("exit_code"));
    keys.push(String::from_str("stdout"));
    keys.push(String::from_str("stderr"));
    keys.push(String::from_str("error"));
    proof {
        assert(keys.deep_view() =~~= seq!["timestamp"@, "script"@, "args"@, "success"@, "exit_code"@, "stdout"@, "stderr"@, "error"@]);
    }
    if !keys_unique(&m.0, &keys) {
        return None;
    }
    let (tp, _) = find_key(&m.0, &str_to_chars("timestamp"));
    let timestamp = match tp {
        None => {
            return None;
        },
        Some(p) => {
            proof {
                lemma_find_key_in_range(mem_v(m.0@), "timestamp"@, m.0@, cs@);
            }
            match parse_i64(&cs, p) {
                None => {
                    return None;
                },
                Some(v) => v.0,
            }
        },
    };
    let script = match req_string(&cs, &m.0, "script") {
        None => {
            return None;
        },
        Some(v) => v,
    };
    let (ap, _) = find_key(&m.0, &str_to_chars("args"));
    let args = match ap {
        None => {
            return None;
        },
        Some(p) => {
            proof {
                lemma_find_key_in_range(mem_v(m.0@), "args"@, m.0@, cs@);
            }
            match parse_str_arr(&cs, p) {
                None => {
                    return None;
                },
                Some(v) => v.0,
            }
        },
    };
    let (sp, _) = find_key(&m.0, &str_to_chars("success"));
    let success = match sp {
        None => {
            return None;
        },
        Some(p) => {
            proof {
                lemma_find_key_in_range(mem_v(m.0@), "success"@, m.0@, cs@);
            }
            match parse_bool_tok(&cs, p) {
                None => {
                    return None;
                },
                Some(v) => v.0,
            }
        },
    };
    let exit_code = match opt_i32_mem(&cs, &m.0, "exit_code") {
        None => {
            return None;
        },
        Some(v) => v,
    };
    let stdout = match req_string(&cs, &m.0, "stdout") {
        None => {
            return None;
        },
        Some(v) => v,
    };
    let stderr = match req_string(&cs, &m.0, "stderr") {
        None => {
            return None;
        },
        Some(v) => v,
    };
    let error = match opt_string_mem(&cs, &m.0, "error") {
        None => {
            return None;
        },
        Some(v) => v,
    };
    Some(crate::history::HistoryEntry {
        timestamp,
        script,
        args,
        success,
        exit_code,
        stdout,
        stderr,
        error,
    })
}

} // verus!

verus! {

/// One rendered comment line of a block: the prefix, a space, the text,
/// a newline.
pub open spec fn spec_comment_line(prefix: Seq<char>, l: Seq<char>) -> Seq<char> {
    prefix + " "@ + l
}

/// A whole rendered schema block: the start sentinel line, each payload
/// line behind the comment prefix, the end sentinel line.
pub open spec fn spec_render_block(payload: Seq<Seq<char>>, prefix: Seq<char>) -> Seq<char>
    decreases payload.len(),
{
    if payload.len() == 0 {
        spec_comment_line(prefix, "OMAKURE_SCHEMA_END"@) + seq!['\n']
    } else {
        spec_comment_line(prefix, payload[0]) + seq!['\n'] + spec_render_block(payload.drop_first(), prefix)
    }
}

pub open spec fn spec_rendered_whole(payload: Seq<Seq<char>>, prefix: Seq<char>) -> Seq<char> {
    spec_comment_line(prefix, "OMAKURE_SCHEMA_START"@) + seq!['\n'] + spec_render_block(payload, prefix)
}

/// Write one payload as a comment block that `extract_schema_block`
/// reads back.
pub fn render_schema_block(payload: &Vec<String>, prefix: &str) -> (r: String)
    ensures
        r@ == spec_rendered_whole(payload.deep_view(), prefix@),
{
    let mut out = str_to_chars(prefix);
    crate::strutil::append_chars(&mut out, &str_to_chars(" "));
    crate::strutil::append_chars(&mut out, &str_to_chars("OMAKURE_SCHEMA_START"));
    out.push('\n');
    let n = payload.len();
    let ghost pv = payload.deep_view();
    let mut i: usize = 0;
    proof {
        assert(out@ =~= spec_comment_line(prefix@, "OMAKURE_SCHEMA_START"@) + seq!['\n']);
        assert(pv.skip(0) =~~= pv);
    }
    while i < n
        invariant
            n == payload@.len(),
            pv == payload.deep_view(),
            i <= n,
            out@ + spec_render_block(pv.skip(i as int), prefix@) == spec_rendered_whole(pv, prefix@),
        decreases n - i,
    {
        proof {
            assert(pv.skip(i as int)[0] == pv[i as int]);
            assert(pv.skip(i as int).drop_first() =~~= pv.skip(i + 1));
            assert(pv[i as int] == payload@[i as int]@);
        }
        crate::strutil::append_chars(&mut out, &str_to_chars(prefix));
        crate::strutil::append_chars(&mut out, &str_to_chars(" "));
        crate::strutil::append_chars(&mut out, &str_to_chars(payload[i].as_str()));
        out.push('\n');
        proof {
            assert(out@ + spec_render_block(pv.skip(i + 1), prefix@) =~= spec_rendered_whole(pv, prefix@));
        }
        i = i + 1;
    }
    proof {
        assert(pv.skip(n as int) =~~= Seq::<Seq<char>>::empty());
    }
    crate::strutil::append_chars(&mut out, &str_to_chars(prefix));
    crate::strutil::append_chars(&mut out, &str_to_chars(" "));
    crate::strutil::append_chars(&mut out, &str_to_chars("OMAKURE_SCHEMA_END"));
    out.push('\n');
    proof {
        assert(out@ =~= spec_rendered_whole(pv, prefix@));
    }
    chars_to_string(&out)
}

/// Lines taken from an offset are the lines of the tail.
pub proof fn lemma_lines_shift(s: Seq<char>, i: int)
    requires
        0 <= i <= s.len(),
    ensures
        crate::strutil::spec_lines_from(s, i) == crate::strutil::spec_lines(s.skip(i)),
    decreases s.len() - i,
{
    let t = s.skip(i);
    if i < s.len() {
        crate::strutil::lemma_find_from_bounds(s, '\n', i);
        crate::strutil::lemma_find_from_bounds(t, '\n', 0);
        let j = crate::strutil::spec_find_from(s, '\n', i);
        let jt = crate::strutil::spec_find_from(t, '\n', 0);
        assert(forall|k: int| 0 <= k < t.len() ==> t[k] == s[i + k]);
        assert(j - i == jt) by {
            if j - i < jt {
                assert(t[j - i] == '\n');
            }
            if jt < j - i {
                assert(s[i + jt] == '\n');
            }
        }
        if j >= s.len() {
            assert(s.subrange(i, s.len() as int) =~= t.subrange(0, t.len() as int));
            assert(t.subrange(0, t.len() as int) =~= t);
        } else {
            assert(s.subrange(i, j) =~= t.subrange(0, jt));
            lemma_lines_shift(s, j + 1);
            assert(s.skip(j + 1) =~= t.skip(jt + 1));
            lemma_lines_shift(t, jt + 1);
        }
    } else {
        assert(t.len() == 0);
    }
}

/// The lines of one newline-terminated line followed by more text.
pub proof fn lemma_lines_cons(l: Seq<char>, rest: Seq<char>)
    requires
        forall|k: int| 0 <= k < l.len() ==> l[k] != '\n',
        l.len() == 0 || l[l.len() - 1] != '\r',
    ensures
        crate::strutil::spec_lines(l + seq!['\n'] + rest) == seq![l] + crate::strutil::spec_lines(rest),
{
    let s = l + seq!['\n'] + rest;
    crate::strutil::lemma_find_from_bounds(s, '\n', 0);
    let j = crate::strutil::spec_find_from(s, '\n', 0);
    assert(s[l.len() as int] == '\n');
    assert(forall|k: int| 0 <= k < l.len() ==> s[k] == l[k] && s[k] != '\n');
    assert(j == l.len()) by {
        if j < l.len() {
            assert(s[j] == '\n');
        }
    }
    assert(s.subrange(0, j) =~= l);
    assert(crate::strutil::spec_strip_cr(l) == l);
    lemma_lines_shift(s, j + 1);
    assert(s.skip(j + 1) =~= rest);
    assert(crate::strutil::spec_lines(s) =~~= seq![l] + crate::strutil::spec_lines(rest));
}

/// The lines of a rendered block are the sentinel lines around the
/// commented payload lines.
pub proof fn lemma_render_lines(payload: Seq<Seq<char>>, prefix: Seq<char>)
    requires
        prefix == "#"@ || prefix == "//"@,
        forall|i: int, k: int| #![trigger payload[i][k]] 0 <= i < payload.len() && 0 <= k < payload[i].len() ==> payload[i][k] != '\n',
        forall|i: int| 0 <= i < payload.len() ==> ((#[trigger] payload[i]).len() == 0 || payload[i][payload[i].len() - 1] != '\r'),
    ensures
        crate::strutil::spec_lines(spec_render_block(payload, prefix)) == payload.map_values(|l: Seq<char>| spec_comment_line(prefix, l)) + seq![spec_comment_line(prefix, "OMAKURE_SCHEMA_END"@)],
    decreases payload.len(),
{
    reveal_strlit("#");
    reveal_strlit("//");
    reveal_strlit(" ");
    reveal_strlit("OMAKURE_SCHEMA_END");
    if payload.len() == 0 {
        let l = spec_comment_line(prefix, "OMAKURE_SCHEMA_END"@);
        assert(forall|k: int| 0 <= k < l.len() ==> l[k] != '\n');
        assert(l[l.len() - 1] != '\r');
        lemma_lines_cons(l, Seq::empty());
        assert(crate::strutil::spec_lines(Seq::<char>::empty()).len() == 0);
        assert(spec_render_block(payload, prefix) =~= l + seq!['\n'] + Seq::<char>::empty());
        assert(crate::strutil::spec_lines(spec_render_block(payload, prefix)) =~~= payload.map_values(|l2: Seq<char>| spec_comment_line(prefix, l2)) + seq![l]);
    } else {
        let l = spec_comment_line(prefix, payload[0]);
        assert(forall|k: int| 0 <= k < l.len() ==> l[k] != '\n') by {
            assert(forall|k: int| 0 <= k < payload[0].len() ==> payload[0][k] != '\n');
        }
        assert(l[l.len() - 1] != '\r') by {
            if payload[0].len() == 0 {
                assert(l[l.len() - 1] == ' ');
            } else {
                assert(l[l.len() - 1] == payload[0][payload[0].len() - 1]);
            }
        }
        lemma_render_lines(payload.drop_first(), prefix);
        lemma_lines_cons(l, spec_render_block(payload.drop_first(), prefix));
        assert(spec_render_block(payload, prefix) =~= l + seq!['\n'] + spec_render_block(payload.drop_first(), prefix));
        assert(payload.drop_first().map_values(|l2: Seq<char>| spec_comment_line(prefix, l2)) =~~= payload.map_values(|l2: Seq<char>| spec_comment_line(prefix, l2)).drop_first());
        assert(crate::strutil::spec_lines(spec_render_block(payload, prefix)) =~~= payload.map_values(|l2: Seq<char>| spec_comment_line(prefix, l2)) + seq![spec_comment_line(prefix, "OMAKURE_SCHEMA_END"@)]);
    }
}

} // verus!

verus! {

proof fn lemma_find_sent_range(lines: Seq<Seq<char>>, sent: Seq<char>, i: int, t: int)
    requires
        0 <= i <= t < lines.len(),
        forall|k: int| i <= k < t ==> !crate::strutil::spec_contains(#[trigger] lines[k], sent),
        crate::strutil::spec_contains(lines[t], sent),
    ensures
        spec_find_sentinel(lines, sent, i) == t,
    decreases t - i,
{
    if i < t {
        lemma_find_sent_range(lines, sent, i + 1, t);
    }
}

proof fn lemma_strip_comment_line(prefix: Seq<char>, l: Seq<char>)
    requires
        prefix == "#"@ || prefix == "//"@,
    ensures
        spec_strip_comment(spec_comment_line(prefix, l), seq!["#"@, "//"@]) == Some(" "@ + l),
{
    reveal_strlit("#");
    reveal_strlit("//");
    reveal_strlit(" ");
    let line = spec_comment_line(prefix, l);
    assert(line[0] == prefix[0]);
    assert(!crate::strutil::spec_is_ws(line[0]));
    assert(crate::strutil::spec_trim_front(line) == line);
    let prefixes = seq!["#"@, "//"@];
    if prefix == "#"@ {
        assert(line.subrange(0, 1) =~= "#"@);
        assert(crate::strutil::spec_starts_with(line, prefixes[0]));
        assert(line.skip(1) =~= " "@ + l);
    } else {
        reveal_with_fuel(spec_strip_comment, 3);
        assert(line.subrange(0, 1) != "#"@) by {
            assert(line.subrange(0, 1)[0] == '/');
        }
        assert(!crate::strutil::spec_starts_with(line, prefixes[0]));
        assert(prefixes.drop_first().len() == 1 && prefixes.drop_first()[0] == "//"@);
        assert(line.subrange(0, 2) =~= "//"@);
        assert(crate::strutil::spec_starts_with(line, "//"@));
        assert(line.skip(2) =~= " "@ + l);
        assert(spec_strip_comment(line, prefixes.drop_first()) == Some(line.skip(2)));
    }
}

proof fn lemma_capture_comments(lines: Seq<Seq<char>>, payload: Seq<Seq<char>>, d: int, prefix: Seq<char>)
    requires
        prefix == "#"@ || prefix == "//"@,
        0 <= d <= payload.len(),
        payload.len() + 2 <= lines.len(),
        forall|t: int| #![trigger payload.index(t)] 0 <= t < payload.len() ==> lines.index(1 + t) == spec_comment_line(prefix, payload.index(t)),
    ensures
        spec_capture(lines, 1 + d, payload.len() as int + 1, seq!["#"@, "//"@]) == Ok::<Seq<Seq<char>>, int>(payload.skip(d).map_values(|l: Seq<char>| " "@ + l)),
    decreases payload.len() - d,
{
    if d == payload.len() {
        assert(payload.skip(d).map_values(|l: Seq<char>| " "@ + l) =~~= Seq::<Seq<char>>::empty());
    } else {
        assert(payload.index(d) == payload[d]);
        assert(lines.index(1 + d) == spec_comment_line(prefix, payload.index(d)));
        lemma_strip_comment_line(prefix, payload[d]);
        lemma_capture_comments(lines, payload, d + 1, prefix);
        assert(spec_capture(lines, 1 + d, payload.len() as int + 1, seq!["#"@, "//"@]) == Ok::<Seq<Seq<char>>, int>(payload.skip(d).map_values(|l: Seq<char>| " "@ + l))) by {
            assert(payload.skip(d).map_values(|l: Seq<char>| " "@ + l) =~~= seq![" "@ + payload[d]] + payload.skip(d + 1).map_values(|l: Seq<char>| " "@ + l));
        }
    }
}

/// Extraction inverts rendering: a block written for any payload, with
/// either accepted comment prefix, reads back as that payload's lines,
/// each behind one space, newline-joined. The payload must be real
/// lines (no embedded newline or trailing carriage return) that do not
/// themselves carry the end sentinel.
proof fn lemma_rendered_lines_whole(payload: Seq<Seq<char>>, prefix: Seq<char>)
    requires
        prefix == "#"@ || prefix == "//"@,
        forall|i: int, k: int| #![trigger payload[i][k]] 0 <= i < payload.len() && 0 <= k < payload[i].len() ==> payload[i][k] != '\n',
        forall|i: int| 0 <= i < payload.len() ==> ((#[trigger] payload[i]).len() == 0 || payload[i][payload[i].len() - 1] != '\r'),
    ensures
        crate::strutil::spec_lines(spec_rendered_whole(payload, prefix)) == seq![spec_comment_line(prefix, "OMAKURE_SCHEMA_START"@)] + payload.map_values(|l: Seq<char>| spec_comment_line(prefix, l)) + seq![spec_comment_line(prefix, "OMAKURE_SCHEMA_END"@)],
{
    reveal_strlit("#");
    reveal_strlit("//");
    reveal_strlit(" ");
    reveal_strlit("OMAKURE_SCHEMA_START");
    let startline = spec_comment_line(prefix, "OMAKURE_SCHEMA_START"@);
    assert(forall|k: int| 0 <= k < startline.len() ==> startline[k] != '\n');
    assert(startline[startline.len() - 1] != '\r');
    lemma_lines_cons(startline, spec_render_block(payload, prefix));
    lemma_render_lines(payload, prefix);
    assert(spec_rendered_whole(payload, prefix) =~= startline + seq!['\n'] + spec_render_block(payload, prefix));
    assert(crate::strutil::spec_lines(spec_rendered_whole(payload, prefix)) =~~= seq![startline] + payload.map_values(|l: Seq<char>| spec_comment_line(prefix, l)) + seq![spec_comment_line(prefix, "OMAKURE_SCHEMA_END"@)]);
}

proof fn lemma_sentinel_in_line(prefix: Seq<char>, sent: Seq<char>)
    ensures
        crate::strutil::spec_contains(spec_comment_line(prefix, sent), sent),
{
    reveal_strlit(" ");
    let line = spec_comment_line(prefix, sent);
    let p: int = prefix.len() as int + 1;
    assert(line.subrange(p, p + sent.len() as int) =~= sent);
    assert(crate::strutil::spec_contains_at(line, sent, p));
}

/// Extraction inverts rendering: a block written for any payload, with
/// either accepted comment prefix, reads back as that payload's lines,
/// each behind one space, newline-joined. The payload must be real
/// lines (no embedded newline or trailing carriage return) that do not
/// themselves carry the end sentinel.
#[verifier::rlimit(100)]
#[verifier::spinoff_prover]
pub proof fn lemma_extract_of_rendered(payload: Seq<Seq<char>>, prefix: Seq<char>)
    requires
        prefix == "#"@ || prefix == "//"@,
        payload.len() > 0,
        forall|i: int, k: int| #![trigger payload[i][k]] 0 <= i < payload.len() && 0 <= k < payload[i].len() ==> payload[i][k] != '\n',
        forall|i: int| 0 <= i < payload.len() ==> ((#[trigger] payload[i]).len() == 0 || payload[i][payload[i].len() - 1] != '\r'),
        forall|i: int| 0 <= i < payload.len() ==> !crate::strutil::spec_contains(spec_comment_line(prefix, #[trigger] payload[i]), "OMAKURE_SCHEMA_END"@),
    ensures
        spec_extract_block(spec_rendered_whole(payload, prefix), seq!["#"@, "//"@]) == Ok::<Seq<char>, Seq<char>>(crate::strutil::spec_join(payload.map_values(|l: Seq<char>| " "@ + l), "\n"@)),
{
    let whole = spec_rendered_whole(payload, prefix);
    let startline = spec_comment_line(prefix, "OMAKURE_SCHEMA_START"@);
    let endline = spec_comment_line(prefix, "OMAKURE_SCHEMA_END"@);
    let n = payload.len();
    lemma_rendered_lines_whole(payload, prefix);
    let lines = crate::strutil::spec_lines(whole);
    let middle = payload.map_values(|l: Seq<char>| spec_comment_line(prefix, l));
    assert(lines =~~= seq![startline] + middle + seq![endline]);
    assert(lines.len() == n + 2);
    lemma_sentinel_in_line(prefix, "OMAKURE_SCHEMA_START"@);
    lemma_find_sent_range(lines, "OMAKURE_SCHEMA_START"@, 0, 0);
    lemma_sentinel_in_line(prefix, "OMAKURE_SCHEMA_END"@);
    assert(forall|k: int| 1 <= k < n as int + 1 ==> #[trigger] lines[k] == spec_comment_line(prefix, payload[k - 1]));
    assert(forall|k: int| 1 <= k < n as int + 1 ==> !crate::strutil::spec_contains(#[trigger] lines[k], "OMAKURE_SCHEMA_END"@));
    assert(lines[n as int + 1] == endline);
    lemma_find_sent_range(lines, "OMAKURE_SCHEMA_END"@, 1, n as int + 1);
    assert(forall|t: int| #![trigger payload.index(t)] 0 <= t < n ==> lines.index(1 + t) == spec_comment_line(prefix, payload.index(t)));
    lemma_capture_comments(lines, payload, 0, prefix);
    assert(payload.skip(0) =~~= payload);
    assert(spec_extract_block(whole, seq!["#"@, "//"@]) == Ok::<Seq<char>, Seq<char>>(crate::strutil::spec_join(payload.map_values(|l: Seq<char>| " "@ + l), seq!['\n'])));
    assert("\n"@ =~= seq!['\n']) by {
        reveal_strlit("\n");
    }
}

} // verus!
