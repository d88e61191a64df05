use vstd::prelude::*;
use crate::strutil::{spec_is_ws, is_ws};

verus! {

/// Whitespace skipped from `i` on; the guard keeps the result inside the
/// text.
pub open spec fn ws_end(s: Seq<char>, i: int) -> int
    decreases s.len() - i,
{
    if i < 0 || i >= s.len() {
        i
    } else if spec_is_ws(s[i]) {
        ws_end(s, i + 1)
    } else {
        i
    }
}

pub proof fn lemma_ws_end(s: Seq<char>, i: int)
    requires
        0 <= i <= s.len(),
    ensures
        i <= ws_end(s, i) <= s.len(),
    decreases s.len() - i,
{
    if i < s.len() && spec_is_ws(s[i]) {
        lemma_ws_end(s, i + 1);
    }
}

pub fn ws_end_exec(s: &Vec<char>, i: usize) -> (r: usize)
    requires
        i <= s@.len(),
    ensures
        r == ws_end(s@, i as int),
        i <= r <= s@.len(),
    decreases s@.len() - i,
{
    if i < s.len() && is_ws(s[i]) {
        ws_end_exec(s, i + 1)
    } else {
        i
    }
}

/// The value of a hexadecimal digit, where the character is one.
pub open spec fn spec_hex_val(c: char) -> Option<u32> {
    if '0' <= c <= '9' {
        Some(((c as u32) - ('0' as u32)) as u32)
    } else if 'a' <= c <= 'f' {
        Some(((c as u32) - ('a' as u32) + 10) as u32)
    } else if 'A' <= c <= 'F' {
        Some(((c as u32) - ('A' as u32) + 10) as u32)
    } else {
        None
    }
}

fn hex_val(c: char) -> (r: Option<u32>)
    ensures
        r == spec_hex_val(c),
{
    if '0' <= c && c <= '9' {
        Some((c as u32) - ('0' as u32))
    } else if 'a' <= c && c <= 'f' {
        Some((c as u32) - ('a' as u32) + 10)
    } else if 'A' <= c && c <= 'F' {
        Some((c as u32) - ('A' as u32) + 10)
    } else {
        None
    }
}

/// The code unit of four hexadecimal digits at `i`.
pub open spec fn spec_hex4(s: Seq<char>, i: int) -> Option<u32> {
    if i < 0 || i + 4 > s.len() {
        None
    } else {
        match (spec_hex_val(s[i]), spec_hex_val(s[i + 1]), spec_hex_val(s[i + 2]), spec_hex_val(s[i + 3])) {
            (Some(a), Some(b), Some(c), Some(d)) => Some(
                (a * 4096 + b * 256 + c * 16 + d) as u32,
            ),
            _ => None,
        }
    }
}

fn hex4(s: &Vec<char>, i: usize) -> (r: Option<u32>)
    requires
        i <= s@.len(),
    ensures
        r == spec_hex4(s@, i as int),
{
    let n = s.len();
    if n - i < 4 {
        return None;
    }
    let a = hex_val(s[i]);
    let b = hex_val(s[i + 1]);
    let c = hex_val(s[i + 2]);
    let d = hex_val(s[i + 3]);
    match (a, b, c, d) {
        (Some(a), Some(b), Some(c), Some(d)) => Some(a * 4096 + b * 256 + c * 16 + d),
        _ => None,
    }
}

/// What one escape character after a backslash denotes, where it is a
/// single-character escape.
pub open spec fn spec_escape_char(c: char) -> Option<char> {
    if c == '"' {
        Some('"')
    } else if c == '\\' {
        Some('\\')
    } else if c == '/' {
        Some('/')
    } else if c == 'b' {
        Some(8u8 as char)
    } else if c == 'f' {
        Some(12u8 as char)
    } else if c == 'n' {
        Some('\n')
    } else if c == 'r' {
        Some('\r')
    } else if c == 't' {
        Some('\t')
    } else {
        None
    }
}

fn escape_char(c: char) -> (r: Option<char>)
    ensures
        r == spec_escape_char(c),
{
    if c == '"' {
        Some('"')
    } else if c == '\\' {
        Some('\\')
    } else if c == '/' {
        Some('/')
    } else if c == 'b' {
        Some(8u8 as char)
    } else if c == 'f' {
        Some(12u8 as char)
    } else if c == 'n' {
        Some('\n')
    } else if c == 'r' {
        Some('\r')
    } else if c == 't' {
        Some('\t')
    } else {
        None
    }
}

/// Relies on `char::from_u32`: every code point below the surrogate
/// range, and every one between the surrogates and the last code point,
/// is a scalar value, so the conversion succeeds and yields it.
#[verifier::external_body]
fn char_from_u32(u: u32) -> (r: char)
    requires
        u < 0xD800 || (0xE000 <= u && u <= 0x10FFFF),
    ensures
        r == (u as char),
{
    char::from_u32(u).unwrap()
}

/// The characters of the string body starting after an opening quote at
/// `i - 1`, together with the position after the closing quote.
pub open spec fn spec_str_body(s: Seq<char>, i: int) -> Option<(Seq<char>, int)>
    decreases s.len() - i,
{
    if i < 0 || i >= s.len() {
        None
    } else if s[i] == '"' {
        Some((Seq::empty(), i + 1))
    } else if s[i] == '\\' {
        if i + 1 >= s.len() {
            None
        } else if s[i + 1] == 'u' {
            match spec_hex4(s, i + 2) {
                None => None,
                Some(u) => {
                    if 0xD800 <= u < 0xDC00 {
                        // a high surrogate must pair with a following
                        // \uXXXX low surrogate
                        if i + 8 < s.len() && s[i + 6] == '\\' && s[i + 7] == 'u' {
                            match spec_hex4(s, i + 8) {
                                None => None,
                                Some(lo) => {
                                    if 0xDC00 <= lo < 0xE000 {
                                        let cp = ((0x10000 + (u - 0xD800) * 0x400 + (lo
                                            - 0xDC00)) as u32) as char;
                                        match spec_str_body(s, i + 12) {
                                            None => None,
                                            Some(rest) => Some((seq![cp] + rest.0, rest.1)),
                                        }
                                    } else {
                                        None
                                    }
                                },
                            }
                        } else {
                            None
                        }
                    } else if 0xDC00 <= u < 0xE000 {
                        None
                    } else {
                        match spec_str_body(s, i + 6) {
                            None => None,
                            Some(rest) => Some((seq![u as char] + rest.0, rest.1)),
                        }
                    }
                },
            }
        } else {
            match spec_escape_char(s[i + 1]) {
                None => None,
                Some(c) => match spec_str_body(s, i + 2) {
                    None => None,
                    Some(rest) => Some((seq![c] + rest.0, rest.1)),
                },
            }
        }
    } else if (s[i] as u32) < 0x20 {
        None
    } else {
        match spec_str_body(s, i + 1) {
            None => None,
            Some(rest) => Some((seq![s[i]] + rest.0, rest.1)),
        }
    }
}

pub proof fn lemma_str_body_end(s: Seq<char>, i: int)
    requires
        0 <= i <= s.len(),
    ensures
        spec_str_body(s, i) matches Some(r) ==> i < r.1 <= s.len(),
    decreases s.len() - i,
{
    if 0 <= i < s.len() {
        if s[i] == '"' {
        } else if s[i] == '\\' {
            if i + 1 < s.len() {
                if s[i + 1] == 'u' {
                    if i + 12 <= s.len() {
                        lemma_str_body_end(s, i + 12);
                    }
                    if i + 6 <= s.len() {
                        lemma_str_body_end(s, i + 6);
                    }
                } else {
                    if i + 2 <= s.len() {
                        lemma_str_body_end(s, i + 2);
                    }
                }
            }
        } else {
            lemma_str_body_end(s, i + 1);
        }
    }
}

fn str_body(s: &Vec<char>, i: usize) -> (r: Option<(Vec<char>, usize)>)
    requires
        i <= s@.len(),
    ensures
        match r {
            Some(p) => spec_str_body(s@, i as int) == Some((p.0@, p.1 as int)) && i < p.1 <= s@.len(),
            None => spec_str_body(s@, i as int) is None,
        },
    decreases s@.len() - i,
{
    proof {
        lemma_str_body_end(s@, i as int);
    }
    if i >= s.len() {
        return None;
    }
    let c = s[i];
    if c == '"' {
        return Some((Vec::new(), i + 1));
    }
    if c == '\\' {
        if i + 1 >= s.len() {
            return None;
        }
        let e = s[i + 1];
        if e == 'u' {
            let u = match hex4(s, i + 2) {
                None => {
                    return None;
                },
                Some(u) => u,
            };
            if 0xD800 <= u && u < 0xDC00 {
                let n = s.len();
                if n - i > 8 && s[i + 6] == '\\' && s[i + 7] == 'u' {
                    let lo = match hex4(s, i + 8) {
                        None => {
                            return None;
                        },
                        Some(lo) => lo,
                    };
                    if 0xDC00 <= lo && lo < 0xE000 {
                        let cp: u32 = 0x10000 + (u - 0xD800) * 0x400 + (lo - 0xDC00);
                        let ch = char_from_u32(cp);
                        assert(i + 12 <= s@.len());
                        match str_body(s, i + 12) {
                            None => None,
                            Some(rest) => {
                                let mut out: Vec<char> = Vec::new();
                                out.push(ch);
                                crate::strutil::append_chars(&mut out, &rest.0);
                                Some((out, rest.1))
                            },
                        }
                    } else {
                        None
                    }
                } else {
                    None
                }
            } else if 0xDC00 <= u && u < 0xE000 {
                None
            } else {
                let ch = char_from_u32(u);
                assert(i + 6 <= s@.len());
                match str_body(s, i + 6) {
                    None => None,
                    Some(rest) => {
                        let mut out: Vec<char> = Vec::new();
                        out.push(ch);
                        crate::strutil::append_chars(&mut out, &rest.0);
                        Some((out, rest.1))
                    },
                }
            }
        } else {
            match escape_char(e) {
                None => None,
                Some(ec) => match str_body(s, i + 2) {
                    None => None,
                    Some(rest) => {
                        let mut out: Vec<char> = Vec::new();
                        out.push(ec);
                        crate::strutil::append_chars(&mut out, &rest.0);
                        Some((out, rest.1))
                    },
                },
            }
        }
    } else if (c as u32) < 0x20 {
        None
    } else {
        match str_body(s, i + 1) {
            None => None,
            Some(rest) => {
                let mut out: Vec<char> = Vec::new();
                out.push(c);
                crate::strutil::append_chars(&mut out, &rest.0);
                Some((out, rest.1))
            },
        }
    }
}

/// A whole string token at `i`: an opening quote, the body, the closing
/// quote.
pub open spec fn spec_parse_string(s: Seq<char>, i: int) -> Option<(Seq<char>, int)> {
    if 0 <= i < s.len() && s[i] == '"' {
        spec_str_body(s, i + 1)
    } else {
        None
    }
}

pub fn parse_string(s: &Vec<char>, i: usize) -> (r: Option<(Vec<char>, usize)>)
    requires
        i <= s@.len(),
    ensures
        match r {
            Some(p) => spec_parse_string(s@, i as int) == Some((p.0@, p.1 as int)) && i < p.1 <= s@.len(),
            None => spec_parse_string(s@, i as int) is None,
        },
{
    if i < s.len() && s[i] == '"' {
        str_body(s, i + 1)
    } else {
        None
    }
}

} // verus!

verus! {

pub open spec fn spec_is_digit(c: char) -> bool {
    '0' <= c <= '9'
}

/// The first index at or after `i` that is not a decimal digit.
pub open spec fn digits_end(s: Seq<char>, i: int) -> int
    decreases s.len() - i,
{
    if i < 0 || i >= s.len() {
        if i < 0 {
            i
        } else {
            s.len() as int
        }
    } else if spec_is_digit(s[i]) {
        digits_end(s, i + 1)
    } else {
        i
    }
}

pub proof fn lemma_digits_end(s: Seq<char>, i: int)
    requires
        0 <= i <= s.len(),
    ensures
        i <= digits_end(s, i) <= s.len(),
    decreases s.len() - i,
{
    if i < s.len() && spec_is_digit(s[i]) {
        lemma_digits_end(s, i + 1);
    }
}

pub fn digits_end_exec(s: &Vec<char>, i: usize) -> (r: usize)
    requires
        i <= s@.len(),
    ensures
        r == digits_end(s@, i as int),
        i <= r <= s@.len(),
    decreases s@.len() - i,
{
    if i < s.len() && '0' <= s[i] && s[i] <= '9' {
        digits_end_exec(s, i + 1)
    } else {
        i
    }
}

/// The end of a number token at `i`: an optional minus, an integer part
/// without leading zeros, an optional fraction, an optional exponent.
pub open spec fn spec_number_end(s: Seq<char>, i: int) -> Option<int> {
    if i < 0 || i >= s.len() {
        None
    } else {
        let j0 = if s[i] == '-' {
            i + 1
        } else {
            i
        };
        if j0 >= s.len() || !spec_is_digit(s[j0]) {
            None
        } else {
            let j1 = if s[j0] == '0' {
                j0 + 1
            } else {
                digits_end(s, j0)
            };
            let j2 = if j1 < s.len() && s[j1] == '.' {
                if j1 + 1 < s.len() && spec_is_digit(s[j1 + 1]) {
                    digits_end(s, j1 + 1)
                } else {
                    -1
                }
            } else {
                j1
            };
            if j2 < 0 {
                None
            } else {
                if j2 < s.len() && (s[j2] == 'e' || s[j2] == 'E') {
                    let j3 = if j2 + 1 < s.len() && (s[j2 + 1] == '+' || s[j2 + 1] == '-') {
                        j2 + 2
                    } else {
                        j2 + 1
                    };
                    if j3 < s.len() && spec_is_digit(s[j3]) {
                        Some(digits_end(s, j3))
                    } else {
                        None
                    }
                } else {
                    Some(j2)
                }
            }
        }
    }
}

pub proof fn lemma_number_end(s: Seq<char>, i: int)
    requires
        0 <= i <= s.len(),
    ensures
        spec_number_end(s, i) matches Some(e) ==> i < e <= s.len(),
{
    if 0 <= i < s.len() {
        let j0 = if s[i] == '-' {
            i + 1
        } else {
            i
        };
        if j0 < s.len() && spec_is_digit(s[j0]) {
            lemma_digits_end(s, j0);
            let j1 = if s[j0] == '0' {
                j0 + 1
            } else {
                digits_end(s, j0)
            };
            if j1 + 1 <= s.len() {
                lemma_digits_end(s, j1 + 1);
            }
            let j2 = if j1 < s.len() && s[j1] == '.' {
                if j1 + 1 < s.len() && spec_is_digit(s[j1 + 1]) {
                    digits_end(s, j1 + 1)
                } else {
                    -1
                }
            } else {
                j1
            };
            if j2 >= 0 && j2 < s.len() && (s[j2] == 'e' || s[j2] == 'E') {
                let j3 = if j2 + 1 < s.len() && (s[j2 + 1] == '+' || s[j2 + 1] == '-') {
                    j2 + 2
                } else {
                    j2 + 1
                };
                if j3 < s.len() {
                    lemma_digits_end(s, j3);
                }
            }
        }
    }
}

pub fn number_end(s: &Vec<char>, i: usize) -> (r: Option<usize>)
    requires
        i <= s@.len(),
    ensures
        match r {
            Some(e) => spec_number_end(s@, i as int) == Some(e as int) && i < e <= s@.len(),
            None => spec_number_end(s@, i as int) is None,
        },
{
    proof {
        lemma_number_end(s@, i as int);
    }
    let n = s.len();
    if i >= n {
        return None;
    }
    let j0 = if s[i] == '-' {
        i + 1
    } else {
        i
    };
    if j0 >= n || !('0' <= s[j0] && s[j0] <= '9') {
        return None;
    }
    let j1 = if s[j0] == '0' {
        j0 + 1
    } else {
        digits_end_exec(s, j0)
    };
    let j2 = if j1 < n && s[j1] == '.' {
        if j1 + 1 < n && '0' <= s[j1 + 1] && s[j1 + 1] <= '9' {
            digits_end_exec(s, j1 + 1)
        } else {
            return None;
        }
    } else {
        j1
    };
    if j2 < n && (s[j2] == 'e' || s[j2] == 'E') {
        let j3 = if j2 + 1 < n && (s[j2 + 1] == '+' || s[j2 + 1] == '-') {
            j2 + 2
        } else {
            j2 + 1
        };
        if j3 < n && '0' <= s[j3] && s[j3] <= '9' {
            Some(digits_end_exec(s, j3))
        } else {
            None
        }
    } else {
        Some(j2)
    }
}

/// Whether the literal word stands at `i`, and where it ends.
pub open spec fn spec_lit_end(s: Seq<char>, i: int, lit: Seq<char>) -> Option<int> {
    if 0 <= i && i + lit.len() <= s.len() && s.subrange(i, i + lit.len()) == lit {
        Some(i + lit.len())
    } else {
        None
    }
}

pub fn lit_end(s: &Vec<char>, i: usize, lit: &Vec<char>) -> (r: Option<usize>)
    requires
        i <= s@.len(),
    ensures
        match r {
            Some(e) => spec_lit_end(s@, i as int, lit@) == Some(e as int) && i <= e <= s@.len(),
            None => spec_lit_end(s@, i as int, lit@) is None,
        },
{
    let n = s.len();
    let m = lit.len();
    if n - i < m {
        return None;
    }
    let mut j: usize = 0;
    while j < m
        invariant
            n == s@.len(),
            m == lit@.len(),
            i + m <= n,
            j <= m,
            forall|k: int| 0 <= k < j ==> s@[i + k] == lit@[k],
        decreases m - j,
    {
        if s[i + j] != lit[j] {
            proof {
                assert(s@.subrange(i as int, i + m) != lit@) by {
                    assert(s@.subrange(i as int, i + m)[j as int] == s@[i + j]);
                }
            }
            return None;
        }
        j = j + 1;
    }
    proof {
        assert(s@.subrange(i as int, i + m) =~= lit@);
    }
    Some(i + m)
}

/// The end of any value at `i`: a string, number, literal, array or
/// object, nesting included.
pub open spec fn spec_skip_value(s: Seq<char>, i: int) -> Option<int>
    decreases s.len() - i, 0int,
{
    if i < 0 || i >= s.len() {
        None
    } else if s[i] == '"' {
        match spec_parse_string(s, i) {
            None => None,
            Some(p) => Some(p.1),
        }
    } else if s[i] == '-' || spec_is_digit(s[i]) {
        spec_number_end(s, i)
    } else if s[i] == 't' {
        spec_lit_end(s, i, "true"@)
    } else if s[i] == 'f' {
        spec_lit_end(s, i, "false"@)
    } else if s[i] == 'n' {
        spec_lit_end(s, i, "null"@)
    } else if s[i] == '[' {
        let j = ws_end(s, i + 1);
        if !(i + 1 <= j <= s.len()) {
            None
        } else if j < s.len() && s[j] == ']' {
            Some(j + 1)
        } else {
            spec_skip_elems(s, j)
        }
    } else if s[i] == '{' {
        let j = ws_end(s, i + 1);
        if !(i + 1 <= j <= s.len()) {
            None
        } else if j < s.len() && s[j] == '}' {
            Some(j + 1)
        } else {
            spec_skip_members(s, j)
        }
    } else {
        None
    }
}

/// The end of the remaining elements of an array whose next element
/// starts at `i`.
pub open spec fn spec_skip_elems(s: Seq<char>, i: int) -> Option<int>
    decreases s.len() - i, 1int,
{
    if i < 0 || i >= s.len() {
        None
    } else {
        match spec_skip_value(s, i) {
            None => None,
            Some(e) => {
                if !(i < e <= s.len()) {
                    None
                } else {
                    let k = ws_end(s, e);
                    if !(e <= k <= s.len()) {
                        None
                    } else if k < s.len() && s[k] == ']' {
                        Some(k + 1)
                    } else if k < s.len() && s[k] == ',' {
                        let nxt = ws_end(s, k + 1);
                        if k + 1 <= nxt <= s.len() {
                            spec_skip_elems(s, nxt)
                        } else {
                            None
                        }
                    } else {
                        None
                    }
                }
            },
        }
    }
}

/// The end of the remaining members of an object whose next key starts
/// at `i`.
pub open spec fn spec_skip_members(s: Seq<char>, i: int) -> Option<int>
    decreases s.len() - i, 1int,
{
    if i < 0 || i >= s.len() {
        None
    } else {
        match spec_parse_string(s, i) {
            None => None,
            Some(key) => {
                if !(i < key.1 <= s.len()) {
                    None
                } else {
                    let c = ws_end(s, key.1);
                    if !(key.1 <= c <= s.len()) || c >= s.len() || s[c] != ':' {
                        None
                    } else {
                        let v = ws_end(s, c + 1);
                        if !(c + 1 <= v <= s.len()) {
                            None
                        } else {
                            match spec_skip_value(s, v) {
                                None => None,
                                Some(e) => {
                                    if !(v < e <= s.len()) {
                                        None
                                    } else {
                                        let k = ws_end(s, e);
                                        if !(e <= k <= s.len()) {
                                            None
                                        } else if k < s.len() && s[k] == '}' {
                                            Some(k + 1)
                                        } else if k < s.len() && s[k] == ',' {
                                            let nxt = ws_end(s, k + 1);
                                            if k + 1 <= nxt <= s.len() {
                                                spec_skip_members(s, nxt)
                                            } else {
                                                None
                                            }
                                        } else {
                                            None
                                        }
                                    }
                                },
                            }
                        }
                    }
                }
            },
        }
    }
}

pub proof fn lemma_skip_value_end(s: Seq<char>, i: int)
    requires
        0 <= i <= s.len(),
    ensures
        spec_skip_value(s, i) matches Some(e) ==> i < e <= s.len(),
        spec_skip_elems(s, i) matches Some(e) ==> i < e <= s.len(),
        spec_skip_members(s, i) matches Some(e) ==> i < e <= s.len(),
    decreases s.len() - i, 2int,
{
    reveal_strlit("true");
    reveal_strlit("false");
    reveal_strlit("null");
    if 0 <= i < s.len() {
        lemma_ws_end(s, i + 1);
        if s[i] == '"' {
            lemma_str_body_end(s, i + 1);
        }
        lemma_number_end(s, i);
        let j = ws_end(s, i + 1);
        if i + 1 <= j && j <= s.len() {
            if j < s.len() {
                lemma_skip_inner(s, j);
            }
        }
        lemma_skip_inner(s, i);
    }
}

proof fn lemma_skip_inner(s: Seq<char>, i: int)
    requires
        0 <= i <= s.len(),
    ensures
        spec_skip_elems(s, i) matches Some(e) ==> i < e <= s.len(),
        spec_skip_members(s, i) matches Some(e) ==> i < e <= s.len(),
        spec_skip_value(s, i) matches Some(e) ==> i < e <= s.len(),
    decreases s.len() - i, 3int,
{
    reveal_strlit("true");
    reveal_strlit("false");
    reveal_strlit("null");
    if 0 <= i < s.len() {
        // value: positions only grow through the string, number and
        // literal cases; arrays and objects recurse at larger indexes
        if s[i] == '"' {
            lemma_str_body_end(s, i + 1);
        }
        lemma_number_end(s, i);
        let j = ws_end(s, i + 1);
        lemma_ws_end(s, i + 1);
        if i + 1 <= j <= s.len() && !(j < s.len() && (s[j] == ']' || s[j] == '}')) {
            if j < s.len() {
                lemma_skip_inner(s, j);
            }
        }
        // elems
        match spec_skip_value(s, i) {
            Some(e) => {
                if i < e <= s.len() {
                    let k = ws_end(s, e);
                    lemma_ws_end(s, e);
                    if e <= k <= s.len() && k < s.len() && s[k] == ',' {
                        let nxt = ws_end(s, k + 1);
                        lemma_ws_end(s, k + 1);
                        if k + 1 <= nxt <= s.len() {
                            lemma_skip_inner(s, nxt);
                        }
                    }
                }
            },
            None => {},
        }
        // members
        match spec_parse_string(s, i) {
            Some(key) => {
                lemma_str_body_end(s, i + 1);
                if i < key.1 <= s.len() {
                    let c = ws_end(s, key.1);
                    lemma_ws_end(s, key.1);
                    if key.1 <= c <= s.len() && c < s.len() && s[c] == ':' {
                        let v = ws_end(s, c + 1);
                        lemma_ws_end(s, c + 1);
                        if c + 1 <= v <= s.len() {
                            if v < s.len() {
                                lemma_skip_inner(s, v);
                            }
                            match spec_skip_value(s, v) {
                                Some(e) => {
                                    if v < e <= s.len() {
                                        let k = ws_end(s, e);
                                        lemma_ws_end(s, e);
                                        if e <= k <= s.len() && k < s.len() && s[k] == ',' {
                                            let nxt = ws_end(s, k + 1);
                                            lemma_ws_end(s, k + 1);
                                            if k + 1 <= nxt <= s.len() {
                                                lemma_skip_inner(s, nxt);
                                            }
                                        }
                                    }
                                },
                                None => {},
                            }
                        }
                    }
                }
            },
            None => {},
        }
    }
}

} // verus!

verus! {

/// Skip any one value starting at `i`.
pub fn skip_value(s: &Vec<char>, i: usize) -> (r: Option<usize>)
    requires
        i <= s@.len(),
    ensures
        match r {
            Some(e) => spec_skip_value(s@, i as int) == Some(e as int) && i < e <= s@.len(),
            None => spec_skip_value(s@, i as int) is None,
        },
    decreases s@.len() - i, 0int,
{
    proof {
        lemma_skip_value_end(s@, i as int);
    }
    if i >= s.len() {
        return None;
    }
    let c = s[i];
    if c == '"' {
        match parse_string(s, i) {
            None => None,
            Some(p) => Some(p.1),
        }
    } else if c == '-' || ('0' <= c && c <= '9') {
        number_end(s, i)
    } else if c == 't' {
        lit_end(s, i, &crate::strutil::str_to_chars("true"))
    } else if c == 'f' {
        lit_end(s, i, &crate::strutil::str_to_chars("false"))
    } else if c == 'n' {
        lit_end(s, i, &crate::strutil::str_to_chars("null"))
    } else if c == '[' {
        let j = ws_end_exec(s, i + 1);
        if j < s.len() && s[j] == ']' {
            Some(j + 1)
        } else {
            skip_elems(s, j)
        }
    } else if c == '{' {
        let j = ws_end_exec(s, i + 1);
        if j < s.len() && s[j] == '}' {
            Some(j + 1)
        } else {
            skip_members(s, j)
        }
    } else {
        None
    }
}

fn skip_elems(s: &Vec<char>, i: usize) -> (r: Option<usize>)
    requires
        i <= s@.len(),
    ensures
        match r {
            Some(e) => spec_skip_elems(s@, i as int) == Some(e as int) && i < e <= s@.len(),
            None => spec_skip_elems(s@, i as int) is None,
        },
    decreases s@.len() - i, 1int,
{
    proof {
        lemma_skip_value_end(s@, i as int);
    }
    if i >= s.len() {
        return None;
    }
    let e = match skip_value(s, i) {
        None => {
            return None;
        },
        Some(e) => e,
    };
    let k = ws_end_exec(s, e);
    if k < s.len() && s[k] == ']' {
        Some(k + 1)
    } else if k < s.len() && s[k] == ',' {
        let nxt = ws_end_exec(s, k + 1);
        skip_elems(s, nxt)
    } else {
        None
    }
}

fn skip_members(s: &Vec<char>, i: usize) -> (r: Option<usize>)
    requires
        i <= s@.len(),
    ensures
        match r {
            Some(e) => spec_skip_members(s@, i as int) == Some(e as int) && i < e <= s@.len(),
            None => spec_skip_members(s@, i as int) is None,
        },
    decreases s@.len() - i, 1int,
{
    proof {
        lemma_skip_value_end(s@, i as int);
    }
    if i >= s.len() {
        return None;
    }
    let key = match parse_string(s, i) {
        None => {
            return None;
        },
        Some(p) => p,
    };
    let c = ws_end_exec(s, key.1);
    if c >= s.len() || s[c] != ':' {
        return None;
    }
    let v = ws_end_exec(s, c + 1);
    let e = match skip_value(s, v) {
        None => {
            return None;
        },
        Some(e) => e,
    };
    let k = ws_end_exec(s, e);
    if k < s.len() && s[k] == '}' {
        Some(k + 1)
    } else if k < s.len() && s[k] == ',' {
        let nxt = ws_end_exec(s, k + 1);
        skip_members(s, nxt)
    } else {
        None
    }
}

} // verus!
