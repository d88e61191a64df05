use vstd::prelude::*;
use crate::strutil::{
    chars_eq, chars_to_string, is_ws, lower_chars, spec_contains, spec_is_ws, spec_join,
    spec_lower, spec_trim, str_to_chars, trim_chars, append_chars,
};

verus! {

/// One declared input of a script: a named, typed, orderable value with
/// optional prompt, default, choices and argument name.
#[derive(Debug, Clone)]
pub struct Field {
    pub name: String,
    pub prompt: Option<String>,
    pub kind: String,
    pub order: u32,
    pub required: Option<bool>,
    pub default: Option<String>,
    pub choices: Option<Vec<String>>,
    pub arg: Option<String>,
}

/// A declared output of a script.
#[derive(Debug, Clone)]
pub struct SchemaOutput {
    pub name: String,
    pub kind: String,
}

/// One axis of a queue matrix.
#[derive(Debug, Clone)]
pub struct MatrixValue {
    pub name: String,
    pub values: Vec<String>,
}

#[derive(Debug, Clone)]
pub struct QueueCaseValue {
    pub name: String,
    pub value: String,
}

#[derive(Debug, Clone)]
pub struct QueueCase {
    pub name: Option<String>,
    pub values: Vec<QueueCaseValue>,
}

/// Optional queue declaration of a schema: either a matrix of axes or a
/// list of explicit cases.
#[derive(Debug, Clone)]
pub struct QueueDecl {
    pub matrix: Option<Vec<MatrixValue>>,
    pub cases: Option<Vec<QueueCase>>,
}

/// A script's declared input schema.
#[derive(Debug, Clone)]
pub struct Schema {
    pub name: String,
    pub description: Option<String>,
    pub tags: Option<Vec<String>>,
    pub fields: Vec<Field>,
    pub outputs: Option<Vec<SchemaOutput>>,
    pub queue: Option<QueueDecl>,
}

/// Whether every character of `s` is a decimal digit and `s` is not empty.
pub open spec fn spec_is_digits(s: Seq<char>) -> bool {
    s.len() > 0 && forall|i: int| 0 <= i < s.len() ==> '0' <= #[trigger] s[i] <= '9'
}

/// Digits, possibly none.
pub open spec fn spec_is_digits_opt(s: Seq<char>) -> bool {
    forall|i: int| 0 <= i < s.len() ==> '0' <= #[trigger] s[i] <= '9'
}

/// The mantissa part of a float literal: digits, or digits on at least
/// one side of a single dot.
pub open spec fn spec_mantissa_ok(m: Seq<char>) -> bool {
    let dot = crate::strutil::spec_find_from(m, '.', 0);
    if dot >= m.len() {
        spec_is_digits(m)
    } else {
        let a = m.subrange(0, dot);
        let b = m.subrange(dot + 1, m.len() as int);
        (spec_is_digits_opt(a) && spec_is_digits(b)) || (spec_is_digits(a) && spec_is_digits_opt(
            b,
        ))
    }
}

/// An exponent part: an optional sign followed by digits.
pub open spec fn spec_exp_ok(e: Seq<char>) -> bool {
    if e.len() > 0 && (e[0] == '+' || e[0] == '-') {
        spec_is_digits(e.subrange(1, e.len() as int))
    } else {
        spec_is_digits(e)
    }
}

/// Strip one leading sign character.
pub open spec fn spec_strip_sign(s: Seq<char>) -> Seq<char> {
    if s.len() > 0 && (s[0] == '+' || s[0] == '-') {
        s.subrange(1, s.len() as int)
    } else {
        s
    }
}

/// The first index holding 'e' or 'E', or the length.
pub open spec fn spec_find_exp(s: Seq<char>, i: int) -> int
    decreases s.len() - i,
{
    if i < 0 {
        i
    } else if i >= s.len() {
        s.len() as int
    } else if s[i] == 'e' || s[i] == 'E' {
        i
    } else {
        spec_find_exp(s, i + 1)
    }
}

/// The strings accepted by Rust's 64-bit float parser: an optional sign,
/// then `inf`, `infinity` or `nan` in any letter case, or a number made
/// of a mantissa and an optional exponent.
pub open spec fn spec_is_float_lit(s: Seq<char>) -> bool {
    let b = spec_strip_sign(s);
    let lb = spec_lower(b);
    ||| lb == "inf"@
    ||| lb == "infinity"@
    ||| lb == "nan"@
    ||| {
        let e = spec_find_exp(b, 0);
        if e >= b.len() {
            spec_mantissa_ok(b)
        } else {
            spec_mantissa_ok(b.subrange(0, e)) && spec_exp_ok(b.subrange(e + 1, b.len() as int))
        }
    }
}

fn is_digit(c: char) -> (r: bool)
    ensures
        r == ('0' <= c <= '9'),
{
    '0' <= c && c <= '9'
}

fn all_digits(v: &Vec<char>, from: usize, to: usize) -> (r: bool)
    requires
        from <= to <= v@.len(),
    ensures
        r == spec_is_digits_opt(v@.subrange(from as int, to as int)),
{
    let mut i: usize = from;
    while i < to
        invariant
            from <= i <= to <= v@.len(),
            forall|k: int| from <= k < i ==> '0' <= #[trigger] v@[k] <= '9',
        decreases to - i,
    {
        if !is_digit(v[i]) {
            proof {
                let sub = v@.subrange(from as int, to as int);
                assert(sub[i - from] == v@[i as int]);
            }
            return false;
        }
        i = i + 1;
    }
    proof {
        let sub = v@.subrange(from as int, to as int);
        assert(forall|k: int| 0 <= k < sub.len() ==> '0' <= #[trigger] sub[k] <= '9') by {
            assert(forall|k: int|
                0 <= k < sub.len() ==> sub[k] == #[trigger] v@[from + k] && '0' <= v@[from + k]
                    <= '9');
        }
    }
    true
}

fn find_exp(v: &Vec<char>, i: usize) -> (r: usize)
    requires
        i <= v@.len(),
    ensures
        r == spec_find_exp(v@, i as int),
        i <= r <= v@.len(),
    decreases v@.len() - i,
{
    if i == v.len() {
        v.len()
    } else if v[i] == 'e' || v[i] == 'E' {
        i
    } else {
        find_exp(v, i + 1)
    }
}

fn mantissa_ok(v: &Vec<char>, from: usize, to: usize) -> (r: bool)
    requires
        from <= to <= v@.len(),
    ensures
        r == spec_mantissa_ok(v@.subrange(from as int, to as int)),
{
    let ghost m = v@.subrange(from as int, to as int);
    let mut dot: usize = from;
    while dot < to && v[dot] != '.'
        invariant
            from <= dot <= to <= v@.len(),
            forall|k: int| from <= k < dot ==> v@[k] != '.',
        decreases to - dot,
    {
        dot = dot + 1;
    }
    proof {
        crate::strutil::lemma_find_from_bounds(m, '.', 0);
        let sd = crate::strutil::spec_find_from(m, '.', 0);
        assert(forall|k: int| 0 <= k < m.len() ==> m[k] == #[trigger] v@[from + k]);
        if dot < to {
            assert(m[dot - from] == '.');
            assert(sd == dot - from) by {
                assert(forall|k: int| 0 <= k < dot - from ==> m[k] != '.');
                if sd < dot - from {
                    assert(m[sd] == '.');
                }
            }
        } else {
            assert(sd == m.len()) by {
                if sd < m.len() {
                    assert(m[sd] == '.');
                }
            }
        }
    }
    if dot == to {
        let r = all_digits(v, from, to);
        proof {
            if r && to > from {
                assert(spec_is_digits(m));
            }
        }
        r && to > from
    } else {
        let a_ok = all_digits(v, from, dot);
        let b_ok = all_digits(v, dot + 1, to);
        proof {
            assert(m.subrange(0, dot - from) =~= v@.subrange(from as int, dot as int));
            assert(m.subrange(dot - from + 1, m.len() as int) =~= v@.subrange(
                dot + 1,
                to as int,
            ));
        }
        let a_nonempty = dot > from;
        let b_nonempty = to > dot + 1;
        (a_ok && b_ok && b_nonempty) || (a_ok && a_nonempty && b_ok)
    }
}

/// Whether `v` is a valid 64-bit float literal.
pub fn is_float_literal(v: &Vec<char>) -> (r: bool)
    ensures
        r == spec_is_float_lit(v@),
{
    let start: usize = if v.len() > 0 && (v[0] == '+' || v[0] == '-') {
        1
    } else {
        0
    };
    let ghost b = spec_strip_sign(v@);
    proof {
        assert(b =~= v@.subrange(start as int, v@.len() as int));
    }
    let body = crate::strutil::subrange_vec(v, start, v.len());
    let lb = lower_chars(&body);
    let inf = str_to_chars("inf");
    let infinity = str_to_chars("infinity");
    let nan = str_to_chars("nan");
    if chars_eq(&lb, &inf) || chars_eq(&lb, &infinity) || chars_eq(&lb, &nan) {
        return true;
    }
    let e = find_exp(&body, 0);
    if e == body.len() {
        let r = mantissa_ok(&body, 0, body.len());
        proof {
            assert(body@.subrange(0, body@.len() as int) =~= b);
        }
        r
    } else {
        let m_ok = mantissa_ok(&body, 0, e);
        let x_ok = exp_ok(&body, e + 1, body.len());
        proof {
            assert(body@.subrange(0, e as int) =~= b.subrange(0, e as int));
            assert(body@.subrange(e + 1, body@.len() as int) =~= b.subrange(
                e + 1,
                b.len() as int,
            ));
        }
        m_ok && x_ok
    }
}

fn exp_ok(v: &Vec<char>, from: usize, to: usize) -> (r: bool)
    requires
        from <= to <= v@.len(),
    ensures
        r == spec_exp_ok(v@.subrange(from as int, to as int)),
{
    let ghost e = v@.subrange(from as int, to as int);
    if from < to && (v[from] == '+' || v[from] == '-') {
        proof {
            assert(e[0] == v@[from as int]);
            assert(e.subrange(1, e.len() as int) =~= v@.subrange(from + 1, to as int));
        }
        let r = all_digits(v, from + 1, to);
        r && to > from + 1
    } else {
        proof {
            if from < to {
                assert(e[0] == v@[from as int]);
            }
        }
        let r = all_digits(v, from, to);
        r && to > from
    }
}

/// Whether `s` reads as a boolean: true/t/yes/y/1 or false/f/no/n/0,
/// in any letter case, after trimming.
pub open spec fn spec_parse_bool(s: Seq<char>) -> Option<bool> {
    let t = spec_lower(spec_trim(s));
    if t == "true"@ || t == "t"@ || t == "yes"@ || t == "y"@ || t == "1"@ {
        Some(true)
    } else if t == "false"@ || t == "f"@ || t == "no"@ || t == "n"@ || t == "0"@ {
        Some(false)
    } else {
        None
    }
}

pub fn parse_bool(input: &str) -> (r: Option<bool>)
    ensures
        r == spec_parse_bool(input@),
{
    let cs = str_to_chars(input);
    parse_bool_chars(&cs)
}

pub fn parse_bool_chars(cs: &Vec<char>) -> (r: Option<bool>)
    ensures
        r == spec_parse_bool(cs@),
{
    let t = lower_chars(&trim_chars(cs));
    if chars_eq(&t, &str_to_chars("true")) || chars_eq(&t, &str_to_chars("t")) || chars_eq(
        &t,
        &str_to_chars("yes"),
    ) || chars_eq(&t, &str_to_chars("y")) || chars_eq(&t, &str_to_chars("1")) {
        Some(true)
    } else if chars_eq(&t, &str_to_chars("false")) || chars_eq(&t, &str_to_chars("f")) || chars_eq(
        &t,
        &str_to_chars("no"),
    ) || chars_eq(&t, &str_to_chars("n")) || chars_eq(&t, &str_to_chars("0")) {
        Some(false)
    } else {
        None
    }
}

} // verus!

verus! {

/// Whether the field is marked required.
pub open spec fn spec_field_required(field: &Field) -> bool {
    field.required == Some(true)
}

/// The message listing the allowed values of a field with choices.
pub open spec fn spec_choices_msg(cs: Seq<Seq<char>>) -> Seq<char> {
    "Allowed values: "@ + spec_join(cs, ", "@)
}

/// Whether `raw` is one of the field's declared choices (or none are
/// declared).
pub open spec fn spec_choice_ok(field: &Field, raw: Seq<char>) -> bool {
    match field.choices {
        Some(cs) => exists|i: int| 0 <= i < cs.len() && cs.deep_view()[i] == raw,
        None => true,
    }
}

/// The type check applied to a non-empty value: numbers must be float
/// literals, booleans are canonicalized to "true"/"false", strings and
/// unknown kinds pass through unchanged.
pub open spec fn spec_kind_result(kind: Seq<char>, raw: Seq<char>) -> Result<
    Option<Seq<char>>,
    Seq<char>,
> {
    let k = spec_lower(kind);
    if k == "number"@ {
        if spec_is_float_lit(raw) {
            Ok(Some(raw))
        } else {
            Err("Enter a valid number"@)
        }
    } else if k == "bool"@ || k == "boolean"@ {
        match spec_parse_bool(raw) {
            Some(true) => Ok(Some("true"@)),
            Some(false) => Ok(Some("false"@)),
            None => Err("Enter true/false (or yes/no)"@),
        }
    } else {
        Ok(Some(raw))
    }
}

/// What `normalize_input` returns: trim the input; an empty input takes
/// the default if any, else fails when required, else is omitted; then
/// the value must be one of the declared choices; then the type check of
/// the declared kind applies.
pub open spec fn spec_normalize(field: &Field, input: Seq<char>) -> Result<
    Option<Seq<char>>,
    Seq<char>,
> {
    let t = spec_trim(input);
    if t.len() == 0 && field.default is None {
        if spec_field_required(field) {
            Err("Value required"@)
        } else {
            Ok(None)
        }
    } else {
        let raw = if t.len() == 0 {
            field.default->Some_0@
        } else {
            t
        };
        if !spec_choice_ok(field, raw) {
            Err(spec_choices_msg(field.choices->Some_0.deep_view()))
        } else {
            spec_kind_result(field.kind@, raw)
        }
    }
}

/// Correspondence between an executable result and its specification
/// value.
pub open spec fn res_matches(
    r: Result<Option<String>, String>,
    v: Result<Option<Seq<char>>, Seq<char>>,
) -> bool {
    match r {
        Ok(None) => v == Ok::<Option<Seq<char>>, Seq<char>>(None),
        Ok(Some(s)) => v == Ok::<Option<Seq<char>>, Seq<char>>(Some(s@)),
        Err(m) => v == Err::<Option<Seq<char>>, Seq<char>>(m@),
    }
}

/// Validate and normalize one user-supplied value against a field.
pub fn normalize_input(field: &Field, input: &str) -> (r: Result<Option<String>, String>)
    ensures
        res_matches(r, spec_normalize(field, input@)),
{
    let cs_input = str_to_chars(input);
    let t = trim_chars(&cs_input);
    let required = match field.required {
        Some(b) => b,
        None => false,
    };
    let raw: Vec<char> = if t.len() == 0 {
        match &field.default {
            Some(d) => str_to_chars(d.as_str()),
            None => {
                if required {
                    return Err(String::from_str("Value required"));
                } else {
                    return Ok(None);
                }
            },
        }
    } else {
        t
    };
    if let Some(cs) = &field.choices {
        let n = cs.len();
        let mut found = false;
        let mut i: usize = 0;
        while i < n
            invariant
                n == cs@.len(),
                i <= n,
                found == exists|k: int| 0 <= k < i && cs.deep_view()[k] == raw@,
            decreases n - i,
        {
            if chars_eq(&str_to_chars(cs[i].as_str()), &raw) {
                proof {
                    assert(cs.deep_view()[i as int] == raw@);
                }
                found = true;
            }
            i = i + 1;
        }
        if !found {
            let mut parts: Vec<Vec<char>> = Vec::new();
            let mut i: usize = 0;
            while i < n
                invariant
                    n == cs@.len(),
                    i <= n,
                    parts.deep_view() == cs.deep_view().take(i as int),
                decreases n - i,
            {
                let ghost prev = parts.deep_view();
                let part = str_to_chars(cs[i].as_str());
                proof {
                    assert(part@ == cs.deep_view()[i as int]);
                }
                parts.push(part);
                proof {
                    assert(parts.deep_view() =~~= prev.push(cs.deep_view()[i as int]));
                    assert(parts.deep_view() =~~= cs.deep_view().take(i + 1));
                }
                i = i + 1;
            }
            proof {
                assert(parts.deep_view() =~~= cs.deep_view());
            }
            let mut msg = str_to_chars("Allowed values: ");
            let joined = crate::strutil::join_chars(&parts, &str_to_chars(", "));
            append_chars(&mut msg, &joined);
            return Err(chars_to_string(&msg));
        }
    }
    let k = lower_chars(&str_to_chars(field.kind.as_str()));
    if chars_eq(&k, &str_to_chars("number")) {
        if is_float_literal(&raw) {
            Ok(Some(chars_to_string(&raw)))
        } else {
            Err(String::from_str("Enter a valid number"))
        }
    } else if chars_eq(&k, &str_to_chars("bool")) || chars_eq(&k, &str_to_chars("boolean")) {
        match parse_bool_chars(&raw) {
            Some(b) => {
                if b {
                    Ok(Some(String::from_str("true")))
                } else {
                    Ok(Some(String::from_str("false")))
                }
            },
            None => Err(String::from_str("Enter true/false (or yes/no)")),
        }
    } else {
        Ok(Some(chars_to_string(&raw)))
    }
}

/// A required field with no default rejects an input that trims to
/// nothing with the message "Value required".
pub proof fn lemma_required_empty_fails(field: &Field, input: Seq<char>)
    requires
        spec_field_required(field),
        field.default is None,
        spec_trim(input).len() == 0,
    ensures
        spec_normalize(field, input) == Err::<Option<Seq<char>>, Seq<char>>("Value required"@),
{
}

/// A field with a default returns that default for an input that trims
/// to nothing, whenever the default passes the field's own choice and
/// type checks and the kind is not boolean (booleans are canonicalized,
/// not returned verbatim).
pub proof fn lemma_default_used_for_empty(field: &Field, input: Seq<char>, d: String)
    requires
        field.default == Some(d),
        spec_trim(input).len() == 0,
        spec_choice_ok(field, d@),
        spec_lower(field.kind@) != "bool"@,
        spec_lower(field.kind@) != "boolean"@,
        spec_lower(field.kind@) == "number"@ ==> spec_is_float_lit(d@),
    ensures
        spec_normalize(field, input) == Ok::<Option<Seq<char>>, Seq<char>>(Some(d@)),
{
}

} // verus!
