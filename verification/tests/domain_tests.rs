use omakure::domain::{normalize_input, parse_bool, Field};
use omakure::session::build_args;

fn field(name: &str, kind: &str, required: Option<bool>, default: Option<&str>, choices: Option<Vec<&str>>) -> Field {
    Field {
        name: name.to_string(),
        prompt: None,
        kind: kind.to_string(),
        order: 1,
        required,
        default: default.map(|d| d.to_string()),
        choices: choices.map(|cs| cs.into_iter().map(|c| c.to_string()).collect()),
        arg: None,
    }
}

#[test]
fn required_without_default_fails_on_empty() {
    let f = field("target", "string", Some(true), None, None);
    assert_eq!(normalize_input(&f, ""), Err("Value required".to_string()));
    assert_eq!(normalize_input(&f, "   "), Err("Value required".to_string()));
}

#[test]
fn default_is_used_for_empty_input() {
    let f = field("target", "string", Some(true), Some("fallback"), None);
    assert_eq!(normalize_input(&f, ""), Ok(Some("fallback".to_string())));
}

#[test]
fn optional_empty_input_is_omitted() {
    let f = field("target", "string", Some(false), None, None);
    assert_eq!(normalize_input(&f, ""), Ok(None));
    let g = field("target", "string", None, None, None);
    assert_eq!(normalize_input(&g, "  "), Ok(None));
}

#[test]
fn number_kind_validates() {
    let f = field("count", "number", Some(true), None, None);
    assert_eq!(normalize_input(&f, "12.5"), Ok(Some("12.5".to_string())));
    assert_eq!(normalize_input(&f, "-3e4"), Ok(Some("-3e4".to_string())));
    assert_eq!(normalize_input(&f, "abc"), Err("Enter a valid number".to_string()));
    // a numeric default that does not read as a number still fails
    let g = field("count", "number", Some(true), Some("abc"), None);
    assert_eq!(normalize_input(&g, ""), Err("Enter a valid number".to_string()));
}

#[test]
fn bool_kind_canonicalizes() {
    let f = field("force", "bool", None, None, None);
    assert_eq!(normalize_input(&f, "yes"), Ok(Some("true".to_string())));
    assert_eq!(normalize_input(&f, "Y"), Ok(Some("true".to_string())));
    assert_eq!(normalize_input(&f, "0"), Ok(Some("false".to_string())));
    assert_eq!(normalize_input(&f, "NO"), Ok(Some("false".to_string())));
    assert_eq!(
        normalize_input(&f, "maybe"),
        Err("Enter true/false (or yes/no)".to_string())
    );
    let g = field("force", "boolean", None, None, None);
    assert_eq!(normalize_input(&g, "t"), Ok(Some("true".to_string())));
}

#[test]
fn choices_must_match_exactly() {
    let f = field("env", "string", None, None, Some(vec!["dev", "prod"]));
    assert_eq!(normalize_input(&f, "dev"), Ok(Some("dev".to_string())));
    assert_eq!(
        normalize_input(&f, "stage"),
        Err("Allowed values: dev, prod".to_string())
    );
}

#[test]
fn unknown_kind_passes_through() {
    let f = field("blob", "mystery", None, None, None);
    assert_eq!(normalize_input(&f, " text "), Ok(Some("text".to_string())));
}

#[test]
fn parse_bool_accepts_both_word_sets() {
    assert_eq!(parse_bool(" True "), Some(true));
    assert_eq!(parse_bool("f"), Some(false));
    assert_eq!(parse_bool("2"), None);
}

#[test]
fn submitting_bool_yes_yields_canonical_args() {
    let f = field("force", "bool", Some(false), None, None);
    let fields = vec![f];
    let inputs = vec!["yes".to_string()];
    assert_eq!(
        build_args(&fields, &inputs),
        Ok(vec!["--force".to_string(), "true".to_string()])
    );
    let empty = vec!["".to_string()];
    assert_eq!(build_args(&fields, &empty), Ok(Vec::<String>::new()));
}

#[test]
fn args_follow_declared_order_and_arg_names() {
    let mut a = field("beta", "string", None, None, None);
    a.order = 2;
    let mut b = field("Alpha", "string", None, None, None);
    b.order = 1;
    b.arg = Some("-a".to_string());
    let fields = vec![b, a];
    let inputs = vec!["one".to_string(), "two".to_string()];
    assert_eq!(
        build_args(&fields, &inputs),
        Ok(vec![
            "-a".to_string(),
            "one".to_string(),
            "--beta".to_string(),
            "two".to_string()
        ])
    );
}

#[test]
fn first_failing_field_aborts_submission() {
    let a = field("count", "number", Some(true), None, None);
    let b = field("other", "string", Some(true), None, None);
    let fields = vec![a, b];
    let inputs = vec!["x".to_string(), "".to_string()];
    assert_eq!(
        build_args(&fields, &inputs),
        Err((0usize, "Enter a valid number".to_string()))
    );
}
