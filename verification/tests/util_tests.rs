use omakure::util::ps_quote;

#[test]
fn test_ps_quote_simple() {
    assert_eq!(ps_quote("hello"), "'hello'");
}

#[test]
fn test_ps_quote_with_single_quote() {
    assert_eq!(ps_quote("it's"), "'it''s'");
}

#[test]
fn test_ps_quote_empty() {
    assert_eq!(ps_quote(""), "''");
}
