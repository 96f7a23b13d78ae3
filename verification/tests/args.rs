use confluence_updater::args::validate_no_quotes;

#[test]
fn validate_no_quotes_trims_the_value() {
    assert_eq!(validate_no_quotes("  value \n"), Ok("value".to_string()));
    assert_eq!(validate_no_quotes(""), Ok(String::new()));
    assert_eq!(validate_no_quotes("a\"b"), Ok("a\"b".to_string()));
    assert_eq!(validate_no_quotes("\"open"), Ok("\"open".to_string()));
}

#[test]
fn validate_no_quotes_refuses_quoted_values() {
    let refused = Err("Value must not be quoted, remove the quotes.".to_string());
    assert_eq!(validate_no_quotes("\"value\""), refused);
    assert_eq!(validate_no_quotes("'value'"), refused);
    assert_eq!(validate_no_quotes("  'value' "), refused);
    assert_eq!(validate_no_quotes("\""), refused);
}
