use vsl_cli::words::split_with_quotes;

#[test]
fn test_basic_splitting() {
    let result = split_with_quotes("hello world");
    assert_eq!(result, vec!["hello", "world"]);
}

#[test]
fn test_quoted_strings() {
    let result = split_with_quotes("hello 'world test' end");
    assert_eq!(result, vec!["hello", "world test", "end"]);
}

#[test]
fn test_multiple_quotes() {
    let result = split_with_quotes("'first quote' 'second quote'");
    assert_eq!(result, vec!["first quote", "second quote"]);
}

#[test]
fn test_whitespace_handling() {
    let result = split_with_quotes("'  spaced  content  '");
    assert_eq!(result, vec!["  spaced  content  "]);
}

#[test]
fn test_empty_quotes() {
    let result = split_with_quotes("before '' after");
    assert_eq!(result, vec!["before", "", "after"]);
}

#[test]
fn test_arg_eq_quotes() {
    let result = split_with_quotes("before --key='val1 val2' after");
    assert_eq!(result, vec!["before", "--key='val1 val2'", "after"]);
}

#[test]
fn test_empty_arg_eq_quotes() {
    let result = split_with_quotes("before --key='' after");
    assert_eq!(result, vec!["before", "--key=''", "after"]);
}

#[test]
fn test_spaced_arg_eq_quotes() {
    let result = split_with_quotes("before --key='   val1   val2   ' after");
    assert_eq!(result, vec!["before", "--key='   val1   val2   '", "after"]);
}

#[test]
fn split_empty_input_gives_no_words() {
    assert!(split_with_quotes("").is_empty());
    assert!(split_with_quotes("   \t  ").is_empty());
}

#[test]
fn split_unclosed_value_quote_is_trimmed() {
    let result = split_with_quotes("--key='a b ");
    assert_eq!(result, vec!["--key='a b"]);
}

#[test]
fn split_tabs_outside_quotes_are_dropped() {
    let result = split_with_quotes("a\tb c");
    assert_eq!(result, vec!["ab", "c"]);
}
