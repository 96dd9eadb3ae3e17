use wrapperize::env::Variable;
use wrapperize::error::WrapError;

#[test]
fn is_valid_name() {
    assert_eq!(Variable::is_valid_name("HELLO"), true);
    assert_eq!(Variable::is_valid_name("hello"), true);
    assert_eq!(Variable::is_valid_name("_HELLO"), true);
    assert_eq!(Variable::is_valid_name("HELLO1"), true);
    assert_eq!(Variable::is_valid_name("HELLO1_WORLD"), true);
    assert_eq!(Variable::is_valid_name("____"), true);

    assert_eq!(Variable::is_valid_name(""), false);
    assert_eq!(Variable::is_valid_name("1HELLO"), false);
    assert_eq!(Variable::is_valid_name("@HELLO"), false);
    assert_eq!(Variable::is_valid_name("HELL@"), false);
}

#[test]
fn write_bash_line() {
    let env = Variable::new("TEST", "value");

    let mut buffer = String::new();
    env.write_bash_line(&mut buffer)
        .expect("write bash line should succeed");

    assert_eq!(buffer, "export TEST=\"value\"\n")
}

#[test]
fn bash_lines_are_quote_escaped() {
    let env = Variable::new("TEST", "value \"with\" quotes");

    let mut buffer = String::new();
    env.write_bash_line(&mut buffer)
        .expect("write bash line should succeed");

    assert_eq!(buffer, "export TEST=\"value \\\"with\\\" quotes\"\n")
}

#[test]
fn parse_from_str_succeeds() {
    let env = Variable::parse("ENV=value").expect("env parsing should succeed");
    assert_eq!(env, Variable::new("ENV", "value"));
}

#[test]
fn parse_from_str_without_sep_fails() {
    assert!(Variable::parse("ENVvalue").is_err());
}

#[test]
fn parse_without_sep_reports_missing_separator() {
    assert_eq!(Variable::parse("ENVvalue"), Err(WrapError::MissingSeparator));
}

#[test]
fn parse_with_bad_name_reports_invalid_name() {
    assert_eq!(Variable::parse("1BAD=x"), Err(WrapError::InvalidVariableName));
    assert_eq!(Variable::parse("=x"), Err(WrapError::InvalidVariableName));
    assert_eq!(Variable::parse("A B=x"), Err(WrapError::InvalidVariableName));
}

#[test]
fn parse_splits_at_first_separator() {
    let env = Variable::parse("A=b=c").expect("env parsing should succeed");
    assert_eq!(env, Variable::new("A", "b=c"));
}

#[test]
fn parse_keeps_empty_value() {
    let env = Variable::parse("EMPTY=").expect("env parsing should succeed");
    assert_eq!(env, Variable::new("EMPTY", ""));
}

#[test]
fn bash_lines_escape_control_and_high_bytes() {
    let env = Variable::new("T", "a\nb\tc\\d");
    let mut buffer = String::new();
    env.write_bash_line(&mut buffer)
        .expect("write bash line should succeed");
    assert_eq!(buffer, "export T=\"a\\nb\\tc\\\\d\"\n");

    let env = Variable::new("T", "caf\u{e9}");
    let mut buffer = String::new();
    env.write_bash_line(&mut buffer)
        .expect("write bash line should succeed");
    assert_eq!(buffer, "export T=\"caf\\xc3\\xa9\"\n");
}

#[test]
fn into_owned_keeps_name_and_value() {
    let env = Variable::new("NAME", "value");
    let owned = env.into_owned();
    assert_eq!(owned, Variable::new("NAME", "value"));
}
