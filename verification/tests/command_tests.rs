use std::str::FromStr;

use lexer::command::CommandType;

#[test]
fn tokenize_is_the_only_command() {
    assert_eq!(CommandType::from_str("tokenize"), Ok(CommandType::Tokenize));
    assert_eq!(CommandType::parse("tokenize"), Ok(CommandType::Tokenize));
    assert!(CommandType::from_str("parse").is_err());
    assert!(CommandType::from_str("").is_err());
    assert!(CommandType::from_str("Tokenize").is_err());
}
