use lexer::token::{Token, TokenType};

#[test]
fn test_display_token_type() {
    assert_eq!(TokenType::LeftParen.name(), "LEFT_PAREN");
    assert_eq!(TokenType::RightParen.name(), "RIGHT_PAREN");
    assert_eq!(TokenType::StringLiteral("s".to_string()).name(), "STRING_LITERAL");
}

#[test]
fn test_display_token() {
    let token = Token::new(TokenType::LeftParen, "(".to_string(), 1);
    assert_eq!(token.render(), "LEFT_PAREN ( null");
    assert_eq!(
        Token::new(TokenType::StringLiteral("hello".to_string()), "hello".to_string(), 1).render(),
        "STRING_LITERAL hello hello"
    );
    // test for number
    assert_eq!(
        Token::new(TokenType::Number("1".to_string()), "1".to_string(), 1).render(),
        "NUMBER 1 1.0"
    );
}

#[test]
fn number_rendering_normalizes_decimals() {
    let cases = vec![
        ("1234.1234", "1234.1234"),
        ("123.400", "123.4"),
        ("123.000", "123.0"),
        ("0.5", "0.5"),
        ("007", "7.0"),
        ("000", "0.0"),
        ("42", "42.0"),
        ("00.50", "0.5"),
    ];
    for (text, rendered) in cases {
        let t = Token::new(TokenType::Number(text.to_string()), text.to_string(), 1);
        assert_eq!(t.render(), format!("NUMBER {} {}", text, rendered));
    }
}

#[test]
fn nonliteral_kinds_render_null() {
    let kinds = vec![
        TokenType::LeftParen,
        TokenType::RightParen,
        TokenType::LeftBrace,
        TokenType::RightBrace,
        TokenType::Comma,
        TokenType::Dot,
        TokenType::Minus,
        TokenType::Plus,
        TokenType::Semicolon,
        TokenType::Slash,
        TokenType::Star,
        TokenType::Bang,
        TokenType::BangEqual,
        TokenType::Equal,
        TokenType::EqualEqual,
        TokenType::Greater,
        TokenType::GreaterEqual,
        TokenType::Less,
        TokenType::LessEqual,
        TokenType::Identifier,
        TokenType::And,
        TokenType::Class,
        TokenType::Else,
        TokenType::False,
        TokenType::Fun,
        TokenType::For,
        TokenType::If,
        TokenType::Nil,
        TokenType::Or,
        TokenType::Print,
        TokenType::Return,
        TokenType::Super,
        TokenType::This,
        TokenType::True,
        TokenType::Var,
        TokenType::While,
        TokenType::Eof,
    ];
    for kind in kinds {
        let name = kind.name();
        let t = Token::new(kind, "x".to_string(), 1);
        let rendered = t.render();
        assert_eq!(rendered, format!("{} x null", name));
        assert!(rendered.ends_with(" null"));
    }
}

#[test]
fn string_and_number_kinds_render_their_payload() {
    let s = Token::new(
        TokenType::StringLiteral("a b".to_string()),
        "\"a b\"".to_string(),
        1,
    );
    assert_eq!(s.render(), "STRING_LITERAL \"a b\" a b");
    let n = Token::new(TokenType::Number("8.10".to_string()), "8.10".to_string(), 3);
    assert_eq!(n.render(), "NUMBER 8.10 8.1");
}
