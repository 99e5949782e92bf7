use lexer::scanner::{ScanErrorKind, Scanner, scan_token};
use lexer::token::TokenType;

#[test]
fn test_scanner_new() {
    let scanner = Scanner::new("(){".to_string());
    assert_eq!(scanner.source, "(){");
    assert_eq!(scanner.source_len, 3);
    assert_eq!(scanner.tokens, vec![]);
    assert_eq!(scanner.start, 0);
    assert_eq!(scanner.current, 0);
    assert_eq!(scanner.line, 1);
    assert_eq!(scanner.had_error, false);
    assert_eq!(scanner.keywords, Scanner::init_keywords());
}

#[test]
fn test_scan_token_number_with_dots() {
    let file_contents = "1234.1234.1234.";
    let (result, token_output_string) = scan_token(file_contents);
    println!("{}", token_output_string);
    let expected_output_token_string =
        "NUMBER 1234.1234 1234.1234\nDOT . null\nNUMBER 1234 1234.0\nDOT . null\nEOF  null";
    assert_eq!(result, 0);
    assert_eq!(token_output_string, expected_output_token_string);
}

#[test]
fn whitespace_only_scans_to_end_marker() {
    for src in ["", " ", "\t", " \t ", "\n", " \n\t\n  "] {
        let (result, out) = scan_token(src);
        assert_eq!(result, 0);
        assert_eq!(out, "EOF  null");
    }
}

#[test]
fn single_punctuation_tokens() {
    let cases = vec![
        ("(", "LEFT_PAREN"),
        (")", "RIGHT_PAREN"),
        ("{", "LEFT_BRACE"),
        ("}", "RIGHT_BRACE"),
        (",", "COMMA"),
        (".", "DOT"),
        ("-", "MINUS"),
        ("+", "PLUS"),
        (";", "SEMICOLON"),
        ("*", "STAR"),
        ("/", "SLASH"),
        ("=", "EQUAL"),
        ("!", "BANG"),
        ("<", "LESS"),
        (">", "GREATER"),
    ];
    for (src, name) in cases {
        let (result, out) = scan_token(src);
        assert_eq!(result, 0);
        assert_eq!(out, format!("{} {} null\nEOF  null", name, src));
    }
}

#[test]
fn maximal_munch_two_char_operators() {
    let (result, out) = scan_token("!=");
    assert_eq!(result, 0);
    assert_eq!(out, "BANG_EQUAL != null\nEOF  null");
    let cases = vec![
        ("==", "EQUAL_EQUAL"),
        ("<=", "LESS_EQUAL"),
        (">=", "GREATER_EQUAL"),
    ];
    for (src, name) in cases {
        let (result, out) = scan_token(src);
        assert_eq!(result, 0);
        assert_eq!(out, format!("{} {} null\nEOF  null", name, src));
    }
    let (result, out) = scan_token("=<=!");
    assert_eq!(result, 0);
    assert_eq!(out, "EQUAL = null\nLESS_EQUAL <= null\nBANG ! null\nEOF  null");
}

#[test]
fn keyword_versus_identifier() {
    let (result, out) = scan_token("or");
    assert_eq!(result, 0);
    assert_eq!(out, "OR or null\nEOF  null");
    let (result, out) = scan_token("orange");
    assert_eq!(result, 0);
    assert_eq!(out, "IDENTIFIER orange null\nEOF  null");
    let (result, out) = scan_token("forest");
    assert_eq!(result, 0);
    assert_eq!(out, "IDENTIFIER forest null\nEOF  null");
}

#[test]
fn all_keywords_are_recognized() {
    let cases = vec![
        ("and", "AND"),
        ("class", "CLASS"),
        ("else", "ELSE"),
        ("false", "FALSE"),
        ("fun", "FUN"),
        ("for", "FOR"),
        ("if", "IF"),
        ("nil", "NIL"),
        ("or", "OR"),
        ("print", "PRINT"),
        ("return", "RETURN"),
        ("super", "SUPER"),
        ("this", "THIS"),
        ("true", "TRUE"),
        ("var", "VAR"),
        ("while", "WHILE"),
    ];
    for (src, name) in cases {
        let (result, out) = scan_token(src);
        assert_eq!(result, 0);
        assert_eq!(out, format!("{} {} null\nEOF  null", name, src));
    }
}

#[test]
fn identifiers_may_hold_digits_and_underscores() {
    let (result, out) = scan_token("a_1b");
    assert_eq!(result, 0);
    assert_eq!(out, "IDENTIFIER a_1b null\nEOF  null");
}

#[test]
fn unterminated_string_is_a_diagnostic() {
    let mut scanner = Scanner::new("\"abc".to_string());
    scanner.scan_tokens();
    assert!(scanner.had_error);
    assert_eq!(scanner.errors.len(), 1);
    assert_eq!(scanner.errors[0].line, 1);
    assert_eq!(scanner.errors[0].kind, ScanErrorKind::UnterminatedString);
    assert_eq!(
        scanner.errors[0].render(),
        "[line 1] Error: Unterminated string."
    );
    // no string token is emitted for the failed attempt
    assert_eq!(scanner.tokens.len(), 1);
    assert_eq!(scanner.tokens[0].token_type, TokenType::Eof);
}

#[test]
fn unterminated_string_reports_the_line_reached() {
    let mut scanner = Scanner::new("\"a\nb".to_string());
    scanner.scan_tokens();
    assert!(scanner.had_error);
    assert_eq!(
        scanner.errors[0].render(),
        "[line 2] Error: Unterminated string."
    );
}

#[test]
fn closed_string_token() {
    let (result, out) = scan_token("\"hi\"");
    assert_eq!(result, 0);
    assert_eq!(out, "STRING_LITERAL \"hi\" hi\nEOF  null");
}

#[test]
fn unexpected_character_is_a_diagnostic() {
    let mut scanner = Scanner::new("@".to_string());
    scanner.scan_tokens();
    assert!(scanner.had_error);
    assert_eq!(scanner.errors.len(), 1);
    assert_eq!(
        scanner.errors[0].render(),
        "[line 1] Error: Unexpected character: @."
    );
    // the scan still reaches and emits the end-marker
    assert_eq!(scanner.tokens.len(), 1);
    assert_eq!(scanner.tokens[0].token_type, TokenType::Eof);
    let (result, out) = scan_token("@");
    assert_eq!(result, 65);
    assert_eq!(out, "EOF  null");
}

#[test]
fn every_unexpected_character_is_reported() {
    let mut scanner = Scanner::new("#$%".to_string());
    scanner.scan_tokens();
    assert!(scanner.had_error);
    assert_eq!(scanner.errors.len(), 3);
    assert_eq!(
        scanner.errors[0].render(),
        "[line 1] Error: Unexpected character: #."
    );
    assert_eq!(
        scanner.errors[1].render(),
        "[line 1] Error: Unexpected character: $."
    );
    assert_eq!(
        scanner.errors[2].render(),
        "[line 1] Error: Unexpected character: %."
    );
}

#[test]
fn underscore_does_not_start_an_identifier() {
    let mut scanner = Scanner::new("_".to_string());
    scanner.scan_tokens();
    assert!(scanner.had_error);
    assert_eq!(
        scanner.errors[0].render(),
        "[line 1] Error: Unexpected character: _."
    );
}

#[test]
fn newline_in_string_advances_line_for_later_diagnostics() {
    let mut scanner = Scanner::new("\"a\nb\"\n@".to_string());
    scanner.scan_tokens();
    assert!(scanner.had_error);
    assert_eq!(scanner.errors.len(), 1);
    assert_eq!(
        scanner.errors[0].render(),
        "[line 3] Error: Unexpected character: @."
    );
    // the string token itself is attributed to the line where it started
    assert_eq!(
        scanner.tokens[0].token_type,
        TokenType::StringLiteral("a\nb".to_string())
    );
    assert_eq!(scanner.tokens[0].lexeme, "\"a\nb\"");
    assert_eq!(scanner.tokens[0].line, 1);
}

#[test]
fn comments_are_skipped() {
    let (result, out) = scan_token("// comment\n(");
    assert_eq!(result, 0);
    assert_eq!(out, "LEFT_PAREN ( null\nEOF  null");
    let (result, out) = scan_token("// only a comment");
    assert_eq!(result, 0);
    assert_eq!(out, "EOF  null");
}

#[test]
fn comment_newline_advances_the_line() {
    let mut scanner = Scanner::new("// note\n@".to_string());
    scanner.scan_tokens();
    assert_eq!(
        scanner.errors[0].render(),
        "[line 2] Error: Unexpected character: @."
    );
}

#[test]
fn tokens_record_their_starting_line() {
    let mut scanner = Scanner::new("(\n)".to_string());
    scanner.scan_tokens();
    assert!(!scanner.had_error);
    assert_eq!(scanner.tokens.len(), 3);
    assert_eq!(scanner.tokens[0].line, 1);
    assert_eq!(scanner.tokens[1].line, 2);
    assert_eq!(scanner.tokens[2].token_type, TokenType::Eof);
}

#[test]
fn multi_digit_line_numbers_render_in_decimal() {
    let source = format!("{}@", "\n".repeat(12));
    let mut scanner = Scanner::new(source);
    scanner.scan_tokens();
    assert_eq!(
        scanner.errors[0].render(),
        "[line 13] Error: Unexpected character: @."
    );
}

#[test]
fn a_small_statement_scans_fully() {
    let (result, out) = scan_token("var x = 1;");
    assert_eq!(result, 0);
    assert_eq!(
        out,
        "VAR var null\nIDENTIFIER x null\nEQUAL = null\nNUMBER 1 1.0\nSEMICOLON ; null\nEOF  null"
    );
}

#[test]
fn errors_do_not_stop_the_scan() {
    let (result, out) = scan_token("(@)");
    assert_eq!(result, 65);
    assert_eq!(out, "LEFT_PAREN ( null\nRIGHT_PAREN ) null\nEOF  null");
}

#[test]
fn number_terminates_before_lone_trailing_dot() {
    let (result, out) = scan_token("1234.");
    assert_eq!(result, 0);
    assert_eq!(out, "NUMBER 1234 1234.0\nDOT . null\nEOF  null");
}
