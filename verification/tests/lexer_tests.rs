use qedc::lexer::Token;

#[test]
fn test_lex_keywords() {
    let mut lex = Token::lexer("type rel");
    assert_eq!(lex.next(), Some(Ok(Token::Type)));
    assert_eq!(lex.next(), Some(Ok(Token::Rel)));
}

#[test]
fn test_lex_identifiers() {
    let mut lex = Token::lexer("person Alice");
    assert_eq!(lex.next(), Some(Ok(Token::LowerId("person".to_string()))));
    assert_eq!(lex.next(), Some(Ok(Token::UpperId("Alice".to_string()))));
}

#[test]
fn test_lex_numbers() {
    let mut lex = Token::lexer("42 0 999");
    assert_eq!(lex.next(), Some(Ok(Token::Int(42))));
    assert_eq!(lex.next(), Some(Ok(Token::Int(0))));
    assert_eq!(lex.next(), Some(Ok(Token::Int(999))));
}

#[test]
fn test_lex_strings() {
    let mut lex = Token::lexer(r#""hello" "world""#);
    assert_eq!(lex.next(), Some(Ok(Token::String("hello".to_string()))));
    assert_eq!(lex.next(), Some(Ok(Token::String("world".to_string()))));
}

#[test]
fn test_lex_operators() {
    let mut lex = Token::lexer(":- ?- = == != < <= > >=");
    assert_eq!(lex.next(), Some(Ok(Token::ColonDash)));
    assert_eq!(lex.next(), Some(Ok(Token::QuestionDash)));
    assert_eq!(lex.next(), Some(Ok(Token::Eq)));
    assert_eq!(lex.next(), Some(Ok(Token::EqEq)));
    assert_eq!(lex.next(), Some(Ok(Token::Ne)));
    assert_eq!(lex.next(), Some(Ok(Token::Lt)));
    assert_eq!(lex.next(), Some(Ok(Token::Le)));
    assert_eq!(lex.next(), Some(Ok(Token::Gt)));
    assert_eq!(lex.next(), Some(Ok(Token::Ge)));
}

#[test]
fn test_skip_comments() {
    let mut lex = Token::lexer("type // comment\nrel /* block */ ×");
    assert_eq!(lex.next(), Some(Ok(Token::Type)));
    assert_eq!(lex.next(), Some(Ok(Token::Rel)));
    assert_eq!(lex.next(), Some(Ok(Token::Times)));
}

#[test]
fn test_lex_ends_with_none() {
    let mut lex = Token::lexer("  // only trivia\n/* here */  ");
    assert_eq!(lex.next(), None);
}

#[test]
fn test_lex_error_char() {
    let mut lex = Token::lexer("@ rel");
    assert_eq!(lex.next(), Some(Err(qedc::lexer::LexError)));
    assert_eq!(lex.next(), Some(Ok(Token::Rel)));
    assert_eq!(lex.next(), None);
}

#[test]
fn test_lex_number_overflow_is_error() {
    let mut lex = Token::lexer("99999999999999999999");
    assert_eq!(lex.next(), Some(Err(qedc::lexer::LexError)));
    assert_eq!(lex.next(), None);
}

#[test]
fn test_lex_keyword_prefix_is_identifier() {
    let mut lex = Token::lexer("types relx");
    assert_eq!(lex.next(), Some(Ok(Token::LowerId("types".to_string()))));
    assert_eq!(lex.next(), Some(Ok(Token::LowerId("relx".to_string()))));
}

#[test]
fn test_lex_string_keeps_escapes_raw() {
    let mut lex = Token::lexer(r#""a\nb""#);
    assert_eq!(lex.next(), Some(Ok(Token::String(r"a\nb".to_string()))));
}
