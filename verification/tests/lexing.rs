use minicc::lexer::lex;
use minicc::lexer::LexError;
use minicc::lexer::Token;

#[test]
fn lex_empty_input() {
    assert_eq!(lex("".to_string()).unwrap(), Vec::<Token>::new());
}

#[test]
fn lex_whitespace_only() {
    assert_eq!(lex(" \t\r\n ".to_string()).unwrap(), Vec::<Token>::new());
}

#[test]
fn lex_keywords_and_punctuation() {
    let tokens = lex("int void return ( ) { } ;".to_string()).unwrap();
    let expected = vec![
        Token::Int,
        Token::Void,
        Token::Return,
        Token::OpenParenthesis,
        Token::CloseParenthesis,
        Token::OpenBrace,
        Token::CloseBrace,
        Token::Semicolon,
    ];
    assert_eq!(tokens, expected);
}

#[test]
fn lex_keyword_prefix_is_identifier() {
    let tokens = lex("intx voidy returned".to_string()).unwrap();
    let expected = vec![
        Token::Identifier("intx".to_string()),
        Token::Identifier("voidy".to_string()),
        Token::Identifier("returned".to_string()),
    ];
    assert_eq!(tokens, expected);
}

#[test]
fn lex_identifier_with_digits_and_underscores() {
    let tokens = lex("_a1_b2".to_string()).unwrap();
    assert_eq!(tokens, vec![Token::Identifier("_a1_b2".to_string())]);
}

#[test]
fn lex_constant_with_leading_zeros() {
    let tokens = lex("007".to_string()).unwrap();
    assert_eq!(tokens, vec![Token::Constant(7)]);
}

#[test]
fn lex_adjacent_punctuation_without_whitespace() {
    let tokens = lex("){;}(".to_string()).unwrap();
    let expected = vec![
        Token::CloseParenthesis,
        Token::OpenBrace,
        Token::Semicolon,
        Token::CloseBrace,
        Token::OpenParenthesis,
    ];
    assert_eq!(tokens, expected);
}

#[test]
fn lex_constant_then_underscore_is_two_tokens() {
    // An underscore is not a letter, so it ends the digit run without
    // making the constant malformed.
    let tokens = lex("1_a".to_string()).unwrap();
    assert_eq!(tokens, vec![Token::Constant(1), Token::Identifier("_a".to_string())]);
}

#[test]
fn lex_rejects_malformed_identifier() {
    let result = lex("1abc".to_string());
    assert!(matches!(result, Err(LexError::MalformedConstant { position: 0 })));
}

#[test]
fn lex_rejects_malformed_identifier_inside_program() {
    let result = lex("int main(void){return 1abc;}".to_string());
    assert!(matches!(result, Err(LexError::MalformedConstant { position: 22 })));
}

#[test]
fn lex_rejects_unknown_character() {
    let result = lex("int $x".to_string());
    assert!(matches!(
        result,
        Err(LexError::UnknownCharacter { character: '$', position: 4 })
    ));
}

#[test]
fn lex_largest_constant_fits() {
    let tokens = lex("2147483647".to_string()).unwrap();
    assert_eq!(tokens, vec![Token::Constant(2147483647)]);
}

#[test]
fn lex_rejects_constant_out_of_range() {
    let result = lex("2147483648".to_string());
    assert!(matches!(result, Err(LexError::ConstantOutOfRange { position: 0 })));
}

#[test]
fn lex_rejects_huge_constant() {
    let result = lex("999999999999999999999999".to_string());
    assert!(matches!(result, Err(LexError::ConstantOutOfRange { position: 0 })));
}

#[test]
fn lex_error_messages() {
    let unknown = lex("@".to_string()).unwrap_err();
    assert_eq!(unknown.describe(), "Unknown character '@' at 0.");
    let malformed = lex("1abc".to_string()).unwrap_err();
    assert_eq!(malformed.describe(), "identifiers can't start with numbers !");
    let out_of_range = lex("  2147483648".to_string()).unwrap_err();
    assert_eq!(
        out_of_range.describe(),
        "integer constant does not fit in 32 bits at 2."
    );
}

#[test]
fn token_equality_distinguishes_payloads() {
    assert_eq!(Token::Identifier("a".to_string()), Token::Identifier("a".to_string()));
    assert_ne!(Token::Identifier("a".to_string()), Token::Identifier("b".to_string()));
    assert_ne!(Token::Constant(1), Token::Constant(2));
    assert_ne!(Token::Int, Token::Identifier("int".to_string()));
}
