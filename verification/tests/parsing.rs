use minicc::lexer::lex;
use minicc::lexer::Token;
use minicc::parser::parse;
use minicc::parser::ASTExpression;
use minicc::parser::ASTRootNode;
use minicc::parser::ASTStatement;
use minicc::parser::ParseError;

fn tokens_of(source: &str) -> Vec<Token> {
    lex(source.to_string()).unwrap()
}

#[test]
fn parse_valid_program() {
    let ast = parse(tokens_of("int answer(void){return 42;}")).unwrap();
    let ASTRootNode::Program(function) = &ast;
    assert_eq!(function.name, "answer");
    let ASTStatement::Return(ASTExpression::Constant(value)) = &function.body;
    assert_eq!(*value, 42);
}

#[test]
fn parse_negative_is_not_an_expression() {
    // No negative literals exist at this scope: the minus sign is not a
    // recognized character at all.
    assert!(lex("int main(void){return -1;}".to_string()).is_err());
}

#[test]
fn parse_rejects_trailing_garbage() {
    let result = parse(tokens_of("int main(void){return 2;} int"));
    assert!(matches!(result, Err(ParseError::TrailingTokens)));
}

#[test]
fn parse_rejects_missing_open_brace() {
    let result = parse(tokens_of("int main(void) return 2; }"));
    match result {
        Err(ParseError::UnexpectedToken { expected, actual }) => {
            assert_eq!(expected, Token::OpenBrace);
            assert_eq!(actual, Token::Return);
        }
        other => panic!("expected a token mismatch, got {:?}", other),
    }
}

#[test]
fn parse_mismatch_message_names_the_expected_token() {
    let error = parse(tokens_of("int main(void) return 2; }")).unwrap_err();
    assert_eq!(error.describe(), "Syntax error : expected OpenBrace, got Return");
}

#[test]
fn parse_rejects_missing_identifier() {
    let result = parse(tokens_of("int 3(void){return 2;}"));
    match result {
        Err(ParseError::ExpectedIdentifier { actual }) => {
            assert_eq!(actual, Token::Constant(3));
        }
        other => panic!("expected a missing identifier, got {:?}", other),
    }
}

#[test]
fn parse_rejects_missing_expression() {
    let result = parse(tokens_of("int main(void){return;}"));
    match result {
        Err(ParseError::ExpectedExpression { actual }) => {
            assert_eq!(actual, Token::Semicolon);
        }
        other => panic!("expected a missing expression, got {:?}", other),
    }
}

#[test]
fn parse_rejects_truncated_program() {
    let result = parse(tokens_of("int main("));
    assert!(matches!(result, Err(ParseError::UnexpectedEndOfInput)));
}

#[test]
fn parse_rejects_empty_input() {
    let result = parse(Vec::new());
    assert!(matches!(result, Err(ParseError::UnexpectedEndOfInput)));
}

#[test]
fn parse_rejects_keyword_as_name() {
    let result = parse(tokens_of("int void(void){return 2;}"));
    match result {
        Err(ParseError::ExpectedIdentifier { actual }) => {
            assert_eq!(actual, Token::Void);
        }
        other => panic!("expected a missing identifier, got {:?}", other),
    }
}

#[test]
fn parse_error_messages() {
    let trailing = parse(tokens_of("int main(void){return 2;} int")).unwrap_err();
    assert_eq!(
        trailing.describe(),
        "Syntax error : extra stuff after the top-level construct"
    );
    let truncated = parse(tokens_of("int main(")).unwrap_err();
    assert_eq!(truncated.describe(), "Syntax error : unexpected end of input");
    let not_identifier = parse(tokens_of("int 3(void){return 2;}")).unwrap_err();
    assert_eq!(
        not_identifier.describe(),
        "Syntax error : expected identifier, got Constant(3)"
    );
    let not_expression = parse(tokens_of("int main(void){return main;}")).unwrap_err();
    assert_eq!(
        not_expression.describe(),
        "Syntax error : expected expression, got Identifier(\"main\")"
    );
}
