//! Syntactic analysis: recursive descent over the token sequence, one rule
//! function per grammar nonterminal, sharing one cursor. Each rule is proved
//! against a spec rule of the same shape; `parse` returns exactly what the
//! `spec_parse` model says, tree for tree and error for error.
//!
//! Grammar:
//! ```text
//! Program    := Function            (and no tokens may remain)
//! Function   := "int" Identifier "(" "void" ")" "{" Statement "}"
//! Statement  := "return" Expression ";"
//! Expression := Constant
//! ```

use vstd::prelude::*;

use crate::lexer::Token;
use crate::lexer::TokenView;
use crate::lexer::token_text;
use crate::lexer::token_views;
use vstd::string::StringExecFns;

verus! {

/// The root of the syntactic tree: a whole program.
#[derive(Debug)]
pub enum ASTRootNode {
    Program(ASTFunction),
}

/// A function definition: a name and a single body statement.
#[derive(Debug)]
pub struct ASTFunction {
    pub name: String,
    pub body: ASTStatement,
}

/// A statement; only the return form exists at this scope.
#[derive(Debug)]
pub enum ASTStatement {
    Return(ASTExpression),
}

/// An expression; only the integer constant form exists at this scope.
#[derive(Debug)]
pub enum ASTExpression {
    Constant(i32),
}

/// The model of a program tree.
pub enum ASTRootNodeView {
    Program(ASTFunctionView),
}

/// The model of a function definition.
pub struct ASTFunctionView {
    pub name: Seq<char>,
    pub body: ASTStatementView,
}

/// The model of a statement.
pub enum ASTStatementView {
    Return(ASTExpressionView),
}

/// The model of an expression.
pub enum ASTExpressionView {
    Constant(i32),
}

impl View for ASTExpression {
    type V = ASTExpressionView;

    open spec fn view(&self) -> ASTExpressionView {
        match self {
            ASTExpression::Constant(v) => ASTExpressionView::Constant(*v),
        }
    }
}

impl View for ASTStatement {
    type V = ASTStatementView;

    open spec fn view(&self) -> ASTStatementView {
        match self {
            ASTStatement::Return(e) => ASTStatementView::Return(e@),
        }
    }
}

impl View for ASTFunction {
    type V = ASTFunctionView;

    open spec fn view(&self) -> ASTFunctionView {
        ASTFunctionView { name: self.name@, body: self.body@ }
    }
}

impl View for ASTRootNode {
    type V = ASTRootNodeView;

    open spec fn view(&self) -> ASTRootNodeView {
        match self {
            ASTRootNode::Program(f) => ASTRootNodeView::Program(f@),
        }
    }
}

/// A fatal syntax error.
#[derive(Debug)]
pub enum ParseError {
    /// The current token is not the one the active rule demands.
    UnexpectedToken { expected: Token, actual: Token },
    /// An identifier was demanded and something else stood there.
    ExpectedIdentifier { actual: Token },
    /// An expression was demanded and something else stood there.
    ExpectedExpression { actual: Token },
    /// The token sequence ended while a rule still demanded a token.
    UnexpectedEndOfInput,
    /// Tokens remain after the top-level program is complete.
    TrailingTokens,
}

/// The model of a syntax error.
pub enum ParseErrorView {
    UnexpectedToken { expected: TokenView, actual: TokenView },
    ExpectedIdentifier { actual: TokenView },
    ExpectedExpression { actual: TokenView },
    UnexpectedEndOfInput,
    TrailingTokens,
}

impl View for ParseError {
    type V = ParseErrorView;

    open spec fn view(&self) -> ParseErrorView {
        match self {
            ParseError::UnexpectedToken { expected, actual } => ParseErrorView::UnexpectedToken {
                expected: expected@,
                actual: actual@,
            },
            ParseError::ExpectedIdentifier { actual } => ParseErrorView::ExpectedIdentifier {
                actual: actual@,
            },
            ParseError::ExpectedExpression { actual } => ParseErrorView::ExpectedExpression {
                actual: actual@,
            },
            ParseError::UnexpectedEndOfInput => ParseErrorView::UnexpectedEndOfInput,
            ParseError::TrailingTokens => ParseErrorView::TrailingTokens,
        }
    }
}

/// The message a syntax error prints: for a token mismatch, the expected
/// and the actual token, both named.
pub open spec fn parse_error_text(e: ParseErrorView) -> Seq<char> {
    match e {
        ParseErrorView::UnexpectedToken { expected, actual } => "Syntax error : expected "@
            + token_text(expected) + ", got "@ + token_text(actual),
        ParseErrorView::ExpectedIdentifier { actual } => "Syntax error : expected identifier, got "@
            + token_text(actual),
        ParseErrorView::ExpectedExpression { actual } => "Syntax error : expected expression, got "@
            + token_text(actual),
        ParseErrorView::UnexpectedEndOfInput => "Syntax error : unexpected end of input"@,
        ParseErrorView::TrailingTokens => "Syntax error : extra stuff after the top-level construct"@,
    }
}

impl ParseError {
    /// The error's message.
    pub fn describe(&self) -> (r: String)
        ensures
            r@ == parse_error_text(self@),
    {
        match self {
            ParseError::UnexpectedToken { expected, actual } => {
                let mut text = String::from_str("Syntax error : expected ");
                let expected_text = expected.describe();
                text.append(expected_text.as_str());
                text.append(", got ");
                let actual_text = actual.describe();
                text.append(actual_text.as_str());
                text
            },
            ParseError::ExpectedIdentifier { actual } => {
                let mut text = String::from_str("Syntax error : expected identifier, got ");
                let actual_text = actual.describe();
                text.append(actual_text.as_str());
                text
            },
            ParseError::ExpectedExpression { actual } => {
                let mut text = String::from_str("Syntax error : expected expression, got ");
                let actual_text = actual.describe();
                text.append(actual_text.as_str());
                text
            },
            ParseError::UnexpectedEndOfInput => String::from_str(
                "Syntax error : unexpected end of input",
            ),
            ParseError::TrailingTokens => String::from_str(
                "Syntax error : extra stuff after the top-level construct",
            ),
        }
    }
}

/// The expect primitive: the token at `i` must equal `expected`; on success
/// the cursor advances past it.
pub open spec fn spec_expect(ts: Seq<TokenView>, i: int, expected: TokenView) -> Result<
    int,
    ParseErrorView,
> {
    if i >= ts.len() {
        Err(ParseErrorView::UnexpectedEndOfInput)
    } else if ts[i] == expected {
        Ok(i + 1)
    } else {
        Err(ParseErrorView::UnexpectedToken { expected, actual: ts[i] })
    }
}

/// The identifier rule: the token at `i` must be an identifier; its text is
/// the result.
pub open spec fn spec_parse_identifier(ts: Seq<TokenView>, i: int) -> Result<
    (Seq<char>, int),
    ParseErrorView,
> {
    if i >= ts.len() {
        Err(ParseErrorView::UnexpectedEndOfInput)
    } else {
        match ts[i] {
            TokenView::Identifier(name) => Ok((name, i + 1)),
            t => Err(ParseErrorView::ExpectedIdentifier { actual: t }),
        }
    }
}

/// The expression rule: the token at `i` must be an integer constant.
pub open spec fn spec_parse_expression(ts: Seq<TokenView>, i: int) -> Result<
    (ASTExpressionView, int),
    ParseErrorView,
> {
    if i >= ts.len() {
        Err(ParseErrorView::UnexpectedEndOfInput)
    } else {
        match ts[i] {
            TokenView::Constant(v) => Ok((ASTExpressionView::Constant(v), i + 1)),
            t => Err(ParseErrorView::ExpectedExpression { actual: t }),
        }
    }
}

/// The statement rule: `"return" Expression ";"`.
pub open spec fn spec_parse_statement(ts: Seq<TokenView>, i: int) -> Result<
    (ASTStatementView, int),
    ParseErrorView,
> {
    match spec_expect(ts, i, TokenView::Return) {
        Err(e) => Err(e),
        Ok(i1) => match spec_parse_expression(ts, i1) {
            Err(e) => Err(e),
            Ok((expr, i2)) => match spec_expect(ts, i2, TokenView::Semicolon) {
                Err(e) => Err(e),
                Ok(i3) => Ok((ASTStatementView::Return(expr), i3)),
            },
        },
    }
}

/// The function rule: `"int" Identifier "(" "void" ")" "{" Statement "}"`.
pub open spec fn spec_parse_function(ts: Seq<TokenView>, i: int) -> Result<
    (ASTFunctionView, int),
    ParseErrorView,
> {
    match spec_expect(ts, i, TokenView::Int) {
        Err(e) => Err(e),
        Ok(i1) => match spec_parse_identifier(ts, i1) {
            Err(e) => Err(e),
            Ok((name, i2)) => match spec_expect(ts, i2, TokenView::OpenParenthesis) {
                Err(e) => Err(e),
                Ok(i3) => match spec_expect(ts, i3, TokenView::Void) {
                    Err(e) => Err(e),
                    Ok(i4) => match spec_expect(ts, i4, TokenView::CloseParenthesis) {
                        Err(e) => Err(e),
                        Ok(i5) => match spec_expect(ts, i5, TokenView::OpenBrace) {
                            Err(e) => Err(e),
                            Ok(i6) => match spec_parse_statement(ts, i6) {
                                Err(e) => Err(e),
                                Ok((body, i7)) => match spec_expect(
                                    ts,
                                    i7,
                                    TokenView::CloseBrace,
                                ) {
                                    Err(e) => Err(e),
                                    Ok(i8) => Ok((ASTFunctionView { name, body }, i8)),
                                },
                            },
                        },
                    },
                },
            },
        },
    }
}

/// The program rule: one function, after which every token must have been
/// consumed; trailing tokens are a fatal error.
pub open spec fn spec_parse_program(ts: Seq<TokenView>, i: int) -> Result<
    ASTRootNodeView,
    ParseErrorView,
> {
    match spec_parse_function(ts, i) {
        Err(e) => Err(e),
        Ok((f, j)) => if j < ts.len() {
            Err(ParseErrorView::TrailingTokens)
        } else {
            Ok(ASTRootNodeView::Program(f))
        },
    }
}

/// The parse of a whole token sequence.
pub open spec fn spec_parse(ts: Seq<TokenView>) -> Result<ASTRootNodeView, ParseErrorView> {
    spec_parse_program(ts, 0)
}

/// Builds the syntactic tree for a token sequence by recursive descent, or
/// reports the first syntax error. The result is exactly the outcome of the
/// `spec_parse` model of the grammar.
pub fn parse(tokens: Vec<Token>) -> (r: Result<ASTRootNode, ParseError>)
    ensures
        match r {
            Ok(ast) => spec_parse(token_views(tokens@)) == Ok::<_, ParseErrorView>(ast@),
            Err(e) => spec_parse(token_views(tokens@)) == Err::<ASTRootNodeView, _>(e@),
        },
{
    let mut at: usize = 0;
    parse_program(&tokens, &mut at)
}

fn parse_program(tokens: &Vec<Token>, at: &mut usize) -> (r: Result<ASTRootNode, ParseError>)
    requires
        *old(at) <= tokens@.len(),
    ensures
        match r {
            Ok(ast) => spec_parse_program(token_views(tokens@), *old(at) as int) == Ok::<
                _,
                ParseErrorView,
            >(ast@),
            Err(e) => spec_parse_program(token_views(tokens@), *old(at) as int) == Err::<
                ASTRootNodeView,
                _,
            >(e@),
        },
{
    let function = match parse_function(tokens, at) {
        Ok(f) => f,
        Err(e) => {
            return Err(e);
        },
    };

    if *at < tokens.len() {
        return Err(ParseError::TrailingTokens);
    }

    Ok(ASTRootNode::Program(function))
}

fn parse_function(tokens: &Vec<Token>, at: &mut usize) -> (r: Result<ASTFunction, ParseError>)
    requires
        *old(at) <= tokens@.len(),
    ensures
        *final(at) <= tokens@.len(),
        match r {
            Ok(f) => spec_parse_function(token_views(tokens@), *old(at) as int) == Ok::<
                _,
                ParseErrorView,
            >((f@, *final(at) as int)),
            Err(e) => spec_parse_function(token_views(tokens@), *old(at) as int) == Err::<
                (ASTFunctionView, int),
                _,
            >(e@),
        },
{
    if let Err(e) = expect(Token::Int, at, tokens) {
        return Err(e);
    }

    let identifier = match parse_identifier(tokens, at) {
        Ok(name) => name,
        Err(e) => {
            return Err(e);
        },
    };

    if let Err(e) = expect(Token::OpenParenthesis, at, tokens) {
        return Err(e);
    }
    if let Err(e) = expect(Token::Void, at, tokens) {
        return Err(e);
    }
    if let Err(e) = expect(Token::CloseParenthesis, at, tokens) {
        return Err(e);
    }

    if let Err(e) = expect(Token::OpenBrace, at, tokens) {
        return Err(e);
    }
    let statement = match parse_statement(tokens, at) {
        Ok(s) => s,
        Err(e) => {
            return Err(e);
        },
    };
    if let Err(e) = expect(Token::CloseBrace, at, tokens) {
        return Err(e);
    }

    Ok(ASTFunction { name: identifier, body: statement })
}

fn parse_identifier(tokens: &Vec<Token>, at: &mut usize) -> (r: Result<String, ParseError>)
    requires
        *old(at) <= tokens@.len(),
    ensures
        *final(at) <= tokens@.len(),
        match r {
            Ok(name) => spec_parse_identifier(token_views(tokens@), *old(at) as int) == Ok::<
                _,
                ParseErrorView,
            >((name@, *final(at) as int)),
            Err(e) => spec_parse_identifier(token_views(tokens@), *old(at) as int) == Err::<
                (Seq<char>, int),
                _,
            >(e@),
        },
{
    if *at >= tokens.len() {
        return Err(ParseError::UnexpectedEndOfInput);
    }

    if let Token::Identifier(s) = &tokens[*at] {
        let name = s.clone();
        *at += 1;
        return Ok(name);
    }

    Err(ParseError::ExpectedIdentifier { actual: tokens[*at].duplicate() })
}

fn parse_statement(tokens: &Vec<Token>, at: &mut usize) -> (r: Result<ASTStatement, ParseError>)
    requires
        *old(at) <= tokens@.len(),
    ensures
        *final(at) <= tokens@.len(),
        match r {
            Ok(s) => spec_parse_statement(token_views(tokens@), *old(at) as int) == Ok::<
                _,
                ParseErrorView,
            >((s@, *final(at) as int)),
            Err(e) => spec_parse_statement(token_views(tokens@), *old(at) as int) == Err::<
                (ASTStatementView, int),
                _,
            >(e@),
        },
{
    if let Err(e) = expect(Token::Return, at, tokens) {
        return Err(e);
    }

    let expr = match parse_expression(tokens, at) {
        Ok(e) => e,
        Err(e) => {
            return Err(e);
        },
    };

    if let Err(e) = expect(Token::Semicolon, at, tokens) {
        return Err(e);
    }

    Ok(ASTStatement::Return(expr))
}

fn parse_expression(tokens: &Vec<Token>, at: &mut usize) -> (r: Result<ASTExpression, ParseError>)
    requires
        *old(at) <= tokens@.len(),
    ensures
        *final(at) <= tokens@.len(),
        match r {
            Ok(e) => spec_parse_expression(token_views(tokens@), *old(at) as int) == Ok::<
                _,
                ParseErrorView,
            >((e@, *final(at) as int)),
            Err(e) => spec_parse_expression(token_views(tokens@), *old(at) as int) == Err::<
                (ASTExpressionView, int),
                _,
            >(e@),
        },
{
    if *at >= tokens.len() {
        return Err(ParseError::UnexpectedEndOfInput);
    }

    if let Token::Constant(c) = &tokens[*at] {
        let value: i32 = *c;
        *at += 1;
        return Ok(ASTExpression::Constant(value));
    }

    Err(ParseError::ExpectedExpression { actual: tokens[*at].duplicate() })
}

/// The sole error-reporting primitive: the current token must equal the
/// expected one, else parsing fails with both reported.
fn expect(token: Token, at: &mut usize, tokens: &Vec<Token>) -> (r: Result<(), ParseError>)
    requires
        *old(at) <= tokens@.len(),
    ensures
        *final(at) <= tokens@.len(),
        match r {
            Ok(_) => spec_expect(token_views(tokens@), *old(at) as int, token@) == Ok::<
                _,
                ParseErrorView,
            >(*final(at) as int),
            Err(e) => spec_expect(token_views(tokens@), *old(at) as int, token@) == Err::<int, _>(
                e@,
            ) && *final(at) == *old(at),
        },
{
    if *at >= tokens.len() {
        return Err(ParseError::UnexpectedEndOfInput);
    }

    if token == tokens[*at] {
        *at += 1;
        Ok(())
    } else {
        Err(ParseError::UnexpectedToken { expected: token, actual: tokens[*at].duplicate() })
    }
}

} // verus!
