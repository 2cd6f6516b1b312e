//! Lexical analysis: a single left-to-right scan turning source text into a
//! token sequence. The scan is modelled by `spec_lex`, and `lex` is proved to
//! return exactly what the model says, token for token and error for error.

use vstd::prelude::*;
use vstd::string::StrSliceExecFns;
use vstd::string::StringExecFns;

use crate::decimal::dec_digits;
use crate::decimal::dec_int;
use crate::decimal::digit_val;
use crate::decimal::digits_val;
use crate::decimal::i32_dec_string;
use crate::decimal::is_digit_char;
use crate::decimal::u64_dec_string;

verus! {

/// One lexical unit of the source language.
#[derive(Debug)]
pub enum Token {
    Identifier(String),
    Constant(i32),
    OpenParenthesis,
    CloseParenthesis,
    OpenBrace,
    CloseBrace,
    Semicolon,
    // keywords
    Void,
    Return,
    Int,
}

/// The mathematical model of a token: identifier text as a character
/// sequence, everything else as itself.
pub enum TokenView {
    Identifier(Seq<char>),
    Constant(i32),
    OpenParenthesis,
    CloseParenthesis,
    OpenBrace,
    CloseBrace,
    Semicolon,
    Void,
    Return,
    Int,
}

impl View for Token {
    type V = TokenView;

    open spec fn view(&self) -> TokenView {
        match self {
            Token::Identifier(s) => TokenView::Identifier(s@),
            Token::Constant(v) => TokenView::Constant(*v),
            Token::OpenParenthesis => TokenView::OpenParenthesis,
            Token::CloseParenthesis => TokenView::CloseParenthesis,
            Token::OpenBrace => TokenView::OpenBrace,
            Token::CloseBrace => TokenView::CloseBrace,
            Token::Semicolon => TokenView::Semicolon,
            Token::Void => TokenView::Void,
            Token::Return => TokenView::Return,
            Token::Int => TokenView::Int,
        }
    }
}

impl Token {
    /// A copy of this token, equal to it in the model.
    pub fn duplicate(&self) -> (r: Token)
        ensures
            r@ == self@,
    {
        match self {
            Token::Identifier(s) => Token::Identifier(s.clone()),
            Token::Constant(v) => Token::Constant(*v),
            Token::OpenParenthesis => Token::OpenParenthesis,
            Token::CloseParenthesis => Token::CloseParenthesis,
            Token::OpenBrace => Token::OpenBrace,
            Token::CloseBrace => Token::CloseBrace,
            Token::Semicolon => Token::Semicolon,
            Token::Void => Token::Void,
            Token::Return => Token::Return,
            Token::Int => Token::Int,
        }
    }
}

/// The rendering of a token in error messages.
pub open spec fn token_text(t: TokenView) -> Seq<char> {
    match t {
        TokenView::Identifier(s) => "Identifier(\""@ + s + "\")"@,
        TokenView::Constant(v) => "Constant("@ + dec_int(v as int) + ")"@,
        TokenView::OpenParenthesis => "OpenParenthesis"@,
        TokenView::CloseParenthesis => "CloseParenthesis"@,
        TokenView::OpenBrace => "OpenBrace"@,
        TokenView::CloseBrace => "CloseBrace"@,
        TokenView::Semicolon => "Semicolon"@,
        TokenView::Void => "Void"@,
        TokenView::Return => "Return"@,
        TokenView::Int => "Int"@,
    }
}

impl Token {
    /// The token's rendering in error messages.
    pub fn describe(&self) -> (r: String)
        ensures
            r@ == token_text(self@),
    {
        match self {
            Token::Identifier(s) => {
                let mut text = String::from_str("Identifier(\"");
                text.append(s.as_str());
                text.append("\")");
                text
            },
            Token::Constant(v) => {
                let mut text = String::from_str("Constant(");
                let digits = i32_dec_string(*v);
                text.append(digits.as_str());
                text.append(")");
                text
            },
            Token::OpenParenthesis => String::from_str("OpenParenthesis"),
            Token::CloseParenthesis => String::from_str("CloseParenthesis"),
            Token::OpenBrace => String::from_str("OpenBrace"),
            Token::CloseBrace => String::from_str("CloseBrace"),
            Token::Semicolon => String::from_str("Semicolon"),
            Token::Void => String::from_str("Void"),
            Token::Return => String::from_str("Return"),
            Token::Int => String::from_str("Int"),
        }
    }
}

impl PartialEq for Token {
    fn eq(&self, other: &Token) -> (r: bool) {
        match (self, other) {
            (Token::Identifier(a), Token::Identifier(b)) => *a == *b,
            (Token::Constant(a), Token::Constant(b)) => *a == *b,
            (Token::OpenParenthesis, Token::OpenParenthesis) => true,
            (Token::CloseParenthesis, Token::CloseParenthesis) => true,
            (Token::OpenBrace, Token::OpenBrace) => true,
            (Token::CloseBrace, Token::CloseBrace) => true,
            (Token::Semicolon, Token::Semicolon) => true,
            (Token::Void, Token::Void) => true,
            (Token::Return, Token::Return) => true,
            (Token::Int, Token::Int) => true,
            _ => false,
        }
    }
}

impl vstd::std_specs::cmp::PartialEqSpecImpl for Token {
    open spec fn obeys_eq_spec() -> bool {
        true
    }

    open spec fn eq_spec(&self, other: &Token) -> bool {
        self@ == other@
    }
}

/// The model of a token sequence.
pub open spec fn token_views(ts: Seq<Token>) -> Seq<TokenView> {
    ts.map_values(|t: Token| t@)
}

/// A fatal scan error, with the position (in characters) where it arose.
#[derive(Debug)]
pub enum LexError {
    /// A character outside every recognized class.
    UnknownCharacter { character: char, position: usize },
    /// A digit run immediately followed by a letter, such as `1abc`.
    MalformedConstant { position: usize },
    /// A constant beyond the 32-bit signed range.
    ConstantOutOfRange { position: usize },
}

/// The model of a scan error.
pub enum LexErrorView {
    UnknownCharacter { character: char, position: int },
    MalformedConstant { position: int },
    ConstantOutOfRange { position: int },
}

impl View for LexError {
    type V = LexErrorView;

    open spec fn view(&self) -> LexErrorView {
        match self {
            LexError::UnknownCharacter { character, position } => LexErrorView::UnknownCharacter {
                character: *character,
                position: *position as int,
            },
            LexError::MalformedConstant { position } => LexErrorView::MalformedConstant {
                position: *position as int,
            },
            LexError::ConstantOutOfRange { position } => LexErrorView::ConstantOutOfRange {
                position: *position as int,
            },
        }
    }
}

/// The message a scan error prints.
pub open spec fn lex_error_text(e: LexErrorView) -> Seq<char> {
    match e {
        LexErrorView::UnknownCharacter { character, position } => "Unknown character '"@ + seq![
            character,
        ] + "' at "@ + dec_digits(position as nat) + "."@,
        LexErrorView::MalformedConstant { position } => "identifiers can't start with numbers !"@,
        LexErrorView::ConstantOutOfRange { position } => "integer constant does not fit in 32 bits at "@
            + dec_digits(position as nat) + "."@,
    }
}

/// Relies on char::to_string: the rendering of a single character is that
/// character alone.
#[verifier::external_body]
fn char_string(c: char) -> (r: String)
    ensures
        r@ == seq![c],
{
    c.to_string()
}

impl LexError {
    /// The error's message.
    pub fn describe(&self) -> (r: String)
        ensures
            r@ == lex_error_text(self@),
    {
        match self {
            LexError::UnknownCharacter { character, position } => {
                let mut text = String::from_str("Unknown character '");
                let c = char_string(*character);
                text.append(c.as_str());
                text.append("' at ");
                let digits = u64_dec_string(*position as u64);
                text.append(digits.as_str());
                text.append(".");
                text
            },
            LexError::MalformedConstant { position: _ } => String::from_str(
                "identifiers can't start with numbers !",
            ),
            LexError::ConstantOutOfRange { position } => {
                let mut text = String::from_str("integer constant does not fit in 32 bits at ");
                let digits = u64_dec_string(*position as u64);
                text.append(digits.as_str());
                text.append(".");
                text
            },
        }
    }
}

/// A whitespace character (ASCII: space, tab, line feed, vertical tab,
/// form feed, carriage return).
pub open spec fn is_space_char(c: char) -> bool {
    c == ' ' || c == '\t' || c == '\n' || c == '\r' || c == '\u{b}' || c == '\u{c}'
}

/// An ASCII letter.
pub open spec fn is_letter_char(c: char) -> bool {
    ('a' as u32 <= c as u32 && c as u32 <= 'z' as u32) || ('A' as u32 <= c as u32 && c as u32
        <= 'Z' as u32)
}

/// A character that may start an identifier or keyword.
pub open spec fn is_word_start_char(c: char) -> bool {
    c == '_' || is_letter_char(c)
}

/// A character that may continue an identifier or keyword.
pub open spec fn is_word_char(c: char) -> bool {
    is_word_start_char(c) || is_digit_char(c)
}

/// The end of the maximal run of word characters starting at `i`.
pub open spec fn word_run_end(s: Seq<char>, i: int) -> int
    decreases s.len() - i,
    when 0 <= i <= s.len()
{
    if i < s.len() && is_word_char(s[i]) {
        word_run_end(s, i + 1)
    } else {
        i
    }
}

/// The end of the maximal run of digit characters starting at `i`.
pub open spec fn digit_run_end(s: Seq<char>, i: int) -> int
    decreases s.len() - i,
    when 0 <= i <= s.len()
{
    if i < s.len() && is_digit_char(s[i]) {
        digit_run_end(s, i + 1)
    } else {
        i
    }
}

pub proof fn lemma_word_run_end_bounds(s: Seq<char>, i: int)
    requires
        0 <= i <= s.len(),
    ensures
        i <= word_run_end(s, i) <= s.len(),
        i < s.len() && is_word_char(s[i]) ==> i + 1 <= word_run_end(s, i),
    decreases s.len() - i,
{
    if i < s.len() && is_word_char(s[i]) {
        lemma_word_run_end_bounds(s, i + 1);
    }
}

pub proof fn lemma_digit_run_end_bounds(s: Seq<char>, i: int)
    requires
        0 <= i <= s.len(),
    ensures
        i <= digit_run_end(s, i) <= s.len(),
        i < s.len() && is_digit_char(s[i]) ==> i + 1 <= digit_run_end(s, i),
        forall|k: int| i <= k < digit_run_end(s, i) ==> is_digit_char(s[k]),
    decreases s.len() - i,
{
    if i < s.len() && is_digit_char(s[i]) {
        lemma_digit_run_end_bounds(s, i + 1);
    }
}

/// The token a maximal word scans to: one of the three keywords, or an
/// identifier carrying the word itself.
pub open spec fn word_token(w: Seq<char>) -> TokenView {
    if w == "int"@ {
        TokenView::Int
    } else if w == "void"@ {
        TokenView::Void
    } else if w == "return"@ {
        TokenView::Return
    } else {
        TokenView::Identifier(w)
    }
}

/// Prepends a token to the outcome of scanning the rest of the input; an
/// error in the rest stays an error.
pub open spec fn lex_prepend(t: TokenView, rest: Result<Seq<TokenView>, LexErrorView>) -> Result<
    Seq<TokenView>,
    LexErrorView,
> {
    match rest {
        Ok(ts) => Ok(seq![t] + ts),
        Err(e) => Err(e),
    }
}

/// The scan from position `i` to the end of the input: skip whitespace, take
/// maximal word and digit runs, take single-character punctuation, and stop
/// with an error on anything else, on a digit run followed by a letter, and
/// on a constant out of the 32-bit signed range.
pub open spec fn spec_lex_from(s: Seq<char>, i: int) -> Result<Seq<TokenView>, LexErrorView>
    decreases s.len() - i,
    when 0 <= i <= s.len()
{
    if i >= s.len() {
        Ok(Seq::empty())
    } else if is_space_char(s[i]) {
        spec_lex_from(s, i + 1)
    } else if is_word_start_char(s[i]) {
        proof {
            lemma_word_run_end_bounds(s, i);
        }
        lex_prepend(word_token(s.subrange(i, word_run_end(s, i))), spec_lex_from(s, word_run_end(s, i)))
    } else if is_digit_char(s[i]) {
        proof {
            lemma_digit_run_end_bounds(s, i);
        }
        if digit_run_end(s, i) < s.len() && is_letter_char(s[digit_run_end(s, i)]) {
            Err(LexErrorView::MalformedConstant { position: i })
        } else if digits_val(s.subrange(i, digit_run_end(s, i))) > 2147483647 {
            Err(LexErrorView::ConstantOutOfRange { position: i })
        } else {
            lex_prepend(
                TokenView::Constant(digits_val(s.subrange(i, digit_run_end(s, i))) as i32),
                spec_lex_from(s, digit_run_end(s, i)),
            )
        }
    } else if s[i] == '(' {
        lex_prepend(TokenView::OpenParenthesis, spec_lex_from(s, i + 1))
    } else if s[i] == ')' {
        lex_prepend(TokenView::CloseParenthesis, spec_lex_from(s, i + 1))
    } else if s[i] == '{' {
        lex_prepend(TokenView::OpenBrace, spec_lex_from(s, i + 1))
    } else if s[i] == '}' {
        lex_prepend(TokenView::CloseBrace, spec_lex_from(s, i + 1))
    } else if s[i] == ';' {
        lex_prepend(TokenView::Semicolon, spec_lex_from(s, i + 1))
    } else {
        Err(LexErrorView::UnknownCharacter { character: s[i], position: i })
    }
}

/// The scan of a whole input.
pub open spec fn spec_lex(s: Seq<char>) -> Result<Seq<TokenView>, LexErrorView> {
    spec_lex_from(s, 0)
}

/// Tokens already produced, joined with the outcome of the remaining scan.
pub open spec fn lex_join(done: Seq<TokenView>, rest: Result<Seq<TokenView>, LexErrorView>) -> Result<
    Seq<TokenView>,
    LexErrorView,
> {
    match rest {
        Ok(ts) => Ok(done + ts),
        Err(e) => Err(e),
    }
}

fn char_is_space(c: char) -> (r: bool)
    ensures
        r == is_space_char(c),
{
    c == ' ' || c == '\t' || c == '\n' || c == '\r' || c == '\u{b}' || c == '\u{c}'
}

fn char_is_letter(c: char) -> (r: bool)
    ensures
        r == is_letter_char(c),
{
    let u: u32 = c as u32;
    ('a' as u32 <= u && u <= 'z' as u32) || ('A' as u32 <= u && u <= 'Z' as u32)
}

fn char_is_word_start(c: char) -> (r: bool)
    ensures
        r == is_word_start_char(c),
{
    c == '_' || char_is_letter(c)
}

fn char_is_digit(c: char) -> (r: bool)
    ensures
        r == is_digit_char(c),
{
    let u: u32 = c as u32;
    '0' as u32 <= u && u <= '9' as u32
}

fn char_is_word(c: char) -> (r: bool)
    ensures
        r == is_word_char(c),
{
    char_is_word_start(c) || char_is_digit(c)
}

/// Extending a digit run by one digit multiplies its value by ten and adds
/// the digit.
proof fn lemma_digits_val_extend(s: Seq<char>, a: int, k: int)
    requires
        0 <= a <= k < s.len(),
    ensures
        digits_val(s.subrange(a, k + 1)) == digits_val(s.subrange(a, k)) * 10 + digit_val(s[k]),
{
    assert(s.subrange(a, k + 1).drop_last() =~= s.subrange(a, k));
    assert(s.subrange(a, k + 1).last() == s[k]);
}

/// The value of a digit run never falls when the run is extended.
proof fn lemma_digits_val_monotone(s: Seq<char>, a: int, j: int, k: int)
    requires
        0 <= a <= j <= k <= s.len(),
    ensures
        digits_val(s.subrange(a, j)) <= digits_val(s.subrange(a, k)),
    decreases k - j,
{
    if j < k {
        lemma_digits_val_extend(s, a, k - 1);
        lemma_digits_val_monotone(s, a, j, k - 1);
    }
}

/// Converts raw source text into its token sequence, or reports the first
/// fatal scan error. The result is exactly the outcome of the `spec_lex`
/// model of the scan.
pub fn lex(source_string: String) -> (r: Result<Vec<Token>, LexError>)
    ensures
        match r {
            Ok(tokens) => spec_lex(source_string@) == Ok::<_, LexErrorView>(token_views(tokens@)),
            Err(e) => spec_lex(source_string@) == Err::<Seq<TokenView>, _>(e@),
        },
{
    let source: &str = source_string.as_str();
    let n: usize = source.unicode_len();
    let mut at: usize = 0;
    let mut tokens: Vec<Token> = Vec::new();

    let keyword_int: String = String::from_str("int");
    let keyword_void: String = String::from_str("void");
    let keyword_return: String = String::from_str("return");

    while at < n
        invariant
            source@ == source_string@,
            n == source@.len(),
            at <= n,
            keyword_int@ == "int"@,
            keyword_void@ == "void"@,
            keyword_return@ == "return"@,
            spec_lex(source_string@) == lex_join(token_views(tokens@), spec_lex_from(source@, at as int)),
        decreases n - at,
    {
        let c: char = source.get_char(at);

        if char_is_space(c) {
            at += 1;
        } else if char_is_word_start(c) {
            let ghost prev_tokens = tokens@;
            let mut end: usize = at;
            while end < n && char_is_word(source.get_char(end))
                invariant
                    source@ == source_string@,
                    n == source@.len(),
                    at <= end <= n,
                    word_run_end(source@, at as int) == word_run_end(source@, end as int),
                decreases n - end,
            {
                end += 1;
            }
            assert(word_run_end(source@, at as int) == end as int);
            let word: String = source.substring_char(at, end).to_owned();
            let token: Token = if word == keyword_int {
                Token::Int
            } else if word == keyword_void {
                Token::Void
            } else if word == keyword_return {
                Token::Return
            } else {
                Token::Identifier(word)
            };
            assert(token@ == word_token(source@.subrange(at as int, end as int)));
            tokens.push(token);
            proof {
                assert(token_views(tokens@) =~= token_views(prev_tokens).push(token@));
                lemma_join_step(
                    token_views(prev_tokens),
                    token@,
                    spec_lex_from(source@, end as int),
                );
            }
            at = end;
        } else if char_is_digit(c) {
            let mut end: usize = at;
            while end < n && char_is_digit(source.get_char(end))
                invariant
                    source@ == source_string@,
                    n == source@.len(),
                    at <= end <= n,
                    digit_run_end(source@, at as int) == digit_run_end(source@, end as int),
                decreases n - end,
            {
                end += 1;
            }
            assert(digit_run_end(source@, at as int) == end as int);
            if end < n && char_is_letter(source.get_char(end)) {
                return Err(LexError::MalformedConstant { position: at });
            }
            proof {
                lemma_digit_run_end_bounds(source@, at as int);
            }
            let ghost prev_tokens = tokens@;
            assert(source@.subrange(at as int, at as int) =~= Seq::<char>::empty());
            let mut value: u64 = 0;
            let mut k: usize = at;
            while k < end
                invariant
                    source@ == source_string@,
                    n == source@.len(),
                    at <= k <= end <= n,
                    at < n,
                    !is_space_char(source@[at as int]),
                    !is_word_start_char(source@[at as int]),
                    is_digit_char(source@[at as int]),
                    digit_run_end(source@, at as int) == end as int,
                    end == n || !is_letter_char(source@[end as int]),
                    forall|j: int| at <= j < end ==> is_digit_char(source@[j]),
                    value == digits_val(source@.subrange(at as int, k as int)),
                    value <= 2147483647,
                    spec_lex(source_string@) == lex_join(
                        token_views(tokens@),
                        spec_lex_from(source@, at as int),
                    ),
                decreases end - k,
            {
                let d: u32 = source.get_char(k) as u32 - '0' as u32;
                value = value * 10 + d as u64;
                proof {
                    lemma_digits_val_extend(source@, at as int, k as int);
                }
                k += 1;
                if value > 2147483647 {
                    proof {
                        lemma_digits_val_monotone(source@, at as int, k as int, end as int);
                    }
                    return Err(LexError::ConstantOutOfRange { position: at });
                }
            }
            assert(source@.subrange(at as int, k as int) == source@.subrange(at as int, end as int));
            let token: Token = Token::Constant(value as i32);
            tokens.push(token);
            proof {
                assert(token_views(tokens@) =~= token_views(prev_tokens).push(token@));
                lemma_join_step(
                    token_views(prev_tokens),
                    token@,
                    spec_lex_from(source@, end as int),
                );
            }
            at = end;
        } else if c == '(' || c == ')' || c == '{' || c == '}' || c == ';' {
            let ghost prev_tokens = tokens@;
            let token: Token = if c == '(' {
                Token::OpenParenthesis
            } else if c == ')' {
                Token::CloseParenthesis
            } else if c == '{' {
                Token::OpenBrace
            } else if c == '}' {
                Token::CloseBrace
            } else {
                Token::Semicolon
            };
            tokens.push(token);
            proof {
                assert(token_views(tokens@) =~= token_views(prev_tokens).push(token@));
                lemma_join_step(
                    token_views(prev_tokens),
                    token@,
                    spec_lex_from(source@, at as int + 1),
                );
            }
            at += 1;
        } else {
            return Err(LexError::UnknownCharacter { character: c, position: at });
        }
    }
    proof {
        assert(spec_lex_from(source@, at as int) == Ok::<_, LexErrorView>(Seq::<TokenView>::empty()));
        assert(token_views(tokens@) + Seq::<TokenView>::empty() =~= token_views(tokens@));
    }
    Ok(tokens)
}

/// A sequence of whitespace characters throughout.
pub open spec fn all_space_chars(w: Seq<char>) -> bool {
    forall|k: int| 0 <= k < w.len() ==> is_space_char(w[k])
}

/// Identifier text: a word that starts with a letter or underscore, goes on
/// with word characters, and is none of the three keywords.
pub open spec fn is_identifier_text(w: Seq<char>) -> bool {
    &&& w.len() > 0
    &&& is_word_start_char(w[0])
    &&& forall|k: int| 0 <= k < w.len() ==> is_word_char(w[k])
    &&& w != "int"@
    &&& w != "void"@
    &&& w != "return"@
}

/// A non-empty run of digit characters.
pub open spec fn all_digit_chars(w: Seq<char>) -> bool {
    forall|k: int| 0 <= k < w.len() ==> is_digit_char(w[k])
}

/// The scan ignores whitespace: it resumes past any run of it.
pub proof fn lemma_lex_spaces(s: Seq<char>, i: int, j: int)
    requires
        0 <= i <= j <= s.len(),
        forall|k: int| i <= k < j ==> is_space_char(s[k]),
    ensures
        spec_lex_from(s, i) == spec_lex_from(s, j),
    decreases j - i,
{
    if i < j {
        lemma_lex_spaces(s, i + 1, j);
    }
}

/// A maximal run of word characters ends exactly at its boundary.
pub proof fn lemma_word_run_end_range(s: Seq<char>, i: int, j: int)
    requires
        0 <= i <= j <= s.len(),
        forall|k: int| i <= k < j ==> is_word_char(s[k]),
        j == s.len() || !is_word_char(s[j]),
    ensures
        word_run_end(s, i) == j,
    decreases j - i,
{
    if i < j {
        lemma_word_run_end_range(s, i + 1, j);
    }
}

/// A maximal run of digit characters ends exactly at its boundary.
pub proof fn lemma_digit_run_end_range(s: Seq<char>, i: int, j: int)
    requires
        0 <= i <= j <= s.len(),
        forall|k: int| i <= k < j ==> is_digit_char(s[k]),
        j == s.len() || !is_digit_char(s[j]),
    ensures
        digit_run_end(s, i) == j,
    decreases j - i,
{
    if i < j {
        lemma_digit_run_end_range(s, i + 1, j);
    }
}

/// The scan takes a maximal word as one keyword or identifier token and
/// resumes past it.
pub proof fn lemma_lex_word(s: Seq<char>, i: int, j: int)
    requires
        0 <= i < j <= s.len(),
        is_word_start_char(s[i]),
        forall|k: int| i <= k < j ==> is_word_char(s[k]),
        j == s.len() || !is_word_char(s[j]),
    ensures
        spec_lex_from(s, i) == lex_prepend(word_token(s.subrange(i, j)), spec_lex_from(s, j)),
{
    lemma_word_run_end_range(s, i, j);
}

/// The scan takes a maximal digit run whose value is in the 32-bit signed
/// range, and whose boundary is not a letter, as one constant token and
/// resumes past it.
pub proof fn lemma_lex_constant(s: Seq<char>, i: int, j: int)
    requires
        0 <= i < j <= s.len(),
        forall|k: int| i <= k < j ==> is_digit_char(s[k]),
        j == s.len() || !is_digit_char(s[j]),
        j == s.len() || !is_letter_char(s[j]),
        digits_val(s.subrange(i, j)) <= 2147483647,
    ensures
        spec_lex_from(s, i) == lex_prepend(
            TokenView::Constant(digits_val(s.subrange(i, j)) as i32),
            spec_lex_from(s, j),
        ),
{
    lemma_digit_run_end_range(s, i, j);
}

/// The token of a single punctuation character.
pub open spec fn punct_token(c: char) -> TokenView {
    if c == '(' {
        TokenView::OpenParenthesis
    } else if c == ')' {
        TokenView::CloseParenthesis
    } else if c == '{' {
        TokenView::OpenBrace
    } else if c == '}' {
        TokenView::CloseBrace
    } else {
        TokenView::Semicolon
    }
}

/// The scan takes a punctuation character as one token and resumes past it.
pub proof fn lemma_lex_punct(s: Seq<char>, i: int)
    requires
        0 <= i < s.len(),
        s[i] == '(' || s[i] == ')' || s[i] == '{' || s[i] == '}' || s[i] == ';',
    ensures
        spec_lex_from(s, i) == lex_prepend(punct_token(s[i]), spec_lex_from(s, i + 1)),
{
}

/// Joining with a prepended token is joining with the token already produced.
proof fn lemma_join_step(
    done: Seq<TokenView>,
    t: TokenView,
    rest: Result<Seq<TokenView>, LexErrorView>,
)
    ensures
        lex_join(done, lex_prepend(t, rest)) == lex_join(done.push(t), rest),
{
    match rest {
        Ok(ts) => {
            assert(done + (seq![t] + ts) =~= done.push(t) + ts);
        },
        Err(_) => {},
    }
}

} // verus!
