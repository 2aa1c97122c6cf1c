//! Reading tokens with `cssparser`.
//!
//! Each trusted function here makes one call into `cssparser` and converts
//! what it returns; a token read becomes a [`CssToken`]. What a call reads
//! depends on the parser's position in its input, which this crate does not
//! model: nothing is promised of the token read, and the functions of this
//! crate that decide what a token means take it as an argument and state
//! their contracts over it.

use vstd::prelude::*;
use crate::css::error::{CssError, CssErrorKind, SourceLocation};
use crate::css::keywords::{eq_ignore_ascii_case, eq_ignore_ascii_case_spec};

verus! {

/// A token of CSS input, as far as this crate reads it.
#[derive(Debug, Clone, PartialEq, Eq)]
pub enum CssToken {
    /// An identifier, such as `linear`.
    Ident(String),
    /// A quoted string, without its quotes.
    QuotedString(String),
    /// An unquoted `url(...)`, with what it holds.
    UnquotedUrl(String),
    /// The start of a function, such as `local(`: its name.
    Function(String),
    /// A number, with its value when that is a whole number.
    Number {
        /// The value, when the number is written as an integer.
        int_value: Option<i32>,
    },
    /// A number with a unit, such as `300px`.
    Dimension {
        /// The value, when the number is written as an integer.
        int_value: Option<i32>,
        /// The unit.
        unit: String,
    },
    /// `,`
    Comma,
    /// Any other token.
    Other,
}

#[verifier::external_type_specification]
#[verifier::external_body]
pub struct ExParser<'i, 't>(cssparser::Parser<'i, 't>);

#[verifier::external_type_specification]
#[verifier::external_body]
pub struct ExBasicParseError<'i>(cssparser::BasicParseError<'i>);

#[verifier::external_type_specification]
#[verifier::external_body]
#[verifier::reject_recursive_types(E)]
pub struct ExParseError<'i, E>(cssparser::ParseError<'i, E>);

/// Whether an error is one of `cssparser`'s tokenizer, with its place.
pub open spec fn tokenizer_error(e: CssError) -> bool {
    &&& e.location is Some
    &&& (e.kind == CssErrorKind::UnexpectedToken || e.kind == CssErrorKind::EndOfInput || e.kind == CssErrorKind::InvalidInput)
}

/// Converts an error of `cssparser`'s tokenizer: an unexpected token, the end
/// of the input, or another error, at the place `cssparser` gives.
#[verifier::external_body]
fn basic_error_to_css(error: cssparser::BasicParseError) -> (r: CssError)
    ensures
        tokenizer_error(r),
{
    let location = SourceLocation { line: error.location.line, column: error.location.column };
    let kind = match error.kind {
        cssparser::BasicParseErrorKind::UnexpectedToken(_) => CssErrorKind::UnexpectedToken,
        cssparser::BasicParseErrorKind::EndOfInput => CssErrorKind::EndOfInput,
        cssparser::BasicParseErrorKind::AtRuleInvalid(_) => CssErrorKind::InvalidInput,
        cssparser::BasicParseErrorKind::AtRuleBodyInvalid => CssErrorKind::InvalidInput,
        cssparser::BasicParseErrorKind::QualifiedRuleInvalid => CssErrorKind::InvalidInput,
    };
    CssError { kind, location: Some(location) }
}

/// Converts an error of a nested block: the error of this crate it carries,
/// or an error of `cssparser`'s tokenizer at the place it gives.
#[verifier::external_body]
fn parse_error_to_css(error: cssparser::ParseError<CssError>) -> (r: CssError) {
    let location = SourceLocation { line: error.location.line, column: error.location.column };
    match error.kind {
        cssparser::ParseErrorKind::Custom(e) => e,
        cssparser::ParseErrorKind::Basic(cssparser::BasicParseErrorKind::EndOfInput) =>
            CssError { kind: CssErrorKind::EndOfInput, location: Some(location) },
        cssparser::ParseErrorKind::Basic(_) => CssError { kind: CssErrorKind::UnexpectedToken, location: Some(location) },
    }
}

/// `Parser::current_source_location`: the line and column the parser is at.
#[verifier::external_body]
pub(crate) fn current_location(parser: &cssparser::Parser) -> (r: SourceLocation) {
    let location = parser.current_source_location();
    SourceLocation { line: location.line, column: location.column }
}

/// `Parser::is_exhausted`: whether only whitespace and comments are left.
#[verifier::external_body]
pub(crate) fn is_exhausted(parser: &mut cssparser::Parser) -> (r: bool) {
    parser.is_exhausted()
}

/// `Parser::next`: the next token, whitespace and comments skipped.
#[verifier::external_body]
pub(crate) fn next_token(parser: &mut cssparser::Parser) -> (r: Result<CssToken, CssError>)
    ensures
        r matches Err(e) ==> tokenizer_error(e),
{
    match parser.next() {
        Ok(token) => Ok(match token {
            cssparser::Token::Ident(s) => CssToken::Ident(s.to_string()),
            cssparser::Token::QuotedString(s) => CssToken::QuotedString(s.to_string()),
            cssparser::Token::UnquotedUrl(s) => CssToken::UnquotedUrl(s.to_string()),
            cssparser::Token::Function(s) => CssToken::Function(s.to_string()),
            cssparser::Token::Number { int_value, .. } => CssToken::Number { int_value: *int_value },
            cssparser::Token::Dimension { int_value, unit, .. } => {
                CssToken::Dimension { int_value: *int_value, unit: unit.to_string() }
            },
            cssparser::Token::Comma => CssToken::Comma,
            _ => CssToken::Other,
        }),
        Err(error) => Err(basic_error_to_css(error)),
    }
}

/// `Parser::expect_string` inside a nested block.
#[verifier::external_body]
fn expect_string_in_block<'i>(parser: &mut cssparser::Parser<'i, '_>) -> (r: Result<String, cssparser::ParseError<'i, CssError>>) {
    match parser.expect_string() {
        Ok(value) => Ok(value.to_string()),
        Err(error) => Err(error.into()),
    }
}

/// The quoted string a nested block holds.
fn block_string<'i>(parser: &mut cssparser::Parser<'i, '_>) -> (r: Result<String, cssparser::ParseError<'i, CssError>>) {
    expect_string_in_block(parser)
}

/// `Parser::next`, then, when the token read opens a function,
/// `Parser::parse_nested_block` on its arguments, which must be one quoted
/// string: the function's name and that string, or the error met reading
/// it. Any other token is left unread (`Parser::reset` to where reading
/// started) and `None` comes back. The nested block is only read right after
/// a function token, which is what `cssparser` asks. Every error is one of
/// the tokenizer's: the block's reader only ever fails with `cssparser`'s
/// own errors.
#[verifier::external_body]
fn next_function_block(parser: &mut cssparser::Parser) -> (r: Result<Option<(String, Result<String, CssError>)>, CssError>)
    ensures
        r matches Err(e) ==> tokenizer_error(e),
        r matches Ok(Some((_, Err(e)))) ==> tokenizer_error(e),
{
    let start = parser.state();
    let name = match parser.next() {
        Ok(cssparser::Token::Function(name)) => name.to_string(),
        Ok(_) => {
            parser.reset(&start);
            return Ok(None);
        },
        Err(error) => return Err(basic_error_to_css(error)),
    };
    Ok(Some((name, parser.parse_nested_block(|input| block_string(input)).map_err(parse_error_to_css))))
}

/// What a `src` value of `@font-face` starts with: a token, or one of the
/// functions `url(` and `local(` with the quoted string it holds.
#[derive(Debug, PartialEq, Eq)]
pub enum SourceRead {
    /// A token that is not such a function.
    Token(CssToken),
    /// `url(` or `local(`: its name, and the string it holds or the error
    /// met reading it.
    Function(String, Result<String, CssError>),
}

/// Whether a function name is `url` or `local`, without regard to ASCII case.
pub open spec fn source_function(name: Seq<char>) -> bool {
    eq_ignore_ascii_case_spec(name, "url"@) || eq_ignore_ascii_case_spec(name, "local"@)
}

/// What a function read at the start of a `src` value gives: `url(` and
/// `local(` with the string they hold; any other function is handed on as
/// its token.
pub open spec fn source_function_read(name: String, inside: Result<String, CssError>) -> SourceRead {
    if source_function(name@) {
        SourceRead::Function(name, inside)
    } else {
        SourceRead::Token(CssToken::Function(name))
    }
}

/// What a function read at the start of a `src` value gives.
pub fn source_from_function(name: String, inside: Result<String, CssError>) -> (r: SourceRead)
    ensures
        r == source_function_read(name, inside),
{
    if eq_ignore_ascii_case(name.as_str(), "url") || eq_ignore_ascii_case(name.as_str(), "local") {
        SourceRead::Function(name, inside)
    } else {
        SourceRead::Token(CssToken::Function(name))
    }
}

/// Reads the start of a `src` value: a function with the quoted string it
/// holds, decided by [`source_from_function`], or else the next token.
pub fn read_source(parser: &mut cssparser::Parser) -> (r: Result<SourceRead, CssError>)
    ensures
        r matches Err(e) ==> tokenizer_error(e),
        r matches Ok(SourceRead::Function(name, _)) ==> source_function(name@),
        r matches Ok(SourceRead::Function(_, Err(e))) ==> tokenizer_error(e),
{
    match next_function_block(parser)? {
        Some((name, inside)) => Ok(source_from_function(name, inside)),
        None => Ok(SourceRead::Token(next_token(parser)?)),
    }
}

} // verus!
