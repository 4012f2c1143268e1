use crate::tokenizer::token::Token;
use vstd::prelude::*;

verus! {

/// What went wrong while parsing.
#[derive(Copy, Clone, PartialEq, Eq, Structural, Debug)]
pub enum ErrorKind {
    /// The context switch does not start at an `@` token.
    ExpectingAt,
    /// No token is left where an `@` token was expected.
    EmptyStreamExpectingAt,
    /// `@use` outside a block content context.
    UseNotAllowed,
    /// `@layout` outside the root context.
    LayoutNotAllowed,
    /// `@section` outside a block context.
    SectionNotAllowed,
    /// `@*` outside a content context.
    CommentNotAllowed,
    /// Nothing follows an `@`.
    ExpectedContentAfterAt,
    /// `@render_section` outside code.
    RenderSectionNotAllowed,
    /// `@` is followed by something other than `(`, `{`, `*` or an expression.
    ExpectedBlockAfterAt,
    /// A directive is not followed by whitespace.
    ExpectedWhitespaceAfterDirective,
    /// A directive has no content.
    ExpectedDirectiveContent,
    /// The parameters of `@render_section` are not closed by `)`.
    ExpectedCloseParenthesis,
    /// `@section` is not followed by whitespace.
    ExpectedWhitespaceAfterSection,
    /// `@section` has no name.
    ExpectedSectionName,
    /// The section name is not followed by `{`.
    ExpectedOpenBrace,
    /// `@` is not followed by `*` in a comment.
    ExpectedAsterisk,
    /// A comment is not closed by `*@`.
    UnterminatedComment,
    /// A block does not start with its opening delimiter.
    ExpectedOpeningDelimiter,
    /// An inlined block uses `@`.
    InlinedAtNotAllowed,
    /// A block's delimiters are not balanced.
    UnbalancedDelimiters,
    /// A delimited block holds nothing.
    EmptyDelimitedBlock,
    /// The token stream is empty.
    EmptyStream,
    /// The template holds no block.
    EmptyBlock,
    /// Context extraction does not start at an `@` token.
    ExpectedAtToStartContext,
    /// A character that the markup does not allow here.
    IllegalChar,
    /// A block of this kind cannot be created this way.
    WrongBlockKind,
}

/// A parse error: what went wrong, and the token that it is reported at.
#[derive(Copy, Clone, PartialEq, Eq, Structural, Debug)]
pub struct CompileError {
    pub kind: ErrorKind,
    pub token: Option<Token>,
}

impl CompileError {
    pub fn from_parser(token: Option<Token>, kind: ErrorKind) -> (r: Self)
        ensures
            r == (CompileError { kind, token }),
    {
        CompileError { kind, token }
    }
}

/// The description of an error kind.
pub open spec fn error_message(k: ErrorKind) -> Seq<char> {
    match k {
        ErrorKind::ExpectingAt => "Expecting '@' token to start context extraction."@,
        ErrorKind::EmptyStreamExpectingAt => "Empty token stream when expecting '@' token to start context extraction."@,
        ErrorKind::UseNotAllowed => "The 'use' directive is only allowed in the block content context."@,
        ErrorKind::LayoutNotAllowed => "The 'layout' directive is only allowed in the root context."@,
        ErrorKind::SectionNotAllowed => "The 'section' is only allowed in the block context."@,
        ErrorKind::CommentNotAllowed => "@* comments are only allowed in content context."@,
        ErrorKind::ExpectedContentAfterAt => "Expected content after '@'"@,
        ErrorKind::RenderSectionNotAllowed => "'@render_section' can only be used in content block."@,
        ErrorKind::ExpectedBlockAfterAt => "Expected '(', '{' or expression after '@'"@,
        ErrorKind::ExpectedWhitespaceAfterDirective => "Expected whitespace after the directive"@,
        ErrorKind::ExpectedDirectiveContent => "Expected content after the directive"@,
        ErrorKind::ExpectedCloseParenthesis => "Expected ')' to close '@render_section' parameters"@,
        ErrorKind::ExpectedWhitespaceAfterSection => "Expected whitespace after '@section'"@,
        ErrorKind::ExpectedSectionName => "Expected section name after '@section'"@,
        ErrorKind::ExpectedOpenBrace => "Expected '{' after the section name"@,
        ErrorKind::ExpectedAsterisk => "Expected '*' after '@' for comment block"@,
        ErrorKind::UnterminatedComment => "Unterminated comment block, expected '*@'"@,
        ErrorKind::ExpectedOpeningDelimiter => "Expected opening delimiter"@,
        ErrorKind::InlinedAtNotAllowed => "Inlined block is not allowed to use '@' token"@,
        ErrorKind::UnbalancedDelimiters => "Unbalanced delimiters in block"@,
        ErrorKind::EmptyDelimitedBlock => "Failed to parser block"@,
        ErrorKind::EmptyStream => "Empty stream"@,
        ErrorKind::EmptyBlock => "Empty block"@,
        ErrorKind::ExpectedAtToStartContext => "Expected '@' token to start context extraction."@,
        ErrorKind::IllegalChar => "Illegal char"@,
        ErrorKind::WrongBlockKind => "Wrong type for crating block"@,
    }
}

impl ErrorKind {
    /// A description of the error for people.
    pub fn message(&self) -> (r: &'static str)
        ensures
            r@ == error_message(*self),
    {
        match self {
            ErrorKind::ExpectingAt => "Expecting '@' token to start context extraction.",
            ErrorKind::EmptyStreamExpectingAt => "Empty token stream when expecting '@' token to start context extraction.",
            ErrorKind::UseNotAllowed => "The 'use' directive is only allowed in the block content context.",
            ErrorKind::LayoutNotAllowed => "The 'layout' directive is only allowed in the root context.",
            ErrorKind::SectionNotAllowed => "The 'section' is only allowed in the block context.",
            ErrorKind::CommentNotAllowed => "@* comments are only allowed in content context.",
            ErrorKind::ExpectedContentAfterAt => "Expected content after '@'",
            ErrorKind::RenderSectionNotAllowed => "'@render_section' can only be used in content block.",
            ErrorKind::ExpectedBlockAfterAt => "Expected '(', '{' or expression after '@'",
            ErrorKind::ExpectedWhitespaceAfterDirective => "Expected whitespace after the directive",
            ErrorKind::ExpectedDirectiveContent => "Expected content after the directive",
            ErrorKind::ExpectedCloseParenthesis => "Expected ')' to close '@render_section' parameters",
            ErrorKind::ExpectedWhitespaceAfterSection => "Expected whitespace after '@section'",
            ErrorKind::ExpectedSectionName => "Expected section name after '@section'",
            ErrorKind::ExpectedOpenBrace => "Expected '{' after the section name",
            ErrorKind::ExpectedAsterisk => "Expected '*' after '@' for comment block",
            ErrorKind::UnterminatedComment => "Unterminated comment block, expected '*@'",
            ErrorKind::ExpectedOpeningDelimiter => "Expected opening delimiter",
            ErrorKind::InlinedAtNotAllowed => "Inlined block is not allowed to use '@' token",
            ErrorKind::UnbalancedDelimiters => "Unbalanced delimiters in block",
            ErrorKind::EmptyDelimitedBlock => "Failed to parser block",
            ErrorKind::EmptyStream => "Empty stream",
            ErrorKind::EmptyBlock => "Empty block",
            ErrorKind::ExpectedAtToStartContext => "Expected '@' token to start context extraction.",
            ErrorKind::IllegalChar => "Illegal char",
            ErrorKind::WrongBlockKind => "Wrong type for crating block",
        }
    }
}

} // verus!
