//! Segment tokens produced by the mixed-content lexer: a kind carrying the
//! segment's text, and the character offsets of the whole region the segment
//! covers (delimiters included), so that consecutive tokens tile the input.

use vstd::prelude::*;

verus! {

/// One segment token: its kind (with the segment's text) and the character
/// offsets `[start, end)` of the input region it covers.
#[derive(Clone, PartialEq, Eq, Debug)]
pub struct Token {
    pub kind: TokenKind,
    pub start: usize,
    pub end: usize,
}

impl Token {
    pub fn new(kind: TokenKind, start: usize, end: usize) -> (r: Token)
        ensures
            r.kind == kind,
            r.start == start,
            r.end == end,
    {
        Token { kind, start, end }
    }

    /// The spec-level value of this token.
    pub open spec fn spec(self) -> SpecToken {
        SpecToken { kind: self.kind.spec(), start: self.start as int, end: self.end as int }
    }
}

/// The control-flow marker keywords.
#[derive(Clone, Copy, PartialEq, Eq, Structural, Debug)]
pub enum ControlFlowKind {
    If,
    ElseIf,
    Else,
    For,
    Empty,
    Switch,
    Case,
    Default,
}

/// The deferred-region marker keywords.
#[derive(Clone, Copy, PartialEq, Eq, Structural, Debug)]
pub enum DeferKind {
    Defer,
    Placeholder,
    Loading,
    Error,
}

/// What a segment token holds: script, markup or style text, a trimmed
/// interpolation expression, or a bare control-flow / deferred-region marker.
#[derive(Clone, PartialEq, Eq, Debug)]
pub enum TokenKind {
    JavaScript(String),
    HTML(String),
    Style(String),
    TemplateExpression(String),
    Defer(DeferKind),
    ControlFlow(ControlFlowKind),
    Eof,
}

impl TokenKind {
    /// The spec-level value of this kind.
    pub open spec fn spec(self) -> SpecTokenKind {
        match self {
            TokenKind::JavaScript(v) => SpecTokenKind::JavaScript(v@),
            TokenKind::HTML(v) => SpecTokenKind::HTML(v@),
            TokenKind::Style(v) => SpecTokenKind::Style(v@),
            TokenKind::TemplateExpression(v) => SpecTokenKind::TemplateExpression(v@),
            TokenKind::Defer(k) => SpecTokenKind::Defer(k),
            TokenKind::ControlFlow(k) => SpecTokenKind::ControlFlow(k),
            TokenKind::Eof => SpecTokenKind::Eof,
        }
    }
}

/// Spec-level mirror of [`TokenKind`].
#[verifier::ext_equal]
pub enum SpecTokenKind {
    JavaScript(Seq<char>),
    HTML(Seq<char>),
    Style(Seq<char>),
    TemplateExpression(Seq<char>),
    Defer(DeferKind),
    ControlFlow(ControlFlowKind),
    Eof,
}

/// Spec-level mirror of [`Token`].
#[verifier::ext_equal]
pub struct SpecToken {
    pub kind: SpecTokenKind,
    pub start: int,
    pub end: int,
}

/// A structural defect of the input that aborts lexing of the file: an opened
/// region that never closes, or a close with no matching open.  The lexer
/// returns these; it never panics.
#[derive(Clone, Copy, PartialEq, Eq, Structural, Debug)]
pub enum LexError {
    /// A `<style>` region with no matching `</style>`.
    UnterminatedStyle,
    /// A markup region whose tag nesting never returns to depth zero.
    UnterminatedMarkup,
    /// An `{{` interpolation with no closing `}}`.
    UnterminatedInterpolation,
    /// A `</...` close tag with no matching open tag.
    StrayCloseTag,
    /// A `<style>` opener nested inside a markup region.
    NestedStyle,
    /// A `{` whose brace-matched block never returns to depth zero.
    UnmatchedBrace,
}

} // verus!
