//! The segment parser: maps the lexer's tokens, up to the first end-of-file
//! marker, onto flat syntax-tree nodes.

use vstd::prelude::*;

use crate::ast::{spec_nodes, Ast, AstNode, SpecAstNode};
use crate::token::{ControlFlowKind, DeferKind, SpecTokenKind, Token, TokenKind};

verus! {

/// The node a control-flow marker maps to: its keyword's spelling.
pub open spec fn spec_cf_node(kind: ControlFlowKind) -> SpecAstNode {
    match kind {
        ControlFlowKind::If => SpecAstNode::ControlFlow("@if"@),
        ControlFlowKind::ElseIf => SpecAstNode::ControlFlow("@else if"@),
        ControlFlowKind::Else => SpecAstNode::ControlFlow("@else"@),
        ControlFlowKind::For => SpecAstNode::ControlFlow("@for"@),
        ControlFlowKind::Empty => SpecAstNode::ControlFlow("@empty"@),
        ControlFlowKind::Switch => SpecAstNode::ControlFlow("@switch"@),
        ControlFlowKind::Case => SpecAstNode::ControlFlow("@case"@),
        ControlFlowKind::Default => SpecAstNode::ControlFlow("@default"@),
    }
}

/// The node a deferred-region marker maps to: its keyword's spelling.
pub open spec fn spec_defer_node(kind: DeferKind) -> SpecAstNode {
    match kind {
        DeferKind::Defer => SpecAstNode::ControlFlow("@defer"@),
        DeferKind::Placeholder => SpecAstNode::ControlFlow("@placeholder"@),
        DeferKind::Loading => SpecAstNode::ControlFlow("@loading"@),
        DeferKind::Error => SpecAstNode::ControlFlow("@error"@),
    }
}

/// The node one token maps to.
pub open spec fn spec_node_of(kind: SpecTokenKind) -> SpecAstNode {
    match kind {
        SpecTokenKind::JavaScript(code) => SpecAstNode::JavaScript(code),
        SpecTokenKind::Style(style) => SpecAstNode::Style(style),
        SpecTokenKind::HTML(content) => SpecAstNode::Html(content),
        SpecTokenKind::TemplateExpression(expr) => SpecAstNode::TemplateExpression(expr),
        SpecTokenKind::ControlFlow(k) => spec_cf_node(k),
        SpecTokenKind::Defer(k) => spec_defer_node(k),
        SpecTokenKind::Eof => SpecAstNode::EOF,
    }
}

/// The nodes of a token sequence: one per token, stopping before the first
/// end-of-file marker.
pub open spec fn spec_parse_tokens(ts: Seq<Token>, i: int) -> Seq<SpecAstNode>
    decreases ts.len() - i,
{
    if i < 0 || i >= ts.len() {
        Seq::empty()
    } else if ts[i].kind.spec() is Eof {
        Seq::empty()
    } else {
        seq![spec_node_of(ts[i].kind.spec())] + spec_parse_tokens(ts, i + 1)
    }
}

/// The segment parser: consumes a token list once.
pub struct Parser {
    tokens: Vec<Token>,
    pos: usize,
}

impl Parser {
    /// The tokens being parsed.
    pub closed spec fn tokens_view(self) -> Seq<Token> {
        self.tokens@
    }

    /// The current token index.
    pub closed spec fn at(self) -> int {
        self.pos as int
    }

    pub fn new(tokens: Vec<Token>) -> (r: Parser)
        ensures
            r.tokens_view() == tokens@,
            r.at() == 0,
    {
        Parser { tokens, pos: 0 }
    }

    /// Whether the cursor stands at the end: past the last token, or on an
    /// end-of-file marker.
    pub fn is_at_end(&self) -> (r: bool)
        ensures
            r == (self.at() >= self.tokens_view().len() || self.tokens_view()[self.at()].kind.spec()
                is Eof),
    {
        if self.pos >= self.tokens.len() {
            true
        } else {
            match &self.tokens[self.pos].kind {
                TokenKind::Eof => true,
                _ => false,
            }
        }
    }

    /// The token under the cursor, if any.
    pub fn peek(&self) -> (r: Option<&Token>)
        ensures
            self.at() < self.tokens_view().len() ==> (r matches Some(t) && *t
                == self.tokens_view()[self.at()]),
            self.at() >= self.tokens_view().len() ==> r is None,
    {
        if self.pos < self.tokens.len() {
            Some(&self.tokens[self.pos])
        } else {
            None
        }
    }

    /// The token just consumed.
    pub fn previous(&self) -> (r: &Token)
        requires
            0 < self.at() <= self.tokens_view().len(),
        ensures
            *r == self.tokens_view()[self.at() - 1],
    {
        &self.tokens[self.pos - 1]
    }

    /// Move past the current token.
    pub fn advance(&mut self)
        requires
            old(self).at() < old(self).tokens_view().len(),
        ensures
            final(self).tokens_view() == old(self).tokens_view(),
            final(self).at() == old(self).at() + 1,
    {
        let n = self.tokens.len();
        proof {
            assert(self.pos < n);
        }
        self.pos += 1;
    }

    /// The node one control-flow marker parses to.
    pub fn parse_control_flow_node(&mut self, kind: &ControlFlowKind) -> (r: AstNode)
        ensures
            r.spec() == spec_cf_node(*kind),
            final(self).tokens_view() == old(self).tokens_view(),
            final(self).at() == old(self).at(),
    {
        match kind {
            ControlFlowKind::If => AstNode::ControlFlow(String::from_str("@if")),
            ControlFlowKind::ElseIf => AstNode::ControlFlow(String::from_str("@else if")),
            ControlFlowKind::Else => AstNode::ControlFlow(String::from_str("@else")),
            ControlFlowKind::For => AstNode::ControlFlow(String::from_str("@for")),
            ControlFlowKind::Empty => AstNode::ControlFlow(String::from_str("@empty")),
            ControlFlowKind::Switch => AstNode::ControlFlow(String::from_str("@switch")),
            ControlFlowKind::Case => AstNode::ControlFlow(String::from_str("@case")),
            ControlFlowKind::Default => AstNode::ControlFlow(String::from_str("@default")),
        }
    }

    /// The node one deferred-region marker parses to.
    pub fn parse_defer_node(&mut self, kind: &DeferKind) -> (r: AstNode)
        ensures
            r.spec() == spec_defer_node(*kind),
            final(self).tokens_view() == old(self).tokens_view(),
            final(self).at() == old(self).at(),
    {
        match kind {
            DeferKind::Defer => AstNode::ControlFlow(String::from_str("@defer")),
            DeferKind::Placeholder => AstNode::ControlFlow(String::from_str("@placeholder")),
            DeferKind::Loading => AstNode::ControlFlow(String::from_str("@loading")),
            DeferKind::Error => AstNode::ControlFlow(String::from_str("@error")),
        }
    }

    /// The node the current token parses to; the cursor moves past it.
    fn parse_node(&mut self) -> (r: AstNode)
        requires
            old(self).at() < old(self).tokens_view().len(),
        ensures
            final(self).tokens_view() == old(self).tokens_view(),
            final(self).at() == old(self).at() + 1,
            r.spec() == spec_node_of(old(self).tokens_view()[old(self).at()].kind.spec()),
    {
        let kind: TokenKind = match &self.tokens[self.pos].kind {
            TokenKind::JavaScript(code) => TokenKind::JavaScript(code.clone()),
            TokenKind::Style(style) => TokenKind::Style(style.clone()),
            TokenKind::HTML(content) => TokenKind::HTML(content.clone()),
            TokenKind::TemplateExpression(e) => TokenKind::TemplateExpression(e.clone()),
            TokenKind::ControlFlow(k) => TokenKind::ControlFlow(*k),
            TokenKind::Defer(k) => TokenKind::Defer(*k),
            TokenKind::Eof => TokenKind::Eof,
        };
        self.advance();
        match kind {
            TokenKind::JavaScript(code) => AstNode::JavaScript(code),
            TokenKind::Style(style) => AstNode::Style(style),
            TokenKind::HTML(content) => AstNode::Html(content),
            TokenKind::TemplateExpression(expr) => AstNode::TemplateExpression(expr),
            TokenKind::ControlFlow(k) => self.parse_control_flow_node(&k),
            TokenKind::Defer(k) => self.parse_defer_node(&k),
            TokenKind::Eof => AstNode::EOF,
        }
    }

    /// Parse all tokens, up to the first end-of-file marker, into the flat
    /// tree: one node per token, in order.
    pub fn parse(&mut self) -> (r: Ast)
        requires
            old(self).at() == 0,
        ensures
            spec_nodes(r.nodes@) == spec_parse_tokens(old(self).tokens_view(), 0),
    {
        let ghost ts = self.tokens@;
        let mut nodes: Vec<AstNode> = Vec::new();
        proof {
            assert(spec_nodes(nodes@) =~= Seq::<SpecAstNode>::empty());
        }
        while !self.is_at_end()
            invariant
                self.tokens_view() == ts,
                0 <= self.at() <= ts.len(),
                spec_parse_tokens(ts, 0) == spec_nodes(nodes@) + spec_parse_tokens(ts, self.at()),
            decreases ts.len() - self.at(),
        {
            let ghost before = spec_nodes(nodes@);
            let ghost here = self.at();
            let node = self.parse_node();
            nodes.push(node);
            proof {
                assert(spec_nodes(nodes@) =~= before.push(spec_node_of(ts[here].kind.spec())));
                assert(spec_nodes(nodes@) + spec_parse_tokens(ts, here + 1) =~= before + (seq![
                    spec_node_of(ts[here].kind.spec()),
                ] + spec_parse_tokens(ts, here + 1)));
            }
        }
        proof {
            assert(spec_parse_tokens(ts, self.at()) =~= Seq::<SpecAstNode>::empty());
            assert(spec_nodes(nodes@) + Seq::<SpecAstNode>::empty() =~= spec_nodes(nodes@));
        }
        Ast { nodes }
    }
}

} // verus!
