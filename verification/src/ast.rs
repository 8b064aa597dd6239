//! The flat syntax tree built from segment tokens: one node per segment.

use vstd::prelude::*;

verus! {

/// One node of the segment tree.
#[derive(Clone, PartialEq, Eq, Debug)]
pub enum AstNode {
    JavaScript(String),
    Style(String),
    Html(String),
    TemplateExpression(String),
    ControlFlow(String),
    EOF,
}

/// Spec-level mirror of [`AstNode`].
#[verifier::ext_equal]
pub enum SpecAstNode {
    JavaScript(Seq<char>),
    Style(Seq<char>),
    Html(Seq<char>),
    TemplateExpression(Seq<char>),
    ControlFlow(Seq<char>),
    EOF,
}

impl AstNode {
    /// The spec-level value of this node.
    pub open spec fn spec(self) -> SpecAstNode {
        match self {
            AstNode::JavaScript(v) => SpecAstNode::JavaScript(v@),
            AstNode::Style(v) => SpecAstNode::Style(v@),
            AstNode::Html(v) => SpecAstNode::Html(v@),
            AstNode::TemplateExpression(v) => SpecAstNode::TemplateExpression(v@),
            AstNode::ControlFlow(v) => SpecAstNode::ControlFlow(v@),
            AstNode::EOF => SpecAstNode::EOF,
        }
    }
}

/// The spec-level values of a node sequence, element-wise.
pub open spec fn spec_nodes(s: Seq<AstNode>) -> Seq<SpecAstNode> {
    Seq::new(s.len(), |i: int| s[i].spec())
}

/// The whole tree: its nodes in segment order.
#[derive(Clone, PartialEq, Eq, Debug)]
pub struct Ast {
    pub nodes: Vec<AstNode>,
}

} // verus!
