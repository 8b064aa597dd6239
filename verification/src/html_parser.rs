//! The DOM builder over positioned markup tokens: start tags open elements,
//! matching end tags close them, text and comments become leaves.  An end
//! tag that matches no open element is skipped; elements still open at the
//! end of the tokens close there.

use vstd::prelude::*;

use crate::html_tokenizer::{Attribute, Position, SpecTokenKind, Token, TokenKind};

verus! {

/// One node of the document tree.
#[derive(PartialEq, Eq, Debug)]
pub enum DomNode {
    Element(ElementNode),
    Text(String, Position),
    Comment(String, Position),
}

/// An element: its tag, attributes, children, position, and whether it was
/// written self-closing.
#[derive(PartialEq, Eq, Debug)]
pub struct ElementNode {
    pub tag_name: String,
    pub attributes: Vec<Attribute>,
    pub children: Vec<DomNode>,
    pub pos: Position,
    pub is_self_closing: bool,
}

/// Spec-level mirror of [`DomNode`].
#[verifier::ext_equal]
pub enum SpecDomNode {
    Element(SpecElementNode),
    Text(Seq<char>, Position),
    Comment(Seq<char>, Position),
}

/// Spec-level mirror of [`ElementNode`].
#[verifier::ext_equal]
pub struct SpecElementNode {
    pub tag_name: Seq<char>,
    pub attributes: Seq<(Seq<char>, Seq<char>)>,
    pub children: Seq<SpecDomNode>,
    pub pos: Position,
    pub is_self_closing: bool,
}

/// The spec-level values of a node sequence, element-wise.
pub open spec fn spec_dom_nodes(s: Seq<DomNode>) -> Seq<SpecDomNode>
    decreases s,
{
    if s.len() == 0 {
        Seq::empty()
    } else {
        seq![s[0].spec()] + spec_dom_nodes(s.subrange(1, s.len() as int))
    }
}

/// Indexing [`spec_dom_nodes`]: element-wise.
pub proof fn lemma_spec_dom_nodes(s: Seq<DomNode>)
    ensures
        spec_dom_nodes(s).len() == s.len(),
        forall|i: int| 0 <= i < s.len() ==> #[trigger] spec_dom_nodes(s)[i] == s[i].spec(),
    decreases s,
{
    if s.len() > 0 {
        lemma_spec_dom_nodes(s.subrange(1, s.len() as int));
        assert forall|i: int| 0 <= i < s.len() implies #[trigger] spec_dom_nodes(s)[i]
            == s[i].spec() by {
            if i > 0 {
                assert(s.subrange(1, s.len() as int)[i - 1] == s[i]);
            }
        }
    }
}

impl DomNode {
    /// The spec-level value of this node.
    pub open spec fn spec(self) -> SpecDomNode
        decreases self,
    {
        match self {
            DomNode::Element(e) => SpecDomNode::Element(
                SpecElementNode {
                    tag_name: e.tag_name@,
                    attributes: Seq::new(
                        e.attributes@.len(),
                        |i: int| (e.attributes@[i].name@, e.attributes@[i].value@),
                    ),
                    children: spec_dom_nodes(e.children@),
                    pos: e.pos,
                    is_self_closing: e.is_self_closing,
                },
            ),
            DomNode::Text(t, p) => SpecDomNode::Text(t@, p),
            DomNode::Comment(c, p) => SpecDomNode::Comment(c@, p),
        }
    }
}

/// One open element while building: everything known so far.
#[verifier::ext_equal]
pub struct SpecFrame {
    pub tag_name: Seq<char>,
    pub attributes: Seq<(Seq<char>, Seq<char>)>,
    pub pos: Position,
    pub children: Seq<SpecDomNode>,
}

/// Close the top frame: it becomes an element appended to the nodes below.
pub open spec fn spec_close(
    stack: Seq<SpecFrame>,
    nodes: Seq<SpecDomNode>,
) -> (Seq<SpecFrame>, Seq<SpecDomNode>)
    recommends
        stack.len() > 0,
{
    let top = stack.last();
    let closed = SpecDomNode::Element(
        SpecElementNode {
            tag_name: top.tag_name,
            attributes: top.attributes,
            children: nodes,
            pos: top.pos,
            is_self_closing: false,
        },
    );
    (stack.drop_last(), top.children.push(closed))
}

/// One building step: how token `ts[i]` changes the stack of open elements
/// and the nodes collected at the current level.
pub open spec fn spec_dom_step(
    kind: SpecTokenKind,
    pos: Position,
    stack: Seq<SpecFrame>,
    nodes: Seq<SpecDomNode>,
) -> (Seq<SpecFrame>, Seq<SpecDomNode>) {
    match kind {
        SpecTokenKind::Text(t) => (stack, nodes.push(SpecDomNode::Text(t, pos))),
        SpecTokenKind::Comment(c) => (stack, nodes.push(SpecDomNode::Comment(c, pos))),
        SpecTokenKind::StartTag { name, attributes, is_self_closing } => {
            if is_self_closing {
                (
                    stack,
                    nodes.push(
                        SpecDomNode::Element(
                            SpecElementNode {
                                tag_name: name,
                                attributes,
                                children: Seq::empty(),
                                pos,
                                is_self_closing: true,
                            },
                        ),
                    ),
                )
            } else {
                (
                    stack.push(SpecFrame { tag_name: name, attributes, pos, children: nodes }),
                    Seq::empty(),
                )
            }
        },
        SpecTokenKind::EndTag(name) => {
            if stack.len() > 0 && stack.last().tag_name == name {
                spec_close(stack, nodes)
            } else {
                (stack, nodes)
            }
        },
        _ => (stack, nodes),
    }
}

/// Build over the tokens from `i` on, then close every element still open.
pub open spec fn spec_dom_build(
    ts: Seq<Token>,
    i: int,
    stack: Seq<SpecFrame>,
    nodes: Seq<SpecDomNode>,
) -> Seq<SpecDomNode>
    decreases ts.len() - i, stack.len(),
{
    if i < 0 || i >= ts.len() {
        if stack.len() == 0 {
            nodes
        } else {
            let c = spec_close(stack, nodes);
            spec_dom_build(ts, i, c.0, c.1)
        }
    } else {
        let st = spec_dom_step(ts[i].kind.spec(), ts[i].pos, stack, nodes);
        spec_dom_build(ts, i + 1, st.0, st.1)
    }
}

/// The tree a token list parses to.
pub open spec fn spec_dom(ts: Seq<Token>) -> Seq<SpecDomNode> {
    spec_dom_build(ts, 0, Seq::empty(), Seq::empty())
}

/// One open element while building (executable form).
struct Frame {
    tag_name: String,
    attributes: Vec<Attribute>,
    pos: Position,
    children: Vec<DomNode>,
}

impl Frame {
    /// The spec-level value of this frame.
    spec fn spec(self) -> SpecFrame {
        SpecFrame {
            tag_name: self.tag_name@,
            attributes: Seq::new(
                self.attributes@.len(),
                |i: int| (self.attributes@[i].name@, self.attributes@[i].value@),
            ),
            pos: self.pos,
            children: spec_dom_nodes(self.children@),
        }
    }
}

/// The spec-level values of a frame stack, element-wise.
spec fn spec_frames(s: Seq<Frame>) -> Seq<SpecFrame> {
    Seq::new(s.len(), |i: int| s[i].spec())
}

/// The DOM builder: consumes a token list once.
pub struct Parser {
    tokens: Vec<Token>,
    current: usize,
}

impl Parser {
    /// The tokens being parsed.
    pub closed spec fn tokens_view(self) -> Seq<Token> {
        self.tokens@
    }

    /// The current token index.
    pub closed spec fn at(self) -> int {
        self.current as int
    }

    pub fn new(tokens: Vec<Token>) -> (r: Parser)
        ensures
            r.tokens_view() == tokens@,
            r.at() == 0,
    {
        Parser { tokens, current: 0 }
    }

    /// Build the document tree from all tokens, exactly as [`spec_dom`]
    /// defines it.
    pub fn parse(&mut self) -> (r: Vec<DomNode>)
        requires
            old(self).at() == 0,
        ensures
            spec_dom_nodes(r@) == spec_dom(old(self).tokens_view()),
    {
        let ghost ts = self.tokens@;
        let n = self.tokens.len();
        let mut stack: Vec<Frame> = Vec::new();
        let mut nodes: Vec<DomNode> = Vec::new();
        proof {
            assert(spec_frames(stack@) =~= Seq::<SpecFrame>::empty());
            assert(spec_dom_nodes(nodes@) =~= Seq::<SpecDomNode>::empty());
        }
        while self.current < n
            invariant
                self.tokens_view() == ts,
                n == ts.len(),
                0 <= self.at() <= n,
                spec_dom(ts) == spec_dom_build(
                    ts,
                    self.at(),
                    spec_frames(stack@),
                    spec_dom_nodes(nodes@),
                ),
            decreases n - self.at(),
        {
            let ghost sframes = spec_frames(stack@);
            let ghost snodes = spec_dom_nodes(nodes@);
            let ghost here = self.at();
            let i = self.current;
            let kind_pos = self.tokens[i].pos;
            match &self.tokens[i].kind {
                TokenKind::Text(t) => {
                    let ghost nv0 = nodes@;
                    let ghost tv = t@;
                    nodes.push(DomNode::Text(t.clone(), kind_pos));
                    proof {
                        lemma_spec_dom_nodes(nv0);
                        lemma_spec_dom_nodes(nodes@);
                        assert(spec_dom_nodes(nodes@) =~= snodes.push(
                            SpecDomNode::Text(tv, kind_pos),
                        ));
                        assert(ts[here].kind.spec() == SpecTokenKind::Text(tv));
                        assert(spec_frames(stack@) == spec_dom_step(
                            ts[here].kind.spec(),
                            ts[here].pos,
                            sframes,
                            snodes,
                        ).0);
                        assert(spec_dom_nodes(nodes@) == spec_dom_step(
                            ts[here].kind.spec(),
                            ts[here].pos,
                            sframes,
                            snodes,
                        ).1);
                    }
                },
                TokenKind::Comment(c) => {
                    let ghost nv0 = nodes@;
                    let ghost cv = c@;
                    nodes.push(DomNode::Comment(c.clone(), kind_pos));
                    proof {
                        lemma_spec_dom_nodes(nv0);
                        lemma_spec_dom_nodes(nodes@);
                        assert(spec_dom_nodes(nodes@) =~= snodes.push(
                            SpecDomNode::Comment(cv, kind_pos),
                        ));
                        assert(ts[here].kind.spec() == SpecTokenKind::Comment(cv));
                        assert(spec_frames(stack@) == spec_dom_step(
                            ts[here].kind.spec(),
                            ts[here].pos,
                            sframes,
                            snodes,
                        ).0);
                        assert(spec_dom_nodes(nodes@) == spec_dom_step(
                            ts[here].kind.spec(),
                            ts[here].pos,
                            sframes,
                            snodes,
                        ).1);
                    }
                },
                TokenKind::StartTag { name, attributes, is_self_closing } => {
                    let mut attrs: Vec<Attribute> = Vec::new();
                    let m = attributes.len();
                    let mut k: usize = 0;
                    proof {
                        assert(Seq::new(
                            attrs@.len(),
                            |j: int| (attrs@[j].name@, attrs@[j].value@),
                        ) =~= Seq::new(
                            attributes@.len(),
                            |j: int| (attributes@[j].name@, attributes@[j].value@),
                        ).subrange(0, 0));
                    }
                    while k < m
                        invariant
                            k <= m,
                            m == attributes@.len(),
                            Seq::new(attrs@.len(), |j: int| (attrs@[j].name@, attrs@[j].value@))
                                == Seq::new(
                                attributes@.len(),
                                |j: int| (attributes@[j].name@, attributes@[j].value@),
                            ).subrange(0, k as int),
                        decreases m - k,
                    {
                        let ghost before = Seq::new(
                            attrs@.len(),
                            |j: int| (attrs@[j].name@, attrs@[j].value@),
                        );
                        attrs.push(
                            Attribute {
                                name: attributes[k].name.clone(),
                                value: attributes[k].value.clone(),
                                pos: attributes[k].pos,
                            },
                        );
                        proof {
                            let full = Seq::new(
                                attributes@.len(),
                                |j: int| (attributes@[j].name@, attributes@[j].value@),
                            );
                            assert(Seq::new(
                                attrs@.len(),
                                |j: int| (attrs@[j].name@, attrs@[j].value@),
                            ) =~= before.push((attributes@[k as int].name@, attributes@[
                                k as int
                            ].value@)));
                            assert(full.subrange(0, k + 1) =~= full.subrange(0, k as int).push(
                                full[k as int],
                            ));
                        }
                        k += 1;
                    }
                    proof {
                        let full = Seq::new(
                            attributes@.len(),
                            |j: int| (attributes@[j].name@, attributes@[j].value@),
                        );
                        assert(full.subrange(0, m as int) =~= full);
                    }
                    let ghost nmv = name@;
                    let ghost fullattrs = Seq::new(
                        attributes@.len(),
                        |j: int| (attributes@[j].name@, attributes@[j].value@),
                    );
                    proof {
                        assert(ts[here].kind.spec() == (SpecTokenKind::StartTag {
                            name: nmv,
                            attributes: fullattrs,
                            is_self_closing: *is_self_closing,
                        }));
                    }
                    if *is_self_closing {
                        let ghost nv0 = nodes@;
                        nodes.push(
                            DomNode::Element(
                                ElementNode {
                                    tag_name: name.clone(),
                                    attributes: attrs,
                                    children: Vec::new(),
                                    pos: kind_pos,
                                    is_self_closing: true,
                                },
                            ),
                        );
                        proof {
                            lemma_spec_dom_nodes(nv0);
                            lemma_spec_dom_nodes(nodes@);
                            assert(spec_dom_nodes(Seq::<DomNode>::empty())
                                =~= Seq::<SpecDomNode>::empty());
                            assert(spec_dom_nodes(nodes@) =~= snodes.push(
                                SpecDomNode::Element(
                                    SpecElementNode {
                                        tag_name: nmv,
                                        attributes: fullattrs,
                                        children: Seq::empty(),
                                        pos: kind_pos,
                                        is_self_closing: true,
                                    },
                                ),
                            ));
                            assert(spec_frames(stack@) == spec_dom_step(
                                ts[here].kind.spec(),
                                ts[here].pos,
                                sframes,
                                snodes,
                            ).0);
                            assert(spec_dom_nodes(nodes@) == spec_dom_step(
                                ts[here].kind.spec(),
                                ts[here].pos,
                                sframes,
                                snodes,
                            ).1);
                        }
                    } else {
                        let mut children: Vec<DomNode> = Vec::new();
                        core::mem::swap(&mut children, &mut nodes);
                        stack.push(
                            Frame {
                                tag_name: name.clone(),
                                attributes: attrs,
                                pos: kind_pos,
                                children,
                            },
                        );
                        proof {
                            assert(spec_frames(stack@) =~= sframes.push(SpecFrame {
                                tag_name: nmv,
                                attributes: fullattrs,
                                pos: kind_pos,
                                children: snodes,
                            }));
                            assert(spec_dom_nodes(nodes@) =~= Seq::<SpecDomNode>::empty());
                            assert(spec_frames(stack@) == spec_dom_step(
                                ts[here].kind.spec(),
                                ts[here].pos,
                                sframes,
                                snodes,
                            ).0);
                            assert(spec_dom_nodes(nodes@) == spec_dom_step(
                                ts[here].kind.spec(),
                                ts[here].pos,
                                sframes,
                                snodes,
                            ).1);
                        }
                    }
                },
                TokenKind::EndTag(name) => {
                    let ghost env = name@;
                    proof {
                        assert(ts[here].kind.spec() == SpecTokenKind::EndTag(env));
                    }
                    let matches_top = if stack.len() > 0 {
                        proof {
                            assert(sframes.last() == stack@.last().spec());
                        }
                        crate::text::str_eq(
                            stack[stack.len() - 1].tag_name.as_str(),
                            name.as_str(),
                        )
                    } else {
                        false
                    };
                    if matches_top {
                        let ghost nv0 = nodes@;
                        let top = stack.pop().unwrap();
                        let ghost childv = top.children@;
                        let closed = DomNode::Element(
                            ElementNode {
                                tag_name: top.tag_name,
                                attributes: top.attributes,
                                children: nodes,
                                pos: top.pos,
                                is_self_closing: false,
                            },
                        );
                        let ghost closedv = closed.spec();
                        let mut below = top.children;
                        below.push(closed);
                        nodes = below;
                        proof {
                            lemma_spec_dom_nodes(nv0);
                            lemma_spec_dom_nodes(childv);
                            lemma_spec_dom_nodes(nodes@);
                            assert(spec_frames(stack@) =~= sframes.drop_last());
                            assert(closedv == spec_close(sframes, snodes).1.last());
                            assert(spec_dom_nodes(nodes@) =~= sframes.last().children.push(
                                closedv,
                            ));
                            assert(spec_dom_nodes(nodes@) == spec_close(sframes, snodes).1);
                            assert(spec_frames(stack@) == spec_dom_step(
                                ts[here].kind.spec(),
                                ts[here].pos,
                                sframes,
                                snodes,
                            ).0);
                            assert(spec_dom_nodes(nodes@) == spec_dom_step(
                                ts[here].kind.spec(),
                                ts[here].pos,
                                sframes,
                                snodes,
                            ).1);
                        }
                    } else {
                        proof {
                            if stack@.len() > 0 {
                                assert(sframes.last() == stack@.last().spec());
                            }
                            assert(spec_dom_step(
                                ts[here].kind.spec(),
                                ts[here].pos,
                                sframes,
                                snodes,
                            ) == (sframes, snodes));
                        }
                    }
                },
                _ => {},
            }
            proof {
                assert(spec_frames(stack@) == spec_dom_step(
                    ts[here].kind.spec(),
                    ts[here].pos,
                    sframes,
                    snodes,
                ).0 && spec_dom_nodes(nodes@) == spec_dom_step(
                    ts[here].kind.spec(),
                    ts[here].pos,
                    sframes,
                    snodes,
                ).1);
            }
            self.current = i + 1;
        }
        while stack.len() > 0
            invariant
                spec_dom(ts) == spec_dom_build(
                    ts,
                    ts.len() as int,
                    spec_frames(stack@),
                    spec_dom_nodes(nodes@),
                ),
            decreases stack@.len(),
        {
            let ghost sframes = spec_frames(stack@);
            let ghost snodes = spec_dom_nodes(nodes@);
            let ghost nv0 = nodes@;
            let top = stack.pop().unwrap();
            let ghost childv = top.children@;
            let closed = DomNode::Element(
                ElementNode {
                    tag_name: top.tag_name,
                    attributes: top.attributes,
                    children: nodes,
                    pos: top.pos,
                    is_self_closing: false,
                },
            );
            let ghost closedv = closed.spec();
            let mut below = top.children;
            below.push(closed);
            nodes = below;
            proof {
                lemma_spec_dom_nodes(nv0);
                lemma_spec_dom_nodes(childv);
                lemma_spec_dom_nodes(nodes@);
                assert(spec_frames(stack@) =~= sframes.drop_last());
                assert(closedv == spec_close(sframes, snodes).1.last());
                assert(spec_dom_nodes(nodes@) =~= sframes.last().children.push(closedv));
                assert(spec_dom_nodes(nodes@) == spec_close(sframes, snodes).1);
            }
        }
        proof {
            assert(spec_frames(stack@).len() == 0);
        }
        nodes
    }
}

} // verus!
