//! The positioned markup tokenizer: the same token shapes as the plain one,
//! each stamped with the line and column where it starts.  Control-flow
//! regions are the sub-reader's concern: inside a markup region an `@` is
//! ordinary text.

use vstd::prelude::*;

use crate::markup::{
    attrs_scan, char_from, lemma_attrs_scan, lemma_char_from, lemma_name_end, name_end,
    scan_attributes, scan_char, scan_name, spec_pairs_view,
};
use crate::text::{
    find_from, find_pattern, lemma_ws_end, skip_ws, starts_at, str_starts_at, trim_spec, trim_str,
    ws_end,
};

verus! {

/// A line / column position (both 1-based).
#[derive(Clone, Copy, PartialEq, Eq, Structural, Debug)]
pub struct Position {
    pub line: usize,
    pub col: usize,
}

/// The 1-based line and column of offset `i` in `s`.
pub open spec fn spec_position(s: Seq<char>, i: int) -> (int, int)
    decreases i,
{
    if i <= 0 {
        (1, 1)
    } else {
        let prev = spec_position(s, i - 1);
        if s[i - 1] == '\n' {
            (prev.0 + 1, 1)
        } else {
            (prev.0, prev.1 + 1)
        }
    }
}

pub proof fn lemma_spec_position(s: Seq<char>, i: int)
    requires
        0 <= i,
    ensures
        1 <= spec_position(s, i).0 <= i + 1,
        1 <= spec_position(s, i).1 <= i + 1,
    decreases i,
{
    if i > 0 {
        lemma_spec_position(s, i - 1);
    }
}

/// One attribute with the position of the tag it belongs to.
#[derive(PartialEq, Eq, Debug)]
pub struct Attribute {
    pub name: String,
    pub value: String,
    pub pos: Position,
}

/// A control-flow block as this token layer records it.
#[derive(PartialEq, Eq, Debug)]
pub enum ControlFlowKind {
    IfElse { condition: String, body: Vec<TokenKind>, else_body: Option<Box<ControlFlowKind>> },
    For { iterator: String, body: Vec<TokenKind> },
    Switch {
        expression: String,
        cases: Vec<(String, Vec<TokenKind>)>,
        default_case: Option<Vec<TokenKind>>,
    },
}

/// What a positioned token holds.
#[derive(PartialEq, Eq, Debug)]
pub enum TokenKind {
    StartTag { name: String, attributes: Vec<Attribute>, is_self_closing: bool },
    EndTag(String),
    Text(String),
    Comment(String),
    TemplateExpression(String),
    ControlFlow(ControlFlowKind),
}

/// One positioned token.
#[derive(PartialEq, Eq, Debug)]
pub struct Token {
    pub kind: TokenKind,
    pub pos: Position,
}

/// Spec-level mirror of [`TokenKind`]; control-flow blocks mirror
/// recursively.
#[verifier::ext_equal]
pub enum SpecTokenKind {
    StartTag { name: Seq<char>, attributes: Seq<(Seq<char>, Seq<char>)>, is_self_closing: bool },
    EndTag(Seq<char>),
    Text(Seq<char>),
    Comment(Seq<char>),
    TemplateExpression(Seq<char>),
    ControlFlow(SpecCfKind),
}

/// Spec-level mirror of [`ControlFlowKind`].
#[verifier::ext_equal]
pub enum SpecCfKind {
    IfElse { condition: Seq<char>, body: Seq<SpecTokenKind>, else_body: Option<Box<SpecCfKind>> },
    For { iterator: Seq<char>, body: Seq<SpecTokenKind> },
    Switch {
        expression: Seq<char>,
        cases: Seq<(Seq<char>, Seq<SpecTokenKind>)>,
        default_case: Option<Seq<SpecTokenKind>>,
    },
}

/// The spec-level values of a kind sequence, element-wise.
pub open spec fn spec_kinds(s: Seq<TokenKind>) -> Seq<SpecTokenKind>
    decreases s,
{
    if s.len() == 0 {
        Seq::empty()
    } else {
        seq![s[0].spec()] + spec_kinds(s.subrange(1, s.len() as int))
    }
}

/// The spec-level values of a case list, element-wise.
pub open spec fn spec_cases(s: Seq<(String, Vec<TokenKind>)>) -> Seq<(Seq<char>, Seq<
    SpecTokenKind,
>)>
    decreases s,
{
    if s.len() == 0 {
        Seq::empty()
    } else {
        seq![(s[0].0@, spec_kinds(s[0].1@))] + spec_cases(s.subrange(1, s.len() as int))
    }
}

impl TokenKind {
    /// The spec-level value of this kind.
    pub open spec fn spec(self) -> SpecTokenKind
        decreases self,
    {
        match self {
            TokenKind::StartTag { name, attributes, is_self_closing } => SpecTokenKind::StartTag {
                name: name@,
                attributes: Seq::new(
                    attributes@.len(),
                    |i: int| (attributes@[i].name@, attributes@[i].value@),
                ),
                is_self_closing,
            },
            TokenKind::EndTag(n) => SpecTokenKind::EndTag(n@),
            TokenKind::Text(t) => SpecTokenKind::Text(t@),
            TokenKind::Comment(c) => SpecTokenKind::Comment(c@),
            TokenKind::TemplateExpression(e) => SpecTokenKind::TemplateExpression(e@),
            TokenKind::ControlFlow(k) => SpecTokenKind::ControlFlow(k.spec()),
        }
    }
}

impl ControlFlowKind {
    /// The spec-level value of this block.
    pub open spec fn spec(self) -> SpecCfKind
        decreases self,
    {
        match self {
            ControlFlowKind::IfElse { condition, body, else_body } => SpecCfKind::IfElse {
                condition: condition@,
                body: spec_kinds(body@),
                else_body: match else_body {
                    Some(e) => Some(Box::new(e.spec())),
                    Option::None => Option::None,
                },
            },
            ControlFlowKind::For { iterator, body } => SpecCfKind::For {
                iterator: iterator@,
                body: spec_kinds(body@),
            },
            ControlFlowKind::Switch { expression, cases, default_case } => SpecCfKind::Switch {
                expression: expression@,
                cases: spec_cases(cases@),
                default_case: match default_case {
                    Some(d) => Some(spec_kinds(d@)),
                    Option::None => Option::None,
                },
            },
        }
    }
}

/// One tokenizing step at position `i`: the next positioned token's kind and
/// the position after it, mirroring the plain tokenizer's shapes.
pub open spec fn spec_step(s: Seq<char>, i: int) -> Option<(SpecTokenKind, int)> {
    let p = ws_end(s, i);
    if p >= s.len() {
        Option::None
    } else if starts_at(s, p, "<!--"@) {
        let f = find_from(s, p + "<!--"@.len(), "-->"@);
        if starts_at(s, f, "-->"@) {
            Some((SpecTokenKind::Comment(s.subrange(p + "<!--"@.len(), f)), f + "-->"@.len()))
        } else {
            Some((SpecTokenKind::Comment(s.subrange(p + "<!--"@.len(), s.len() as int)), s.len() as int))
        }
    } else if s[p] == '<' && p + 1 < s.len() && s[p + 1] == '/' {
        let q = char_from(s, p + 2, '>');
        let after = if q < s.len() {
            q + 1
        } else {
            s.len() as int
        };
        Some((SpecTokenKind::EndTag(s.subrange(p + 2, q)), after))
    } else if s[p] == '<' {
        let q = name_end(s, p + 1, false);
        let a = attrs_scan(s, q);
        if a.1 + 1 < s.len() && s[a.1] == '/' && s[a.1 + 1] == '>' {
            Some(
                (
                    SpecTokenKind::StartTag {
                        name: s.subrange(p + 1, q),
                        attributes: a.0,
                        is_self_closing: true,
                    },
                    a.1 + 2,
                ),
            )
        } else {
            let after = if a.1 < s.len() {
                a.1 + 1
            } else {
                s.len() as int
            };
            Some(
                (
                    SpecTokenKind::StartTag {
                        name: s.subrange(p + 1, q),
                        attributes: a.0,
                        is_self_closing: false,
                    },
                    after,
                ),
            )
        }
    } else {
        let q = char_from(s, p, '<');
        Some((SpecTokenKind::Text(trim_spec(s.subrange(p, q))), q))
    }
}

/// The positioned markup tokenizer over one input.
pub struct HtmlTokenizer {
    input: String,
    pos: usize,
}

impl HtmlTokenizer {
    /// The input being tokenized.
    pub closed spec fn src(self) -> Seq<char> {
        self.input@
    }

    /// The current position (a character offset).
    pub closed spec fn at(self) -> int {
        self.pos as int
    }

    /// The position is inside the input.
    pub closed spec fn wf(self) -> bool {
        self.pos <= self.input@.len()
    }

    pub fn new(input: &str) -> (r: HtmlTokenizer)
        ensures
            r.src() == input@,
            r.at() == 0,
            r.wf(),
    {
        HtmlTokenizer { input: String::from_str(input), pos: 0 }
    }

    /// The line and column of offset `i`.
    fn position_at(&self, i: usize) -> (r: Position)
        requires
            self.wf(),
            i <= self.src().len(),
            i < usize::MAX,
        ensures
            r.line as int == spec_position(self.src(), i as int).0,
            r.col as int == spec_position(self.src(), i as int).1,
    {
        let mut line: usize = 1;
        let mut col: usize = 1;
        let mut k: usize = 0;
        while k < i
            invariant
                k <= i,
                i <= self.src().len(),
                i < usize::MAX,
                self.wf(),
                line as int == spec_position(self.src(), k as int).0,
                col as int == spec_position(self.src(), k as int).1,
            decreases i - k,
        {
            proof {
                lemma_spec_position(self.src(), k as int);
            }
            let c = self.input.as_str().get_char(k);
            if c == '\n' {
                line += 1;
                col = 1;
            } else {
                col += 1;
            }
            k += 1;
        }
        Position { line, col }
    }

    /// Produce the next positioned token, exactly as [`spec_step`] defines
    /// at the current position, stamped with the line and column where the
    /// token starts, and advance past it.
    pub fn next_token(&mut self) -> (r: Option<Token>)
        requires
            old(self).wf(),
        ensures
            final(self).src() == old(self).src(),
            final(self).wf(),
            0 <= final(self).at() <= final(self).src().len(),
            old(self).at() <= final(self).at(),
            r matches Some(t) ==> spec_step(old(self).src(), old(self).at()) matches Some(st)
                && t.kind.spec() == st.0 && final(self).at() == st.1,
            r is None ==> spec_step(old(self).src(), old(self).at()) is None,
    {
        proof {
            reveal_strlit("<!--");
            reveal_strlit("-->");
        }
        let n = self.input.as_str().unicode_len();
        let p = skip_ws(self.input.as_str(), self.pos);
        if p >= n {
            self.pos = n;
            return None;
        }
        let pos = self.position_at(p);
        let c = self.input.as_str().get_char(p);
        if str_starts_at(self.input.as_str(), p, "<!--") {
            let f = find_pattern(self.input.as_str(), p + 4, "-->");
            if str_starts_at(self.input.as_str(), f, "-->") {
                let body = String::from_str(self.input.as_str().substring_char(p + 4, f));
                self.pos = f + 3;
                return Some(Token { kind: TokenKind::Comment(body), pos });
            } else {
                let body = String::from_str(self.input.as_str().substring_char(p + 4, n));
                self.pos = n;
                return Some(Token { kind: TokenKind::Comment(body), pos });
            }
        } else if c == '<' && p + 1 < n && self.input.as_str().get_char(p + 1) == '/' {
            let q = scan_char(self.input.as_str(), p + 2, '>');
            let name = String::from_str(self.input.as_str().substring_char(p + 2, q));
            let after = if q < n {
                q + 1
            } else {
                n
            };
            self.pos = after;
            return Some(Token { kind: TokenKind::EndTag(name), pos });
        } else if c == '<' {
            let q = scan_name(self.input.as_str(), p + 1, false);
            let (pairs, tail) = scan_attributes(self.input.as_str(), q);
            let name = String::from_str(self.input.as_str().substring_char(p + 1, q));
            let mut attributes: Vec<Attribute> = Vec::new();
            let ghost pv = spec_pairs_view(pairs@);
            let m = pairs.len();
            let mut k: usize = 0;
            proof {
                assert(Seq::new(
                    attributes@.len(),
                    |j: int| (attributes@[j].name@, attributes@[j].value@),
                ) =~= pv.subrange(0, 0));
            }
            while k < m
                invariant
                    k <= m,
                    m == pairs@.len(),
                    pv == spec_pairs_view(pairs@),
                    Seq::new(
                        attributes@.len(),
                        |j: int| (attributes@[j].name@, attributes@[j].value@),
                    ) == pv.subrange(0, k as int),
                decreases m - k,
            {
                let ghost before = Seq::new(
                    attributes@.len(),
                    |j: int| (attributes@[j].name@, attributes@[j].value@),
                );
                attributes.push(
                    Attribute { name: pairs[k].0.clone(), value: pairs[k].1.clone(), pos },
                );
                proof {
                    assert(Seq::new(
                        attributes@.len(),
                        |j: int| (attributes@[j].name@, attributes@[j].value@),
                    ) =~= before.push((pairs@[k as int].0@, pairs@[k as int].1@)));
                    assert(pv[k as int] == (pairs@[k as int].0@, pairs@[k as int].1@));
                    assert(pv.subrange(0, k + 1) =~= pv.subrange(0, k as int).push(pv[k as int]));
                }
                k += 1;
            }
            proof {
                assert(pv.subrange(0, m as int) =~= pv);
            }
            if tail < n && n - tail > 1 && self.input.as_str().get_char(tail) == '/'
                && self.input.as_str().get_char(tail + 1) == '>' {
                self.pos = tail + 2;
                return Some(
                    Token {
                        kind: TokenKind::StartTag { name, attributes, is_self_closing: true },
                        pos,
                    },
                );
            } else {
                let after = if tail < n {
                    tail + 1
                } else {
                    n
                };
                self.pos = after;
                return Some(
                    Token {
                        kind: TokenKind::StartTag { name, attributes, is_self_closing: false },
                        pos,
                    },
                );
            }
        } else {
            let q = scan_char(self.input.as_str(), p, '<');
            let text = trim_str(self.input.as_str().substring_char(p, q));
            self.pos = q;
            return Some(Token { kind: TokenKind::Text(text), pos });
        }
    }
}

} // verus!

verus! {

/// Every tokenizing step consumes at least one character.
pub proof fn lemma_spec_step_progress(s: Seq<char>, i: int)
    requires
        0 <= i <= s.len(),
    ensures
        spec_step(s, i) matches Some(st) ==> i < st.1 <= s.len(),
{
    reveal_strlit("<!--");
    reveal_strlit("-->");
    crate::text::lemma_ws_end(s, i);
    let p = ws_end(s, i);
    if p < s.len() {
        if starts_at(s, p, "<!--"@) {
            crate::text::lemma_find_from(s, p + 4, "-->"@);
        } else if s[p] == '<' && p + 1 < s.len() && s[p + 1] == '/' {
            lemma_char_from(s, p + 2, '>');
        } else if s[p] == '<' {
            lemma_name_end(s, p + 1, false);
            lemma_attrs_scan(s, name_end(s, p + 1, false));
        } else {
            lemma_char_from(s, p, '<');
            assert(char_from(s, p, '<') > p) by {
                assert(s[p] != '<');
            }
        }
    }
}

} // verus!
