//! The content lexer and control-flow sub-reader: splits an authoring file
//! into style, script and markup-content tokens, and — on an `@` keyword —
//! recursively captures condition/iterator/expression text and
//! brace-delimited bodies, including else-chains and case/default lists.
//! An unmatched brace or unterminated region is a reported fatal error,
//! never a panic; an unrecognized `@` is ordinary script text.

use vstd::prelude::*;

use crate::html_parser::{spec_dom, spec_dom_nodes, DomNode, Parser, SpecDomNode};
use crate::html_tokenizer::{spec_position, spec_step, HtmlTokenizer, Position, Token as HtmlToken};
use crate::markup::{char_from, lemma_char_from, scan_char};
use crate::text::{
    find_from, find_pattern, lemma_ws_end, skip_ws, starts_at, str_starts_at, trim_spec, trim_str,
    ws_end,
};
use crate::token::LexError;

verus! {

/// A parsed control-flow block.  An else-chain terminates in either a plain
/// else — written as a conditional with an empty condition — or recursively
/// another conditional; a `for` may carry fall-back content for an empty
/// iteration; a `switch` holds its cases and an optional default.
#[derive(PartialEq, Eq, Debug)]
pub enum ControlFlowContent {
    IfElse(String, Vec<HtmlContent>, Option<Box<ControlFlowContent>>),
    For(String, Vec<HtmlContent>, Option<Vec<HtmlContent>>),
    Switch(String, Vec<(String, Vec<HtmlContent>)>, Option<Vec<HtmlContent>>),
}

/// One piece of markup-level content.
#[derive(PartialEq, Eq, Debug)]
pub enum HtmlContent {
    Node(DomNode),
    TemplateExpression(String),
    ControlFlow(ControlFlowContent),
}

impl HtmlContent {
    /// The control-flow block inside, if this content is one.
    pub fn into_control_flow_content(self) -> (r: Option<ControlFlowContent>)
        ensures
            self matches HtmlContent::ControlFlow(c) ==> r == Some(c),
            !(self is ControlFlow) ==> r is None,
    {
        match self {
            HtmlContent::ControlFlow(content) => Some(content),
            _ => None,
        }
    }
}

/// One content token.
#[derive(PartialEq, Eq, Debug)]
pub enum Token {
    Style(String),
    JavaScript(String),
    HTML(Vec<HtmlContent>),
}

/// Spec-level mirror of [`ControlFlowContent`].
#[verifier::ext_equal]
pub enum SpecCfContent {
    IfElse(Seq<char>, Seq<SpecHtmlContent>, Option<Box<SpecCfContent>>),
    For(Seq<char>, Seq<SpecHtmlContent>, Option<Seq<SpecHtmlContent>>),
    Switch(
        Seq<char>,
        Seq<(Seq<char>, Seq<SpecHtmlContent>)>,
        Option<Seq<SpecHtmlContent>>,
    ),
}

/// Spec-level mirror of [`HtmlContent`].
#[verifier::ext_equal]
pub enum SpecHtmlContent {
    Node(SpecDomNode),
    TemplateExpression(Seq<char>),
    ControlFlow(SpecCfContent),
}

/// The spec-level values of a content sequence, element-wise.
pub open spec fn spec_contents(s: Seq<HtmlContent>) -> Seq<SpecHtmlContent>
    decreases s,
{
    if s.len() == 0 {
        Seq::empty()
    } else {
        seq![s[0].spec()] + spec_contents(s.subrange(1, s.len() as int))
    }
}

/// The spec-level values of a case list, element-wise.
pub open spec fn spec_cf_cases(s: Seq<(String, Vec<HtmlContent>)>) -> Seq<(Seq<char>, Seq<
    SpecHtmlContent,
>)>
    decreases s,
{
    if s.len() == 0 {
        Seq::empty()
    } else {
        seq![(s[0].0@, spec_contents(s[0].1@))] + spec_cf_cases(s.subrange(1, s.len() as int))
    }
}

impl HtmlContent {
    /// The spec-level value of this content.
    pub open spec fn spec(self) -> SpecHtmlContent
        decreases self,
    {
        match self {
            HtmlContent::Node(n) => SpecHtmlContent::Node(n.spec()),
            HtmlContent::TemplateExpression(e) => SpecHtmlContent::TemplateExpression(e@),
            HtmlContent::ControlFlow(c) => SpecHtmlContent::ControlFlow(c.spec()),
        }
    }
}

impl ControlFlowContent {
    /// The spec-level value of this block.
    pub open spec fn spec(self) -> SpecCfContent
        decreases self,
    {
        match self {
            ControlFlowContent::IfElse(c, b, e) => SpecCfContent::IfElse(
                c@,
                spec_contents(b@),
                match e {
                    Some(x) => Some(Box::new(x.spec())),
                    Option::None => Option::None,
                },
            ),
            ControlFlowContent::For(it, b, emp) => SpecCfContent::For(
                it@,
                spec_contents(b@),
                match emp {
                    Some(x) => Some(spec_contents(x@)),
                    Option::None => Option::None,
                },
            ),
            ControlFlowContent::Switch(x, cs, d) => SpecCfContent::Switch(
                x@,
                spec_cf_cases(cs@),
                match d {
                    Some(v) => Some(spec_contents(v@)),
                    Option::None => Option::None,
                },
            ),
        }
    }
}

/// The position just after the `}` closing a block whose body starts at `i`
/// at nesting `depth`; `None` when the braces never balance.
pub open spec fn block_end(s: Seq<char>, i: int, depth: int) -> Option<int>
    decreases s.len() - i,
{
    if i < 0 || i >= s.len() {
        Option::None
    } else if s[i] == '{' {
        block_end(s, i + 1, depth + 1)
    } else if s[i] == '}' {
        if depth == 1 {
            Some(i + 1)
        } else {
            block_end(s, i + 1, depth - 1)
        }
    } else {
        block_end(s, i + 1, depth)
    }
}

pub proof fn lemma_block_end(s: Seq<char>, i: int, depth: int)
    requires
        0 <= i <= s.len(),
    ensures
        block_end(s, i, depth) matches Some(e) ==> i + 1 <= e <= s.len(),
    decreases s.len() - i,
{
    if i < s.len() {
        if s[i] == '{' {
            lemma_block_end(s, i + 1, depth + 1);
        } else if s[i] == '}' {
            if depth != 1 {
                lemma_block_end(s, i + 1, depth - 1);
            }
        } else {
            lemma_block_end(s, i + 1, depth);
        }
    }
}

/// Executable brace matching: agrees with [`block_end`].
fn scan_block(s: &str, i: usize) -> (r: Option<usize>)
    requires
        i <= s@.len(),
    ensures
        r matches Some(e) ==> block_end(s@, i as int, 1) == Some(e as int) && i < e <= s@.len(),
        r is None ==> block_end(s@, i as int, 1) is None,
{
    proof {
        lemma_block_end(s@, i as int, 1);
    }
    let n = s.unicode_len();
    let mut p = i;
    let mut depth: u128 = 1;
    while p < n
        invariant
            i <= p <= n,
            n == s@.len(),
            1 <= depth,
            depth <= p + 1,
            block_end(s@, i as int, 1) == block_end(s@, p as int, depth as int),
        decreases n - p,
    {
        let c = s.get_char(p);
        if c == '{' {
            depth += 1;
        } else if c == '}' {
            if depth == 1 {
                return Some(p + 1);
            }
            depth -= 1;
        }
        p += 1;
    }
    None
}

/// A body's content: nothing for an all-whitespace block, else the trimmed
/// text as one unplaced text node.
pub open spec fn spec_block_contents(raw: Seq<char>) -> Seq<SpecHtmlContent> {
    if trim_spec(raw).len() == 0 {
        Seq::empty()
    } else {
        seq![
            SpecHtmlContent::Node(
                SpecDomNode::Text(trim_spec(raw), Position { line: 0, col: 0 }),
            ),
        ]
    }
}

/// Capture the body text of a block whose content starts at `i` (just past
/// its `{`): the content and the position after the closing `}`.
fn capture_block(s: &str, i: usize) -> (r: Option<(Vec<HtmlContent>, usize)>)
    requires
        i <= s@.len(),
    ensures
        r matches Some(p) ==> block_end(s@, i as int, 1) == Some(p.1 as int) && spec_contents(
            p.0@,
        ) == spec_block_contents(s@.subrange(i as int, p.1 - 1)) && i < p.1 <= s@.len(),
        r is None ==> block_end(s@, i as int, 1) is None,
{
    match scan_block(s, i) {
        Some(e) => {
            let raw = s.substring_char(i, e - 1);
            let content = trim_str(raw);
            let mut out: Vec<HtmlContent> = Vec::new();
            let ghost cv = content@;
            if content.as_str().unicode_len() > 0 {
                out.push(
                    HtmlContent::Node(
                        DomNode::Text(content, Position { line: 0, col: 0 }),
                    ),
                );
                proof {
                    assert(cv == trim_spec(s@.subrange(i as int, e - 1)));
                    assert(out@.len() == 1);
                    assert(out@[0].spec() == SpecHtmlContent::Node(
                        SpecDomNode::Text(cv, Position { line: 0, col: 0 }),
                    ));
                    assert(spec_contents(out@.subrange(1, 1)) =~= Seq::<SpecHtmlContent>::empty());
                    assert(out@.subrange(1, 1) =~= Seq::<HtmlContent>::empty());
                    assert(spec_contents(out@) =~= spec_block_contents(
                        s@.subrange(i as int, e - 1),
                    ));
                }
            } else {
                proof {
                    assert(cv == trim_spec(s@.subrange(i as int, e - 1)));
                    assert(trim_spec(s@.subrange(i as int, e - 1)).len() == 0);
                    assert(spec_contents(out@) =~= spec_block_contents(
                        s@.subrange(i as int, e - 1),
                    ));
                }
            }
            Some((out, e))
        },
        None => None,
    }
}

} // verus!

verus! {

/// A parsed conditional chain starting at `i` (just past the `if` keyword):
/// the block, and the position after everything consumed.  Condition text
/// runs up to the opening brace; an `@else if` continues the chain
/// recursively; a bare `@else` ends it as a conditional with an empty
/// condition.  `None` when a brace never opens or never balances.
pub open spec fn if_scan(s: Seq<char>, i: int) -> Option<(SpecCfContent, int)>
    decreases s.len() - i,
    when 0 <= i <= s.len()
    via if_scan_decreases
{
    let ce = char_from(s, i, '{');
    if ce >= s.len() {
        Option::None
    } else {
        let cond = trim_spec(s.subrange(i, ce));
        match block_end(s, ce + 1, 1) {
            Some(be) => {
                let body = spec_block_contents(s.subrange(ce + 1, be - 1));
                let w = ws_end(s, be);
                if starts_at(s, w, "@else"@) {
                    let w2 = ws_end(s, w + "@else"@.len());
                    if w2 + 1 < s.len() && s[w2] == 'i' && s[w2 + 1] == 'f' {
                        match if_scan(s, w2 + 2) {
                            Some(inner) => Some(
                                (
                                    SpecCfContent::IfElse(cond, body, Some(Box::new(inner.0))),
                                    inner.1,
                                ),
                            ),
                            Option::None => Option::None,
                        }
                    } else if w2 < s.len() && s[w2] == '{' {
                        match block_end(s, w2 + 1, 1) {
                            Some(eb) => Some(
                                (
                                    SpecCfContent::IfElse(
                                        cond,
                                        body,
                                        Some(
                                            Box::new(
                                                SpecCfContent::IfElse(
                                                    Seq::empty(),
                                                    spec_block_contents(s.subrange(w2 + 1, eb - 1)),
                                                    Option::None,
                                                ),
                                            ),
                                        ),
                                    ),
                                    eb,
                                ),
                            ),
                            Option::None => Option::None,
                        }
                    } else {
                        Option::None
                    }
                } else {
                    Some((SpecCfContent::IfElse(cond, body, Option::None), be))
                }
            },
            Option::None => Option::None,
        }
    }
}

#[via_fn]
proof fn if_scan_decreases(s: Seq<char>, i: int) {
    lemma_char_from(s, i, '{');
    let ce = char_from(s, i, '{');
    if ce < s.len() {
        lemma_block_end(s, ce + 1, 1);
        match block_end(s, ce + 1, 1) {
            Some(be) => {
                lemma_ws_end(s, be);
                let w = ws_end(s, be);
                if starts_at(s, w, "@else"@) {
                    lemma_ws_end(s, w + "@else"@.len());
                }
            },
            Option::None => {},
        }
    }
}

pub proof fn lemma_if_scan(s: Seq<char>, i: int)
    requires
        0 <= i <= s.len(),
    ensures
        if_scan(s, i) matches Some(r) ==> i < r.1 <= s.len(),
    decreases s.len() - i,
{
    lemma_char_from(s, i, '{');
    let ce = char_from(s, i, '{');
    if ce < s.len() {
        lemma_block_end(s, ce + 1, 1);
        match block_end(s, ce + 1, 1) {
            Some(be) => {
                lemma_ws_end(s, be);
                let w = ws_end(s, be);
                if starts_at(s, w, "@else"@) {
                    lemma_ws_end(s, w + "@else"@.len());
                    let w2 = ws_end(s, w + "@else"@.len());
                    if w2 + 1 < s.len() && s[w2] == 'i' && s[w2 + 1] == 'f' {
                        lemma_if_scan(s, w2 + 2);
                    } else if w2 < s.len() && s[w2] == '{' {
                        lemma_block_end(s, w2 + 1, 1);
                    }
                }
            },
            Option::None => {},
        }
    }
}

/// A parsed loop block starting at `i` (just past the `for` keyword):
/// iterator text up to the brace, the body, and — after `@empty` — the
/// fall-back content.
pub open spec fn for_scan(s: Seq<char>, i: int) -> Option<(SpecCfContent, int)> {
    let ce = char_from(s, i, '{');
    if ce >= s.len() {
        Option::None
    } else {
        let iter = trim_spec(s.subrange(i, ce));
        match block_end(s, ce + 1, 1) {
            Some(be) => {
                let body = spec_block_contents(s.subrange(ce + 1, be - 1));
                let w = ws_end(s, be);
                if starts_at(s, w, "@empty"@) {
                    let w2 = ws_end(s, w + "@empty"@.len());
                    if w2 < s.len() && s[w2] == '{' {
                        match block_end(s, w2 + 1, 1) {
                            Some(eb) => Some(
                                (
                                    SpecCfContent::For(
                                        iter,
                                        body,
                                        Some(spec_block_contents(s.subrange(w2 + 1, eb - 1))),
                                    ),
                                    eb,
                                ),
                            ),
                            Option::None => Option::None,
                        }
                    } else {
                        Option::None
                    }
                } else {
                    Some((SpecCfContent::For(iter, body, Option::None), be))
                }
            },
            Option::None => Option::None,
        }
    }
}

/// The cases of a switch from `i` on (inside the switch's braces): the case
/// list, the optional default, and the position after the switch's closing
/// brace.  A `@default` or the closing brace ends the scan.
pub open spec fn switch_cases(s: Seq<char>, i: int) -> Option<
    (Seq<(Seq<char>, Seq<SpecHtmlContent>)>, Option<Seq<SpecHtmlContent>>, int),
>
    decreases s.len() - i,
    when 0 <= i <= s.len()
    via switch_cases_decreases
{
    let w = ws_end(s, i);
    if starts_at(s, w, "@case"@) {
        let ce = char_from(s, w + "@case"@.len(), '{');
        if ce >= s.len() {
            Option::None
        } else {
            let cexpr = trim_spec(s.subrange(w + "@case"@.len(), ce));
            match block_end(s, ce + 1, 1) {
                Some(be) => {
                    let body = spec_block_contents(s.subrange(ce + 1, be - 1));
                    match switch_cases(s, be) {
                        Some(rest) => Some((seq![(cexpr, body)] + rest.0, rest.1, rest.2)),
                        Option::None => Option::None,
                    }
                },
                Option::None => Option::None,
            }
        }
    } else if starts_at(s, w, "@default"@) {
        let w2 = ws_end(s, w + "@default"@.len());
        if w2 < s.len() && s[w2] == '{' {
            match block_end(s, w2 + 1, 1) {
                Some(be) => {
                    let body = spec_block_contents(s.subrange(w2 + 1, be - 1));
                    let w3 = ws_end(s, be);
                    if w3 < s.len() && s[w3] == '}' {
                        Some((Seq::empty(), Some(body), w3 + 1))
                    } else {
                        Option::None
                    }
                },
                Option::None => Option::None,
            }
        } else {
            Option::None
        }
    } else if w < s.len() && s[w] == '}' {
        Some((Seq::empty(), Option::None, w + 1))
    } else {
        Option::None
    }
}

#[via_fn]
proof fn switch_cases_decreases(s: Seq<char>, i: int) {
    lemma_ws_end(s, i);
    let w = ws_end(s, i);
    if starts_at(s, w, "@case"@) {
        lemma_char_from(s, w + "@case"@.len(), '{');
        let ce = char_from(s, w + "@case"@.len(), '{');
        if ce < s.len() {
            lemma_block_end(s, ce + 1, 1);
        }
        reveal_strlit("@case");
    }
}

pub proof fn lemma_switch_cases(s: Seq<char>, i: int)
    requires
        0 <= i <= s.len(),
    ensures
        switch_cases(s, i) matches Some(r) ==> i < r.2 <= s.len(),
    decreases s.len() - i,
{
    reveal_strlit("@case");
    reveal_strlit("@default");
    lemma_ws_end(s, i);
    let w = ws_end(s, i);
    if starts_at(s, w, "@case"@) {
        lemma_char_from(s, w + "@case"@.len(), '{');
        let ce = char_from(s, w + "@case"@.len(), '{');
        if ce < s.len() {
            lemma_block_end(s, ce + 1, 1);
            match block_end(s, ce + 1, 1) {
                Some(be) => {
                    lemma_switch_cases(s, be);
                },
                Option::None => {},
            }
        }
    } else if starts_at(s, w, "@default"@) {
        lemma_ws_end(s, w + "@default"@.len());
        let w2 = ws_end(s, w + "@default"@.len());
        if w2 < s.len() && s[w2] == '{' {
            lemma_block_end(s, w2 + 1, 1);
            match block_end(s, w2 + 1, 1) {
                Some(be) => {
                    lemma_ws_end(s, be);
                },
                Option::None => {},
            }
        }
    }
}

/// A parsed switch block starting at `i` (just past the `switch` keyword).
pub open spec fn switch_scan(s: Seq<char>, i: int) -> Option<(SpecCfContent, int)> {
    let ce = char_from(s, i, '{');
    if ce >= s.len() {
        Option::None
    } else {
        let expr = trim_spec(s.subrange(i, ce));
        match switch_cases(s, ce + 1) {
            Some(r) => Some((SpecCfContent::Switch(expr, r.0, r.1), r.2)),
            Option::None => Option::None,
        }
    }
}

} // verus!

verus! {

/// Read a conditional chain: the executable form of [`if_scan`].
fn parse_if(s: &str, i: usize) -> (r: Result<(ControlFlowContent, usize), LexError>)
    requires
        i <= s@.len(),
    ensures
        r matches Ok(p) ==> if_scan(s@, i as int) matches Some(sp) && p.0.spec() == sp.0
            && p.1 as int == sp.1 && i < p.1 <= s@.len(),
        r matches Err(e) ==> if_scan(s@, i as int) is None && e == LexError::UnmatchedBrace,
    decreases s@.len() - i,
{
    proof {
        lemma_if_scan(s@, i as int);
        reveal_with_fuel(ControlFlowContent::spec, 3);
    }
    let n = s.unicode_len();
    let ce = scan_char(s, i, '{');
    if ce >= n {
        return Err(LexError::UnmatchedBrace);
    }
    let cond = trim_str(s.substring_char(i, ce));
    match capture_block(s, ce + 1) {
        Some((body, be)) => {
            let w = skip_ws(s, be);
            if str_starts_at(s, w, "@else") {
                proof {
                    reveal_strlit("@else");
                }
                let w2 = skip_ws(s, w + 5);
                if w2 < n && n - w2 > 1 && s.get_char(w2) == 'i' && s.get_char(w2 + 1) == 'f' {
                    match parse_if(s, w2 + 2) {
                        Ok((inner, end)) => Ok(
                            (
                                ControlFlowContent::IfElse(
                                    cond,
                                    body,
                                    Some(Box::new(inner)),
                                ),
                                end,
                            ),
                        ),
                        Err(e) => Err(e),
                    }
                } else if w2 < n && s.get_char(w2) == '{' {
                    match capture_block(s, w2 + 1) {
                        Some((else_body, eb)) => Ok(
                            (
                                ControlFlowContent::IfElse(
                                    cond,
                                    body,
                                    Some(
                                        Box::new(
                                            ControlFlowContent::IfElse(
                                                String::new(),
                                                else_body,
                                                None,
                                            ),
                                        ),
                                    ),
                                ),
                                eb,
                            ),
                        ),
                        None => Err(LexError::UnmatchedBrace),
                    }
                } else {
                    Err(LexError::UnmatchedBrace)
                }
            } else {
                Ok((ControlFlowContent::IfElse(cond, body, None), be))
            }
        },
        None => Err(LexError::UnmatchedBrace),
    }
}

/// Read a loop block: the executable form of [`for_scan`].
fn parse_for(s: &str, i: usize) -> (r: Result<(ControlFlowContent, usize), LexError>)
    requires
        i <= s@.len(),
    ensures
        r matches Ok(p) ==> for_scan(s@, i as int) matches Some(sp) && p.0.spec() == sp.0
            && p.1 as int == sp.1 && i < p.1 <= s@.len(),
        r matches Err(e) ==> for_scan(s@, i as int) is None && e == LexError::UnmatchedBrace,
{
    proof {
        lemma_char_from(s@, i as int, '{');
    }
    let n = s.unicode_len();
    let ce = scan_char(s, i, '{');
    if ce >= n {
        return Err(LexError::UnmatchedBrace);
    }
    let iterator = trim_str(s.substring_char(i, ce));
    match capture_block(s, ce + 1) {
        Some((body, be)) => {
            let w = skip_ws(s, be);
            if str_starts_at(s, w, "@empty") {
                proof {
                    reveal_strlit("@empty");
                }
                let w2 = skip_ws(s, w + 6);
                if w2 < n && s.get_char(w2) == '{' {
                    match capture_block(s, w2 + 1) {
                        Some((empty_body, eb)) => Ok(
                            (
                                ControlFlowContent::For(iterator, body, Some(empty_body)),
                                eb,
                            ),
                        ),
                        None => Err(LexError::UnmatchedBrace),
                    }
                } else {
                    Err(LexError::UnmatchedBrace)
                }
            } else {
                Ok((ControlFlowContent::For(iterator, body, None), be))
            }
        },
        None => Err(LexError::UnmatchedBrace),
    }
}

/// Read a switch's cases: the executable form of [`switch_cases`].
fn parse_switch_cases(s: &str, i: usize) -> (r: Result<
    (Vec<(String, Vec<HtmlContent>)>, Option<Vec<HtmlContent>>, usize),
    LexError,
>)
    requires
        i <= s@.len(),
    ensures
        r matches Ok(p) ==> switch_cases(s@, i as int) matches Some(sp) && spec_cf_cases(p.0@)
            == sp.0 && (match (p.1, sp.1) {
            (Some(d), Some(sd)) => spec_contents(d@) == sd,
            (Option::<Vec<HtmlContent>>::None, Option::<Seq<SpecHtmlContent>>::None) => true,
            _ => false,
        }) && p.2 as int == sp.2 && i < p.2 <= s@.len(),
        r matches Err(e) ==> switch_cases(s@, i as int) is None && e == LexError::UnmatchedBrace,
    decreases s@.len() - i,
{
    proof {
        lemma_switch_cases(s@, i as int);
        reveal_strlit("@case");
        reveal_strlit("@default");
    }
    let n = s.unicode_len();
    let w = skip_ws(s, i);
    if str_starts_at(s, w, "@case") {
        let ce = scan_char(s, w + 5, '{');
        if ce >= n {
            return Err(LexError::UnmatchedBrace);
        }
        let cexpr = trim_str(s.substring_char(w + 5, ce));
        match capture_block(s, ce + 1) {
            Some((body, be)) => {
                match parse_switch_cases(s, be) {
                    Ok((rest, d, end)) => {
                        let ghost cv = cexpr@;
                        let ghost bv = spec_contents(body@);
                        let ghost restv = spec_cf_cases(rest@);
                        let mut cases: Vec<(String, Vec<HtmlContent>)> = Vec::new();
                        cases.push((cexpr, body));
                        let mut rest = rest;
                        proof {
                            lemma_cf_cases_index(cases@);
                            assert(spec_cf_cases(cases@) =~= seq![(cv, bv)]);
                        }
                        while rest.len() > 0
                            invariant
                                spec_cf_cases(cases@) + spec_cf_cases(rest@) =~= seq![
                                    (cv, bv),
                                ] + restv,
                            decreases rest@.len(),
                        {
                            let ghost c0 = spec_cf_cases(cases@);
                            let ghost cval0 = cases@;
                            let ghost r0 = rest@;
                            let head = rest.remove(0);
                            let ghost hv = (head.0@, spec_contents(head.1@));
                            cases.push(head);
                            proof {
                                lemma_cf_cases_index(cval0);
                                lemma_cf_cases_index(r0);
                                lemma_cf_cases_index(rest@);
                                lemma_cf_cases_index(cases@);
                                assert(rest@ =~= r0.subrange(1, r0.len() as int));
                                assert(spec_cf_cases(cases@) =~= c0.push(hv));
                                assert(spec_cf_cases(r0) =~= seq![hv] + spec_cf_cases(rest@));
                                assert(spec_cf_cases(cases@) + spec_cf_cases(rest@) =~= c0 + (
                                seq![hv] + spec_cf_cases(rest@)));
                            }
                        }
                        proof {
                            assert(spec_cf_cases(rest@) =~= Seq::<(Seq<char>, Seq<
                                SpecHtmlContent,
                            >)>::empty());
                            assert(spec_cf_cases(cases@) =~= seq![(cv, bv)] + restv);
                        }
                        Ok((cases, d, end))
                    },
                    Err(e) => Err(e),
                }
            },
            None => Err(LexError::UnmatchedBrace),
        }
    } else if str_starts_at(s, w, "@default") {
        let w2 = skip_ws(s, w + 8);
        if w2 < n && s.get_char(w2) == '{' {
            match capture_block(s, w2 + 1) {
                Some((body, be)) => {
                    let w3 = skip_ws(s, be);
                    if w3 < n && s.get_char(w3) == '}' {
                        let empty_cases: Vec<(String, Vec<HtmlContent>)> = Vec::new();
                        proof {
                            assert(spec_cf_cases(empty_cases@) =~= Seq::<(Seq<char>, Seq<
                                SpecHtmlContent,
                            >)>::empty());
                        }
                        Ok((empty_cases, Some(body), w3 + 1))
                    } else {
                        Err(LexError::UnmatchedBrace)
                    }
                },
                None => Err(LexError::UnmatchedBrace),
            }
        } else {
            Err(LexError::UnmatchedBrace)
        }
    } else if w < n && s.get_char(w) == '}' {
        let empty_cases: Vec<(String, Vec<HtmlContent>)> = Vec::new();
        proof {
            assert(spec_cf_cases(empty_cases@) =~= Seq::<(Seq<char>, Seq<
                SpecHtmlContent,
            >)>::empty());
        }
        Ok((empty_cases, None, w + 1))
    } else {
        Err(LexError::UnmatchedBrace)
    }
}

/// Indexing [`spec_cf_cases`]: element-wise.
proof fn lemma_cf_cases_index(s: Seq<(String, Vec<HtmlContent>)>)
    ensures
        spec_cf_cases(s).len() == s.len(),
        forall|i: int| 0 <= i < s.len() ==> #[trigger] spec_cf_cases(s)[i] == (s[i].0@,
        spec_contents(s[i].1@)),
    decreases s,
{
    if s.len() > 0 {
        lemma_cf_cases_index(s.subrange(1, s.len() as int));
        assert forall|i: int| 0 <= i < s.len() implies #[trigger] spec_cf_cases(s)[i] == (s[i].0@,
        spec_contents(s[i].1@)) by {
            if i > 0 {
                assert(s.subrange(1, s.len() as int)[i - 1] == s[i]);
            }
        }
    }
}

/// Read a switch block: the executable form of [`switch_scan`].
fn parse_switch(s: &str, i: usize) -> (r: Result<(ControlFlowContent, usize), LexError>)
    requires
        i <= s@.len(),
    ensures
        r matches Ok(p) ==> switch_scan(s@, i as int) matches Some(sp) && p.0.spec() == sp.0
            && p.1 as int == sp.1 && i < p.1 <= s@.len(),
        r matches Err(e) ==> switch_scan(s@, i as int) is None && e == LexError::UnmatchedBrace,
{
    proof {
        lemma_char_from(s@, i as int, '{');
    }
    let n = s.unicode_len();
    let ce = scan_char(s, i, '{');
    if ce >= n {
        return Err(LexError::UnmatchedBrace);
    }
    let expression = trim_str(s.substring_char(i, ce));
    proof {
        lemma_switch_cases(s@, ce + 1);
    }
    match parse_switch_cases(s, ce + 1) {
        Ok((cases, d, end)) => Ok((ControlFlowContent::Switch(expression, cases, d), end)),
        Err(e) => Err(e),
    }
}

} // verus!

verus! {

/// Where a plain text run starting at `i` ends: at `<`, `{{`, `@`, or the
/// end of `s`.
pub open spec fn text_end(s: Seq<char>, i: int) -> int
    decreases s.len() - i,
{
    if i < 0 || i >= s.len() {
        s.len() as int
    } else if s[i] == '<' || s[i] == '@' || (s[i] == '{' && i + 1 < s.len() && s[i + 1] == '{') {
        i
    } else {
        text_end(s, i + 1)
    }
}

pub proof fn lemma_text_end(s: Seq<char>, i: int)
    requires
        0 <= i <= s.len(),
    ensures
        i <= text_end(s, i) <= s.len(),
    decreases s.len() - i,
{
    if i < s.len() && !(s[i] == '<' || s[i] == '@' || (s[i] == '{' && i + 1 < s.len() && s[i + 1]
        == '{')) {
        lemma_text_end(s, i + 1);
    }
}

/// Executable text scan matching [`text_end`].
fn scan_text(s: &str, i: usize) -> (j: usize)
    requires
        i <= s@.len(),
    ensures
        j == text_end(s@, i as int),
        i <= j <= s@.len(),
{
    proof {
        lemma_text_end(s@, i as int);
    }
    let n = s.unicode_len();
    let mut p = i;
    loop
        invariant
            i <= p <= n,
            n == s@.len(),
            text_end(s@, i as int) == text_end(s@, p as int),
        decreases n - p,
    {
        if p >= n {
            return n;
        }
        let c = s.get_char(p);
        if c == '<' || c == '@' || (c == '{' && p + 1 < n && s.get_char(p + 1) == '{') {
            return p;
        }
        p += 1;
    }
}

/// Tokens `toks` are exactly what stepping the positioned tokenizer from
/// `i` through `end` produces.
pub open spec fn matched_through(s: Seq<char>, i: int, toks: Seq<HtmlToken>, end: int) -> bool
    decreases toks.len(),
{
    if toks.len() == 0 {
        end == i
    } else {
        spec_step(s, i) matches Some(st) && toks[0].kind.spec() == st.0 && matched_through(
            s,
            st.1,
            toks.drop_first(),
            end,
        )
    }
}

/// Tokens `toks` are the positioned tokenizer's complete output for `s`.
pub open spec fn tokenized(s: Seq<char>, toks: Seq<HtmlToken>) -> bool {
    exists|end: int|
        #[trigger] matched_through(s, 0, toks, end) && spec_step(s, end) is None
}

/// One more produced token extends a match.
proof fn lemma_matched_snoc(
    s: Seq<char>,
    i: int,
    toks: Seq<HtmlToken>,
    e: int,
    t: HtmlToken,
    e2: int,
)
    requires
        matched_through(s, i, toks, e),
        spec_step(s, e) matches Some(st) && t.kind.spec() == st.0 && st.1 == e2,
    ensures
        matched_through(s, i, toks.push(t), e2),
    decreases toks.len(),
{
    if toks.len() == 0 {
        assert(toks.push(t)[0] == t);
        assert(toks.push(t).drop_first() =~= Seq::<HtmlToken>::empty());
        assert(matched_through(s, e2, Seq::<HtmlToken>::empty(), e2));
    } else {
        let st0 = spec_step(s, i);
        match st0 {
            Some(p0) => {
                lemma_matched_snoc(s, p0.1, toks.drop_first(), e, t, e2);
            },
            Option::None => {},
        }
        assert(toks.push(t)[0] == toks[0]);
        assert(toks.push(t).drop_first() =~= toks.drop_first().push(t));
    }
}

/// Nodes wrapped as markup-level content, element-wise.
pub open spec fn spec_wrap_nodes(ns: Seq<SpecDomNode>) -> Seq<SpecHtmlContent> {
    Seq::new(ns.len(), |i: int| SpecHtmlContent::Node(ns[i]))
}

/// Indexing [`spec_contents`]: element-wise.
pub proof fn lemma_spec_contents(s: Seq<HtmlContent>)
    ensures
        spec_contents(s).len() == s.len(),
        forall|i: int| 0 <= i < s.len() ==> #[trigger] spec_contents(s)[i] == s[i].spec(),
    decreases s,
{
    if s.len() > 0 {
        lemma_spec_contents(s.subrange(1, s.len() as int));
        assert forall|i: int| 0 <= i < s.len() implies #[trigger] spec_contents(s)[i]
            == s[i].spec() by {
            if i > 0 {
                assert(s.subrange(1, s.len() as int)[i - 1] == s[i]);
            }
        }
    }
}

/// A markup segment's parsed content: the document nodes of some complete
/// tokenization of the segment, in order, wrapped as content.
pub open spec fn segment_content(seg: Seq<char>, cs: Seq<SpecHtmlContent>) -> bool {
    exists|toks: Seq<HtmlToken>|
        #[trigger] tokenized(seg, toks) && cs == spec_wrap_nodes(spec_dom(toks))
}

/// The content lexer over one input: repeated calls of
/// [`Lexer::next_token`] produce the input's content tokens in order.
pub struct Lexer {
    input: String,
    pos: usize,
}

impl Lexer {
    /// The input being scanned.
    pub closed spec fn src(self) -> Seq<char> {
        self.input@
    }

    /// The current scan position (a character offset).
    pub closed spec fn at(self) -> int {
        self.pos as int
    }

    /// The position is inside the input.
    pub closed spec fn wf(self) -> bool {
        self.pos <= self.input@.len()
    }

    pub fn new(input: &str) -> (r: Lexer)
        ensures
            r.src() == input@,
            r.at() == 0,
            r.wf(),
    {
        Lexer { input: String::from_str(input), pos: 0 }
    }

    /// Lex one markup segment starting at the `<` at `p`: the segment runs
    /// to where tag nesting returns to depth zero; its text is tokenized and
    /// parsed into document nodes.
    fn parse_html_segment(&mut self, p: usize) -> (r: Result<Token, LexError>)
        requires
            old(self).wf(),
            p < old(self).src().len(),
        ensures
            final(self).src() == old(self).src(),
            final(self).wf(),
            r matches Ok(t) ==> crate::lexer::markup_scan(
                old(self).src(),
                p as int,
                0,
                crate::lexer::MarkupPhase::Content,
            ) matches crate::lexer::ScanEnd::Done(e) && t matches Token::HTML(cs)
                && segment_content(
                old(self).src().subrange(p as int, e),
                spec_contents(cs@),
            ) && final(self).at() == e,
            r matches Err(err) ==> crate::lexer::markup_scan(
                old(self).src(),
                p as int,
                0,
                crate::lexer::MarkupPhase::Content,
            ) == crate::lexer::ScanEnd::Fail(err) && final(self).at() == old(self).at(),
    {
        match crate::lexer::scan_markup(self.input.as_str(), p) {
            Ok(e) => {
                let seg = String::from_str(self.input.as_str().substring_char(p, e));
                let ghost segv = seg@;
                let mut tk = HtmlTokenizer::new(seg.as_str());
                let mut toks: Vec<HtmlToken> = Vec::new();
                proof {
                    assert(matched_through(segv, 0, toks@, tk.at()));
                }
                let mut done = false;
                while !done
                    invariant
                        tk.src() == segv,
                        tk.wf(),
                        0 <= tk.at() <= segv.len(),
                        !done ==> matched_through(segv, 0, toks@, tk.at()),
                        done ==> tokenized(segv, toks@),
                    decreases segv.len() - tk.at() + (if done {
                        0int
                    } else {
                        1int
                    }),
                {
                    let ghost here = tk.at();
                    let ghost toks0 = toks@;
                    proof {
                        crate::html_tokenizer::lemma_spec_step_progress(segv, here);
                    }
                    match tk.next_token() {
                        Some(t) => {
                            let ghost e2 = tk.at();
                            proof {
                                lemma_matched_snoc(segv, 0, toks0, here, t, e2);
                            }
                            toks.push(t);
                        },
                        None => {
                            proof {
                                assert(spec_step(segv, here) is None);
                                assert(tokenized(segv, toks@)) by {
                                    assert(matched_through(segv, 0, toks@, here)
                                        && spec_step(segv, here) is None);
                                }
                            }
                            done = true;
                        },
                    }
                }
                let ghost toksv = toks@;
                let mut pr = Parser::new(toks);
                let nodes = pr.parse();
                let ghost nodesv = spec_dom_nodes(nodes@);
                let mut cs: Vec<HtmlContent> = Vec::new();
                let mut nodes = nodes;
                proof {
                    crate::html_parser::lemma_spec_dom_nodes(nodes@);
                    lemma_spec_contents(cs@);
                    assert(spec_contents(cs@) =~= spec_wrap_nodes(nodesv).subrange(0, 0));
                }
                while nodes.len() > 0
                    invariant
                        spec_dom_nodes(nodes@) == nodesv.subrange(
                            nodesv.len() - nodes@.len(),
                            nodesv.len() as int,
                        ),
                        nodes@.len() <= nodesv.len(),
                        spec_contents(cs@) == spec_wrap_nodes(nodesv).subrange(
                            0,
                            nodesv.len() - nodes@.len(),
                        ),
                    decreases nodes@.len(),
                {
                    let ghost nrem = nodes@;
                    let ghost csv0 = spec_contents(cs@);
                    let nd = nodes.remove(0);
                    let ghost ndv = nd.spec();
                    proof {
                        crate::html_parser::lemma_spec_dom_nodes(nrem);
                        crate::html_parser::lemma_spec_dom_nodes(nodes@);
                        assert(nodes@ =~= nrem.subrange(1, nrem.len() as int));
                        assert(spec_dom_nodes(nrem) == nodesv.subrange(
                            nodesv.len() - nrem.len(),
                            nodesv.len() as int,
                        ));
                        assert(spec_dom_nodes(nrem)[0] == nrem[0].spec());
                        assert(ndv == nodesv[nodesv.len() - nrem.len()]);
                        assert forall|j: int|
                            0 <= j < nodes@.len() implies spec_dom_nodes(nodes@)[j]
                            == nodesv.subrange(
                            nodesv.len() - nodes@.len(),
                            nodesv.len() as int,
                        )[j] by {
                            assert(nodes@[j] == nrem[j + 1]);
                            assert(spec_dom_nodes(nrem)[j + 1] == nrem[j + 1].spec());
                        }
                        assert(spec_dom_nodes(nodes@) =~= nodesv.subrange(
                            nodesv.len() - nodes@.len(),
                            nodesv.len() as int,
                        ));
                    }
                    let ghost cs0 = cs@;
                    cs.push(HtmlContent::Node(nd));
                    proof {
                        lemma_spec_contents(cs0);
                        lemma_spec_contents(cs@);
                        assert(spec_contents(cs@) =~= csv0.push(SpecHtmlContent::Node(ndv)));
                        assert(spec_wrap_nodes(nodesv).subrange(
                            0,
                            nodesv.len() - nodes@.len(),
                        ) =~= spec_wrap_nodes(nodesv).subrange(
                            0,
                            nodesv.len() - nrem.len(),
                        ).push(SpecHtmlContent::Node(ndv)));
                    }
                }
                proof {
                    assert(spec_wrap_nodes(nodesv).subrange(0, nodesv.len() as int)
                        =~= spec_wrap_nodes(nodesv));
                    assert(spec_contents(cs@) == spec_wrap_nodes(spec_dom(toksv)));
                    assert(segment_content(segv, spec_contents(cs@))) by {
                        assert(tokenized(segv, toksv) && spec_contents(cs@) == spec_wrap_nodes(
                            spec_dom(toksv),
                        ));
                    }
                }
                self.pos = e;
                Ok(Token::HTML(cs))
            },
            Err(err) => Err(err),
        }
    }
}

} // verus!

verus! {

/// A matched pattern pins the characters under it.
proof fn lemma_starts_chars(s: Seq<char>, p: int, pat: Seq<char>)
    requires
        starts_at(s, p, pat),
    ensures
        forall|k: int| 0 <= k < pat.len() ==> s[p + k] == #[trigger] pat[k],
        pat.len() > 0 ==> s[p] == pat[0],
        pat.len() > 1 ==> s[p + 1] == pat[1],
{
    assert forall|k: int| 0 <= k < pat.len() implies s[p + k] == #[trigger] pat[k] by {
        assert(s.subrange(p, p + pat.len())[k] == s[p + k]);
    }
    if pat.len() > 0 {
        assert(s.subrange(p, p + pat.len())[0] == s[p]);
    }
    if pat.len() > 1 {
        assert(s.subrange(p, p + pat.len())[1] == s[p + 1]);
    }
}

impl Lexer {
    /// Produce the next content token, `Ok(None)` at end of input, or the
    /// fatal structural error the input forces.  The dispatch, after
    /// skipping whitespace: a `<style>` region (to its matching close), any
    /// other `<` a markup segment, `{{` an interpolation (quoting honoured),
    /// `@if`/`@for`/`@switch` a control-flow block through the sub-reader,
    /// `---` a fenced script region, and anything else — an unrecognized
    /// `@` included — plain script text up to the next region start.
    #[verifier::rlimit(100)]
    pub fn next_token(&mut self) -> (r: Result<Option<Token>, LexError>)
        requires
            old(self).wf(),
        ensures
            final(self).src() == old(self).src(),
            final(self).wf(),
            0 <= final(self).at() <= final(self).src().len(),
            ({
                let s = old(self).src();
                let p = ws_end(s, old(self).at());
                (p >= s.len() ==> r == Result::<Option<Token>, LexError>::Ok(Option::<
                    Token,
                >::None) && final(self).at() == s.len())
            }),
            r matches Ok(ot) ==> (ot matches Some(t) ==> content_token_at(
                old(self).src(),
                old(self).at(),
                t.spec(),
                final(self).at(),
            ) && old(self).at() < final(self).at()),
            r matches Err(e) ==> content_fail_at(old(self).src(), old(self).at(), e),
            ({
                let s = old(self).src();
                let p = ws_end(s, old(self).at());
                (p < s.len() && starts_at(s, p, "<style>"@) ==> {
                    let close = find_from(s, p + "<style>"@.len(), "</style>"@);
                    if starts_at(s, close, "</style>"@) {
                        r matches Ok(ot) && ot matches Some(t) && (t matches Token::Style(v)
                            && v@ == s.subrange(p + "<style>"@.len(), close)) && final(self).at()
                            == close + "</style>"@.len()
                    } else {
                        r == Result::<Option<Token>, LexError>::Err(LexError::UnterminatedStyle)
                    }
                })
            }),
            ({
                let s = old(self).src();
                let p = ws_end(s, old(self).at());
                (p < s.len() && !starts_at(s, p, "<style>"@) && s[p] == '<' ==> (
                match crate::lexer::markup_scan(s, p, 0, crate::lexer::MarkupPhase::Content) {
                    crate::lexer::ScanEnd::Done(e) => r matches Ok(ot) && ot matches Some(t) && (
                    t matches Token::HTML(cs) && segment_content(
                        s.subrange(p, e),
                        spec_contents(cs@),
                    )) && final(self).at() == e,
                    crate::lexer::ScanEnd::Fail(err) => r == Result::<
                        Option<Token>,
                        LexError,
                    >::Err(err),
                }))
            }),
            ({
                let s = old(self).src();
                let p = ws_end(s, old(self).at());
                (p < s.len() && s[p] == '{' && p + 1 < s.len() && s[p + 1] == '{' ==> (
                match crate::lexer::interp_scan(s, p + 2, crate::lexer::InterpMode::Plain) {
                    Some(cb) => r matches Ok(ot) && ot matches Some(t) && (t matches Token::HTML(
                        cs,
                    ) && spec_contents(cs@) == seq![
                        SpecHtmlContent::TemplateExpression(trim_spec(s.subrange(p + 2, cb))),
                    ]) && final(self).at() == cb + 2,
                    Option::None => r == Result::<Option<Token>, LexError>::Err(
                        LexError::UnterminatedInterpolation,
                    ),
                }))
            }),
            ({
                let s = old(self).src();
                let p = ws_end(s, old(self).at());
                (p < s.len() && cf_keyword_at(s, p, "@if"@) ==> (match if_scan(
                    s,
                    p + "@if"@.len(),
                ) {
                    Some(sp) => r matches Ok(ot) && ot matches Some(t) && (t matches Token::HTML(
                        cs,
                    ) && spec_contents(cs@) == seq![SpecHtmlContent::ControlFlow(sp.0)])
                        && final(self).at() == sp.1,
                    Option::None => r == Result::<Option<Token>, LexError>::Err(
                        LexError::UnmatchedBrace,
                    ),
                }))
            }),
            ({
                let s = old(self).src();
                let p = ws_end(s, old(self).at());
                (p < s.len() && cf_keyword_at(s, p, "@for"@) ==> (match for_scan(
                    s,
                    p + "@for"@.len(),
                ) {
                    Some(sp) => r matches Ok(ot) && ot matches Some(t) && (t matches Token::HTML(
                        cs,
                    ) && spec_contents(cs@) == seq![SpecHtmlContent::ControlFlow(sp.0)])
                        && final(self).at() == sp.1,
                    Option::None => r == Result::<Option<Token>, LexError>::Err(
                        LexError::UnmatchedBrace,
                    ),
                }))
            }),
            ({
                let s = old(self).src();
                let p = ws_end(s, old(self).at());
                (p < s.len() && cf_keyword_at(s, p, "@switch"@) ==> (match switch_scan(
                    s,
                    p + "@switch"@.len(),
                ) {
                    Some(sp) => r matches Ok(ot) && ot matches Some(t) && (t matches Token::HTML(
                        cs,
                    ) && spec_contents(cs@) == seq![SpecHtmlContent::ControlFlow(sp.0)])
                        && final(self).at() == sp.1,
                    Option::None => r == Result::<Option<Token>, LexError>::Err(
                        LexError::UnmatchedBrace,
                    ),
                }))
            }),
            ({
                let s = old(self).src();
                let p = ws_end(s, old(self).at());
                (p < s.len() && s[p] == '@' && !cf_keyword_at(s, p, "@if"@) && !cf_keyword_at(
                    s,
                    p,
                    "@for"@,
                ) && !cf_keyword_at(s, p, "@switch"@) ==> (r matches Ok(ot) && ot matches Some(t)
                    && (t matches Token::JavaScript(v) && v@ == trim_spec(
                    s.subrange(p, text_end(s, p + 1)),
                )) && final(self).at() == text_end(s, p + 1)))
            }),
            ({
                let s = old(self).src();
                let p = ws_end(s, old(self).at());
                (p < s.len() && starts_at(s, p, "---"@) ==> {
                    let f = find_from(s, p + "---"@.len(), "---"@);
                    if starts_at(s, f, "---"@) {
                        r matches Ok(ot) && ot matches Some(t) && (t matches Token::JavaScript(v)
                            && v@ == trim_spec(s.subrange(p + "---"@.len(), f)))
                            && final(self).at() == f + "---"@.len()
                    } else {
                        r matches Ok(ot) && ot matches Some(t) && (t matches Token::JavaScript(v)
                            && v@ == trim_spec(s.subrange(p + "---"@.len(), s.len() as int)))
                            && final(self).at() == s.len()
                    }
                })
            }),
            ({
                let s = old(self).src();
                let p = ws_end(s, old(self).at());
                (p < s.len() && s[p] != '<' && s[p] != '@' && !(s[p] == '{' && p + 1 < s.len()
                    && s[p + 1] == '{') && !starts_at(s, p, "---"@) ==> (r matches Ok(ot)
                    && ot matches Some(t) && (t matches Token::JavaScript(v) && v@ == trim_spec(
                    s.subrange(p, text_end(s, p)),
                )) && final(self).at() == text_end(s, p)))
            }),
    {
        proof {
            reveal_strlit("<style>");
            reveal_strlit("</style>");
            reveal_strlit("@if");
            reveal_strlit("@for");
            reveal_strlit("@switch");
            reveal_strlit("---");
        }
        let n = self.input.as_str().unicode_len();
        let p = skip_ws(self.input.as_str(), self.pos);
        if p >= n {
            self.pos = n;
            return Ok(None);
        }
        let c = self.input.as_str().get_char(p);
        if str_starts_at(self.input.as_str(), p, "<style>") {
            proof {
                let sv = old(self).src();
                reveal_strlit("<style>");
                reveal_strlit("@if");
                reveal_strlit("@for");
                reveal_strlit("@switch");
                reveal_strlit("---");
                lemma_starts_chars(sv, p as int, "<style>"@);
                assert(sv[p as int] == '<');
                if starts_at(sv, p as int, "---"@) {
                    lemma_starts_chars(sv, p as int, "---"@);
                }
                if starts_at(sv, p as int, "@if"@) {
                    lemma_starts_chars(sv, p as int, "@if"@);
                }
                if starts_at(sv, p as int, "@for"@) {
                    lemma_starts_chars(sv, p as int, "@for"@);
                }
                if starts_at(sv, p as int, "@switch"@) {
                    lemma_starts_chars(sv, p as int, "@switch"@);
                }
            }
            let close = find_pattern(self.input.as_str(), p + 7, "</style>");
            if str_starts_at(self.input.as_str(), close, "</style>") {
                let body = String::from_str(self.input.as_str().substring_char(p + 7, close));
                self.pos = close + 8;
                return Ok(Some(Token::Style(body)));
            } else {
                return Err(LexError::UnterminatedStyle);
            }
        } else if c == '<' {
            proof {
                let sv = old(self).src();
                if starts_at(sv, p as int, "---"@) {
                    lemma_starts_chars(sv, p as int, "---"@);
                }
                if starts_at(sv, p as int, "@if"@) {
                    lemma_starts_chars(sv, p as int, "@if"@);
                }
                if starts_at(sv, p as int, "@for"@) {
                    lemma_starts_chars(sv, p as int, "@for"@);
                }
                if starts_at(sv, p as int, "@switch"@) {
                    lemma_starts_chars(sv, p as int, "@switch"@);
                }
            }
            match self.parse_html_segment(p) {
                Ok(t) => {
                    proof {
                        let sv = old(self).src();
                        let pi = p as int;
                        match crate::lexer::markup_scan(
                            sv,
                            pi,
                            0,
                            crate::lexer::MarkupPhase::Content,
                        ) {
                            crate::lexer::ScanEnd::Done(e) => {
                                if pi + 3 < sv.len() && sv[pi + 1] == '!' && sv[pi + 2] == '-'
                                    && sv[pi + 3] == '-' {
                                    crate::lexer::lemma_markup_scan(
                                        sv,
                                        pi + 4,
                                        0,
                                        crate::lexer::MarkupPhase::Comment,
                                    );
                                } else if pi + 1 < sv.len() && sv[pi + 1] == '/' {
                                } else {
                                    crate::lexer::lemma_markup_scan(
                                        sv,
                                        pi + 1,
                                        0,
                                        crate::lexer::MarkupPhase::OpenTag,
                                    );
                                }
                            },
                            crate::lexer::ScanEnd::Fail(_) => {},
                        }
                    }
                    match &t {
                        Token::HTML(csv) => {
                            proof {
                                let sv = old(self).src();
                                let pi = p as int;
                                assert(t.spec() == SpecContentToken::HTML(
                                    spec_contents(csv@),
                                ));
                            }
                        },
                        _ => {},
                    }
                    return Ok(Some(t));
                },
                Err(err) => {
                    return Err(err);
                },
            }
        } else if c == '{' && p + 1 < n && self.input.as_str().get_char(p + 1) == '{' {
            proof {
                let sv = old(self).src();
                if starts_at(sv, p as int, "<style>"@) {
                    lemma_starts_chars(sv, p as int, "<style>"@);
                }
                if starts_at(sv, p as int, "---"@) {
                    lemma_starts_chars(sv, p as int, "---"@);
                }
                if starts_at(sv, p as int, "@if"@) {
                    lemma_starts_chars(sv, p as int, "@if"@);
                }
                if starts_at(sv, p as int, "@for"@) {
                    lemma_starts_chars(sv, p as int, "@for"@);
                }
                if starts_at(sv, p as int, "@switch"@) {
                    lemma_starts_chars(sv, p as int, "@switch"@);
                }
            }
            match crate::lexer::scan_interp(self.input.as_str(), p + 2) {
                Some(cb) => {
                    let expr = trim_str(self.input.as_str().substring_char(p + 2, cb));
                    let mut cs: Vec<HtmlContent> = Vec::new();
                    let ghost ev = expr@;
                    cs.push(HtmlContent::TemplateExpression(expr));
                    proof {
                        assert(cs@.len() == 1);
                        assert(cs@[0].spec() == SpecHtmlContent::TemplateExpression(ev));
                        assert(cs@.subrange(1, 1) =~= Seq::<HtmlContent>::empty());
                        assert(spec_contents(cs@.subrange(1, 1))
                            =~= Seq::<SpecHtmlContent>::empty());
                        assert(spec_contents(cs@) =~= seq![
                            SpecHtmlContent::TemplateExpression(ev),
                        ]);
                    }
                    self.pos = cb + 2;
                    return Ok(Some(Token::HTML(cs)));
                },
                None => {
                    return Err(LexError::UnterminatedInterpolation);
                },
            }
        } else if c == '@' {
            proof {
                let sv = old(self).src();
                if starts_at(sv, p as int, "<style>"@) {
                    lemma_starts_chars(sv, p as int, "<style>"@);
                }
                if starts_at(sv, p as int, "---"@) {
                    lemma_starts_chars(sv, p as int, "---"@);
                }
                if starts_at(sv, p as int, "@if"@) {
                    lemma_starts_chars(sv, p as int, "@if"@);
                }
                if starts_at(sv, p as int, "@for"@) {
                    lemma_starts_chars(sv, p as int, "@for"@);
                }
                if starts_at(sv, p as int, "@switch"@) {
                    lemma_starts_chars(sv, p as int, "@switch"@);
                }
            }
            if cf_keyword(self.input.as_str(), p, "@if", 3) {
                match parse_if(self.input.as_str(), p + 3) {
                    Ok((cf, end)) => {
                        let mut cs: Vec<HtmlContent> = Vec::new();
                        let ghost cv = cf.spec();
                        cs.push(HtmlContent::ControlFlow(cf));
                        proof {
                            assert(cs@.len() == 1);
                            assert(cs@[0].spec() == SpecHtmlContent::ControlFlow(cv));
                            assert(cs@.subrange(1, 1) =~= Seq::<HtmlContent>::empty());
                            assert(spec_contents(cs@.subrange(1, 1))
                                =~= Seq::<SpecHtmlContent>::empty());
                            assert(spec_contents(cs@) =~= seq![
                                SpecHtmlContent::ControlFlow(cv),
                            ]);
                        }
                        self.pos = end;
                        return Ok(Some(Token::HTML(cs)));
                    },
                    Err(e) => {
                        return Err(e);
                    },
                }
            } else if cf_keyword(self.input.as_str(), p, "@for", 4) {
                match parse_for(self.input.as_str(), p + 4) {
                    Ok((cf, end)) => {
                        let mut cs: Vec<HtmlContent> = Vec::new();
                        let ghost cv = cf.spec();
                        cs.push(HtmlContent::ControlFlow(cf));
                        proof {
                            assert(cs@.len() == 1);
                            assert(cs@[0].spec() == SpecHtmlContent::ControlFlow(cv));
                            assert(cs@.subrange(1, 1) =~= Seq::<HtmlContent>::empty());
                            assert(spec_contents(cs@.subrange(1, 1))
                                =~= Seq::<SpecHtmlContent>::empty());
                            assert(spec_contents(cs@) =~= seq![
                                SpecHtmlContent::ControlFlow(cv),
                            ]);
                        }
                        self.pos = end;
                        return Ok(Some(Token::HTML(cs)));
                    },
                    Err(e) => {
                        return Err(e);
                    },
                }
            } else if cf_keyword(self.input.as_str(), p, "@switch", 7) {
                match parse_switch(self.input.as_str(), p + 7) {
                    Ok((cf, end)) => {
                        let mut cs: Vec<HtmlContent> = Vec::new();
                        let ghost cv = cf.spec();
                        cs.push(HtmlContent::ControlFlow(cf));
                        proof {
                            assert(cs@.len() == 1);
                            assert(cs@[0].spec() == SpecHtmlContent::ControlFlow(cv));
                            assert(cs@.subrange(1, 1) =~= Seq::<HtmlContent>::empty());
                            assert(spec_contents(cs@.subrange(1, 1))
                                =~= Seq::<SpecHtmlContent>::empty());
                            assert(spec_contents(cs@) =~= seq![
                                SpecHtmlContent::ControlFlow(cv),
                            ]);
                        }
                        self.pos = end;
                        return Ok(Some(Token::HTML(cs)));
                    },
                    Err(e) => {
                        return Err(e);
                    },
                }
            } else {
                let te = scan_text(self.input.as_str(), p + 1);
                let v = trim_str(self.input.as_str().substring_char(p, te));
                self.pos = te;
                return Ok(Some(Token::JavaScript(v)));
            }
        } else if str_starts_at(self.input.as_str(), p, "---") {
            proof {
                let sv = old(self).src();
                lemma_starts_chars(sv, p as int, "---"@);
                if starts_at(sv, p as int, "<style>"@) {
                    lemma_starts_chars(sv, p as int, "<style>"@);
                }
                if starts_at(sv, p as int, "@if"@) {
                    lemma_starts_chars(sv, p as int, "@if"@);
                }
                if starts_at(sv, p as int, "@for"@) {
                    lemma_starts_chars(sv, p as int, "@for"@);
                }
                if starts_at(sv, p as int, "@switch"@) {
                    lemma_starts_chars(sv, p as int, "@switch"@);
                }
            }
            let f = find_pattern(self.input.as_str(), p + 3, "---");
            if str_starts_at(self.input.as_str(), f, "---") {
                let v = trim_str(self.input.as_str().substring_char(p + 3, f));
                self.pos = f + 3;
                return Ok(Some(Token::JavaScript(v)));
            } else {
                let v = trim_str(self.input.as_str().substring_char(p + 3, n));
                self.pos = n;
                return Ok(Some(Token::JavaScript(v)));
            }
        } else {
            proof {
                let sv = old(self).src();
                if starts_at(sv, p as int, "<style>"@) {
                    lemma_starts_chars(sv, p as int, "<style>"@);
                }
                if starts_at(sv, p as int, "@if"@) {
                    lemma_starts_chars(sv, p as int, "@if"@);
                }
                if starts_at(sv, p as int, "@for"@) {
                    lemma_starts_chars(sv, p as int, "@for"@);
                }
                if starts_at(sv, p as int, "@switch"@) {
                    lemma_starts_chars(sv, p as int, "@switch"@);
                }
            }
            let te = scan_text(self.input.as_str(), p);
            proof {
                lemma_text_end(old(self).src(), p + 1);
                assert(text_end(old(self).src(), p as int) == text_end(
                    old(self).src(),
                    p + 1,
                ));
            }
            let v = trim_str(self.input.as_str().substring_char(p, te));
            self.pos = te;
            return Ok(Some(Token::JavaScript(v)));
        }
    }
}

/// The keyword `kw` (with its `@`) stands at `p` as a whole word: not
/// followed by another word character.
pub open spec fn cf_keyword_at(s: Seq<char>, p: int, kw: Seq<char>) -> bool {
    starts_at(s, p, kw) && (p + kw.len() >= s.len() || !crate::text::is_word(s[p + kw.len()]))
}

/// Executable test for [`cf_keyword_at`].
fn cf_keyword(s: &str, p: usize, kw: &str, kwlen: usize) -> (r: bool)
    requires
        p <= s@.len(),
        kwlen == kw@.len(),
    ensures
        r == cf_keyword_at(s@, p as int, kw@),
{
    if str_starts_at(s, p, kw) {
        let n = s.unicode_len();
        if p + kwlen >= n {
            true
        } else {
            !crate::text::is_word_char(s.get_char(p + kwlen))
        }
    } else {
        false
    }
}

} // verus!

verus! {

/// Spec-level mirror of [`Token`].
#[verifier::ext_equal]
pub enum SpecContentToken {
    Style(Seq<char>),
    JavaScript(Seq<char>),
    HTML(Seq<SpecHtmlContent>),
}

impl Token {
    /// The spec-level value of this token.
    pub open spec fn spec(self) -> SpecContentToken {
        match self {
            Token::Style(v) => SpecContentToken::Style(v@),
            Token::JavaScript(v) => SpecContentToken::JavaScript(v@),
            Token::HTML(cs) => SpecContentToken::HTML(spec_contents(cs@)),
        }
    }
}

/// Token `tv` is what one lexing step from `i` produces, ending at `j`:
/// the per-case dispatch of [`Lexer::next_token`], packaged.
pub open spec fn content_token_at(s: Seq<char>, i: int, tv: SpecContentToken, j: int) -> bool {
    let p = ws_end(s, i);
    ||| (p < s.len() && starts_at(s, p, "<style>"@) && {
        let close = find_from(s, p + "<style>"@.len(), "</style>"@);
        starts_at(s, close, "</style>"@) && tv == SpecContentToken::Style(
            s.subrange(p + "<style>"@.len(), close),
        ) && j == close + "</style>"@.len()
    })
    ||| (p < s.len() && !starts_at(s, p, "<style>"@) && s[p] == '<' && (
    match crate::lexer::markup_scan(s, p, 0, crate::lexer::MarkupPhase::Content) {
        crate::lexer::ScanEnd::Done(e) => exists|cs: Seq<SpecHtmlContent>|
            tv == SpecContentToken::HTML(cs) && #[trigger] segment_content(
                s.subrange(p, e),
                cs,
            ) && j == e,
        crate::lexer::ScanEnd::Fail(err) => false,
    }))
    ||| (p < s.len() && s[p] == '{' && p + 1 < s.len() && s[p + 1] == '{' && (
    match crate::lexer::interp_scan(s, p + 2, crate::lexer::InterpMode::Plain) {
        Some(cb) => tv == SpecContentToken::HTML(
            seq![SpecHtmlContent::TemplateExpression(trim_spec(s.subrange(p + 2, cb)))],
        ) && j == cb + 2,
        Option::None => false,
    }))
    ||| (p < s.len() && cf_keyword_at(s, p, "@if"@) && (match if_scan(s, p + "@if"@.len()) {
        Some(sp) => tv == SpecContentToken::HTML(seq![SpecHtmlContent::ControlFlow(sp.0)]) && j
            == sp.1,
        Option::None => false,
    }))
    ||| (p < s.len() && cf_keyword_at(s, p, "@for"@) && (match for_scan(s, p + "@for"@.len()) {
        Some(sp) => tv == SpecContentToken::HTML(seq![SpecHtmlContent::ControlFlow(sp.0)]) && j
            == sp.1,
        Option::None => false,
    }))
    ||| (p < s.len() && cf_keyword_at(s, p, "@switch"@) && (match switch_scan(
        s,
        p + "@switch"@.len(),
    ) {
        Some(sp) => tv == SpecContentToken::HTML(seq![SpecHtmlContent::ControlFlow(sp.0)]) && j
            == sp.1,
        Option::None => false,
    }))
    ||| (p < s.len() && s[p] == '@' && !cf_keyword_at(s, p, "@if"@) && !cf_keyword_at(
        s,
        p,
        "@for"@,
    ) && !cf_keyword_at(s, p, "@switch"@) && tv == SpecContentToken::JavaScript(
        trim_spec(s.subrange(p, text_end(s, p + 1))),
    ) && j == text_end(s, p + 1))
    ||| (p < s.len() && starts_at(s, p, "---"@) && {
        let f = find_from(s, p + "---"@.len(), "---"@);
        if starts_at(s, f, "---"@) {
            tv == SpecContentToken::JavaScript(trim_spec(s.subrange(p + "---"@.len(), f))) && j
                == f + "---"@.len()
        } else {
            tv == SpecContentToken::JavaScript(
                trim_spec(s.subrange(p + "---"@.len(), s.len() as int)),
            ) && j == s.len()
        }
    })
    ||| (p < s.len() && s[p] != '<' && s[p] != '@' && !(s[p] == '{' && p + 1 < s.len() && s[p + 1]
        == '{') && !starts_at(s, p, "---"@) && tv == SpecContentToken::JavaScript(
        trim_spec(s.subrange(p, text_end(s, p))),
    ) && j == text_end(s, p))
}

/// Error `e` is what one lexing step from `i` forces: the per-case fatal
/// conditions of [`Lexer::next_token`], packaged.
pub open spec fn content_fail_at(s: Seq<char>, i: int, e: LexError) -> bool {
    let p = ws_end(s, i);
    ||| (p < s.len() && starts_at(s, p, "<style>"@) && !starts_at(
        s,
        find_from(s, p + "<style>"@.len(), "</style>"@),
        "</style>"@,
    ) && e == LexError::UnterminatedStyle)
    ||| (p < s.len() && !starts_at(s, p, "<style>"@) && s[p] == '<' && crate::lexer::markup_scan(
        s,
        p,
        0,
        crate::lexer::MarkupPhase::Content,
    ) == crate::lexer::ScanEnd::Fail(e))
    ||| (p < s.len() && s[p] == '{' && p + 1 < s.len() && s[p + 1] == '{'
        && crate::lexer::interp_scan(s, p + 2, crate::lexer::InterpMode::Plain) is None && e
        == LexError::UnterminatedInterpolation)
    ||| (p < s.len() && cf_keyword_at(s, p, "@if"@) && if_scan(s, p + "@if"@.len()) is None && e
        == LexError::UnmatchedBrace)
    ||| (p < s.len() && cf_keyword_at(s, p, "@for"@) && for_scan(s, p + "@for"@.len()) is None
        && e == LexError::UnmatchedBrace)
    ||| (p < s.len() && cf_keyword_at(s, p, "@switch"@) && switch_scan(
        s,
        p + "@switch"@.len(),
    ) is None && e == LexError::UnmatchedBrace)
}

} // verus!
