//! The mixed-content lexer: splits an authoring file into script, markup,
//! style, interpolation and control-flow-marker segments.
//!
//! The lexer is a character-level state machine.  Each scanning rule is
//! stated first as a spec-level scanner over `Seq<char>`; the executable
//! loops are proved to compute exactly what the scanners define.  Tokens
//! carry the offsets of the whole region they cover, so that the tokens of a
//! run tile the input: concatenating their raw text with the skipped
//! whitespace reconstructs the input exactly.

use vstd::prelude::*;

use crate::text::{
    all_ws, is_ws, is_ws_char, lemma_ws_end, skip_ws, starts_at, str_starts_at, trim_spec,
    trim_str, ws_end,
};
use crate::token::{
    ControlFlowKind, DeferKind, LexError, SpecToken, SpecTokenKind, Token, TokenKind,
};

verus! {

/// The lexer's scanning modes.  `Default` classifies the next character;
/// the others scan one kind of segment.  A mode stack records the chain of
/// enclosing modes, so that leaving a nested region restores exactly the mode
/// that was active when it was entered.
#[derive(Clone, Copy, PartialEq, Eq, Structural)]
pub enum LexerState {
    Default,
    JavaScript,
    HTML,
    CSS,
    TemplateExpression,
    ControlFlow,
}

/// Sub-state of the script scanner: plain code, inside a quoted literal
/// (`esc` when the previous character was a backslash), or inside a comment.
#[derive(Clone, Copy, PartialEq, Eq, Structural)]
pub enum JsMode {
    Code,
    InStr { q: char, esc: bool },
    LineComment,
    BlockComment,
}

/// Where a script segment beginning in mode `m` at position `i` ends.
///
/// A statement terminator (newline, carriage return, form feed, `;`) is
/// consumed and ends the segment; `<style>`, `</`, `{{` and `@` end it
/// without being consumed; quoted literals and comments are opaque, so
/// terminators inside them do not end the segment.
pub open spec fn js_scan(s: Seq<char>, i: int, m: JsMode) -> int
    decreases s.len() - i,
{
    if i < 0 || i >= s.len() {
        s.len() as int
    } else {
        let c = s[i];
        match m {
            JsMode::Code => {
                if c == '\'' || c == '"' || c == '`' {
                    js_scan(s, i + 1, JsMode::InStr { q: c, esc: false })
                } else if c == '/' && i + 1 < s.len() && s[i + 1] == '/' {
                    js_scan(s, i + 2, JsMode::LineComment)
                } else if c == '/' && i + 1 < s.len() && s[i + 1] == '*' {
                    js_scan(s, i + 2, JsMode::BlockComment)
                } else if c == '\n' || c == '\r' || c == '\u{000C}' || c == ';' {
                    i + 1
                } else if starts_at(s, i, "<style>"@) || (c == '<' && i + 1 < s.len() && s[i
                    + 1] == '/') {
                    i
                } else if c == '{' && i + 1 < s.len() && s[i + 1] == '{' {
                    i
                } else if c == '@' {
                    i
                } else {
                    js_scan(s, i + 1, JsMode::Code)
                }
            },
            JsMode::InStr { q, esc } => {
                if esc {
                    js_scan(s, i + 1, JsMode::InStr { q, esc: false })
                } else if c == '\\' {
                    js_scan(s, i + 1, JsMode::InStr { q, esc: true })
                } else if c == q {
                    js_scan(s, i + 1, JsMode::Code)
                } else {
                    js_scan(s, i + 1, JsMode::InStr { q, esc: false })
                }
            },
            JsMode::LineComment => {
                if c == '\n' {
                    i + 1
                } else {
                    js_scan(s, i + 1, JsMode::LineComment)
                }
            },
            JsMode::BlockComment => {
                if c == '*' && i + 1 < s.len() && s[i + 1] == '/' {
                    js_scan(s, i + 2, JsMode::Code)
                } else {
                    js_scan(s, i + 1, JsMode::BlockComment)
                }
            },
        }
    }
}

pub proof fn lemma_js_scan(s: Seq<char>, i: int, m: JsMode)
    requires
        0 <= i <= s.len(),
    ensures
        i <= js_scan(s, i, m) <= s.len(),
    decreases s.len() - i,
{
    if i < s.len() {
        let c = s[i];
        match m {
            JsMode::Code => {
                if c == '\'' || c == '"' || c == '`' {
                    lemma_js_scan(s, i + 1, JsMode::InStr { q: c, esc: false });
                } else if c == '/' && i + 1 < s.len() && s[i + 1] == '/' {
                    lemma_js_scan(s, i + 2, JsMode::LineComment);
                } else if c == '/' && i + 1 < s.len() && s[i + 1] == '*' {
                    lemma_js_scan(s, i + 2, JsMode::BlockComment);
                } else if c == '\n' || c == '\r' || c == '\u{000C}' || c == ';' {
                } else if starts_at(s, i, "<style>"@) || (c == '<' && i + 1 < s.len() && s[i
                    + 1] == '/') {
                } else if c == '{' && i + 1 < s.len() && s[i + 1] == '{' {
                } else if c == '@' {
                } else {
                    lemma_js_scan(s, i + 1, JsMode::Code);
                }
            },
            JsMode::InStr { q, esc } => {
                if esc {
                    lemma_js_scan(s, i + 1, JsMode::InStr { q, esc: false });
                } else if c == '\\' {
                    lemma_js_scan(s, i + 1, JsMode::InStr { q, esc: true });
                } else if c == q {
                    lemma_js_scan(s, i + 1, JsMode::Code);
                } else {
                    lemma_js_scan(s, i + 1, JsMode::InStr { q, esc: false });
                }
            },
            JsMode::LineComment => {
                if c != '\n' {
                    lemma_js_scan(s, i + 1, JsMode::LineComment);
                }
            },
            JsMode::BlockComment => {
                if c == '*' && i + 1 < s.len() && s[i + 1] == '/' {
                    lemma_js_scan(s, i + 2, JsMode::Code);
                } else {
                    lemma_js_scan(s, i + 1, JsMode::BlockComment);
                }
            },
        }
    }
}

/// Sub-state of the interpolation scanner.
#[derive(Clone, Copy, PartialEq, Eq, Structural)]
pub enum InterpMode {
    Plain,
    Quoted { q: char, esc: bool },
}

/// The position of the closing `}}` of an interpolation whose body starts at
/// `i`, honouring string-literal quoting; `None` when it never closes.
pub open spec fn interp_scan(s: Seq<char>, i: int, m: InterpMode) -> Option<int>
    decreases s.len() - i,
{
    if i < 0 || i >= s.len() {
        None
    } else {
        let c = s[i];
        match m {
            InterpMode::Plain => {
                if c == '}' && i + 1 < s.len() && s[i + 1] == '}' {
                    Some(i)
                } else if c == '\'' || c == '"' || c == '`' {
                    interp_scan(s, i + 1, InterpMode::Quoted { q: c, esc: false })
                } else {
                    interp_scan(s, i + 1, InterpMode::Plain)
                }
            },
            InterpMode::Quoted { q, esc } => {
                if esc {
                    interp_scan(s, i + 1, InterpMode::Quoted { q, esc: false })
                } else if c == '\\' {
                    interp_scan(s, i + 1, InterpMode::Quoted { q, esc: true })
                } else if c == q {
                    interp_scan(s, i + 1, InterpMode::Plain)
                } else {
                    interp_scan(s, i + 1, InterpMode::Quoted { q, esc: false })
                }
            },
        }
    }
}

pub proof fn lemma_interp_scan(s: Seq<char>, i: int, m: InterpMode)
    requires
        0 <= i <= s.len(),
    ensures
        interp_scan(s, i, m) matches Some(e) ==> i <= e && e + 2 <= s.len() && s[e] == '}'
            && s[e + 1] == '}',
    decreases s.len() - i,
{
    if i < s.len() {
        let c = s[i];
        match m {
            InterpMode::Plain => {
                if c == '}' && i + 1 < s.len() && s[i + 1] == '}' {
                } else if c == '\'' || c == '"' || c == '`' {
                    lemma_interp_scan(s, i + 1, InterpMode::Quoted { q: c, esc: false });
                } else {
                    lemma_interp_scan(s, i + 1, InterpMode::Plain);
                }
            },
            InterpMode::Quoted { q, esc } => {
                if esc {
                    lemma_interp_scan(s, i + 1, InterpMode::Quoted { q, esc: false });
                } else if c == '\\' {
                    lemma_interp_scan(s, i + 1, InterpMode::Quoted { q, esc: true });
                } else if c == q {
                    lemma_interp_scan(s, i + 1, InterpMode::Plain);
                } else {
                    lemma_interp_scan(s, i + 1, InterpMode::Quoted { q, esc: false });
                }
            },
        }
    }
}

/// Sub-state of the markup scanner: between constructs, inside an opening or
/// closing tag header, inside a quoted attribute value, or inside a comment.
#[derive(Clone, Copy, PartialEq, Eq, Structural)]
pub enum MarkupPhase {
    Content,
    OpenTag,
    CloseTag,
    AttrStr { q: char },
    Comment,
}

/// How a scan ends: at a position, or with a structural error.
#[derive(Clone, Copy, PartialEq, Eq, Structural)]
pub enum ScanEnd {
    Done(int),
    Fail(LexError),
}

/// Where a markup segment ends.  An opening tag whose header closes with `>`
/// raises the nesting depth; a matching close tag lowers it; depth returning
/// to zero ends the segment.  Self-closing tags leave the depth unchanged;
/// comments are opaque; a nested `<style>` and a close tag with no open tag
/// are structural errors, as is a segment still open at end of input.
pub open spec fn markup_scan(s: Seq<char>, i: int, depth: int, ph: MarkupPhase) -> ScanEnd
    decreases s.len() - i,
{
    if i < 0 || i > s.len() {
        ScanEnd::Fail(LexError::UnterminatedMarkup)
    } else if i == s.len() {
        match ph {
            MarkupPhase::Content => {
                if depth == 0 {
                    ScanEnd::Done(i)
                } else {
                    ScanEnd::Fail(LexError::UnterminatedMarkup)
                }
            },
            _ => ScanEnd::Fail(LexError::UnterminatedMarkup),
        }
    } else {
        let c = s[i];
        match ph {
            MarkupPhase::Content => {
                if c == '<' && i + 3 < s.len() && s[i + 1] == '!' && s[i + 2] == '-' && s[i
                    + 3] == '-' {
                    markup_scan(s, i + 4, depth, MarkupPhase::Comment)
                } else if starts_at(s, i, "<style>"@) {
                    ScanEnd::Fail(LexError::NestedStyle)
                } else if c == '<' && i + 1 < s.len() && s[i + 1] == '/' {
                    if depth == 0 {
                        ScanEnd::Fail(LexError::StrayCloseTag)
                    } else {
                        markup_scan(s, i + 2, depth, MarkupPhase::CloseTag)
                    }
                } else if c == '<' {
                    markup_scan(s, i + 1, depth, MarkupPhase::OpenTag)
                } else if depth == 0 {
                    ScanEnd::Done(i)
                } else {
                    markup_scan(s, i + 1, depth, MarkupPhase::Content)
                }
            },
            MarkupPhase::OpenTag => {
                if c == '/' && i + 1 < s.len() && s[i + 1] == '>' {
                    if depth == 0 {
                        ScanEnd::Done(i + 2)
                    } else {
                        markup_scan(s, i + 2, depth, MarkupPhase::Content)
                    }
                } else if c == '>' {
                    markup_scan(s, i + 1, depth + 1, MarkupPhase::Content)
                } else if c == '"' || c == '\'' {
                    markup_scan(s, i + 1, depth, MarkupPhase::AttrStr { q: c })
                } else {
                    markup_scan(s, i + 1, depth, MarkupPhase::OpenTag)
                }
            },
            MarkupPhase::CloseTag => {
                if c == '>' {
                    if depth == 1 {
                        ScanEnd::Done(i + 1)
                    } else {
                        markup_scan(s, i + 1, depth - 1, MarkupPhase::Content)
                    }
                } else {
                    markup_scan(s, i + 1, depth, MarkupPhase::CloseTag)
                }
            },
            MarkupPhase::AttrStr { q } => {
                if c == q {
                    markup_scan(s, i + 1, depth, MarkupPhase::OpenTag)
                } else {
                    markup_scan(s, i + 1, depth, MarkupPhase::AttrStr { q })
                }
            },
            MarkupPhase::Comment => {
                if c == '-' && i + 2 < s.len() && s[i + 1] == '-' && s[i + 2] == '>' {
                    markup_scan(s, i + 3, depth, MarkupPhase::Content)
                } else {
                    markup_scan(s, i + 1, depth, MarkupPhase::Comment)
                }
            },
        }
    }
}

pub proof fn lemma_markup_scan(s: Seq<char>, i: int, depth: int, ph: MarkupPhase)
    requires
        0 <= i <= s.len(),
    ensures
        markup_scan(s, i, depth, ph) matches ScanEnd::Done(e) ==> i <= e <= s.len(),
    decreases s.len() - i,
{
    if i < s.len() {
        let c = s[i];
        match ph {
            MarkupPhase::Content => {
                if c == '<' && i + 3 < s.len() && s[i + 1] == '!' && s[i + 2] == '-' && s[i
                    + 3] == '-' {
                    lemma_markup_scan(s, i + 4, depth, MarkupPhase::Comment);
                } else if starts_at(s, i, "<style>"@) {
                } else if c == '<' && i + 1 < s.len() && s[i + 1] == '/' {
                    if depth != 0 {
                        lemma_markup_scan(s, i + 2, depth, MarkupPhase::CloseTag);
                    }
                } else if c == '<' {
                    lemma_markup_scan(s, i + 1, depth, MarkupPhase::OpenTag);
                } else if depth == 0 {
                } else {
                    lemma_markup_scan(s, i + 1, depth, MarkupPhase::Content);
                }
            },
            MarkupPhase::OpenTag => {
                if c == '/' && i + 1 < s.len() && s[i + 1] == '>' {
                    if depth != 0 {
                        lemma_markup_scan(s, i + 2, depth, MarkupPhase::Content);
                    }
                } else if c == '>' {
                    lemma_markup_scan(s, i + 1, depth + 1, MarkupPhase::Content);
                } else if c == '"' || c == '\'' {
                    lemma_markup_scan(s, i + 1, depth, MarkupPhase::AttrStr { q: c });
                } else {
                    lemma_markup_scan(s, i + 1, depth, MarkupPhase::OpenTag);
                }
            },
            MarkupPhase::CloseTag => {
                if c == '>' {
                    if depth != 1 {
                        lemma_markup_scan(s, i + 1, depth - 1, MarkupPhase::Content);
                    }
                } else {
                    lemma_markup_scan(s, i + 1, depth, MarkupPhase::CloseTag);
                }
            },
            MarkupPhase::AttrStr { q } => {
                if c == q {
                    lemma_markup_scan(s, i + 1, depth, MarkupPhase::OpenTag);
                } else {
                    lemma_markup_scan(s, i + 1, depth, MarkupPhase::AttrStr { q });
                }
            },
            MarkupPhase::Comment => {
                if c == '-' && i + 2 < s.len() && s[i + 1] == '-' && s[i + 2] == '>' {
                    lemma_markup_scan(s, i + 3, depth, MarkupPhase::Content);
                } else {
                    lemma_markup_scan(s, i + 1, depth, MarkupPhase::Comment);
                }
            },
        }
    }
}

} // verus!

verus! {

/// Executable script scan: returns [`js_scan`]`(s, i, Code)`.
fn scan_js(s: &str, i: usize) -> (e: usize)
    requires
        i <= s@.len(),
    ensures
        e == js_scan(s@, i as int, JsMode::Code),
        i <= e <= s@.len(),
{
    let n = s.unicode_len();
    let mut p = i;
    let mut m = JsMode::Code;
    proof {
        lemma_js_scan(s@, i as int, JsMode::Code);
    }
    loop
        invariant
            i <= p <= n,
            n == s@.len(),
            js_scan(s@, i as int, JsMode::Code) == js_scan(s@, p as int, m),
        decreases n - p,
    {
        if p >= n {
            return n;
        }
        let c = s.get_char(p);
        match m {
            JsMode::Code => {
                if c == '\'' || c == '"' || c == '`' {
                    m = JsMode::InStr { q: c, esc: false };
                    p += 1;
                } else if c == '/' && p + 1 < n && s.get_char(p + 1) == '/' {
                    m = JsMode::LineComment;
                    p += 2;
                } else if c == '/' && p + 1 < n && s.get_char(p + 1) == '*' {
                    m = JsMode::BlockComment;
                    p += 2;
                } else if c == '\n' || c == '\r' || c == '\u{000C}' || c == ';' {
                    return p + 1;
                } else if str_starts_at(s, p, "<style>") || (c == '<' && p + 1 < n && s.get_char(
                    p + 1,
                ) == '/') {
                    return p;
                } else if c == '{' && p + 1 < n && s.get_char(p + 1) == '{' {
                    return p;
                } else if c == '@' {
                    return p;
                } else {
                    p += 1;
                }
            },
            JsMode::InStr { q, esc } => {
                if esc {
                    m = JsMode::InStr { q, esc: false };
                } else if c == '\\' {
                    m = JsMode::InStr { q, esc: true };
                } else if c == q {
                    m = JsMode::Code;
                } else {
                    m = JsMode::InStr { q, esc: false };
                }
                p += 1;
            },
            JsMode::LineComment => {
                if c == '\n' {
                    return p + 1;
                }
                p += 1;
            },
            JsMode::BlockComment => {
                if c == '*' && p + 1 < n && s.get_char(p + 1) == '/' {
                    m = JsMode::Code;
                    p += 2;
                } else {
                    p += 1;
                }
            },
        }
    }
}

/// Executable interpolation scan: returns [`interp_scan`]`(s, i, Plain)`.
pub(crate) fn scan_interp(s: &str, i: usize) -> (r: Option<usize>)
    requires
        i <= s@.len(),
    ensures
        r matches Some(e) ==> interp_scan(s@, i as int, InterpMode::Plain) == Some(e as int)
            && i <= e && e + 2 <= s@.len(),
        r is None ==> interp_scan(s@, i as int, InterpMode::Plain) is None,
{
    let n = s.unicode_len();
    let mut p = i;
    let mut m = InterpMode::Plain;
    proof {
        lemma_interp_scan(s@, i as int, InterpMode::Plain);
    }
    loop
        invariant
            i <= p <= n,
            n == s@.len(),
            interp_scan(s@, i as int, InterpMode::Plain) == interp_scan(s@, p as int, m),
            interp_scan(s@, i as int, InterpMode::Plain) matches Some(e) ==> i <= e && e + 2
                <= s@.len(),
        decreases n - p,
    {
        if p >= n {
            return None;
        }
        let c = s.get_char(p);
        match m {
            InterpMode::Plain => {
                if c == '}' && p + 1 < n && s.get_char(p + 1) == '}' {
                    return Some(p);
                } else if c == '\'' || c == '"' || c == '`' {
                    m = InterpMode::Quoted { q: c, esc: false };
                    p += 1;
                } else {
                    p += 1;
                }
            },
            InterpMode::Quoted { q, esc } => {
                if esc {
                    m = InterpMode::Quoted { q, esc: false };
                } else if c == '\\' {
                    m = InterpMode::Quoted { q, esc: true };
                } else if c == q {
                    m = InterpMode::Plain;
                } else {
                    m = InterpMode::Quoted { q, esc: false };
                }
                p += 1;
            },
        }
    }
}

/// Executable markup scan: agrees with [`markup_scan`]`(s, i, 0, Content)`.
pub(crate) fn scan_markup(s: &str, i: usize) -> (r: Result<usize, LexError>)
    requires
        i <= s@.len(),
    ensures
        r matches Ok(e) ==> markup_scan(s@, i as int, 0, MarkupPhase::Content)
            == ScanEnd::Done(e as int) && i <= e <= s@.len(),
        r matches Err(err) ==> markup_scan(s@, i as int, 0, MarkupPhase::Content)
            == ScanEnd::Fail(err),
{
    let n = s.unicode_len();
    let mut p = i;
    let mut depth: usize = 0;
    let mut m = MarkupPhase::Content;
    proof {
        lemma_markup_scan(s@, i as int, 0, MarkupPhase::Content);
    }
    loop
        invariant
            i <= p <= n,
            n == s@.len(),
            markup_scan(s@, i as int, 0, MarkupPhase::Content) == markup_scan(
                s@,
                p as int,
                depth as int,
                m,
            ),
            m matches MarkupPhase::CloseTag ==> depth >= 1,
            depth <= p,
        decreases n - p,
    {
        if p >= n {
            match m {
                MarkupPhase::Content => {
                    if depth == 0 {
                        return Ok(n);
                    } else {
                        return Err(LexError::UnterminatedMarkup);
                    }
                },
                _ => {
                    return Err(LexError::UnterminatedMarkup);
                },
            }
        }
        let c = s.get_char(p);
        match m {
            MarkupPhase::Content => {
                if c == '<' && n - p > 3 && s.get_char(p + 1) == '!' && s.get_char(p + 2) == '-'
                    && s.get_char(p + 3) == '-' {
                    m = MarkupPhase::Comment;
                    p += 4;
                } else if str_starts_at(s, p, "<style>") {
                    return Err(LexError::NestedStyle);
                } else if c == '<' && p + 1 < n && s.get_char(p + 1) == '/' {
                    if depth == 0 {
                        return Err(LexError::StrayCloseTag);
                    } else {
                        m = MarkupPhase::CloseTag;
                        p += 2;
                    }
                } else if c == '<' {
                    m = MarkupPhase::OpenTag;
                    p += 1;
                } else if depth == 0 {
                    return Ok(p);
                } else {
                    p += 1;
                }
            },
            MarkupPhase::OpenTag => {
                if c == '/' && p + 1 < n && s.get_char(p + 1) == '>' {
                    if depth == 0 {
                        return Ok(p + 2);
                    } else {
                        m = MarkupPhase::Content;
                        p += 2;
                    }
                } else if c == '>' {
                    depth += 1;
                    m = MarkupPhase::Content;
                    p += 1;
                } else if c == '"' || c == '\'' {
                    m = MarkupPhase::AttrStr { q: c };
                    p += 1;
                } else {
                    p += 1;
                }
            },
            MarkupPhase::CloseTag => {
                if c == '>' {
                    if depth == 1 {
                        return Ok(p + 1);
                    } else {
                        depth -= 1;
                        m = MarkupPhase::Content;
                        p += 1;
                    }
                } else {
                    p += 1;
                }
            },
            MarkupPhase::AttrStr { q } => {
                if c == q {
                    m = MarkupPhase::OpenTag;
                }
                p += 1;
            },
            MarkupPhase::Comment => {
                if c == '-' && n - p > 2 && s.get_char(p + 1) == '-' && s.get_char(p + 2) == '>' {
                    m = MarkupPhase::Content;
                    p += 3;
                } else {
                    p += 1;
                }
            },
        }
    }
}

} // verus!

verus! {

/// The position of the `</style>` closing a style region whose body starts
/// at `i`, treating `/* */` comments as opaque; `None` when it never closes.
pub open spec fn style_scan(s: Seq<char>, i: int, in_comment: bool) -> Option<int>
    decreases s.len() - i,
{
    if i < 0 || i >= s.len() {
        Option::None
    } else if in_comment {
        if s[i] == '*' && i + 1 < s.len() && s[i + 1] == '/' {
            style_scan(s, i + 2, false)
        } else {
            style_scan(s, i + 1, true)
        }
    } else if starts_at(s, i, "</style>"@) {
        Some(i)
    } else if s[i] == '/' && i + 1 < s.len() && s[i + 1] == '*' {
        style_scan(s, i + 2, true)
    } else {
        style_scan(s, i + 1, false)
    }
}

pub proof fn lemma_style_scan(s: Seq<char>, i: int, in_comment: bool)
    requires
        0 <= i <= s.len(),
    ensures
        style_scan(s, i, in_comment) matches Some(e) ==> i <= e && starts_at(s, e, "</style>"@),
    decreases s.len() - i,
{
    if i < s.len() {
        if in_comment {
            if s[i] == '*' && i + 1 < s.len() && s[i + 1] == '/' {
                lemma_style_scan(s, i + 2, false);
            } else {
                lemma_style_scan(s, i + 1, true);
            }
        } else if starts_at(s, i, "</style>"@) {
        } else if s[i] == '/' && i + 1 < s.len() && s[i + 1] == '*' {
            lemma_style_scan(s, i + 2, true);
        } else {
            lemma_style_scan(s, i + 1, false);
        }
    }
}

/// Executable style scan: returns [`style_scan`]`(s, i, false)`.
fn scan_style(s: &str, i: usize) -> (r: Option<usize>)
    requires
        i <= s@.len(),
    ensures
        r matches Some(e) ==> style_scan(s@, i as int, false) == Some(e as int) && i <= e
            && starts_at(s@, e as int, "</style>"@),
        r is None ==> style_scan(s@, i as int, false) is None,
{
    proof {
        lemma_style_scan(s@, i as int, false);
    }
    let n = s.unicode_len();
    let mut p = i;
    let mut in_comment = false;
    loop
        invariant
            i <= p <= n,
            n == s@.len(),
            style_scan(s@, i as int, false) == style_scan(s@, p as int, in_comment),
        decreases n - p,
    {
        if p >= n {
            return None;
        }
        let c = s.get_char(p);
        if in_comment {
            if c == '*' && p + 1 < n && s.get_char(p + 1) == '/' {
                in_comment = false;
                p += 2;
            } else {
                p += 1;
            }
        } else if str_starts_at(s, p, "</style>") {
            return Some(p);
        } else if c == '/' && p + 1 < n && s.get_char(p + 1) == '*' {
            in_comment = true;
            p += 2;
        } else {
            p += 1;
        }
    }
}

/// What one lexing step produces: end of input, a token, or a fatal error.
#[verifier::ext_equal]
pub enum StepResult {
    EndOfInput,
    Tok(SpecToken),
    Fail(LexError),
}

/// The control-flow keyword ladder: the marker token for a recognized
/// `@`-keyword at `p`, or `None` when the text after `@` matches none of
/// them (such text is ordinary script).
pub open spec fn cf_lookup(s: Seq<char>, p: int) -> Option<SpecToken> {
    if starts_at(s, p, "@if"@) {
        Some(marker(SpecTokenKind::ControlFlow(ControlFlowKind::If), p, "@if"@.len() as int))
    } else if starts_at(s, p, "@else if"@) {
        Some(
            marker(
                SpecTokenKind::ControlFlow(ControlFlowKind::ElseIf),
                p,
                "@else if"@.len() as int,
            ),
        )
    } else if starts_at(s, p, "@else"@) {
        Some(marker(SpecTokenKind::ControlFlow(ControlFlowKind::Else), p, "@else"@.len() as int))
    } else if starts_at(s, p, "@for"@) {
        Some(marker(SpecTokenKind::ControlFlow(ControlFlowKind::For), p, "@for"@.len() as int))
    } else if starts_at(s, p, "@empty"@) {
        Some(marker(SpecTokenKind::ControlFlow(ControlFlowKind::Empty), p, "@empty"@.len() as int))
    } else if starts_at(s, p, "@switch"@) {
        Some(
            marker(SpecTokenKind::ControlFlow(ControlFlowKind::Switch), p, "@switch"@.len() as int),
        )
    } else if starts_at(s, p, "@case"@) {
        Some(marker(SpecTokenKind::ControlFlow(ControlFlowKind::Case), p, "@case"@.len() as int))
    } else if starts_at(s, p, "@default"@) {
        Some(
            marker(
                SpecTokenKind::ControlFlow(ControlFlowKind::Default),
                p,
                "@default"@.len() as int,
            ),
        )
    } else if starts_at(s, p, "@defer"@) {
        Some(marker(SpecTokenKind::Defer(DeferKind::Defer), p, "@defer"@.len() as int))
    } else if starts_at(s, p, "@placeholder"@) {
        Some(marker(SpecTokenKind::Defer(DeferKind::Placeholder), p, "@placeholder"@.len() as int))
    } else if starts_at(s, p, "@loading"@) {
        Some(marker(SpecTokenKind::Defer(DeferKind::Loading), p, "@loading"@.len() as int))
    } else if starts_at(s, p, "@error"@) {
        Some(marker(SpecTokenKind::Defer(DeferKind::Error), p, "@error"@.len() as int))
    } else {
        None
    }
}

/// A marker token of the given kind spanning `[p, p + len)`.
pub open spec fn marker(kind: SpecTokenKind, p: int, len: int) -> SpecToken {
    SpecToken { kind, start: p, end: p + len }
}

/// One step of the lexer from position `from`: skip whitespace, then
/// dispatch on the current character exactly as `Default` mode does.
pub open spec fn lex_step(s: Seq<char>, from: int) -> StepResult {
    let p = ws_end(s, from);
    if p >= s.len() {
        StepResult::EndOfInput
    } else if starts_at(s, p, "<style>"@) {
        let body = p + "<style>"@.len();
        match style_scan(s, body, false) {
            Some(close) => StepResult::Tok(
                SpecToken {
                    kind: SpecTokenKind::Style(s.subrange(body, close)),
                    start: p,
                    end: close + "</style>"@.len(),
                },
            ),
            Option::None => StepResult::Fail(LexError::UnterminatedStyle),
        }
    } else if s[p] == '<' {
        match markup_scan(s, p, 0, MarkupPhase::Content) {
            ScanEnd::Done(e) => StepResult::Tok(
                SpecToken { kind: SpecTokenKind::HTML(s.subrange(p, e)), start: p, end: e },
            ),
            ScanEnd::Fail(err) => StepResult::Fail(err),
        }
    } else if s[p] == '{' && p + 1 < s.len() && s[p + 1] == '{' {
        match interp_scan(s, p + 2, InterpMode::Plain) {
            Some(cb) => StepResult::Tok(
                SpecToken {
                    kind: SpecTokenKind::TemplateExpression(trim_spec(s.subrange(p + 2, cb))),
                    start: p,
                    end: cb + 2,
                },
            ),
            None => StepResult::Fail(LexError::UnterminatedInterpolation),
        }
    } else if s[p] == '@' {
        match cf_lookup(s, p) {
            Some(t) => StepResult::Tok(t),
            None => StepResult::Tok(
                SpecToken {
                    kind: SpecTokenKind::JavaScript(
                        s.subrange(p, js_scan(s, p + 1, JsMode::Code)),
                    ),
                    start: p,
                    end: js_scan(s, p + 1, JsMode::Code),
                },
            ),
        }
    } else {
        StepResult::Tok(
            SpecToken {
                kind: SpecTokenKind::JavaScript(s.subrange(p, js_scan(s, p, JsMode::Code))),
                start: p,
                end: js_scan(s, p, JsMode::Code),
            },
        )
    }
}

/// Soundness of one lexing step: a produced token begins right after the
/// skipped whitespace, is non-empty, and lies within the input; end of
/// input is reported only when nothing but whitespace remains.
pub proof fn lemma_lex_step(s: Seq<char>, from: int)
    requires
        0 <= from <= s.len(),
    ensures
        lex_step(s, from) matches StepResult::Tok(t) ==> {
            &&& from <= t.start < t.end <= s.len()
            &&& t.start == ws_end(s, from)
            &&& all_ws(s, from, t.start)
        },
        lex_step(s, from) == StepResult::EndOfInput ==> all_ws(s, from, s.len() as int),
{
    reveal_strlit("<style>");
    reveal_strlit("</style>");
    reveal_strlit("@if");
    reveal_strlit("@else if");
    reveal_strlit("@else");
    reveal_strlit("@for");
    reveal_strlit("@empty");
    reveal_strlit("@switch");
    reveal_strlit("@case");
    reveal_strlit("@default");
    reveal_strlit("@defer");
    reveal_strlit("@placeholder");
    reveal_strlit("@loading");
    reveal_strlit("@error");
    let p = ws_end(s, from);
    lemma_ws_end(s, from);
    if p >= s.len() {
    } else if starts_at(s, p, "<style>"@) {
        let body = p + 7;
        lemma_style_scan(s, body, false);
    } else if s[p] == '<' {
        match markup_scan(s, p, 0, MarkupPhase::Content) {
            ScanEnd::Done(e) => {
                if p + 3 < s.len() && s[p + 1] == '!' && s[p + 2] == '-' && s[p + 3] == '-' {
                    lemma_markup_scan(s, p + 4, 0, MarkupPhase::Comment);
                } else if p + 1 < s.len() && s[p + 1] == '/' {
                } else {
                    lemma_markup_scan(s, p + 1, 0, MarkupPhase::OpenTag);
                }
            },
            ScanEnd::Fail(err) => {},
        }
    } else if s[p] == '{' && p + 1 < s.len() && s[p + 1] == '{' {
        lemma_interp_scan(s, p + 2, InterpMode::Plain);
    } else if s[p] == '@' {
        match cf_lookup(s, p) {
            Some(t) => {},
            None => {
                lemma_js_scan(s, p + 1, JsMode::Code);
            },
        }
    } else {
        lemma_js_scan(s, p + 1, JsMode::Code);
        if s[p] == '\'' || s[p] == '"' || s[p] == '`' {
            lemma_js_scan(s, p + 1, JsMode::InStr { q: s[p], esc: false });
        } else if s[p] == '/' && p + 1 < s.len() && s[p + 1] == '/' {
            lemma_js_scan(s, p + 2, JsMode::LineComment);
        } else if s[p] == '/' && p + 1 < s.len() && s[p + 1] == '*' {
            lemma_js_scan(s, p + 2, JsMode::BlockComment);
        }
    }
}

} // verus!

verus! {

/// The mixed-content lexer.  One lexer instance scans one input; repeated
/// calls of [`Lexer::next_token`] produce the input's segment tokens in
/// order until `Ok(None)` (end of input) or a fatal structural error.
pub struct Lexer {
    input: String,
    pos: usize,
    state: LexerState,
    state_stack: Vec<LexerState>,
    pushes: Ghost<nat>,
    pops: Ghost<nat>,
}

impl Lexer {
    /// The input being scanned.
    pub closed spec fn src(self) -> Seq<char> {
        self.input@
    }

    /// The current scan position (a character offset).
    pub closed spec fn at(self) -> int {
        self.pos as int
    }

    /// How many mode pushes have happened so far.
    pub closed spec fn push_count(self) -> nat {
        self.pushes@
    }

    /// How many mode pops have happened so far.
    pub closed spec fn pop_count(self) -> nat {
        self.pops@
    }

    /// Between calls the lexer rests in `Default` mode with an empty mode
    /// stack, every push matched by a pop, at a position inside the input.
    pub closed spec fn ready(self) -> bool {
        &&& self.pos <= self.input@.len()
        &&& self.state == LexerState::Default
        &&& self.state_stack@.len() == 0
        &&& self.pushes@ == self.pops@
    }

    pub fn new(input: &str) -> (r: Lexer)
        ensures
            r.src() == input@,
            r.at() == 0,
            r.ready(),
            r.push_count() == 0,
    {
        Lexer {
            input: String::from_str(input),
            pos: 0,
            state: LexerState::Default,
            state_stack: Vec::new(),
            pushes: Ghost(0),
            pops: Ghost(0),
        }
    }

    /// Enter a nested mode, remembering the enclosing one on the stack.
    fn push_state(&mut self, st: LexerState)
        ensures
            final(self).state == st,
            final(self).state_stack@ == old(self).state_stack@.push(old(self).state),
            final(self).pushes@ == old(self).pushes@ + 1,
            final(self).pops@ == old(self).pops@,
            final(self).input == old(self).input,
            final(self).pos == old(self).pos,
    {
        self.state_stack.push(self.state);
        self.state = st;
        proof {
            self.pushes@ = self.pushes@ + 1;
        }
    }

    /// Leave a nested mode: restores exactly the mode that was active when
    /// the matching push occurred.  On an empty stack this is a no-op.
    fn pop_state(&mut self)
        ensures
            old(self).state_stack@.len() > 0 ==> {
                &&& final(self).state == old(self).state_stack@.last()
                &&& final(self).state_stack@ == old(self).state_stack@.drop_last()
                &&& final(self).pops@ == old(self).pops@ + 1
            },
            old(self).state_stack@.len() == 0 ==> {
                &&& final(self).state == old(self).state
                &&& final(self).state_stack@ == old(self).state_stack@
                &&& final(self).pops@ == old(self).pops@
            },
            final(self).pushes@ == old(self).pushes@,
            final(self).input == old(self).input,
            final(self).pos == old(self).pos,
    {
        if let Some(st) = self.state_stack.pop() {
            self.state = st;
            proof {
                self.pops@ = self.pops@ + 1;
            }
        }
    }

    /// Produce the next segment token, `Ok(None)` at end of input, or the
    /// fatal error that the input's structure forces.  The result is exactly
    /// what [`lex_step`] defines at the current position; on success the
    /// lexer has consumed through the token's end, its mode stack is empty
    /// again, and its pushes and pops balance.
    pub fn next_token(&mut self) -> (r: Result<Option<Token>, LexError>)
        requires
            old(self).ready(),
        ensures
            final(self).src() == old(self).src(),
            r matches Ok(Some(t)) ==> {
                &&& lex_step(old(self).src(), old(self).at()) == StepResult::Tok(t.spec())
                &&& final(self).ready()
                &&& final(self).at() == t.spec().end
                &&& final(self).push_count() > old(self).push_count()
                &&& final(self).push_count() == final(self).pop_count()
            },
            r matches Ok(Option::None) ==> {
                &&& lex_step(old(self).src(), old(self).at()) == StepResult::EndOfInput
                &&& final(self).ready()
                &&& final(self).at() == old(self).src().len()
                &&& final(self).push_count() == final(self).pop_count()
            },
            r matches Err(e) ==> lex_step(old(self).src(), old(self).at())
                == StepResult::Fail(e),
    {
        proof {
            reveal_strlit("<style>");
            reveal_strlit("</style>");
        }
        let n = self.input.as_str().unicode_len();
        let p = skip_ws(self.input.as_str(), self.pos);
        if p >= n {
            self.pos = n;
            return Ok(None);
        }
        let c = self.input.as_str().get_char(p);
        if str_starts_at(self.input.as_str(), p, "<style>") {
            self.push_state(LexerState::CSS);
            let body = p + 7;
            match scan_style(self.input.as_str(), body) {
                Some(close) => {
                    let payload = String::from_str(
                        self.input.as_str().substring_char(body, close),
                    );
                    let end = close + 8;
                    self.pos = end;
                    self.pop_state();
                    return Ok(Some(Token::new(TokenKind::Style(payload), p, end)));
                },
                None => {
                    return Err(LexError::UnterminatedStyle);
                },
            }
        } else if c == '<' {
            self.push_state(LexerState::HTML);
            match scan_markup(self.input.as_str(), p) {
                Ok(e) => {
                    let payload = String::from_str(self.input.as_str().substring_char(p, e));
                    self.pos = e;
                    self.pop_state();
                    return Ok(Some(Token::new(TokenKind::HTML(payload), p, e)));
                },
                Err(err) => {
                    return Err(err);
                },
            }
        } else if c == '{' && p + 1 < n && self.input.as_str().get_char(p + 1) == '{' {
            self.push_state(LexerState::TemplateExpression);
            match scan_interp(self.input.as_str(), p + 2) {
                Some(cb) => {
                    let payload = trim_str(self.input.as_str().substring_char(p + 2, cb));
                    let end = cb + 2;
                    self.pos = end;
                    self.pop_state();
                    return Ok(
                        Some(Token::new(TokenKind::TemplateExpression(payload), p, end)),
                    );
                },
                None => {
                    return Err(LexError::UnterminatedInterpolation);
                },
            }
        } else if c == '@' {
            self.push_state(LexerState::ControlFlow);
            let r = self.control_flow_marker(p, n);
            if let Some(tok) = r {
                self.pop_state();
                return Ok(Some(tok));
            }
            self.push_state(LexerState::JavaScript);
            let e = scan_js(self.input.as_str(), p + 1);
            let payload = String::from_str(self.input.as_str().substring_char(p, e));
            self.pos = e;
            self.pop_state();
            self.pop_state();
            return Ok(Some(Token::new(TokenKind::JavaScript(payload), p, e)));
        } else {
            self.push_state(LexerState::JavaScript);
            let e = scan_js(self.input.as_str(), p);
            let payload = String::from_str(self.input.as_str().substring_char(p, e));
            self.pos = e;
            self.pop_state();
            return Ok(Some(Token::new(TokenKind::JavaScript(payload), p, e)));
        }
    }

    /// Try the control-flow keyword ladder at `p`; a marker token for a
    /// recognized keyword, `None` otherwise.  Does not move the cursor past
    /// anything but the keyword itself.
    fn control_flow_marker(&mut self, p: usize, n: usize) -> (r: Option<Token>)
        requires
            old(self).pos <= p,
            p <= old(self).src().len(),
            n == old(self).src().len(),
        ensures
            final(self).src() == old(self).src(),
            final(self).state == old(self).state,
            final(self).state_stack == old(self).state_stack,
            final(self).pushes == old(self).pushes,
            final(self).pops == old(self).pops,
            r matches Some(t) ==> cf_lookup(old(self).src(), p as int) == Some(t.spec())
                && final(self).at() == t.spec().end,
            r is None ==> cf_lookup(old(self).src(), p as int) is None && final(self).pos
                == old(self).pos,
    {
        let s = &self.input;
        let mut kind: Option<TokenKind> = None;
        let mut len: usize = 0;
        if str_starts_at(s.as_str(), p, "@if") {
            kind = Some(TokenKind::ControlFlow(ControlFlowKind::If));
            len = "@if".unicode_len();
            proof {
                assert(p + len <= s@.len());
            }
        } else if str_starts_at(s.as_str(), p, "@else if") {
            kind = Some(TokenKind::ControlFlow(ControlFlowKind::ElseIf));
            len = "@else if".unicode_len();
            proof {
                assert(p + len <= s@.len());
            }
        } else if str_starts_at(s.as_str(), p, "@else") {
            kind = Some(TokenKind::ControlFlow(ControlFlowKind::Else));
            len = "@else".unicode_len();
            proof {
                assert(p + len <= s@.len());
            }
        } else if str_starts_at(s.as_str(), p, "@for") {
            kind = Some(TokenKind::ControlFlow(ControlFlowKind::For));
            len = "@for".unicode_len();
            proof {
                assert(p + len <= s@.len());
            }
        } else if str_starts_at(s.as_str(), p, "@empty") {
            kind = Some(TokenKind::ControlFlow(ControlFlowKind::Empty));
            len = "@empty".unicode_len();
            proof {
                assert(p + len <= s@.len());
            }
        } else if str_starts_at(s.as_str(), p, "@switch") {
            kind = Some(TokenKind::ControlFlow(ControlFlowKind::Switch));
            len = "@switch".unicode_len();
            proof {
                assert(p + len <= s@.len());
            }
        } else if str_starts_at(s.as_str(), p, "@case") {
            kind = Some(TokenKind::ControlFlow(ControlFlowKind::Case));
            len = "@case".unicode_len();
            proof {
                assert(p + len <= s@.len());
            }
        } else if str_starts_at(s.as_str(), p, "@default") {
            kind = Some(TokenKind::ControlFlow(ControlFlowKind::Default));
            len = "@default".unicode_len();
            proof {
                assert(p + len <= s@.len());
            }
        } else if str_starts_at(s.as_str(), p, "@defer") {
            kind = Some(TokenKind::Defer(DeferKind::Defer));
            len = "@defer".unicode_len();
            proof {
                assert(p + len <= s@.len());
            }
        } else if str_starts_at(s.as_str(), p, "@placeholder") {
            kind = Some(TokenKind::Defer(DeferKind::Placeholder));
            len = "@placeholder".unicode_len();
            proof {
                assert(p + len <= s@.len());
            }
        } else if str_starts_at(s.as_str(), p, "@loading") {
            kind = Some(TokenKind::Defer(DeferKind::Loading));
            len = "@loading".unicode_len();
            proof {
                assert(p + len <= s@.len());
            }
        } else if str_starts_at(s.as_str(), p, "@error") {
            kind = Some(TokenKind::Defer(DeferKind::Error));
            len = "@error".unicode_len();
            proof {
                assert(p + len <= s@.len());
            }
        }
        match kind {
            Some(k) => {
                let end = p + len;
                self.pos = end;
                Some(Token::new(k, p, end))
            },
            None => None,
        }
    }
}

} // verus!

verus! {

/// The spec-level values of a sequence of tokens, element-wise.
pub open spec fn views_of(ts: Seq<Token>) -> Seq<SpecToken> {
    ts.map_values(|t: Token| t.spec())
}

/// Tokens `ts` tile `s` from `from` to `upto`: each token is non-empty and
/// in bounds, only whitespace separates `from` from the first token, each
/// token from the next, and the last token ends exactly at `upto`.
pub open spec fn chain(s: Seq<char>, ts: Seq<SpecToken>, from: int, upto: int) -> bool
    decreases ts.len(),
{
    if ts.len() == 0 {
        from == upto
    } else {
        &&& from <= ts[0].start < ts[0].end <= s.len()
        &&& all_ws(s, from, ts[0].start)
        &&& chain(s, ts.drop_first(), ts[0].end, upto)
    }
}

/// Tokens `ts` tile `s` from `from` to the end of the input: each token is
/// non-empty and in bounds, only whitespace separates `from` from the first
/// token and each token from the next, and after the last token only
/// whitespace remains.
pub open spec fn tiles(s: Seq<char>, ts: Seq<SpecToken>, from: int) -> bool
    decreases ts.len(),
{
    if ts.len() == 0 {
        all_ws(s, from, s.len() as int)
    } else {
        &&& from <= ts[0].start < ts[0].end <= s.len()
        &&& all_ws(s, from, ts[0].start)
        &&& tiles(s, ts.drop_first(), ts[0].end)
    }
}

/// A chain whose tail is all whitespace tiles the input.
pub proof fn lemma_chain_then_ws(s: Seq<char>, ts: Seq<SpecToken>, from: int, upto: int)
    requires
        chain(s, ts, from, upto),
        all_ws(s, upto, s.len() as int),
    ensures
        tiles(s, ts, from),
    decreases ts.len(),
{
    if ts.len() > 0 {
        lemma_chain_then_ws(s, ts.drop_first(), ts[0].end, upto);
    }
}

/// The raw text of the tokens, each preceded by the whitespace skipped
/// before it, with the whitespace after the last token appended.
pub open spec fn concat_with_gaps(s: Seq<char>, ts: Seq<SpecToken>, from: int) -> Seq<char>
    decreases ts.len(),
{
    if ts.len() == 0 {
        s.subrange(from, s.len() as int)
    } else {
        s.subrange(from, ts[0].start) + s.subrange(ts[0].start, ts[0].end) + concat_with_gaps(
            s,
            ts.drop_first(),
            ts[0].end,
        )
    }
}

/// Tiling tokens cover `[from, len)` exactly.
pub proof fn lemma_tiles_cover(s: Seq<char>, ts: Seq<SpecToken>, from: int)
    requires
        0 <= from <= s.len(),
        tiles(s, ts, from),
    ensures
        concat_with_gaps(s, ts, from) == s.subrange(from, s.len() as int),
    decreases ts.len(),
{
    if ts.len() == 0 {
    } else {
        let t = ts[0];
        lemma_tiles_cover(s, ts.drop_first(), t.end);
        assert(concat_with_gaps(s, ts, from) =~= s.subrange(from, s.len() as int));
    }
}

/// Segment coverage: concatenating the raw text of all returned segment
/// tokens, together with the skipped whitespace (before each token and after
/// the last one), reconstructs the original input exactly.
pub proof fn lemma_segment_coverage(s: Seq<char>, ts: Seq<SpecToken>)
    requires
        tiles(s, ts, 0),
    ensures
        concat_with_gaps(s, ts, 0) == s,
{
    lemma_tiles_cover(s, ts, 0);
    assert(s.subrange(0, s.len() as int) =~= s);
}

/// Appending one more well-placed token extends a chain.
proof fn lemma_chain_snoc(s: Seq<char>, ts: Seq<SpecToken>, from: int, mid: int, t: SpecToken)
    requires
        chain(s, ts, from, mid),
        mid <= t.start < t.end <= s.len(),
        all_ws(s, mid, t.start),
    ensures
        chain(s, ts.push(t), from, t.end),
    decreases ts.len(),
{
    assert(ts.push(t)[0] == if ts.len() == 0 { t } else { ts[0] });
    if ts.len() == 0 {
        assert(ts.push(t).drop_first() =~= Seq::<SpecToken>::empty());
        assert(chain(s, Seq::<SpecToken>::empty(), t.end, t.end));
        assert(chain(s, ts.push(t), from, t.end));
    } else {
        lemma_chain_snoc(s, ts.drop_first(), ts[0].end, mid, t);
        assert(ts.push(t).drop_first() =~= ts.drop_first().push(t));
    }
}

impl Lexer {
    /// Pull the lexer to completion: all segment tokens of the input in
    /// order, or the first fatal error.  On success the tokens tile the
    /// input from the starting position to a point after which only
    /// whitespace remains, and the mode pushes of the whole run equal the
    /// pops.  An error is never invented: it is the fatal outcome of the
    /// lexing step reached after some chain of produced tokens.
    pub fn tokenize(&mut self) -> (r: Result<Vec<Token>, LexError>)
        requires
            old(self).ready(),
        ensures
            final(self).src() == old(self).src(),
            r matches Ok(ts) ==> {
                &&& tiles(old(self).src(), views_of(ts@), old(self).at())
                &&& final(self).at() == old(self).src().len()
                &&& final(self).ready()
                &&& final(self).push_count() == final(self).pop_count()
            },
            r matches Err(e) ==> exists|ts: Seq<SpecToken>, i: int|
                #[trigger] chain(old(self).src(), ts, old(self).at(), i) && lex_step(
                    old(self).src(),
                    i,
                ) == StepResult::Fail(e),
    {
        let ghost s = self.input@;
        let ghost from = self.pos as int;
        let mut out: Vec<Token> = Vec::new();
        proof {
            assert(views_of(out@) =~= Seq::<SpecToken>::empty());
        }
        loop
            invariant
                self.ready(),
                s == old(self).src(),
                from == old(self).at(),
                self.src() == s,
                from <= self.at() <= s.len(),
                chain(s, views_of(out@), from, self.at()),
            decreases s.len() - self.at(),
        {
            let ghost here = self.at();
            let step = self.next_token();
            match step {
                Ok(Some(t)) => {
                    proof {
                        lemma_lex_step(s, here);
                        lemma_chain_snoc(s, views_of(out@), from, here, t.spec());
                        assert(views_of(out@.push(t)) =~= views_of(out@).push(t.spec()));
                    }
                    out.push(t);
                },
                Ok(None) => {
                    proof {
                        lemma_lex_step(s, here);
                        lemma_ws_end(s, here);
                        lemma_chain_then_ws(s, views_of(out@), from, here);
                    }
                    return Ok(out);
                },
                Err(e) => {
                    proof {
                        assert(chain(s, views_of(out@), from, here) && lex_step(s, here)
                            == StepResult::Fail(e));
                    }
                    return Err(e);
                },
            }
        }
    }
}

/// String-literal immunity: while the script scanner stands inside a quoted
/// string or template literal, a `;` or `}` (or any other character that is
/// neither the closing quote nor a backslash) does not end the segment; the
/// scan simply moves on inside the literal.
pub proof fn lemma_string_literal_immunity(s: Seq<char>, i: int, q: char)
    requires
        0 <= i < s.len(),
        s[i] == ';' || s[i] == '}',
        q == '\'' || q == '"' || q == '`',
    ensures
        js_scan(s, i, JsMode::InStr { q, esc: false }) == js_scan(
            s,
            i + 1,
            JsMode::InStr { q, esc: false },
        ),
        js_scan(s, i, JsMode::InStr { q, esc: false }) >= i + 1,
{
    lemma_js_scan(s, i + 1, JsMode::InStr { q, esc: false });
}

/// The counterpart that makes immunity meaningful: outside any literal, a
/// `;` is a statement terminator and ends the script segment just after it.
pub proof fn lemma_terminator_ends_segment(s: Seq<char>, i: int)
    requires
        0 <= i < s.len(),
        s[i] == ';',
    ensures
        js_scan(s, i, JsMode::Code) == i + 1,
{
}

} // verus!
