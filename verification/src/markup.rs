//! The plain markup tokenizer: turns raw markup text into start / end /
//! self-closing tags with their attributes, text runs, and comments.  It
//! validates nothing beyond token shape; tag balancing is the mixed-content
//! lexer's concern.

use vstd::prelude::*;

use crate::text::{
    all_ws, find_from, find_pattern, is_ws, is_ws_char, lemma_find_from, lemma_ws_end, skip_ws,
    starts_at, str_starts_at, trim_spec, trim_str, ws_end,
};

verus! {

/// One markup token.
#[derive(Clone, PartialEq, Eq, Debug)]
pub enum Token {
    StartTag(String, Vec<Attribute>),
    EndTag(String),
    SelfClosingTag(String, Vec<Attribute>),
    Text(String),
    Comment(String),
}

/// One attribute: its name and its quoted value.
#[derive(Clone, PartialEq, Eq, Debug)]
pub struct Attribute {
    pub name: String,
    pub value: String,
}

/// Spec-level mirror of [`Attribute`]: a name-value pair.
pub open spec fn spec_attrs(v: Seq<Attribute>) -> Seq<(Seq<char>, Seq<char>)> {
    Seq::new(v.len(), |i: int| (v[i].name@, v[i].value@))
}

/// Spec-level mirror of [`Token`].
#[verifier::ext_equal]
pub enum SpecMarkupToken {
    StartTag(Seq<char>, Seq<(Seq<char>, Seq<char>)>),
    EndTag(Seq<char>),
    SelfClosingTag(Seq<char>, Seq<(Seq<char>, Seq<char>)>),
    Text(Seq<char>),
    Comment(Seq<char>),
}

impl Token {
    /// The spec-level value of this token.
    pub open spec fn spec(self) -> SpecMarkupToken {
        match self {
            Token::StartTag(n, a) => SpecMarkupToken::StartTag(n@, spec_attrs(a@)),
            Token::EndTag(n) => SpecMarkupToken::EndTag(n@),
            Token::SelfClosingTag(n, a) => SpecMarkupToken::SelfClosingTag(n@, spec_attrs(a@)),
            Token::Text(t) => SpecMarkupToken::Text(t@),
            Token::Comment(c) => SpecMarkupToken::Comment(c@),
        }
    }
}

/// The end of an attribute or tag name starting at `i`: the first `=`,
/// whitespace, `>` or `/` at or after it, or the end of `s`.
pub open spec fn name_end(s: Seq<char>, i: int, in_attr: bool) -> int
    decreases s.len() - i,
{
    if i < 0 || i >= s.len() {
        s.len() as int
    } else if s[i] == '=' || is_ws(s[i]) || (!in_attr && (s[i] == '>' || s[i] == '/')) {
        i
    } else if in_attr && s[i] == '=' {
        i
    } else {
        name_end(s, i + 1, in_attr)
    }
}

pub proof fn lemma_name_end(s: Seq<char>, i: int, in_attr: bool)
    requires
        0 <= i <= s.len(),
    ensures
        i <= name_end(s, i, in_attr) <= s.len(),
    decreases s.len() - i,
{
    if i < s.len() && !(s[i] == '=' || is_ws(s[i]) || (!in_attr && (s[i] == '>' || s[i] == '/'))) {
        lemma_name_end(s, i + 1, in_attr);
    }
}

/// Executable scan matching [`name_end`].
pub(crate) fn scan_name(s: &str, i: usize, in_attr: bool) -> (j: usize)
    requires
        i <= s@.len(),
    ensures
        j == name_end(s@, i as int, in_attr),
        i <= j <= s@.len(),
{
    proof {
        lemma_name_end(s@, i as int, in_attr);
    }
    let n = s.unicode_len();
    let mut p = i;
    loop
        invariant
            i <= p <= n,
            n == s@.len(),
            name_end(s@, i as int, in_attr) == name_end(s@, p as int, in_attr),
        decreases n - p,
    {
        if p >= n {
            return n;
        }
        let c = s.get_char(p);
        if c == '=' || is_ws_char(c) || (!in_attr && (c == '>' || c == '/')) {
            return p;
        }
        p += 1;
    }
}

/// The first position of character `c` at or after `i`, or the end of `s`.
pub open spec fn char_from(s: Seq<char>, i: int, c: char) -> int
    decreases s.len() - i,
{
    if i < 0 || i >= s.len() {
        s.len() as int
    } else if s[i] == c {
        i
    } else {
        char_from(s, i + 1, c)
    }
}

pub proof fn lemma_char_from(s: Seq<char>, i: int, c: char)
    requires
        0 <= i <= s.len(),
    ensures
        i <= char_from(s, i, c) <= s.len(),
        char_from(s, i, c) < s.len() ==> s[char_from(s, i, c)] == c,
    decreases s.len() - i,
{
    if i < s.len() && s[i] != c {
        lemma_char_from(s, i + 1, c);
    }
}

/// Executable scan matching [`char_from`].
pub fn scan_char(s: &str, i: usize, c: char) -> (j: usize)
    requires
        i <= s@.len(),
    ensures
        j == char_from(s@, i as int, c),
        i <= j <= s@.len(),
{
    proof {
        lemma_char_from(s@, i as int, c);
    }
    let n = s.unicode_len();
    let mut p = i;
    while p < n && s.get_char(p) != c
        invariant
            i <= p <= n,
            n == s@.len(),
            char_from(s@, i as int, c) == char_from(s@, p as int, c),
        decreases n - p,
    {
        p += 1;
    }
    p
}

/// The attributes of a tag header starting at `i`, and the position of the
/// header's closing `>` or `/>` (or the end of `s`).  An attribute counts
/// only when its name is followed by `=` and a quoted value.
pub open spec fn attrs_scan(s: Seq<char>, i: int) -> (Seq<(Seq<char>, Seq<char>)>, int)
    decreases s.len() - i,
    when 0 <= i <= s.len()
    via attrs_scan_decreases
{
    let p = ws_end(s, i);
    if p >= s.len() {
        (Seq::empty(), s.len() as int)
    } else if s[p] == '>' || (s[p] == '/' && p + 1 < s.len() && s[p + 1] == '>') {
        (Seq::empty(), p)
    } else {
        let q = name_end(s, p, false);
        let r = ws_end(s, q);
        if r < s.len() && s[r] == '=' {
            let t = ws_end(s, r + 1);
            if t < s.len() && (s[t] == '"' || s[t] == '\'') {
                let u = char_from(s, t + 1, s[t]);
                let after = if u < s.len() {
                    u + 1
                } else {
                    s.len() as int
                };
                let rest = attrs_scan(s, after);
                (seq![(s.subrange(p, q), s.subrange(t + 1, u))] + rest.0, rest.1)
            } else {
                attrs_scan(s, t)
            }
        } else {
            attrs_scan(s, if q > p {
                q
            } else {
                p + 1
            })
        }
    }
}

#[via_fn]
proof fn attrs_scan_decreases(s: Seq<char>, i: int) {
    lemma_ws_end(s, i);
    let p = ws_end(s, i);
    if p < s.len() && !(s[p] == '>' || (s[p] == '/' && p + 1 < s.len() && s[p + 1] == '>')) {
        lemma_name_end(s, p, false);
        let q = name_end(s, p, false);
        lemma_ws_end(s, q);
        let r = ws_end(s, q);
        if r < s.len() && s[r] == '=' {
            lemma_ws_end(s, r + 1);
            let t = ws_end(s, r + 1);
            if t < s.len() && (s[t] == '"' || s[t] == '\'') {
                lemma_char_from(s, t + 1, s[t]);
            }
        }
    }
}

pub proof fn lemma_attrs_scan(s: Seq<char>, i: int)
    requires
        0 <= i <= s.len(),
    ensures
        i <= attrs_scan(s, i).1 <= s.len(),
    decreases s.len() - i,
{
    lemma_ws_end(s, i);
    let p = ws_end(s, i);
    if p < s.len() && !(s[p] == '>' || (s[p] == '/' && p + 1 < s.len() && s[p + 1] == '>')) {
        lemma_name_end(s, p, false);
        let q = name_end(s, p, false);
        lemma_ws_end(s, q);
        let r = ws_end(s, q);
        if r < s.len() && s[r] == '=' {
            lemma_ws_end(s, r + 1);
            let t = ws_end(s, r + 1);
            if t < s.len() && (s[t] == '"' || s[t] == '\'') {
                lemma_char_from(s, t + 1, s[t]);
                let u = char_from(s, t + 1, s[t]);
                let after = if u < s.len() {
                    u + 1
                } else {
                    s.len() as int
                };
                lemma_attrs_scan(s, after);
            } else {
                lemma_attrs_scan(s, t);
            }
        } else {
            lemma_attrs_scan(s, if q > p {
                q
            } else {
                p + 1
            });
        }
    }
}

/// Executable attribute scan matching [`attrs_scan`].
pub fn scan_attributes(s: &str, i: usize) -> (r: (Vec<(String, String)>, usize))
    requires
        i <= s@.len(),
    ensures
        spec_pairs_view(r.0@) == attrs_scan(s@, i as int).0,
        r.1 as int == attrs_scan(s@, i as int).1,
        i <= r.1 <= s@.len(),
{
    proof {
        lemma_attrs_scan(s@, i as int);
    }
    let n = s.unicode_len();
    let mut out: Vec<(String, String)> = Vec::new();
    let mut pos = i;
    proof {
        assert(spec_pairs_view(out@) =~= Seq::<(Seq<char>, Seq<char>)>::empty());
    }
    loop
        invariant
            i <= pos <= n,
            n == s@.len(),
            attrs_scan(s@, i as int).0 == spec_pairs_view(out@) + attrs_scan(s@, pos as int).0,
            attrs_scan(s@, i as int).1 == attrs_scan(s@, pos as int).1,
        decreases n - pos,
    {
        proof {
            lemma_attrs_scan(s@, pos as int);
        }
        let p = skip_ws(s, pos);
        if p >= n {
            proof {
                assert(attrs_scan(s@, pos as int).0 =~= Seq::<(Seq<char>, Seq<char>)>::empty());
                assert(spec_pairs_view(out@) + Seq::<(Seq<char>, Seq<char>)>::empty()
                    =~= spec_pairs_view(out@));
            }
            return (out, n);
        }
        let c = s.get_char(p);
        if c == '>' || (c == '/' && p + 1 < n && s.get_char(p + 1) == '>') {
            proof {
                assert(attrs_scan(s@, pos as int).0 =~= Seq::<(Seq<char>, Seq<char>)>::empty());
                assert(spec_pairs_view(out@) + Seq::<(Seq<char>, Seq<char>)>::empty()
                    =~= spec_pairs_view(out@));
            }
            return (out, p);
        }
        let q = scan_name(s, p, false);
        let r = skip_ws(s, q);
        if r < n && s.get_char(r) == '=' {
            let t = skip_ws(s, r + 1);
            if t < n && (s.get_char(t) == '"' || s.get_char(t) == '\'') {
                let quote = s.get_char(t);
                let u = scan_char(s, t + 1, quote);
                let after = if u < n {
                    u + 1
                } else {
                    n
                };
                let name = String::from_str(s.substring_char(p, q));
                let value = String::from_str(s.substring_char(t + 1, u));
                let ghost before = spec_pairs_view(out@);
                out.push((name, value));
                proof {
                    assert(spec_pairs_view(out@) =~= before.push(
                        (s@.subrange(p as int, q as int), s@.subrange(t + 1, u as int)),
                    ));
                    assert(spec_pairs_view(out@) + attrs_scan(s@, after as int).0 =~= before + (
                    seq![(s@.subrange(p as int, q as int), s@.subrange(t + 1, u as int))]
                        + attrs_scan(s@, after as int).0));
                }
                pos = after;
            } else {
                pos = t;
            }
        } else {
            pos = if q > p {
                q
            } else {
                p + 1
            };
        }
    }
}

/// The views of a sequence of string pairs.
pub open spec fn spec_pairs_view(v: Seq<(String, String)>) -> Seq<(Seq<char>, Seq<char>)> {
    Seq::new(v.len(), |i: int| (v[i].0@, v[i].1@))
}

} // verus!

verus! {

/// One tokenizing step at position `i`: the next token and the position
/// after it; `None` only at end of input.  An unterminated comment yields
/// the remaining text as the comment.
pub open spec fn spec_next_token(s: Seq<char>, i: int) -> Option<(SpecMarkupToken, int)> {
    let p = ws_end(s, i);
    if p >= s.len() {
        Option::None
    } else if starts_at(s, p, "<!--"@) {
        let f = find_from(s, p + "<!--"@.len(), "-->"@);
        if starts_at(s, f, "-->"@) {
            Some(
                (
                    SpecMarkupToken::Comment(s.subrange(p + "<!--"@.len(), f)),
                    f + "-->"@.len(),
                ),
            )
        } else {
            Some((SpecMarkupToken::Comment(s.subrange(p + "<!--"@.len(), s.len() as int)), s.len() as int))
        }
    } else if s[p] == '<' && p + 1 < s.len() && s[p + 1] == '/' {
        let q = char_from(s, p + 2, '>');
        let after = if q < s.len() {
            q + 1
        } else {
            s.len() as int
        };
        Some((SpecMarkupToken::EndTag(s.subrange(p + 2, q)), after))
    } else if s[p] == '<' {
        let q = name_end(s, p + 1, false);
        let a = attrs_scan(s, q);
        if a.1 + 1 < s.len() && s[a.1] == '/' && s[a.1 + 1] == '>' {
            Some((SpecMarkupToken::SelfClosingTag(s.subrange(p + 1, q), a.0), a.1 + 2))
        } else {
            let after = if a.1 < s.len() {
                a.1 + 1
            } else {
                s.len() as int
            };
            Some((SpecMarkupToken::StartTag(s.subrange(p + 1, q), a.0), after))
        }
    } else {
        let q = char_from(s, p, '<');
        Some((SpecMarkupToken::Text(trim_spec(s.subrange(p, q))), q))
    }
}

/// The plain markup tokenizer over one input.
pub struct HtmlTokenizer {
    input: String,
    pos: usize,
}

impl HtmlTokenizer {
    /// The input being tokenized.
    pub closed spec fn src(self) -> Seq<char> {
        self.input@
    }

    /// The current position (a character offset).
    pub closed spec fn at(self) -> int {
        self.pos as int
    }

    /// The position is inside the input.
    pub closed spec fn wf(self) -> bool {
        self.pos <= self.input@.len()
    }

    pub fn new(input: &str) -> (r: HtmlTokenizer)
        ensures
            r.src() == input@,
            r.at() == 0,
            r.wf(),
    {
        HtmlTokenizer { input: String::from_str(input), pos: 0 }
    }

    /// Produce the next markup token, exactly as [`spec_next_token`]
    /// defines at the current position, and advance past it.
    pub fn next_token(&mut self) -> (r: Option<Token>)
        requires
            old(self).wf(),
        ensures
            final(self).src() == old(self).src(),
            final(self).wf(),
            r matches Some(t) ==> spec_next_token(old(self).src(), old(self).at()) matches Some(
                st,
            ) && t.spec() == st.0 && final(self).at() == st.1,
            r is None ==> spec_next_token(old(self).src(), old(self).at()) is None,
    {
        proof {
            reveal_strlit("<!--");
            reveal_strlit("-->");
        }
        let n = self.input.as_str().unicode_len();
        let p = skip_ws(self.input.as_str(), self.pos);
        if p >= n {
            self.pos = n;
            return None;
        }
        let c = self.input.as_str().get_char(p);
        if str_starts_at(self.input.as_str(), p, "<!--") {
            let f = find_pattern(self.input.as_str(), p + 4, "-->");
            if str_starts_at(self.input.as_str(), f, "-->") {
                let body = String::from_str(self.input.as_str().substring_char(p + 4, f));
                self.pos = f + 3;
                return Some(Token::Comment(body));
            } else {
                let body = String::from_str(self.input.as_str().substring_char(p + 4, n));
                self.pos = n;
                return Some(Token::Comment(body));
            }
        } else if c == '<' && p + 1 < n && self.input.as_str().get_char(p + 1) == '/' {
            let q = scan_char(self.input.as_str(), p + 2, '>');
            let name = String::from_str(self.input.as_str().substring_char(p + 2, q));
            let after = if q < n {
                q + 1
            } else {
                n
            };
            self.pos = after;
            return Some(Token::EndTag(name));
        } else if c == '<' {
            let q = scan_name(self.input.as_str(), p + 1, false);
            let (pairs, tail) = scan_attributes(self.input.as_str(), q);
            let name = String::from_str(self.input.as_str().substring_char(p + 1, q));
            let mut attributes: Vec<Attribute> = Vec::new();
            let ghost pv = crate::markup::spec_pairs_view(pairs@);
            let m = pairs.len();
            let mut k: usize = 0;
            proof {
                assert(spec_attrs(attributes@) =~= pv.subrange(0, 0));
            }
            while k < m
                invariant
                    k <= m,
                    m == pairs@.len(),
                    pv == crate::markup::spec_pairs_view(pairs@),
                    spec_attrs(attributes@) == pv.subrange(0, k as int),
                decreases m - k,
            {
                let ghost before = spec_attrs(attributes@);
                attributes.push(
                    Attribute { name: pairs[k].0.clone(), value: pairs[k].1.clone() },
                );
                proof {
                    assert(spec_attrs(attributes@) =~= before.push(
                        (pairs@[k as int].0@, pairs@[k as int].1@),
                    ));
                    assert(pv[k as int] == (pairs@[k as int].0@, pairs@[k as int].1@));
                    assert(pv.subrange(0, k + 1) =~= pv.subrange(0, k as int).push(pv[k as int]));
                }
                k += 1;
            }
            proof {
                assert(pv.subrange(0, m as int) =~= pv);
            }
            if tail < n && n - tail > 1 && self.input.as_str().get_char(tail) == '/'
                && self.input.as_str().get_char(tail + 1) == '>' {
                self.pos = tail + 2;
                return Some(Token::SelfClosingTag(name, attributes));
            } else {
                let after = if tail < n {
                    tail + 1
                } else {
                    n
                };
                self.pos = after;
                return Some(Token::StartTag(name, attributes));
            }
        } else {
            let q = scan_char(self.input.as_str(), p, '<');
            let text = trim_str(self.input.as_str().substring_char(p, q));
            self.pos = q;
            return Some(Token::Text(text));
        }
    }
}

} // verus!
