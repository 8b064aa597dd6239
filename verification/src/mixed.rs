//! The content front end: pulls the content lexer to completion and groups
//! what it produced — markup content, style text, script text — in order.

use vstd::prelude::*;

use crate::content::{
    content_fail_at, content_token_at, spec_contents, HtmlContent, Lexer, SpecContentToken,
    SpecHtmlContent, Token,
};
use crate::text::ws_end;
use crate::token::LexError;

verus! {

/// Tokens `toks` are one complete lexing of `s` from `i` to `end`.
pub open spec fn content_trace(
    s: Seq<char>,
    i: int,
    toks: Seq<SpecContentToken>,
    end: int,
) -> bool
    decreases toks.len(),
{
    if toks.len() == 0 {
        end == i
    } else {
        exists|j: int|
            #[trigger] content_token_at(s, i, toks[0], j) && content_trace(
                s,
                j,
                toks.drop_first(),
                end,
            )
    }
}

/// Tokens `toks` are the lexer's complete output for `s`: a trace from the
/// start to a position after which only whitespace remains.
pub open spec fn content_run(s: Seq<char>, toks: Seq<SpecContentToken>) -> bool {
    exists|end: int|
        #[trigger] content_trace(s, 0, toks, end) && ws_end(s, end) >= s.len()
}

/// One more produced token extends a trace.
proof fn lemma_trace_snoc(
    s: Seq<char>,
    i: int,
    toks: Seq<SpecContentToken>,
    e: int,
    tv: SpecContentToken,
    e2: int,
)
    requires
        content_trace(s, i, toks, e),
        content_token_at(s, e, tv, e2),
    ensures
        content_trace(s, i, toks.push(tv), e2),
    decreases toks.len(),
{
    if toks.len() == 0 {
        assert(toks.push(tv)[0] == tv);
        assert(toks.push(tv).drop_first() =~= Seq::<SpecContentToken>::empty());
        assert(content_trace(s, e2, Seq::<SpecContentToken>::empty(), e2));
        assert(content_token_at(s, i, toks.push(tv)[0], e2));
    } else {
        let j = choose|j: int|
            #[trigger] content_token_at(s, i, toks[0], j) && content_trace(
                s,
                j,
                toks.drop_first(),
                e,
            );
        lemma_trace_snoc(s, j, toks.drop_first(), e, tv, e2);
        assert(toks.push(tv)[0] == toks[0]);
        assert(toks.push(tv).drop_first() =~= toks.drop_first().push(tv));
        assert(content_token_at(s, i, toks.push(tv)[0], j));
    }
}

/// The markup content of a token run, in order.
pub open spec fn toks_html(toks: Seq<SpecContentToken>) -> Seq<SpecHtmlContent>
    decreases toks.len(),
{
    if toks.len() == 0 {
        Seq::empty()
    } else {
        (match toks[0] {
            SpecContentToken::HTML(cs) => cs,
            _ => Seq::empty(),
        }) + toks_html(toks.drop_first())
    }
}

/// The style texts of a token run, in order.
pub open spec fn toks_css(toks: Seq<SpecContentToken>) -> Seq<Seq<char>>
    decreases toks.len(),
{
    if toks.len() == 0 {
        Seq::empty()
    } else {
        (match toks[0] {
            SpecContentToken::Style(v) => seq![v],
            _ => Seq::<Seq<char>>::empty(),
        }) + toks_css(toks.drop_first())
    }
}

/// The script texts of a token run, in order.
pub open spec fn toks_js(toks: Seq<SpecContentToken>) -> Seq<Seq<char>>
    decreases toks.len(),
{
    if toks.len() == 0 {
        Seq::empty()
    } else {
        (match toks[0] {
            SpecContentToken::JavaScript(v) => seq![v],
            _ => Seq::<Seq<char>>::empty(),
        }) + toks_js(toks.drop_first())
    }
}

/// One more token extends the groups.
proof fn lemma_groups_snoc(toks: Seq<SpecContentToken>, tv: SpecContentToken)
    ensures
        toks_html(toks.push(tv)) == toks_html(toks) + (match tv {
            SpecContentToken::HTML(cs) => cs,
            _ => Seq::<SpecHtmlContent>::empty(),
        }),
        toks_css(toks.push(tv)) == toks_css(toks) + (match tv {
            SpecContentToken::Style(v) => seq![v],
            _ => Seq::<Seq<char>>::empty(),
        }),
        toks_js(toks.push(tv)) == toks_js(toks) + (match tv {
            SpecContentToken::JavaScript(v) => seq![v],
            _ => Seq::<Seq<char>>::empty(),
        }),
    decreases toks.len(),
{
    if toks.len() == 0 {
        assert(toks.push(tv)[0] == tv);
        assert(toks.push(tv).drop_first() =~= Seq::<SpecContentToken>::empty());
        assert(toks_html(Seq::<SpecContentToken>::empty()) =~= Seq::<SpecHtmlContent>::empty());
        assert(toks_css(Seq::<SpecContentToken>::empty()) =~= Seq::<Seq<char>>::empty());
        assert(toks_js(Seq::<SpecContentToken>::empty()) =~= Seq::<Seq<char>>::empty());
        assert(toks_html(toks.push(tv)) =~= toks_html(toks) + (match tv {
            SpecContentToken::HTML(cs) => cs,
            _ => Seq::<SpecHtmlContent>::empty(),
        }));
        assert(toks_css(toks.push(tv)) =~= toks_css(toks) + (match tv {
            SpecContentToken::Style(v) => seq![v],
            _ => Seq::<Seq<char>>::empty(),
        }));
        assert(toks_js(toks.push(tv)) =~= toks_js(toks) + (match tv {
            SpecContentToken::JavaScript(v) => seq![v],
            _ => Seq::<Seq<char>>::empty(),
        }));
    } else {
        lemma_groups_snoc(toks.drop_first(), tv);
        assert(toks.push(tv)[0] == toks[0]);
        assert(toks.push(tv).drop_first() =~= toks.drop_first().push(tv));
        assert(toks_html(toks.push(tv)) =~= toks_html(toks) + (match tv {
            SpecContentToken::HTML(cs) => cs,
            _ => Seq::<SpecHtmlContent>::empty(),
        }));
        assert(toks_css(toks.push(tv)) =~= toks_css(toks) + (match tv {
            SpecContentToken::Style(v) => seq![v],
            _ => Seq::<Seq<char>>::empty(),
        }));
        assert(toks_js(toks.push(tv)) =~= toks_js(toks) + (match tv {
            SpecContentToken::JavaScript(v) => seq![v],
            _ => Seq::<Seq<char>>::empty(),
        }));
    }
}

/// The views of a sequence of strings.
pub open spec fn spec_texts(v: Seq<String>) -> Seq<Seq<char>> {
    Seq::new(v.len(), |i: int| v[i]@)
}

/// The split of a file into its three content groups, in source order.
#[derive(Debug)]
pub struct ParsedContent {
    pub html: Vec<HtmlContent>,
    pub css: Vec<String>,
    pub javascript: Vec<String>,
}

/// Pull the content lexer to completion over `input` and group its tokens:
/// on success there is a complete, error-free lexing of the input whose
/// markup, style and script groups are exactly the three returned lists; an
/// error is the fatal outcome of the lexing step reached after some trace of
/// produced tokens, never invented.
pub fn parse_mixed_content(input: &str) -> (r: Result<ParsedContent, LexError>)
    ensures
        r matches Ok(pc) ==> exists|toks: Seq<SpecContentToken>|
            #[trigger] content_run(input@, toks) && spec_contents(pc.html@) == toks_html(toks)
                && spec_texts(pc.css@) == toks_css(toks) && spec_texts(pc.javascript@) == toks_js(
                toks,
            ),
        r matches Err(e) ==> exists|toks: Seq<SpecContentToken>, i: int|
            #[trigger] content_trace(input@, 0, toks, i) && content_fail_at(input@, i, e),
{
    let mut lexer = Lexer::new(input);
    let ghost s = input@;
    let mut html: Vec<HtmlContent> = Vec::new();
    let mut css: Vec<String> = Vec::new();
    let mut js: Vec<String> = Vec::new();
    let ghost trace = Seq::<SpecContentToken>::empty();
    let ghost tend: int = 0;
    let mut done = false;
    proof {
        assert(content_trace(s, 0, trace, 0));
        assert(toks_html(trace) =~= Seq::<SpecHtmlContent>::empty());
        assert(toks_css(trace) =~= Seq::<Seq<char>>::empty());
        assert(toks_js(trace) =~= Seq::<Seq<char>>::empty());
        assert(spec_contents(html@) =~= Seq::<SpecHtmlContent>::empty());
        assert(spec_texts(css@) =~= Seq::<Seq<char>>::empty());
        assert(spec_texts(js@) =~= Seq::<Seq<char>>::empty());
    }
    while !done
        invariant
            s == input@,
            lexer.src() == s,
            lexer.wf(),
            0 <= lexer.at() <= s.len(),
            content_trace(s, 0, trace, tend),
            !done ==> tend == lexer.at(),
            spec_contents(html@) == toks_html(trace),
            spec_texts(css@) == toks_css(trace),
            spec_texts(js@) == toks_js(trace),
            done ==> ws_end(s, tend) >= s.len(),
        decreases s.len() - lexer.at() + (if done {
            0int
        } else {
            1int
        }),
    {
        let ghost here = lexer.at();
        match lexer.next_token() {
            Ok(Some(t)) => {
                let ghost tv = t.spec();
                let ghost e2 = lexer.at();
                proof {
                    lemma_trace_snoc(s, 0, trace, here, tv, e2);
                    lemma_groups_snoc(trace, tv);
                    tend = e2;
                }
                match t {
                    Token::HTML(cs) => {
                        let ghost csv = spec_contents(cs@);
                        let ghost h0 = spec_contents(html@);
                        let mut cs = cs;
                        proof {
                            crate::content::lemma_spec_contents(cs@);
                            assert(spec_contents(cs@) =~= csv.subrange(
                                csv.len() - cs@.len(),
                                csv.len() as int,
                            ));
                        }
                        while cs.len() > 0
                            invariant
                                cs@.len() <= csv.len(),
                                spec_contents(cs@) == csv.subrange(
                                    csv.len() - cs@.len(),
                                    csv.len() as int,
                                ),
                                spec_contents(html@) == h0 + csv.subrange(
                                    0,
                                    csv.len() - cs@.len(),
                                ),
                            decreases cs@.len(),
                        {
                            let ghost crem = cs@;
                            let ghost hv0 = spec_contents(html@);
                            let c = cs.remove(0);
                            let ghost cv = c.spec();
                            proof {
                                crate::content::lemma_spec_contents(crem);
                                crate::content::lemma_spec_contents(cs@);
                                assert(cs@ =~= crem.subrange(1, crem.len() as int));
                                assert(spec_contents(crem)[0] == crem[0].spec());
                                assert(cv == csv[csv.len() - crem.len()]);
                                assert forall|j: int|
                                    0 <= j < cs@.len() implies spec_contents(cs@)[j]
                                    == csv.subrange(
                                    csv.len() - cs@.len(),
                                    csv.len() as int,
                                )[j] by {
                                    assert(cs@[j] == crem[j + 1]);
                                    assert(spec_contents(crem)[j + 1] == crem[j + 1].spec());
                                }
                                assert(spec_contents(cs@) =~= csv.subrange(
                                    csv.len() - cs@.len(),
                                    csv.len() as int,
                                ));
                            }
                            let ghost h1 = html@;
                            html.push(c);
                            proof {
                                crate::content::lemma_spec_contents(h1);
                                crate::content::lemma_spec_contents(html@);
                                assert(spec_contents(html@) =~= hv0.push(cv));
                                assert(h0 + csv.subrange(0, csv.len() - cs@.len()) =~= hv0.push(
                                    cv,
                                ));
                            }
                        }
                        proof {
                            assert(csv.subrange(0, csv.len() as int) =~= csv);
                            trace = trace.push(tv);
                            assert(spec_contents(html@) =~= toks_html(trace));
                            assert(spec_texts(css@) =~= toks_css(trace));
                            assert(spec_texts(js@) =~= toks_js(trace));
                        }
                    },
                    Token::Style(v) => {
                        let ghost c0 = spec_texts(css@);
                        let ghost vv = v@;
                        css.push(v);
                        proof {
                            trace = trace.push(tv);
                            assert(spec_texts(css@) =~= c0.push(vv));
                            assert(spec_texts(css@) =~= toks_css(trace));
                            assert(spec_contents(html@) =~= toks_html(trace));
                            assert(spec_texts(js@) =~= toks_js(trace));
                        }
                    },
                    Token::JavaScript(v) => {
                        let ghost j0 = spec_texts(js@);
                        let ghost vv = v@;
                        js.push(v);
                        proof {
                            trace = trace.push(tv);
                            assert(spec_texts(js@) =~= j0.push(vv));
                            assert(spec_texts(js@) =~= toks_js(trace));
                            assert(spec_contents(html@) =~= toks_html(trace));
                            assert(spec_texts(css@) =~= toks_css(trace));
                        }
                    },
                }
            },
            Ok(None) => {
                proof {
                    assert(ws_end(s, here) >= s.len());
                }
                done = true;
            },
            Err(e) => {
                proof {
                    assert(content_trace(s, 0, trace, here) && content_fail_at(s, here, e));
                }
                return Err(e);
            },
        }
    }
    proof {
        assert(content_run(s, trace)) by {
            assert(content_trace(s, 0, trace, tend) && ws_end(s, tend) >= s.len());
        }
    }
    Ok(ParsedContent { html, css, javascript: js })
}

} // verus!
