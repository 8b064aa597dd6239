//! The line-based mixed-content splitter: an earlier, coarser front end that
//! separates an authoring file into style, markup and script line groups.
//! `<style>`/`</style>` lines delimit style blocks; a line opening a tag
//! starts a markup block that a later line containing `>` closes; everything
//! else is script.  Block structure errors are reported, never panicked on.

use vstd::prelude::*;

use crate::text::{lemma_ws_end, skip_ws, starts_at, str_starts_at, trim_spec, trim_str, ws_end};

verus! {

/// The first newline at or after `i`, or the end of `s`.
pub open spec fn first_nl(s: Seq<char>, i: int) -> int
    decreases s.len() - i,
{
    if i < 0 || i >= s.len() {
        s.len() as int
    } else if s[i] == '\n' {
        i
    } else {
        first_nl(s, i + 1)
    }
}

pub proof fn lemma_first_nl(s: Seq<char>, i: int)
    requires
        0 <= i <= s.len(),
    ensures
        i <= first_nl(s, i) <= s.len(),
        first_nl(s, i) < s.len() ==> s[first_nl(s, i)] == '\n',
        forall|k: int| i <= k < first_nl(s, i) ==> s[k] != '\n',
    decreases s.len() - i,
{
    if i < s.len() && s[i] != '\n' {
        lemma_first_nl(s, i + 1);
    }
}

/// A line with one trailing carriage return removed.
pub open spec fn strip_cr(l: Seq<char>) -> Seq<char> {
    if l.len() > 0 && l[l.len() - 1] == '\r' {
        l.subrange(0, l.len() - 1)
    } else {
        l
    }
}

/// The lines of `s` from `i` on: split at `\n`, each with a trailing `\r`
/// removed, the final empty segment after a trailing newline dropped.
pub open spec fn spec_lines_from(s: Seq<char>, i: int) -> Seq<Seq<char>>
    decreases s.len() - i,
    when 0 <= i <= s.len()
    via lines_from_decreases
{
    if i >= s.len() {
        Seq::empty()
    } else {
        let j = first_nl(s, i);
        seq![strip_cr(s.subrange(i, j))] + (if j >= s.len() {
            Seq::empty()
        } else {
            spec_lines_from(s, j + 1)
        })
    }
}

#[via_fn]
proof fn lines_from_decreases(s: Seq<char>, i: int) {
    lemma_first_nl(s, i);
}

/// Split a string into its lines.
pub fn split_lines(s: &str) -> (r: Vec<String>)
    ensures
        spec_strings(r@) == spec_lines_from(s@, 0),
{
    let n = s.unicode_len();
    let mut out: Vec<String> = Vec::new();
    let mut i: usize = 0;
    proof {
        assert(spec_strings(out@) =~= Seq::<Seq<char>>::empty());
        if n == 0 {
            assert(spec_lines_from(s@, 0) =~= Seq::<Seq<char>>::empty());
        }
    }
    while i < n
        invariant
            0 <= i <= n,
            n == s@.len(),
            spec_lines_from(s@, 0) == spec_strings(out@) + spec_lines_from(s@, i as int),
        decreases n - i,
    {
        proof {
            lemma_first_nl(s@, i as int);
        }
        let mut j = i;
        while j < n && s.get_char(j) != '\n'
            invariant
                i <= j <= n,
                n == s@.len(),
                first_nl(s@, i as int) == first_nl(s@, j as int),
            decreases n - j,
        {
            j += 1;
        }
        proof {
            assert(first_nl(s@, i as int) == j);
        }
        let line_end = if j > i && s.get_char(j - 1) == '\r' {
            j - 1
        } else {
            j
        };
        let line = String::from_str(s.substring_char(i, line_end));
        let ghost before = spec_strings(out@);
        out.push(line);
        proof {
            assert(line@ =~= strip_cr(s@.subrange(i as int, j as int)));
            assert(spec_strings(out@) =~= before.push(strip_cr(
                s@.subrange(i as int, j as int),
            )));
            if j < n {
                assert(spec_strings(out@) + spec_lines_from(s@, j + 1) =~= before + (seq![
                    strip_cr(s@.subrange(i as int, j as int)),
                ] + spec_lines_from(s@, j + 1)));
            } else {
                assert(spec_strings(out@) + Seq::<Seq<char>>::empty() =~= before + seq![
                    strip_cr(s@.subrange(i as int, j as int)),
                ]);
            }
        }
        if j < n {
            i = j + 1;
        } else {
            i = n;
            proof {
                assert(spec_lines_from(s@, n as int) =~= Seq::<Seq<char>>::empty());
            }
        }
    }
    proof {
        assert(spec_lines_from(s@, n as int) =~= Seq::<Seq<char>>::empty());
        assert(spec_strings(out@) + Seq::<Seq<char>>::empty() =~= spec_strings(out@));
    }
    out
}

/// The views of a sequence of strings.
pub open spec fn spec_strings(v: Seq<String>) -> Seq<Seq<char>> {
    Seq::new(v.len(), |i: int| v[i]@)
}

/// `s` holds character `c` somewhere.
pub open spec fn has_char(s: Seq<char>, c: char) -> bool {
    exists|k: int| 0 <= k < s.len() && s[k] == c
}

/// Executable test for [`has_char`].
fn str_has_char(s: &str, c: char) -> (r: bool)
    ensures
        r == has_char(s@, c),
{
    let n = s.unicode_len();
    let mut i: usize = 0;
    while i < n
        invariant
            i <= n,
            n == s@.len(),
            forall|k: int| 0 <= k < i ==> s@[k] != c,
        decreases n - i,
    {
        if s.get_char(i) == c {
            return true;
        }
        i += 1;
    }
    false
}

/// `s` with leading whitespace removed.
pub open spec fn lstrip(s: Seq<char>) -> Seq<char> {
    s.subrange(ws_end(s, 0), s.len() as int)
}

/// The splitter's accumulator while folding over lines.
#[verifier::ext_equal]
pub struct SplitAcc {
    pub in_style: bool,
    pub in_html: bool,
    pub css: Seq<Seq<char>>,
    pub html: Seq<Seq<char>>,
    pub js: Seq<Seq<char>>,
    pub current: Seq<char>,
}

/// The empty accumulator.
pub open spec fn split_init() -> SplitAcc {
    SplitAcc {
        in_style: false,
        in_html: false,
        css: Seq::empty(),
        html: Seq::empty(),
        js: Seq::empty(),
        current: Seq::empty(),
    }
}

/// One line's effect on the accumulator, or the error it forces.
pub open spec fn spec_split_step(acc: SplitAcc, line: Seq<char>) -> Result<SplitAcc, Seq<char>> {
    let sl = lstrip(line);
    if starts_at(sl, 0, "<style>"@) {
        if acc.in_html || acc.in_style {
            Err("Found <style> tag inside another block"@)
        } else {
            Ok(SplitAcc { in_style: true, ..acc })
        }
    } else if starts_at(sl, 0, "</style>"@) {
        if !acc.in_style {
            Err("Mismatched </style> tag found"@)
        } else {
            Ok(
                SplitAcc {
                    in_style: false,
                    css: acc.css.push(trim_spec(acc.current)),
                    current: Seq::empty(),
                    ..acc
                },
            )
        }
    } else {
        let tl = trim_spec(line);
        if starts_at(tl, 0, "<"@) && !starts_at(tl, 0, "</"@) {
            if acc.in_style {
                Err("Found starting HTML tag inside another block"@)
            } else {
                Ok(
                    SplitAcc {
                        in_html: true,
                        current: acc.current + line + seq!['\n'],
                        ..acc
                    },
                )
            }
        } else if acc.in_html && has_char(line, '>') {
            Ok(
                SplitAcc {
                    in_html: false,
                    html: acc.html.push(trim_spec(acc.current) + line),
                    current: Seq::empty(),
                    ..acc
                },
            )
        } else if acc.in_style || acc.in_html {
            Ok(SplitAcc { current: acc.current + line + seq!['\n'], ..acc })
        } else {
            Ok(SplitAcc { js: acc.js.push(line), ..acc })
        }
    }
}

/// The fold of [`spec_split_step`] over a line sequence.
pub open spec fn spec_split_fold(lines: Seq<Seq<char>>, acc: SplitAcc) -> Result<
    SplitAcc,
    Seq<char>,
>
    decreases lines.len(),
{
    if lines.len() == 0 {
        Ok(acc)
    } else {
        match spec_split_step(acc, lines[0]) {
            Ok(a2) => spec_split_fold(lines.drop_first(), a2),
            Err(m) => Err(m),
        }
    }
}

/// Per-line script attribution: the fold only ever appends to the script
/// group, and every script line it appends is one of the input's lines,
/// verbatim.  (The style and markup groups are pinned, block by block, by
/// the fold itself: [`spec_split_step`] is the exact per-line rule.)
pub proof fn lemma_script_lines_verbatim(lines: Seq<Seq<char>>, acc: SplitAcc)
    ensures
        spec_split_fold(lines, acc) matches Ok(out) ==> {
            &&& out.js.len() >= acc.js.len()
            &&& forall|k: int| 0 <= k < acc.js.len() ==> out.js[k] == acc.js[k]
            &&& forall|k: int|
                acc.js.len() <= k < out.js.len() ==> lines.contains(#[trigger] out.js[k])
        },
    decreases lines.len(),
{
    if lines.len() > 0 {
        match spec_split_step(acc, lines[0]) {
            Ok(a2) => {
                lemma_script_lines_verbatim(lines.drop_first(), a2);
                assert(a2.js == acc.js || a2.js == acc.js.push(lines[0]));
                match spec_split_fold(lines.drop_first(), a2) {
                    Ok(out) => {
                        assert forall|k: int|
                            acc.js.len() <= k < out.js.len() implies lines.contains(
                            #[trigger] out.js[k],
                        ) by {
                            if k < a2.js.len() {
                                assert(out.js[k] == a2.js[k]);
                                assert(a2.js[k] == lines[0]);
                                assert(lines[0] == lines[0]);
                            } else {
                                assert(lines.drop_first().contains(out.js[k]));
                                let idx = choose|idx: int|
                                    0 <= idx < lines.drop_first().len()
                                        && lines.drop_first()[idx] == out.js[k];
                                assert(lines[idx + 1] == out.js[k]);
                            }
                        }
                    },
                    Err(_) => {},
                }
            },
            Err(_) => {},
        }
    }
}

/// What the splitter produces for an input, or the error message it reports:
/// the fold over the input's lines, then the unclosed-block checks.
pub open spec fn spec_parse_mixed(s: Seq<char>) -> Result<SplitAcc, Seq<char>> {
    match spec_split_fold(spec_lines_from(s, 0), split_init()) {
        Ok(acc) => {
            if acc.in_html {
                Err("Unclosed HTML tag"@)
            } else if acc.in_style {
                Err("Unclosed <style> tag"@)
            } else {
                Ok(acc)
            }
        },
        Err(m) => Err(m),
    }
}

/// The split result: markup, style and script line groups.
#[derive(Debug)]
pub struct ParsedContent {
    pub html: Vec<String>,
    pub css: Vec<String>,
    pub javascript: Vec<String>,
}

/// Split mixed content into style, markup and script groups, line by line,
/// exactly as [`spec_parse_mixed`] defines; each block-structure defect
/// yields its error message.
pub fn parse_mixed_content(content: &str) -> (r: Result<ParsedContent, String>)
    ensures
        r matches Ok(pc) ==> spec_parse_mixed(content@) matches Ok(acc) && spec_strings(pc.css@)
            == acc.css && spec_strings(pc.html@) == acc.html && spec_strings(pc.javascript@)
            == acc.js,
        r matches Err(m) ==> spec_parse_mixed(content@) matches Err(sm) && m@ == sm,
{
    let lines = split_lines(content);
    let ghost lv = spec_lines_from(content@, 0);
    let n = lines.len();
    let mut in_style = false;
    let mut in_html = false;
    let mut css: Vec<String> = Vec::new();
    let mut html: Vec<String> = Vec::new();
    let mut js: Vec<String> = Vec::new();
    let mut current = String::new();
    let mut i: usize = 0;
    proof {
        assert(spec_strings(css@) =~= Seq::<Seq<char>>::empty());
        assert(spec_strings(html@) =~= Seq::<Seq<char>>::empty());
        assert(spec_strings(js@) =~= Seq::<Seq<char>>::empty());
        assert(lv.subrange(0, lv.len() as int) =~= lv);
    }
    while i < n
        invariant
            i <= n,
            n == lines@.len(),
            lv == spec_lines_from(content@, 0),
            spec_strings(lines@) == lv,
            spec_split_fold(lv, split_init()) == spec_split_fold(
                lv.subrange(i as int, lv.len() as int),
                SplitAcc {
                    in_style,
                    in_html,
                    css: spec_strings(css@),
                    html: spec_strings(html@),
                    js: spec_strings(js@),
                    current: current@,
                },
            ),
        decreases n - i,
    {
        let ghost acc = SplitAcc {
            in_style,
            in_html,
            css: spec_strings(css@),
            html: spec_strings(html@),
            js: spec_strings(js@),
            current: current@,
        };
        proof {
            assert(lv.subrange(i as int, lv.len() as int)[0] == lv[i as int]);
            assert(lv.subrange(i as int, lv.len() as int).drop_first() =~= lv.subrange(
                i + 1,
                lv.len() as int,
            ));
            assert(lv[i as int] == lines@[i as int]@);
        }
        let line = &lines[i];
        let sl_start = skip_ws(line.as_str(), 0);
        proof {
            lemma_ws_end(line@, 0);
            assert(line@.subrange(sl_start as int, line@.len() as int) =~= lstrip(line@));
        }
        let line_len = line.as_str().unicode_len();
        if str_starts_at(line.as_str(), sl_start, "<style>") {
            proof {
                assert(starts_at(lstrip(line@), 0, "<style>"@)) by {
                    assert(lstrip(line@).subrange(0, "<style>"@.len() as int) =~= line@.subrange(
                        sl_start as int,
                        sl_start + "<style>"@.len(),
                    ));
                }
            }
            if in_html || in_style {
                return Err(String::from_str("Found <style> tag inside another block"));
            }
            in_style = true;
        } else {
            proof {
                assert(!starts_at(lstrip(line@), 0, "<style>"@)) by {
                    if starts_at(lstrip(line@), 0, "<style>"@) {
                        assert(line@.subrange(sl_start as int, sl_start + "<style>"@.len())
                            =~= lstrip(line@).subrange(0, "<style>"@.len() as int));
                    }
                }
            }
            if str_starts_at(line.as_str(), sl_start, "</style>") {
                proof {
                    assert(starts_at(lstrip(line@), 0, "</style>"@)) by {
                        assert(lstrip(line@).subrange(0, "</style>"@.len() as int)
                            =~= line@.subrange(sl_start as int, sl_start + "</style>"@.len()));
                    }
                }
                if !in_style {
                    return Err(String::from_str("Mismatched </style> tag found"));
                }
                in_style = false;
                let ghost before = spec_strings(css@);
                css.push(trim_str(current.as_str()));
                current = String::new();
                proof {
                    assert(spec_strings(css@) =~= before.push(trim_spec(acc.current)));
                }
            } else {
                proof {
                    assert(!starts_at(lstrip(line@), 0, "</style>"@)) by {
                        if starts_at(lstrip(line@), 0, "</style>"@) {
                            assert(line@.subrange(sl_start as int, sl_start + "</style>"@.len())
                                =~= lstrip(line@).subrange(0, "</style>"@.len() as int));
                        }
                    }
                }
                let tl = trim_str(line.as_str());
                let opens = str_starts_at(tl.as_str(), 0, "<") && !str_starts_at(
                    tl.as_str(),
                    0,
                    "</",
                );
                if opens {
                    if in_style {
                        return Err(
                            String::from_str("Found starting HTML tag inside another block"),
                        );
                    }
                    in_html = true;
                    current.append(line.as_str());
                    current.append("\n");
                    proof {
                        reveal_strlit("\n");
                        assert(current@ =~= acc.current + line@ + seq!['\n']);
                    }
                } else if in_html && str_has_char(line.as_str(), '>') {
                    in_html = false;
                    let ghost before = spec_strings(html@);
                    let mut closed = trim_str(current.as_str());
                    closed.append(line.as_str());
                    html.push(closed);
                    current = String::new();
                    proof {
                        assert(spec_strings(html@) =~= before.push(
                            trim_spec(acc.current) + line@,
                        ));
                    }
                } else if in_style || in_html {
                    current.append(line.as_str());
                    current.append("\n");
                    proof {
                        reveal_strlit("\n");
                        assert(current@ =~= acc.current + line@ + seq!['\n']);
                    }
                } else {
                    let ghost before = spec_strings(js@);
                    js.push(line.clone());
                    proof {
                        assert(spec_strings(js@) =~= before.push(line@));
                    }
                }
            }
        }
        i += 1;
    }
    proof {
        assert(lv.subrange(n as int, lv.len() as int) =~= Seq::<Seq<char>>::empty());
    }
    if in_html {
        return Err(String::from_str("Unclosed HTML tag"));
    }
    if in_style {
        return Err(String::from_str("Unclosed <style> tag"));
    }
    Ok(ParsedContent { html, css, javascript: js })
}

} // verus!
