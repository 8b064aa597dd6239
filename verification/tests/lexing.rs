use treaty::ControlFlowContent;
use treaty::ControlFlowKind;
use treaty::ContentLexer;
use treaty::ContentToken;
use treaty::DomNode;
use treaty::HtmlContent;
use treaty::HtmlTokenizer;
use treaty::LexError;
use treaty::Lexer;
use treaty::MarkupToken;
use treaty::Position;
use treaty::Token;
use treaty::TokenKind;

fn lex_all(input: &str) -> Vec<Token> {
    let mut lexer = Lexer::new(input);
    lexer.tokenize().expect("lexing should succeed")
}

fn raw(input: &str, t: &Token) -> String {
    input.chars().skip(t.start).take(t.end - t.start).collect()
}

#[test]
fn segment_coverage_reconstructs_input() {
    let input = "let x = 1;\n<div>hi</div> {{ name }} <style>a{color:red}</style> @if";
    let tokens = lex_all(input);
    let mut rebuilt = String::new();
    let mut pos = 0usize;
    for t in &tokens {
        let gap: String = input.chars().skip(pos).take(t.start - pos).collect();
        assert!(gap.chars().all(|c| c.is_whitespace()));
        rebuilt.push_str(&gap);
        rebuilt.push_str(&raw(input, t));
        pos = t.end;
    }
    let tail: String = input.chars().skip(pos).collect();
    assert!(tail.chars().all(|c| c.is_whitespace()));
    rebuilt.push_str(&tail);
    assert_eq!(rebuilt, input);
}

#[test]
fn segment_kinds_in_order() {
    let input = "let x = 1;\n<div>hi</div> {{ name }} <style>a{}</style>";
    let tokens = lex_all(input);
    assert_eq!(tokens.len(), 4);
    assert_eq!(tokens[0].kind, TokenKind::JavaScript("let x = 1;".to_string()));
    assert_eq!(tokens[1].kind, TokenKind::HTML("<div>hi</div>".to_string()));
    assert_eq!(tokens[2].kind, TokenKind::TemplateExpression("name".to_string()));
    assert_eq!(tokens[3].kind, TokenKind::Style("a{}".to_string()));
}

#[test]
fn unterminated_style_is_fatal() {
    let mut lexer = Lexer::new("<style>a{color:red}");
    assert_eq!(lexer.tokenize(), Err(LexError::UnterminatedStyle));
}

#[test]
fn unterminated_markup_is_fatal() {
    let mut lexer = Lexer::new("<div><span>text</span>");
    assert_eq!(lexer.tokenize(), Err(LexError::UnterminatedMarkup));
}

#[test]
fn stray_close_tag_is_fatal() {
    let mut lexer = Lexer::new("</div>");
    assert_eq!(lexer.tokenize(), Err(LexError::StrayCloseTag));
}

#[test]
fn nested_style_inside_markup_is_fatal() {
    let mut lexer = Lexer::new("<div><style>a{}</style></div>");
    assert_eq!(lexer.tokenize(), Err(LexError::NestedStyle));
}

#[test]
fn unterminated_interpolation_is_fatal() {
    let mut lexer = Lexer::new("{{ name ");
    assert_eq!(lexer.tokenize(), Err(LexError::UnterminatedInterpolation));
}

#[test]
fn string_literal_immunity_for_semicolon() {
    let input = "const s = \"a;b\"; x();";
    let tokens = lex_all(input);
    assert_eq!(tokens[0].kind, TokenKind::JavaScript("const s = \"a;b\";".to_string()));
    assert_eq!(tokens[1].kind, TokenKind::JavaScript("x();".to_string()));
    assert_eq!(tokens.len(), 2);
}

#[test]
fn comment_hides_terminator() {
    let input = "let a = 1 /* ; not here */ + 2;";
    let tokens = lex_all(input);
    assert_eq!(tokens.len(), 1);
    assert_eq!(tokens[0].kind, TokenKind::JavaScript(input.to_string()));
}

#[test]
fn control_flow_markers() {
    let tokens = lex_all("@if @else if @else @for @empty @switch @case @default");
    let kinds: Vec<&TokenKind> = tokens.iter().map(|t| &t.kind).collect();
    assert_eq!(*kinds[0], TokenKind::ControlFlow(ControlFlowKind::If));
    assert_eq!(*kinds[1], TokenKind::ControlFlow(ControlFlowKind::ElseIf));
    assert_eq!(*kinds[2], TokenKind::ControlFlow(ControlFlowKind::Else));
    assert_eq!(*kinds[3], TokenKind::ControlFlow(ControlFlowKind::For));
    assert_eq!(*kinds[4], TokenKind::ControlFlow(ControlFlowKind::Empty));
    assert_eq!(*kinds[5], TokenKind::ControlFlow(ControlFlowKind::Switch));
    assert_eq!(*kinds[6], TokenKind::ControlFlow(ControlFlowKind::Case));
    assert_eq!(*kinds[7], TokenKind::ControlFlow(ControlFlowKind::Default));
}

#[test]
fn unrecognized_at_is_script() {
    let tokens = lex_all("@media print;");
    assert_eq!(tokens.len(), 1);
    assert_eq!(tokens[0].kind, TokenKind::JavaScript("@media print;".to_string()));
}

#[test]
fn empty_and_whitespace_inputs() {
    assert_eq!(lex_all(""), Vec::<Token>::new());
    assert_eq!(lex_all("   \n\t "), Vec::<Token>::new());
}

#[test]
fn markup_with_attributes_and_self_closing() {
    let input = "<img alt=\"a > b\" src='x.png' />";
    let tokens = lex_all(input);
    assert_eq!(tokens.len(), 1);
    assert_eq!(tokens[0].kind, TokenKind::HTML(input.to_string()));
}

#[test]
fn markup_tokenizer_tokens() {
    let mut tk = HtmlTokenizer::new("<a href=\"x\">hi<!--c--><br/></a>");
    let t1 = tk.next_token().unwrap();
    match t1 {
        MarkupToken::StartTag(name, attrs) => {
            assert_eq!(name, "a");
            assert_eq!(attrs.len(), 1);
            assert_eq!(attrs[0].name, "href");
            assert_eq!(attrs[0].value, "x");
        },
        other => panic!("expected start tag, got {:?}", other),
    }
    assert_eq!(tk.next_token().unwrap(), MarkupToken::Text("hi".to_string()));
    assert_eq!(tk.next_token().unwrap(), MarkupToken::Comment("c".to_string()));
    match tk.next_token().unwrap() {
        MarkupToken::SelfClosingTag(name, attrs) => {
            assert_eq!(name, "br");
            assert!(attrs.is_empty());
        },
        other => panic!("expected self-closing tag, got {:?}", other),
    }
    assert_eq!(tk.next_token().unwrap(), MarkupToken::EndTag("a".to_string()));
    assert_eq!(tk.next_token(), None);
}

#[test]
fn else_chain_nesting() {
    let mut lexer = ContentLexer::new("@if (a) { X } @else if (b) { Y } @else { Z }");
    let tok = lexer.next_token().unwrap().unwrap();
    let nopos = Position { line: 0, col: 0 };
    let expected = ContentToken::HTML(vec![HtmlContent::ControlFlow(ControlFlowContent::IfElse(
        "(a)".to_string(),
        vec![HtmlContent::Node(DomNode::Text("X".to_string(), nopos))],
        Some(Box::new(ControlFlowContent::IfElse(
            "(b)".to_string(),
            vec![HtmlContent::Node(DomNode::Text("Y".to_string(), nopos))],
            Some(Box::new(ControlFlowContent::IfElse(
                "".to_string(),
                vec![HtmlContent::Node(DomNode::Text("Z".to_string(), nopos))],
                None,
            ))),
        ))),
    ))]);
    assert_eq!(tok, expected);
}

#[test]
fn for_with_empty_content() {
    let mut lexer = ContentLexer::new("@for (item of items) { row } @empty { none }");
    let tok = lexer.next_token().unwrap().unwrap();
    let nopos = Position { line: 0, col: 0 };
    let expected = ContentToken::HTML(vec![HtmlContent::ControlFlow(ControlFlowContent::For(
        "(item of items)".to_string(),
        vec![HtmlContent::Node(DomNode::Text("row".to_string(), nopos))],
        Some(vec![HtmlContent::Node(DomNode::Text("none".to_string(), nopos))]),
    ))]);
    assert_eq!(tok, expected);
}

#[test]
fn switch_cases_and_default() {
    let mut lexer = ContentLexer::new("@switch (kind) { @case (one) { A } @case (two) { B } @default { C } }");
    let tok = lexer.next_token().unwrap().unwrap();
    let nopos = Position { line: 0, col: 0 };
    let expected = ContentToken::HTML(vec![HtmlContent::ControlFlow(ControlFlowContent::Switch(
        "(kind)".to_string(),
        vec![
            ("(one)".to_string(), vec![HtmlContent::Node(DomNode::Text("A".to_string(), nopos))]),
            ("(two)".to_string(), vec![HtmlContent::Node(DomNode::Text("B".to_string(), nopos))]),
        ],
        Some(vec![HtmlContent::Node(DomNode::Text("C".to_string(), nopos))]),
    ))]);
    assert_eq!(tok, expected);
}

#[test]
fn unmatched_brace_is_fatal() {
    let mut lexer = ContentLexer::new("@if (a) { X ");
    assert!(matches!(lexer.next_token(), Err(LexError::UnmatchedBrace)));
}

#[test]
fn content_segment_parses_dom() {
    let mut lexer = ContentLexer::new("<div class=\"c\">hi<br/></div>");
    let tok = lexer.next_token().unwrap().unwrap();
    match tok {
        ContentToken::HTML(contents) => {
            assert_eq!(contents.len(), 1);
            match &contents[0] {
                HtmlContent::Node(DomNode::Element(e)) => {
                    assert_eq!(e.tag_name, "div");
                    assert_eq!(e.attributes.len(), 1);
                    assert_eq!(e.attributes[0].name, "class");
                    assert_eq!(e.attributes[0].value, "c");
                    assert_eq!(e.children.len(), 2);
                    assert!(matches!(&e.children[0], DomNode::Text(t, _) if t == "hi"));
                    assert!(
                        matches!(&e.children[1], DomNode::Element(b) if b.tag_name == "br" && b.is_self_closing)
                    );
                },
                other => panic!("expected element, got {:?}", other),
            }
        },
        other => panic!("expected markup content, got {:?}", other),
    }
}

#[test]
fn positioned_tokens_carry_line_and_column() {
    let mut tk = treaty::PositionedHtmlTokenizer::new("<a>\n  text</a>");
    let t1 = tk.next_token().unwrap();
    assert_eq!(t1.pos, Position { line: 1, col: 1 });
    let t2 = tk.next_token().unwrap();
    assert_eq!(t2.pos, Position { line: 2, col: 3 });
    assert!(matches!(t2.kind, treaty::HtmlTokenKind::Text(t) if t == "text"));
}

#[test]
fn style_close_inside_comment_is_opaque() {
    let input = "<style>a{} /* </style> */ b{}</style>";
    let tokens = lex_all(input);
    assert_eq!(tokens.len(), 1);
    assert_eq!(tokens[0].kind, TokenKind::Style("a{} /* </style> */ b{}".to_string()));
}

#[test]
fn unterminated_comment_becomes_comment_token() {
    let mut tk = HtmlTokenizer::new("<!--never closed");
    assert_eq!(tk.next_token().unwrap(), MarkupToken::Comment("never closed".to_string()));
    assert_eq!(tk.next_token(), None);
    let mut pk = treaty::PositionedHtmlTokenizer::new("<!--still open");
    let t = pk.next_token().unwrap();
    assert!(matches!(t.kind, treaty::HtmlTokenKind::Comment(c) if c == "still open"));
    assert!(pk.next_token().is_none());
}
