use treaty::parse_mixed_content;
use treaty::split_mixed_content;
use treaty::AnyNgTraitHandler;
use treaty::Ast;
use treaty::AstNode;
use treaty::ChangeDetectionStrategy;
use treaty::Class;
use treaty::CompilationMode;
use treaty::ContentToken;
use treaty::Expr;
use treaty::HtmlContent;
use treaty::InputFlags;
use treaty::NgTrait;
use treaty::NgTraitHandlerFactory;
use treaty::NgTraitMeta;
use treaty::Parser;
use treaty::PluginOptions;
use treaty::Token;
use treaty::TokenKind;
use treaty::TransformVisitor;
use treaty::ViewEncapsulation;

#[test]
fn splitter_separates_three_groups() {
    let input = "let a = 1;\n<style>\n.a { color: red; }\n</style>\n<div>\nhello\n</div>\nlet b = 2;\n";
    let pc = split_mixed_content(input).expect("well-formed input");
    assert_eq!(pc.css, vec![".a { color: red; }".to_string()]);
    assert_eq!(pc.html, vec!["<div>\nhello</div>".to_string()]);
    assert_eq!(pc.javascript, vec!["let a = 1;".to_string(), "let b = 2;".to_string()]);
}

#[test]
fn splitter_unclosed_style() {
    let err = split_mixed_content("<style>\n.a {}\n").unwrap_err();
    assert_eq!(err, "Unclosed <style> tag");
}

#[test]
fn splitter_unclosed_markup() {
    let err = split_mixed_content("<div>\nhello\n").unwrap_err();
    assert_eq!(err, "Unclosed HTML tag");
}

#[test]
fn splitter_mismatched_style_close() {
    let err = split_mixed_content("</style>\n").unwrap_err();
    assert_eq!(err, "Mismatched </style> tag found");
}

#[test]
fn splitter_tag_inside_style_block() {
    let err = split_mixed_content("<style>\n<div>\n</div>\n</style>\n").unwrap_err();
    assert_eq!(err, "Found starting HTML tag inside another block");
}

#[test]
fn splitter_style_inside_markup_block() {
    let err = split_mixed_content("<div>\n<style>\n").unwrap_err();
    assert_eq!(err, "Found <style> tag inside another block");
}

#[test]
fn splitter_empty_input() {
    let pc = split_mixed_content("").expect("empty input splits");
    assert!(pc.css.is_empty() && pc.html.is_empty() && pc.javascript.is_empty());
}

#[test]
fn fenced_script_stays_one_chunk() {
    let input = "---\nconst s = \"a;b\"; x();\n---";
    let pc = parse_mixed_content(input).expect("well-formed input");
    assert_eq!(pc.javascript, vec!["const s = \"a;b\"; x();".to_string()]);
    assert!(pc.css.is_empty());
    assert!(pc.html.is_empty());
}

#[test]
fn content_groups_in_order() {
    let input = "<style>a{}</style> {{ title }} plain();";
    let pc = parse_mixed_content(input).expect("well-formed input");
    assert_eq!(pc.css, vec!["a{}".to_string()]);
    assert_eq!(pc.javascript, vec!["plain();".to_string()]);
    assert_eq!(pc.html, vec![HtmlContent::TemplateExpression("title".to_string())]);
}

#[test]
fn content_style_unterminated() {
    assert!(parse_mixed_content("<style>a{}").is_err());
}

#[test]
fn interpolation_honours_quotes() {
    let mut lexer = treaty::ContentLexer::new("{{ fmt(\"}}\") }}");
    let tok = lexer.next_token().unwrap().unwrap();
    assert_eq!(
        tok,
        ContentToken::HTML(vec![HtmlContent::TemplateExpression("fmt(\"}}\")".to_string())])
    );
}

#[test]
fn segment_parser_maps_tokens() {
    let tokens = vec![
        Token::new(TokenKind::JavaScript("x".to_string()), 0, 1),
        Token::new(TokenKind::ControlFlow(treaty::ControlFlowKind::If), 1, 4),
        Token::new(TokenKind::Eof, 4, 4),
        Token::new(TokenKind::Style("ignored".to_string()), 4, 5),
    ];
    let mut parser = Parser::new(tokens);
    let ast: Ast = parser.parse();
    assert_eq!(
        ast.nodes,
        vec![AstNode::JavaScript("x".to_string()), AstNode::ControlFlow("@if".to_string())]
    );
}

#[test]
fn plugin_config_selects_mode() {
    let aot = treaty::plugin_options_from_config("{\"compilation_mode\":\"AOT\"}");
    assert_eq!(aot.compilation_mode, CompilationMode::AOT);
    let jit = treaty::plugin_options_from_config("{\"compilation_mode\":\"JIT\"}");
    assert_eq!(jit.compilation_mode, CompilationMode::JIT);
    let fallback = treaty::plugin_options_from_config("not json at all");
    assert_eq!(fallback.compilation_mode, CompilationMode::JIT);
    let missing = treaty::plugin_options_from_config("{\"other\":\"AOT\"}");
    assert_eq!(missing.compilation_mode, CompilationMode::JIT);
}

#[test]
fn handlers_parse_and_transform() {
    let args: Vec<Expr> = vec![];
    let mut class = Class { id: None, decorators: vec![], body: vec![] };
    for t in [NgTrait::Component, NgTrait::Directive, NgTrait::Injectable, NgTrait::Pipe] {
        let handler = NgTraitHandlerFactory::get_handler(&t);
        let meta = handler.parse(&args).expect("these parsers succeed");
        handler.transform_to_ivy(&meta, &mut class).expect("matched metadata");
        handler.transform_to_jit(&meta, &mut class).expect("matched metadata");
    }
    let module = NgTraitHandlerFactory::get_handler(&NgTrait::NgModule);
    let err = module.parse(&args).unwrap_err();
    assert_eq!(err, "Parsing NgModule metadata is not implemented");
}

#[test]
fn mismatched_metadata_is_an_error() {
    let args: Vec<Expr> = vec![];
    let mut class = Class { id: None, decorators: vec![], body: vec![] };
    let pipe_meta = match NgTraitHandlerFactory::get_handler(&NgTrait::Pipe).parse(&args) {
        Ok(m) => m,
        Err(e) => panic!("pipe metadata parses: {}", e),
    };
    let component = NgTraitHandlerFactory::get_handler(&NgTrait::Component);
    let err = component.transform_to_ivy(&pipe_meta, &mut class).unwrap_err();
    assert_eq!(err, "Mismatched meta type for ComponentHandler");
    assert!(matches!(pipe_meta, NgTraitMeta::Pipe(_)));
}

#[test]
fn visitor_removes_member_style_decorators() {
    let decorator = treaty::Decorator {
        expression: Expr::Call {
            callee: Box::new(Expr::Member {
                object: Box::new(Expr::Ident { name: "core".to_string() }),
                property: "Component".to_string(),
            }),
            args: vec![],
        },
    };
    let kept = treaty::Decorator {
        expression: Expr::Call {
            callee: Box::new(Expr::Ident { name: "Sealed".to_string() }),
            args: vec![],
        },
    };
    let mut class = Class { id: None, decorators: vec![decorator, kept], body: vec![] };
    let mut visitor =
        TransformVisitor::new(PluginOptions { compilation_mode: CompilationMode::AOT });
    visitor.visit_mut_class(&mut class);
    assert_eq!(class.decorators.len(), 1);
    assert!(matches!(
        &class.decorators[0].expression,
        Expr::Call { callee, .. } if matches!(&**callee, Expr::Ident { name } if name == "Sealed")
    ));
}

#[test]
fn enum_codecs_round_trip() {
    assert_eq!(InputFlags::from_i32(0), Some(InputFlags::Unflagged));
    assert_eq!(InputFlags::from_i32(1), Some(InputFlags::SignalBased));
    assert_eq!(InputFlags::from_i32(2), Some(InputFlags::HasDecoratorInputTransform));
    assert_eq!(InputFlags::from_i32(7), None);
    for f in [InputFlags::Unflagged, InputFlags::SignalBased, InputFlags::HasDecoratorInputTransform] {
        assert_eq!(InputFlags::from_i32(f.to_i32()), Some(f));
    }
    assert_eq!(ChangeDetectionStrategy::from_str("OnPush"), Some(ChangeDetectionStrategy::OnPush));
    assert_eq!(
        ChangeDetectionStrategy::from_str("whatever"),
        Some(ChangeDetectionStrategy::Default)
    );
    assert_eq!(ViewEncapsulation::from_str("Emulated"), Some(ViewEncapsulation::Emulated));
    assert_eq!(ViewEncapsulation::from_str("None"), Some(ViewEncapsulation::NoEncapsulation));
    assert_eq!(ViewEncapsulation::from_str("ShadowDom"), Some(ViewEncapsulation::ShadowDom));
    assert_eq!(ViewEncapsulation::from_str("Opaque"), None);
}

#[test]
fn providers_built_by_kind() {
    let p = treaty::Provider::value("A".to_string(), "1".to_string());
    assert_eq!(p, treaty::Provider::Value { provide: "A".to_string(), use_value: "1".to_string() });
    let c = treaty::Provider::class("B".to_string(), "Impl".to_string());
    assert_eq!(c, treaty::Provider::Class { provide: "B".to_string(), use_class: "Impl".to_string() });
    let f = treaty::Provider::factory("C".to_string(), "make".to_string(), vec!["D".to_string()]);
    assert_eq!(
        f,
        treaty::Provider::Factory {
            provide: "C".to_string(),
            use_factory: "make".to_string(),
            deps: vec!["D".to_string()],
        }
    );
    let e = treaty::Provider::existing("E".to_string(), "F".to_string());
    assert_eq!(
        e,
        treaty::Provider::Existing { provide: "E".to_string(), use_existing: "F".to_string() }
    );
}
