use treaty::Angular;
use treaty::AngularCtx;
use treaty::Class;
use treaty::ClassElement;
use treaty::Decorator;
use treaty::DiagnosticKind;
use treaty::Expr;
use treaty::ImportDecl;
use treaty::ImportEntry;
use treaty::ImportSpecifier;
use treaty::InjectableOptions;
use treaty::InjectableProvider;
use treaty::MethodDef;
use treaty::MethodKind;
use treaty::ObjectProperty;
use treaty::Param;
use treaty::ParamDecorator;
use treaty::Program;
use treaty::PropertyDecorator;
use treaty::ProviderScope;
use treaty::Statement;
use treaty::TopLevelDecorator;
use treaty::TypeName;

fn ident(name: &str) -> Expr {
    Expr::Ident { name: name.to_string() }
}

fn call_decorator(name: &str, args: Vec<Expr>) -> Decorator {
    Decorator { expression: Expr::Call { callee: Box::new(ident(name)), args } }
}

fn injectable_with_scope(scope: &str) -> Decorator {
    call_decorator(
        "Injectable",
        vec![Expr::ObjectLit {
            properties: vec![ObjectProperty {
                key: "providedIn".to_string(),
                value: Expr::StrLit { value: scope.to_string() },
            }],
        }],
    )
}

fn plain_param(name: &str, ty: Option<&str>) -> Param {
    Param {
        decorators: vec![],
        name: name.to_string(),
        type_annotation: ty.map(|t| TypeName::Ident { name: t.to_string() }),
    }
}

fn service_class(decorators: Vec<Decorator>, params: Vec<Param>) -> Class {
    Class {
        id: Some("Store".to_string()),
        decorators,
        body: vec![ClassElement::Method(MethodDef {
            kind: MethodKind::Constructor,
            key: "constructor".to_string(),
            params,
        })],
    }
}

/// The injection tokens of a synthesized factory member, in call order.
fn factory_tokens(element: &ClassElement) -> Vec<String> {
    let prop = match element {
        ClassElement::Property(p) => p,
        other => panic!("expected the factory property, got {:?}", other),
    };
    assert_eq!(prop.key, "\u{0275}fac");
    assert!(prop.is_static);
    let f = prop.value.as_ref().expect("factory initializer");
    let ret = match f {
        Expr::FunctionExpr { ret: Some(r), .. } => r,
        other => panic!("expected a function, got {:?}", other),
    };
    let args = match &**ret {
        Expr::LogicalOr { right, .. } => match &**right {
            Expr::NewExpr { args, .. } => args,
            other => panic!("expected a construction, got {:?}", other),
        },
        other => panic!("expected reuse-or-construct, got {:?}", other),
    };
    args.iter()
        .map(|a| match a {
            Expr::Call { args, .. } => match &args[0] {
                Expr::Ident { name } => name.clone(),
                other => panic!("expected a token identifier, got {:?}", other),
            },
            other => panic!("expected an injection call, got {:?}", other),
        })
        .collect()
}

#[test]
fn injection_order_preserved() {
    let params = vec![
        plain_param("a", Some("Foo")),
        Param {
            decorators: vec![call_decorator("Inject", vec![ident("BAR")])],
            name: "b".to_string(),
            type_annotation: None,
        },
        plain_param("c", Some("Baz")),
    ];
    let mut class = service_class(vec![injectable_with_scope("root")], params);
    let mut angular = Angular::new(AngularCtx::new());
    angular.visit_class(&mut class);
    let tokens = factory_tokens(&class.body[0]);
    assert_eq!(tokens, vec!["Foo".to_string(), "BAR".to_string(), "Baz".to_string()]);
}

#[test]
fn modifier_decorated_parameters_keep_their_argument() {
    let params = vec![
        Param {
            decorators: vec![call_decorator("Optional", vec![])],
            name: "log".to_string(),
            type_annotation: Some(TypeName::Ident { name: "Logger".to_string() }),
        },
        plain_param("b", Some("Bus")),
        Param {
            decorators: vec![call_decorator("SkipSelf", vec![ident("PARENT")])],
            name: "p".to_string(),
            type_annotation: None,
        },
    ];
    let mut class = service_class(vec![injectable_with_scope("root")], params);
    let mut angular = Angular::new(AngularCtx::new());
    angular.visit_class(&mut class);
    let tokens = factory_tokens(&class.body[0]);
    assert_eq!(tokens, vec!["Logger".to_string(), "Bus".to_string(), "PARENT".to_string()]);
}

#[test]
fn modifier_without_any_token_reports_diagnostic() {
    let params = vec![Param {
        decorators: vec![call_decorator("Optional", vec![])],
        name: "mystery".to_string(),
        type_annotation: None,
    }];
    let mut program = Program {
        statements: vec![Statement::ClassDecl(service_class(
            vec![injectable_with_scope("root")],
            params,
        ))],
    };
    let angular = Angular::new(AngularCtx::new());
    let errs = angular.build(&mut program).expect_err("a diagnostic is due");
    assert_eq!(errs.len(), 1);
    assert_eq!(errs[0].kind, DiagnosticKind::UnresolvedInjectionToken);
    assert_eq!(errs[0].subject, "mystery");
}

#[test]
fn param_decorators_carry_explicit_tokens() {
    let p = plain_param("x", None);
    let with_arg = call_decorator("Optional", vec![ident("LOGGER")]);
    assert_eq!(
        ParamDecorator::from_str("Optional", &p, &with_arg),
        Some(ParamDecorator::Optional("LOGGER".to_string()))
    );
    let with_arg2 = call_decorator("SkipSelf", vec![ident("PARENT")]);
    assert_eq!(
        ParamDecorator::from_str("SkipSelf", &p, &with_arg2),
        Some(ParamDecorator::SkipSelf("PARENT".to_string()))
    );
}

#[test]
fn factory_has_idempotent_shape() {
    let mut class = service_class(vec![injectable_with_scope("root")], vec![]);
    let mut angular = Angular::new(AngularCtx::new());
    angular.visit_class(&mut class);
    match &class.body[0] {
        ClassElement::Property(p) => match p.value.as_ref().unwrap() {
            Expr::FunctionExpr { name, params, ret } => {
                assert_eq!(name.as_deref(), Some("factoryStore"));
                assert_eq!(params, &vec!["t".to_string()]);
                assert!(matches!(&**ret.as_ref().unwrap(), Expr::LogicalOr { .. }));
            },
            other => panic!("expected a function, got {:?}", other),
        },
        other => panic!("expected the factory property, got {:?}", other),
    }
}

#[test]
fn transform_twice_is_a_no_op() {
    let params = vec![plain_param("a", Some("Foo"))];
    let mut class = service_class(vec![injectable_with_scope("root")], params);
    let mut angular = Angular::new(AngularCtx::new());
    angular.visit_class(&mut class);
    let once = format!("{:?}", class);
    let factories_once =
        class.body.iter().filter(|e| matches!(e, ClassElement::Property(p) if p.key == "\u{0275}fac")).count();
    angular.visit_class(&mut class);
    assert_eq!(format!("{:?}", class), once);
    let factories_twice =
        class.body.iter().filter(|e| matches!(e, ClassElement::Property(p) if p.key == "\u{0275}fac")).count();
    assert_eq!(factories_once, 1);
    assert_eq!(factories_twice, 1);
}

#[test]
fn undecorated_class_untouched() {
    let mut class = service_class(vec![], vec![plain_param("a", Some("Foo"))]);
    let before = format!("{:?}", class);
    let mut angular = Angular::new(AngularCtx::new());
    angular.visit_class(&mut class);
    assert_eq!(format!("{:?}", class), before);
}

#[test]
fn scope_omission_without_options() {
    let mut class = service_class(vec![call_decorator("Injectable", vec![])], vec![]);
    let mut angular = Angular::new(AngularCtx::new());
    angular.visit_class(&mut class);
    let prov = match &class.body[1] {
        ClassElement::Property(p) => p,
        other => panic!("expected the provider property, got {:?}", other),
    };
    assert_eq!(prov.key, "\u{0275}prov");
    let props = provider_properties(prov.value.as_ref().unwrap());
    assert_eq!(props.len(), 2);
    assert!(props.iter().all(|p| p.key != "providedIn"));
}

#[test]
fn scope_emitted_when_root() {
    let mut class = service_class(vec![injectable_with_scope("root")], vec![]);
    let mut angular = Angular::new(AngularCtx::new());
    angular.visit_class(&mut class);
    let prov = match &class.body[1] {
        ClassElement::Property(p) => p,
        other => panic!("expected the provider property, got {:?}", other),
    };
    let props = provider_properties(prov.value.as_ref().unwrap());
    assert_eq!(props.len(), 3);
    assert_eq!(props[2].key, "providedIn");
    assert_eq!(props[2].value, Expr::StrLit { value: "root".to_string() });
}

fn provider_properties(value: &Expr) -> &Vec<ObjectProperty> {
    match value {
        Expr::Call { args, .. } => match &args[0] {
            Expr::ObjectLit { properties } => properties,
            other => panic!("expected the descriptor object, got {:?}", other),
        },
        other => panic!("expected the definition call, got {:?}", other),
    }
}

#[test]
fn compiled_decorators_removed_and_others_kept() {
    let mut class = service_class(
        vec![call_decorator("Sealed", vec![]), injectable_with_scope("root")],
        vec![],
    );
    let mut angular = Angular::new(AngularCtx::new());
    angular.visit_class(&mut class);
    assert_eq!(class.decorators.len(), 1);
    assert_eq!(
        class.decorators[0].expression,
        Expr::Call { callee: Box::new(ident("Sealed")), args: vec![] }
    );
}

#[test]
fn unresolved_parameter_reports_diagnostic() {
    let params = vec![plain_param("mystery", None)];
    let mut program = Program {
        statements: vec![Statement::ClassDecl(service_class(
            vec![injectable_with_scope("root")],
            params,
        ))],
    };
    let angular = Angular::new(AngularCtx::new());
    let result = angular.build(&mut program);
    let errs = result.expect_err("a diagnostic is due");
    assert_eq!(errs.len(), 1);
    assert_eq!(errs[0].kind, DiagnosticKind::UnresolvedInjectionToken);
    assert_eq!(errs[0].subject, "mystery");
}

#[test]
fn build_strips_framework_imports() {
    let mut program = Program {
        statements: vec![
            Statement::Import(ImportDecl {
                source: "@angular/core".to_string(),
                specifiers: Some(vec![
                    ImportEntry::Default("ng".to_string()),
                    ImportEntry::Named(ImportSpecifier {
                        imported: "Injectable".to_string(),
                        local: "Injectable".to_string(),
                    }),
                    ImportEntry::Named(ImportSpecifier {
                        imported: "Inject".to_string(),
                        local: "Inject".to_string(),
                    }),
                    ImportEntry::Named(ImportSpecifier {
                        imported: "Component".to_string(),
                        local: "Component".to_string(),
                    }),
                    ImportEntry::Namespace("core".to_string()),
                ]),
            }),
            Statement::Import(ImportDecl {
                source: "rxjs".to_string(),
                specifiers: Some(vec![ImportEntry::Named(ImportSpecifier {
                    imported: "Injectable".to_string(),
                    local: "Injectable".to_string(),
                })]),
            }),
        ],
    };
    let angular = Angular::new(AngularCtx::new());
    angular.build(&mut program).expect("no diagnostics");
    match &program.statements[0] {
        Statement::Import(d) => {
            let specs = d.specifiers.as_ref().unwrap();
            assert_eq!(specs.len(), 3);
            assert_eq!(specs[0], ImportEntry::Default("ng".to_string()));
            assert!(matches!(&specs[1], ImportEntry::Named(s) if s.imported == "Component"));
            assert_eq!(specs[2], ImportEntry::Namespace("core".to_string()));
        },
        other => panic!("expected an import, got {:?}", other),
    }
    match &program.statements[1] {
        Statement::Import(d) => {
            assert_eq!(d.specifiers.as_ref().unwrap().len(), 1);
        },
        other => panic!("expected an import, got {:?}", other),
    }
}

#[test]
fn qualified_type_names_dot_separated() {
    let params = vec![Param {
        decorators: vec![],
        name: "a".to_string(),
        type_annotation: Some(TypeName::Qualified {
            left: Box::new(TypeName::Ident { name: "http".to_string() }),
            right: "Client".to_string(),
        }),
    }];
    let mut class = service_class(vec![injectable_with_scope("root")], params);
    let mut angular = Angular::new(AngularCtx::new());
    angular.visit_class(&mut class);
    assert_eq!(factory_tokens(&class.body[0]), vec!["http.Client".to_string()]);
}

#[test]
fn top_level_decorator_names() {
    let d = call_decorator("Component", vec![]);
    assert_eq!(TopLevelDecorator::from_str("Component", &d), Some(TopLevelDecorator::Component));
    assert_eq!(TopLevelDecorator::from_str("Directive", &d), Some(TopLevelDecorator::Directive));
    assert_eq!(TopLevelDecorator::from_str("Pipe", &d), Some(TopLevelDecorator::Pipe));
    assert_eq!(TopLevelDecorator::from_str("NgModule", &d), Some(TopLevelDecorator::NgModule));
    assert_eq!(TopLevelDecorator::from_str("Widget", &d), None);
}

#[test]
fn injectable_options_degrade_to_default() {
    let bad = call_decorator(
        "Injectable",
        vec![Expr::ObjectLit {
            properties: vec![ObjectProperty {
                key: "providedIn".to_string(),
                value: Expr::StrLit { value: "galaxy".to_string() },
            }],
        }],
    );
    assert_eq!(
        TopLevelDecorator::from_str("Injectable", &bad),
        Some(TopLevelDecorator::Injectable {
            options: InjectableOptions {
                provided_in: ProviderScope::Unset,
                detail: InjectableProvider::Unspecified,
            },
        })
    );
}

#[test]
fn provider_scopes_by_name() {
    assert_eq!(ProviderScope::from_str("root"), Some(ProviderScope::Root));
    assert_eq!(ProviderScope::from_str("platform"), Some(ProviderScope::Platform));
    assert_eq!(ProviderScope::from_str("any"), Some(ProviderScope::Any));
    assert_eq!(ProviderScope::from_str("module"), None);
}

#[test]
fn param_decorators_by_name() {
    let p = plain_param("x", None);
    let inject = call_decorator("Inject", vec![ident("TOKEN")]);
    assert_eq!(
        ParamDecorator::from_str("Inject", &p, &inject),
        Some(ParamDecorator::Inject("TOKEN".to_string()))
    );
    assert_eq!(
        ParamDecorator::from_str("Optional", &p, &inject),
        Some(ParamDecorator::Optional("TOKEN".to_string()))
    );
    let bare = call_decorator("Optional", vec![]);
    assert_eq!(
        ParamDecorator::from_str("Optional", &p, &bare),
        Some(ParamDecorator::Optional("".to_string()))
    );
    assert_eq!(
        ParamDecorator::from_str("Self", &p, &bare),
        Some(ParamDecorator::ASelf("".to_string()))
    );
    assert_eq!(
        ParamDecorator::from_str("SkipSelf", &p, &bare),
        Some(ParamDecorator::SkipSelf("".to_string()))
    );
    assert_eq!(ParamDecorator::from_str("Host", &p, &inject), None);
    let no_arg = call_decorator("Inject", vec![]);
    assert_eq!(ParamDecorator::from_str("Inject", &p, &no_arg), None);
}

#[test]
fn property_decorators_by_name() {
    assert_eq!(PropertyDecorator::from_str("Input"), Some(PropertyDecorator::Input));
    assert_eq!(PropertyDecorator::from_str("Output"), Some(PropertyDecorator::Output));
    assert_eq!(PropertyDecorator::from_str("HostBinding"), Some(PropertyDecorator::HostBinding));
    assert_eq!(PropertyDecorator::from_str("HostListener"), Some(PropertyDecorator::HostListener));
    assert_eq!(PropertyDecorator::from_str("ViewChild"), Some(PropertyDecorator::ViewChild));
    assert_eq!(PropertyDecorator::from_str("ViewChildren"), Some(PropertyDecorator::ViewChildren));
    assert_eq!(PropertyDecorator::from_str("ContentChild"), Some(PropertyDecorator::ContentChild));
    assert_eq!(
        PropertyDecorator::from_str("ContentChildren"),
        Some(PropertyDecorator::ContentChildren)
    );
    assert_eq!(PropertyDecorator::from_str("Attribute"), Some(PropertyDecorator::Attribute));
    assert_eq!(PropertyDecorator::from_str("Watch"), None);
}

#[test]
fn uid_minting_is_collision_free() {
    let mut ctx = AngularCtx::new();
    ctx.add_binding("class".to_string());
    let first = ctx.generate_uid("class");
    let second = ctx.generate_uid("class");
    assert_eq!(first, "class_");
    assert_eq!(second, "class__");
    assert_ne!(first, second);
}

#[test]
fn diagnostics_drain_empties_the_sink() {
    let mut ctx = AngularCtx::new();
    ctx.error(treaty::Diagnostic {
        kind: DiagnosticKind::UnresolvedInjectionToken,
        subject: "x".to_string(),
    });
    let drained = ctx.errors();
    assert_eq!(drained.len(), 1);
    assert_eq!(ctx.errors().len(), 0);
}

#[test]
fn runtime_identifiers_qualified() {
    let (module, name) = treaty::Identifier::Advance.imported();
    assert_eq!(module, "@angular/core");
    assert_eq!(name, "\u{0275}\u{0275}advance");
    let (_, inject) = treaty::Identifier::TextInterpolate.imported();
    assert_eq!(inject, "\u{0275}\u{0275}textInterpolate");
}
