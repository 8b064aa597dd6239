//! The provider-descriptor synthesizer: for a class carrying an `Injectable`
//! decorator it inserts, right after the factory member, a static property
//! describing how the class registers with the runtime's dependency
//! container — `i0.defineInjectable({token, factory, providedIn?})`, where
//! `providedIn` appears only when the resolved scope is set.

use vstd::prelude::*;

use crate::decorators::{InjectableOptions, ProviderScope, TopLevelDecorator};
use crate::script::{
    spec_elements, Class, ClassElement, Expr, ObjectProperty, PropertyDef, SpecClassElement,
    SpecExpr, SpecObjectProperty, SpecPropertyDef,
};

verus! {

/// The one structural-invariant violation this pass can detect: it was asked
/// to synthesize a provider member for a class that has no factory member
/// yet.  The factory must always be built first; hitting this is an internal
/// ordering defect, not an input error.
#[derive(Clone, Copy, PartialEq, Eq, Structural, Debug)]
pub enum TransformError {
    ProviderBeforeFactory,
}

/// The properties of the provider descriptor: `token` (the class), `factory`
/// (the class's factory member), and `providedIn` exactly when the scope is
/// set.
pub open spec fn spec_provider_properties(
    class_name: Seq<char>,
    options: InjectableOptions,
) -> Seq<SpecObjectProperty> {
    let base = seq![
        SpecObjectProperty { key: "token"@, value: SpecExpr::Ident { name: class_name } },
        SpecObjectProperty {
            key: "factory"@,
            value: SpecExpr::Member {
                object: Box::new(SpecExpr::Ident { name: class_name }),
                property: "\u{0275}fac"@,
            },
        },
    ];
    if options.provided_in != ProviderScope::Unset {
        base + seq![
            SpecObjectProperty {
                key: "providedIn"@,
                value: SpecExpr::StrLit { value: options.provided_in.spec_text() },
            },
        ]
    } else {
        base
    }
}

/// The synthesized provider-descriptor member: a static property whose
/// initializer calls the runtime's injectable-definition primitive on the
/// descriptor object.
pub open spec fn spec_provider_member(
    class_name: Seq<char>,
    options: InjectableOptions,
) -> SpecClassElement {
    SpecClassElement::Property(
        SpecPropertyDef {
            key: "\u{0275}prov"@,
            value: Some(
                SpecExpr::Call {
                    callee: Box::new(
                        SpecExpr::Member {
                            object: Box::new(SpecExpr::Ident { name: "i0"@ }),
                            property: "\u{0275}\u{0275}defineInjectable"@,
                        },
                    ),
                    args: seq![
                        SpecExpr::ObjectLit {
                            properties: spec_provider_properties(class_name, options),
                        },
                    ],
                },
            ),
            is_static: true,
        },
    )
}

/// Scope omission: the provider descriptor carries a `providedIn` property
/// exactly when the resolved scope is set — never for the default scope —
/// and then its value is the scope's name as a string literal.
pub proof fn lemma_scope_omission(class_name: Seq<char>, options: InjectableOptions)
    ensures
        options.provided_in == ProviderScope::Unset ==> {
            let props = spec_provider_properties(class_name, options);
            props.len() == 2 && forall|k: int| 0 <= k < props.len() ==> props[k].key
                != "providedIn"@
        },
        options.provided_in != ProviderScope::Unset ==> {
            let props = spec_provider_properties(class_name, options);
            props.len() == 3 && props[2].key == "providedIn"@ && props[2].value
                == (SpecExpr::StrLit { value: options.provided_in.spec_text() }) && forall|k: int|
                0 <= k < 2 ==> props[k].key != "providedIn"@
        },
{
    reveal_strlit("token");
    reveal_strlit("factory");
    reveal_strlit("providedIn");
    assert("token"@.len() == 5);
    assert("factory"@.len() == 7);
    assert("providedIn"@.len() == 10);
}

/// The options of the first `Injectable` among the classified decorators.
pub open spec fn spec_first_injectable(cls: Seq<(TopLevelDecorator, int)>) -> Option<
    InjectableOptions,
>
    decreases cls.len(),
{
    if cls.len() == 0 {
        Option::None
    } else {
        match cls[0].0 {
            TopLevelDecorator::Injectable { options } => Some(options),
            _ => spec_first_injectable(cls.drop_first()),
        }
    }
}

/// A body already holds a factory member: some static property keyed like
/// the factory.
pub open spec fn spec_has_factory(body: Seq<SpecClassElement>) -> bool {
    exists|i: int|
        0 <= i < body.len() && ((#[trigger] body[i]) matches SpecClassElement::Property(p)
            && p.key == "\u{0275}fac"@ && p.is_static)
}

/// What this pass does to a class body: for an injectable-scoped class with
/// a factory member present, the provider descriptor becomes the second body
/// element; any other class is untouched.
pub open spec fn spec_ic_transform(
    body: Seq<SpecClassElement>,
    cls: Seq<(TopLevelDecorator, int)>,
    class_name: Seq<char>,
) -> Seq<SpecClassElement> {
    match spec_first_injectable(cls) {
        Some(options) => {
            if spec_has_factory(body) {
                body.insert(1, spec_provider_member(class_name, options))
            } else {
                body
            }
        },
        Option::None => body,
    }
}

/// The provider-descriptor synthesizer.
pub struct InjectableCreator {}

impl InjectableCreator {
    pub fn new() -> (r: Option<InjectableCreator>)
        ensures
            r is Some,
    {
        Some(InjectableCreator {})
    }

    /// The decorator names this pass compiles away: the specifiers to strip
    /// from framework imports.
    pub fn specifier_to_remove() -> (r: Vec<&'static str>)
        ensures
            r@.len() == 1,
            r@[0]@ == "Injectable"@,
    {
        let mut v: Vec<&'static str> = Vec::new();
        v.push("Injectable");
        v
    }

    /// Build the provider-descriptor member for `class_name` under
    /// `options`.
    pub fn ng_factory_builder(&self, class_name: &str, options: &InjectableOptions) -> (r:
        ClassElement)
        ensures
            r.spec() == spec_provider_member(class_name@, *options),
    {
        let mut properties: Vec<ObjectProperty> = Vec::new();
        properties.push(
            ObjectProperty {
                key: String::from_str("token"),
                value: Expr::Ident { name: String::from_str(class_name) },
            },
        );
        properties.push(
            ObjectProperty {
                key: String::from_str("factory"),
                value: Expr::Member {
                    object: Box::new(Expr::Ident { name: String::from_str(class_name) }),
                    property: String::from_str("\u{0275}fac"),
                },
            },
        );
        if options.provided_in != ProviderScope::Unset {
            properties.push(
                ObjectProperty {
                    key: String::from_str("providedIn"),
                    value: Expr::StrLit { value: options.provided_in.text() },
                },
            );
        }
        let ghost pv = properties@;
        let mut args: Vec<Expr> = Vec::new();
        args.push(Expr::ObjectLit { properties });
        let ghost av = args@;
        let r = ClassElement::Property(
            PropertyDef {
                key: String::from_str("\u{0275}prov"),
                value: Some(
                    Expr::Call {
                        callee: Box::new(
                            Expr::Member {
                                object: Box::new(Expr::Ident { name: String::from_str("i0") }),
                                property: String::from_str(
                                    "\u{0275}\u{0275}defineInjectable",
                                ),
                            },
                        ),
                        args,
                    },
                ),
                is_static: true,
            },
        );
        proof {
            reveal_with_fuel(crate::script::Expr::spec, 6);
            crate::script::lemma_spec_properties(pv);
            assert(crate::script::spec_properties(pv) =~~= spec_provider_properties(
                class_name@,
                *options,
            ));
            crate::script::lemma_spec_exprs(av);
            assert(crate::script::spec_exprs(av) =~~= seq![
                SpecExpr::ObjectLit {
                    properties: spec_provider_properties(class_name@, *options),
                },
            ]);
            assert(r.spec() =~~= spec_provider_member(class_name@, *options));
        }
        r
    }

    /// Transform one class: as [`spec_ic_transform`] describes, or the
    /// internal ordering error when a provider is due but no factory member
    /// stands in the body.
    pub fn transform_class(
        &mut self,
        class: &mut Class,
        top_level_decorators: &Vec<(TopLevelDecorator, usize)>,
        class_name: &String,
    ) -> (r: Result<(), TransformError>)
        ensures
            r is Ok ==> final(class).spec().body == spec_ic_transform(
                old(class).spec().body,
                crate::dependency::spec_pairs(top_level_decorators@),
                class_name@,
            ) && final(class).spec().id == old(class).spec().id && final(class).spec().decorators
                == old(class).spec().decorators,
            r matches Err(e) ==> {
                &&& e == TransformError::ProviderBeforeFactory
                &&& spec_first_injectable(
                    crate::dependency::spec_pairs(top_level_decorators@),
                ) is Some
                &&& !spec_has_factory(old(class).spec().body)
                &&& *final(class) == *old(class)
            },
    {
        let ghost cls = crate::dependency::spec_pairs(top_level_decorators@);
        let n = top_level_decorators.len();
        let mut i: usize = 0;
        let mut found: Option<InjectableOptions> = None;
        proof {
            assert(cls.subrange(0, n as int) =~= cls);
        }
        while i < n && found.is_none()
            invariant
                i <= n,
                n == top_level_decorators@.len(),
                cls == crate::dependency::spec_pairs(top_level_decorators@),
                found is None ==> spec_first_injectable(cls) == spec_first_injectable(
                    cls.subrange(i as int, n as int),
                ),
                found matches Some(o) ==> spec_first_injectable(cls) == Some(o),
            decreases n - i,
        {
            proof {
                assert(cls.subrange(i as int, n as int)[0] == cls[i as int]);
                assert(cls.subrange(i as int, n as int).drop_first() =~= cls.subrange(
                    i + 1,
                    n as int,
                ));
            }
            match &top_level_decorators[i].0 {
                TopLevelDecorator::Injectable { options } => {
                    found = Some(*options);
                },
                _ => {},
            }
            i += 1;
        }
        proof {
            if found is None {
                assert(cls.subrange(n as int, n as int) =~= Seq::<(
                    TopLevelDecorator,
                    int,
                )>::empty());
            }
        }
        match found {
            Some(options) => {
                let ghost sbody = old(class).spec().body;
                let nb = class.body.len();
                let mut j: usize = 0;
                let mut has_fac = false;
                while j < nb && !has_fac
                    invariant
                        j <= nb,
                        nb == class.body@.len(),
                        class == old(class),
                        sbody == spec_elements(class.body@),
                        !has_fac ==> forall|k: int|
                            0 <= k < j ==> !((#[trigger] sbody[k])
                                matches SpecClassElement::Property(p) && p.key == "\u{0275}fac"@
                                && p.is_static),
                        has_fac ==> spec_has_factory(sbody),
                    decreases nb - j + (if has_fac {
                        0int
                    } else {
                        1int
                    }),
                {
                    proof {
                        assert(sbody[j as int] == class.body@[j as int].spec());
                    }
                    match &class.body[j] {
                        ClassElement::Property(p) => {
                            if p.is_static && crate::text::str_eq(
                                p.key.as_str(),
                                "\u{0275}fac",
                            ) {
                                has_fac = true;
                            } else {
                                j += 1;
                            }
                        },
                        _ => {
                            j += 1;
                        },
                    }
                }
                if has_fac {
                    let member = self.ng_factory_builder(class_name.as_str(), &options);
                    let ghost mv = member.spec();
                    class.body.insert(1, member);
                    proof {
                        assert(spec_elements(class.body@) =~= sbody.insert(1, mv));
                    }
                    Ok(())
                } else {
                    proof {
                        assert(!spec_has_factory(sbody));
                    }
                    Err(TransformError::ProviderBeforeFactory)
                }
            },
            None => Ok(()),
        }
    }
}

} // verus!
