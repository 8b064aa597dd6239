//! The decorator classifier: pure name-to-variant mappings for class-level,
//! parameter-level and property-level decorators, and the parser of an
//! `Injectable` decorator's options object.

use vstd::prelude::*;

use crate::script::{
    lemma_spec_exprs, lemma_spec_properties, Decorator, Expr, ObjectProperty, Param,
    SpecDecorator, SpecExpr, SpecObjectProperty,
};
use crate::text::str_eq;

verus! {

/// The breadth at which an injectable registration applies.  `Unset` means
/// no scope was given (or none could be parsed); it is never emitted into
/// generated code.
#[derive(Clone, Copy, PartialEq, Eq, Structural, Debug)]
pub enum ProviderScope {
    Root,
    Platform,
    Any,
    Unset,
}

/// The scope named by a `providedIn` string, if it is a known one.
pub open spec fn spec_scope(name: Seq<char>) -> Option<ProviderScope> {
    if name == "root"@ {
        Some(ProviderScope::Root)
    } else if name == "platform"@ {
        Some(ProviderScope::Platform)
    } else if name == "any"@ {
        Some(ProviderScope::Any)
    } else {
        Option::None
    }
}

impl ProviderScope {
    pub fn from_str(name: &str) -> (r: Option<ProviderScope>)
        ensures
            r == spec_scope(name@),
    {
        if str_eq(name, "root") {
            Some(ProviderScope::Root)
        } else if str_eq(name, "platform") {
            Some(ProviderScope::Platform)
        } else if str_eq(name, "any") {
            Some(ProviderScope::Any)
        } else {
            None
        }
    }

    /// The scope's name as generated code spells it.
    pub open spec fn spec_text(self) -> Seq<char> {
        match self {
            ProviderScope::Root => "root"@,
            ProviderScope::Platform => "platform"@,
            ProviderScope::Any => "any"@,
            ProviderScope::Unset => "none"@,
        }
    }

    /// Executable form of [`ProviderScope::spec_text`].
    pub fn text(&self) -> (r: String)
        ensures
            r@ == self.spec_text(),
    {
        match self {
            ProviderScope::Root => String::from_str("root"),
            ProviderScope::Platform => String::from_str("platform"),
            ProviderScope::Any => String::from_str("any"),
            ProviderScope::Unset => String::from_str("none"),
        }
    }
}

/// The form in which an injectable provides its value.  Only the kind is
/// recorded; `Unspecified` stands where no explicit form was given.
#[derive(Clone, Copy, PartialEq, Eq, Structural, Debug)]
pub enum InjectableProvider {
    Value,
    Existing,
    StaticClass,
    Constructor,
    Factory,
    Class,
    Unspecified,
}

impl Default for InjectableProvider {
    fn default() -> (r: InjectableProvider)
        ensures
            r == InjectableProvider::Unspecified,
    {
        InjectableProvider::Unspecified
    }
}

/// The options carried by an `Injectable` decorator: the provider scope and
/// the provider form.
#[derive(Clone, Copy, PartialEq, Eq, Structural, Debug)]
pub struct InjectableOptions {
    pub provided_in: ProviderScope,
    pub detail: InjectableProvider,
}

impl Default for InjectableOptions {
    fn default() -> (r: InjectableOptions)
        ensures
            r == (InjectableOptions {
                provided_in: ProviderScope::Unset,
                detail: InjectableProvider::Unspecified,
            }),
    {
        InjectableOptions {
            provided_in: ProviderScope::Unset,
            detail: InjectableProvider::Unspecified,
        }
    }
}

/// The options read from an object literal's properties: the first
/// `providedIn` property whose value is a string literal naming a known
/// scope; `None` when there is no such property.
pub open spec fn spec_from_properties(props: Seq<SpecObjectProperty>) -> Option<InjectableOptions>
    decreases props.len(),
{
    if props.len() == 0 {
        Option::None
    } else {
        let p = props[0];
        let rest = props.drop_first();
        if p.key == "providedIn"@ {
            match p.value {
                SpecExpr::StrLit { value } => match spec_scope(value) {
                    Some(sc) => Some(
                        InjectableOptions {
                            provided_in: sc,
                            detail: InjectableProvider::Unspecified,
                        },
                    ),
                    Option::None => spec_from_properties(rest),
                },
                _ => spec_from_properties(rest),
            }
        } else {
            spec_from_properties(rest)
        }
    }
}

/// The options read from a decorator: the first object-literal argument of
/// its call expression that yields options; `None` when the decorator is not
/// a call or no argument does.
pub open spec fn spec_parse_decorator(d: SpecDecorator) -> Option<InjectableOptions> {
    match d.expression {
        SpecExpr::Call { callee, args } => spec_first_options(args),
        _ => Option::None,
    }
}

/// The first element of `args` that is an object literal yielding options.
pub open spec fn spec_first_options(args: Seq<SpecExpr>) -> Option<InjectableOptions>
    decreases args.len(),
{
    if args.len() == 0 {
        Option::None
    } else {
        let found = match args[0] {
            SpecExpr::ObjectLit { properties } => spec_from_properties(properties),
            _ => Option::None,
        };
        match found {
            Some(o) => Some(o),
            Option::None => spec_first_options(args.drop_first()),
        }
    }
}

impl InjectableOptions {
    /// The key under which the provider scope is given.
    pub const PROVIDED_IN_KEY: &'static str = "providedIn";

    pub fn parse_decorator(decorator: &Decorator) -> (r: Option<InjectableOptions>)
        ensures
            r == spec_parse_decorator(decorator.spec()),
    {
        match &decorator.expression {
            Expr::Call { callee: _, args } => {
                proof {
                    lemma_spec_exprs(args@);
                    assert(crate::script::spec_exprs(args@).subrange(
                        0,
                        args@.len() as int,
                    ) =~= crate::script::spec_exprs(args@));
                }
                let mut i: usize = 0;
                let n = args.len();
                while i < n
                    invariant
                        i <= n,
                        n == args@.len(),
                        decorator.spec().expression matches SpecExpr::Call { callee: _, args: sa }
                            && sa == crate::script::spec_exprs(args@),
                        spec_exprs_tail_first_options(args@, i as int) == spec_first_options(
                            crate::script::spec_exprs(args@),
                        ),
                    decreases n - i,
                {
                    proof {
                        lemma_spec_exprs(args@);
                        lemma_first_options_step(crate::script::spec_exprs(args@), i as int);
                    }
                    if let Expr::ObjectLit { properties } = &args[i] {
                        let found = Self::from_properties(properties);
                        if let Some(o) = found {
                            proof {
                                let s = crate::script::spec_exprs(args@);
                                assert(s[i as int] == args@[i as int].spec());
                                assert(args@[i as int].spec() == (SpecExpr::ObjectLit {
                                    properties: crate::script::spec_properties(properties@),
                                }));
                                assert(spec_first_options(s.subrange(i as int, s.len() as int))
                                    == Some(o));
                                assert(spec_first_options(s) == Some(o));
                                assert(decorator.spec().expression matches SpecExpr::Call {
                                    callee: _,
                                    args: sa,
                                } && sa == s);
                                assert(spec_parse_decorator(decorator.spec()) == Some(o));
                            }
                            return Some(o);
                        }
                    }
                    i += 1;
                }
                proof {
                    lemma_spec_exprs(args@);
                    lemma_first_options_step(crate::script::spec_exprs(args@), n as int);
                }
                None
            },
            _ => None,
        }
    }

    /// Scan an object literal's properties for a usable `providedIn` entry.
    pub fn from_properties(properties: &Vec<ObjectProperty>) -> (r: Option<InjectableOptions>)
        ensures
            r == spec_from_properties(crate::script::spec_properties(properties@)),
    {
        proof {
            lemma_spec_properties(properties@);
        }
        let ghost sp = crate::script::spec_properties(properties@);
        proof {
            assert(sp.subrange(0, sp.len() as int) =~= sp);
        }
        let n = properties.len();
        let mut i: usize = 0;
        while i < n
            invariant
                i <= n,
                n == properties@.len(),
                sp == crate::script::spec_properties(properties@),
                sp.len() == n,
                forall|k: int| 0 <= k < n ==> #[trigger] sp[k] == (SpecObjectProperty {
                    key: properties@[k].key@,
                    value: properties@[k].value.spec(),
                }),
                spec_from_properties(sp.subrange(i as int, n as int)) == spec_from_properties(sp),
            decreases n - i,
        {
            proof {
                assert(sp.subrange(i as int, n as int)[0] == sp[i as int]);
                assert(sp.subrange(i as int, n as int).drop_first() =~= sp.subrange(
                    i as int + 1,
                    n as int,
                ));
            }
            let p = &properties[i];
            if str_eq(p.key.as_str(), "providedIn") {
                if let Expr::StrLit { value } = &p.value {
                    if let Some(sc) = ProviderScope::from_str(value.as_str()) {
                        return Some(
                            InjectableOptions {
                                provided_in: sc,
                                detail: InjectableProvider::Unspecified,
                            },
                        );
                    }
                }
            }
            i += 1;
        }
        proof {
            assert(sp.subrange(n as int, n as int) =~= Seq::<SpecObjectProperty>::empty());
        }
        None
    }
}

/// `spec_first_options` restricted to the arguments from `i` on.
pub open spec fn spec_exprs_tail_first_options(args: Seq<Expr>, i: int) -> Option<
    InjectableOptions,
> {
    spec_first_options(crate::script::spec_exprs(args).subrange(i, args.len() as int))
}

/// One unfolding step of [`spec_first_options`] over a suffix.
proof fn lemma_first_options_step(s: Seq<SpecExpr>, i: int)
    requires
        0 <= i <= s.len(),
    ensures
        i < s.len() ==> spec_first_options(s.subrange(i, s.len() as int)) == {
            let found = match s[i] {
                SpecExpr::ObjectLit { properties } => spec_from_properties(properties),
                _ => Option::<InjectableOptions>::None,
            };
            match found {
                Some(o) => Some(o),
                Option::None => spec_first_options(s.subrange(i + 1, s.len() as int)),
            }
        },
        i == s.len() ==> spec_first_options(s.subrange(i, s.len() as int)) is None,
{
    if i < s.len() {
        assert(s.subrange(i, s.len() as int)[0] == s[i]);
        assert(s.subrange(i, s.len() as int).drop_first() =~= s.subrange(i + 1, s.len() as int));
    } else {
        assert(s.subrange(i, s.len() as int) =~= Seq::<SpecExpr>::empty());
    }
}

} // verus!

verus! {

/// The default options: no scope, no provider form.
pub open spec fn default_options() -> InjectableOptions {
    InjectableOptions { provided_in: ProviderScope::Unset, detail: InjectableProvider::Unspecified }
}

/// A class-level decorator identifying the class's runtime role.
#[derive(Clone, Copy, PartialEq, Eq, Structural, Debug)]
pub enum TopLevelDecorator {
    Component,
    Directive,
    Pipe,
    NgModule,
    Injectable { options: InjectableOptions },
}

/// The classification of a class-level decorator by name.  `Injectable`
/// additionally parses its options argument; any unusable argument shape
/// degrades to the default options rather than an error.
pub open spec fn spec_top_level(name: Seq<char>, d: SpecDecorator) -> Option<TopLevelDecorator> {
    if name == "Component"@ {
        Some(TopLevelDecorator::Component)
    } else if name == "Directive"@ {
        Some(TopLevelDecorator::Directive)
    } else if name == "Pipe"@ {
        Some(TopLevelDecorator::Pipe)
    } else if name == "NgModule"@ {
        Some(TopLevelDecorator::NgModule)
    } else if name == "Injectable"@ {
        let options = match spec_parse_decorator(d) {
            Some(o) => o,
            Option::None => default_options(),
        };
        Some(TopLevelDecorator::Injectable { options })
    } else {
        Option::None
    }
}

impl TopLevelDecorator {
    pub fn from_str(name: &str, decorator: &Decorator) -> (r: Option<TopLevelDecorator>)
        ensures
            r == spec_top_level(name@, decorator.spec()),
    {
        if str_eq(name, "Component") {
            Some(TopLevelDecorator::Component)
        } else if str_eq(name, "Directive") {
            Some(TopLevelDecorator::Directive)
        } else if str_eq(name, "Pipe") {
            Some(TopLevelDecorator::Pipe)
        } else if str_eq(name, "NgModule") {
            Some(TopLevelDecorator::NgModule)
        } else if str_eq(name, "Injectable") {
            let options = match InjectableOptions::parse_decorator(decorator) {
                Some(o) => o,
                None => InjectableOptions::default(),
            };
            Some(TopLevelDecorator::Injectable { options })
        } else {
            None
        }
    }
}

/// A constructor-parameter decorator modifying how the dependency is
/// resolved, carrying the injection token it names.  `Unmarked` stands for
/// a parameter with no recognized injection decorator.
#[derive(Clone, PartialEq, Eq, Debug)]
pub enum ParamDecorator {
    Optional(String),
    ASelf(String),
    SkipSelf(String),
    Inject(String),
    Unmarked,
}

/// Spec-level mirror of [`ParamDecorator`].
#[verifier::ext_equal]
pub enum SpecParamDecorator {
    Optional(Seq<char>),
    ASelf(Seq<char>),
    SkipSelf(Seq<char>),
    Inject(Seq<char>),
    Unmarked,
}

impl ParamDecorator {
    /// The spec-level value of this classification.
    pub open spec fn spec(self) -> SpecParamDecorator {
        match self {
            ParamDecorator::Optional(t) => SpecParamDecorator::Optional(t@),
            ParamDecorator::ASelf(t) => SpecParamDecorator::ASelf(t@),
            ParamDecorator::SkipSelf(t) => SpecParamDecorator::SkipSelf(t@),
            ParamDecorator::Inject(t) => SpecParamDecorator::Inject(t@),
            ParamDecorator::Unmarked => SpecParamDecorator::Unmarked,
        }
    }
}

/// The spec-level value of an optional classification.
pub open spec fn spec_param_option(r: Option<ParamDecorator>) -> Option<SpecParamDecorator> {
    match r {
        Some(p) => Some(p.spec()),
        Option::None => Option::None,
    }
}

/// The identifier given as a decorator call's first argument, if any.
pub open spec fn spec_first_arg_ident(d: SpecDecorator) -> Option<Seq<char>> {
    match d.expression {
        SpecExpr::Call { callee, args } => {
            if args.len() > 0 {
                match args[0] {
                    SpecExpr::Ident { name } => Some(name),
                    _ => Option::None,
                }
            } else {
                Option::None
            }
        },
        _ => Option::None,
    }
}

/// The classification of a parameter decorator by name, each modifier
/// carrying the injection token it names.  `Inject` requires an explicit
/// identifier argument; `Optional`, `Self` and `SkipSelf` carry one when
/// given and are otherwise left for the declared type to resolve (an empty
/// token until then).
pub open spec fn spec_classify_param(name: Seq<char>, d: SpecDecorator) -> Option<
    SpecParamDecorator,
> {
    let arg = match spec_first_arg_ident(d) {
        Some(t) => t,
        Option::None => Seq::empty(),
    };
    if name == "Optional"@ {
        Some(SpecParamDecorator::Optional(arg))
    } else if name == "Self"@ {
        Some(SpecParamDecorator::ASelf(arg))
    } else if name == "SkipSelf"@ {
        Some(SpecParamDecorator::SkipSelf(arg))
    } else if name == "Inject"@ {
        match spec_first_arg_ident(d) {
            Some(token) => Some(SpecParamDecorator::Inject(token)),
            Option::None => Option::None,
        }
    } else {
        Option::None
    }
}

/// The identifier a decorator call passes first, if any.
fn first_arg_ident(decorator: &Decorator) -> (r: Option<&String>)
    ensures
        r matches Some(t) ==> spec_first_arg_ident(decorator.spec()) == Some(t@),
        r is None ==> spec_first_arg_ident(decorator.spec()) is None,
{
    match &decorator.expression {
        Expr::Call { callee, args } => {
            proof {
                lemma_spec_exprs(args@);
                assert(decorator.spec().expression == decorator.expression.spec());
                assert(decorator.expression.spec() matches SpecExpr::Call { callee: c, args: a }
                    && a == crate::script::spec_exprs(args@));
            }
            if args.len() > 0 {
                proof {
                    assert(crate::script::spec_exprs(args@)[0] == args@[0].spec());
                }
                match &args[0] {
                    Expr::Ident { name } => Some(name),
                    _ => None,
                }
            } else {
                None
            }
        },
        _ => None,
    }
}

impl ParamDecorator {
    /// Classify one decorator of `param`.  The parameter itself does not
    /// influence the classification; it is passed for symmetry with the
    /// class-level classifier.
    pub fn from_str(name: &str, param: &Param, decorator: &Decorator) -> (r: Option<
        ParamDecorator,
    >)
        ensures
            spec_param_option(r) == spec_classify_param(name@, decorator.spec()),
    {
        let _ = param;
        let arg: String = match first_arg_ident(decorator) {
            Some(t) => t.clone(),
            None => String::new(),
        };
        if str_eq(name, "Optional") {
            Some(ParamDecorator::Optional(arg))
        } else if str_eq(name, "Self") {
            Some(ParamDecorator::ASelf(arg))
        } else if str_eq(name, "SkipSelf") {
            Some(ParamDecorator::SkipSelf(arg))
        } else if str_eq(name, "Inject") {
            match first_arg_ident(decorator) {
                Some(token) => Some(ParamDecorator::Inject(token.clone())),
                None => None,
            }
        } else {
            None
        }
    }
}

/// A property-level decorator, classified by name alone.
#[derive(Clone, Copy, PartialEq, Eq, Structural, Debug)]
pub enum PropertyDecorator {
    Input,
    Output,
    HostBinding,
    HostListener,
    ViewChild,
    ViewChildren,
    ContentChild,
    ContentChildren,
    Attribute,
}

/// The classification of a property decorator by name.
pub open spec fn spec_property_decorator(name: Seq<char>) -> Option<PropertyDecorator> {
    if name == "Input"@ {
        Some(PropertyDecorator::Input)
    } else if name == "Output"@ {
        Some(PropertyDecorator::Output)
    } else if name == "HostBinding"@ {
        Some(PropertyDecorator::HostBinding)
    } else if name == "HostListener"@ {
        Some(PropertyDecorator::HostListener)
    } else if name == "ViewChild"@ {
        Some(PropertyDecorator::ViewChild)
    } else if name == "ViewChildren"@ {
        Some(PropertyDecorator::ViewChildren)
    } else if name == "ContentChild"@ {
        Some(PropertyDecorator::ContentChild)
    } else if name == "ContentChildren"@ {
        Some(PropertyDecorator::ContentChildren)
    } else if name == "Attribute"@ {
        Some(PropertyDecorator::Attribute)
    } else {
        Option::None
    }
}

impl PropertyDecorator {
    pub fn from_str(name: &str) -> (r: Option<PropertyDecorator>)
        ensures
            r == spec_property_decorator(name@),
    {
        if str_eq(name, "Input") {
            Some(PropertyDecorator::Input)
        } else if str_eq(name, "Output") {
            Some(PropertyDecorator::Output)
        } else if str_eq(name, "HostBinding") {
            Some(PropertyDecorator::HostBinding)
        } else if str_eq(name, "HostListener") {
            Some(PropertyDecorator::HostListener)
        } else if str_eq(name, "ViewChild") {
            Some(PropertyDecorator::ViewChild)
        } else if str_eq(name, "ViewChildren") {
            Some(PropertyDecorator::ViewChildren)
        } else if str_eq(name, "ContentChild") {
            Some(PropertyDecorator::ContentChild)
        } else if str_eq(name, "ContentChildren") {
            Some(PropertyDecorator::ContentChildren)
        } else if str_eq(name, "Attribute") {
            Some(PropertyDecorator::Attribute)
        } else {
            None
        }
    }
}

} // verus!
