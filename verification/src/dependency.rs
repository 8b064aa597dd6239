//! The constructor-injection analyzer and factory synthesizer.
//!
//! For a class with a recognized class-level decorator this pass resolves an
//! injection token for each constructor parameter — from an explicit
//! parameter decorator, else from the parameter's declared type — strips the
//! compiled-away parameter decorators, reports parameters that resolve to no
//! token, inserts a static factory member of the form
//! `t || new Class(i0.inject(T1), ...)` as the first body element, and
//! removes the compiled class-level decorators from the decorator list.

use vstd::prelude::*;

use crate::context::{AngularCtx, Diagnostic, DiagnosticKind, SpecDiagnostic};
use crate::decorators::{
    spec_classify_param, spec_top_level, ParamDecorator, SpecParamDecorator, TopLevelDecorator,
};
use crate::script::{
    spec_decorators, spec_elements, spec_params, Class, ClassElement, Decorator, Expr, MethodDef,
    MethodKind, Param, PropertyDef, SpecClass, SpecClassElement, SpecDecorator, SpecExpr,
    SpecMethodDef, SpecParam, SpecPropertyDef, SpecTypeName, TypeName,
};

verus! {

/// The identifier named by a decorator whose expression is a call of a plain
/// identifier; `None` for any other shape.
pub open spec fn spec_decorator_ident(d: SpecDecorator) -> Option<Seq<char>> {
    match d.expression {
        SpecExpr::Call { callee, args } => match *callee {
            SpecExpr::Ident { name } => Some(name),
            _ => Option::None,
        },
        _ => Option::None,
    }
}

/// The injection modifier a parameter decorator carries, when its callee
/// identifier classifies as one.
pub open spec fn spec_recognized(d: SpecDecorator) -> Option<SpecParamDecorator> {
    match spec_decorator_ident(d) {
        Some(name) => spec_classify_param(name, d),
        Option::None => Option::None,
    }
}

/// The decorators of a parameter that survive compilation: the unrecognized
/// ones, in order.
pub open spec fn spec_kept(ds: Seq<SpecDecorator>) -> Seq<SpecDecorator>
    decreases ds.len(),
{
    if ds.len() == 0 {
        Seq::empty()
    } else if spec_recognized(ds[0]) is None {
        seq![ds[0]] + spec_kept(ds.drop_first())
    } else {
        spec_kept(ds.drop_first())
    }
}

/// The injection modifiers recognized among `ds`, in order.
pub open spec fn spec_recognized_of(ds: Seq<SpecDecorator>) -> Seq<SpecParamDecorator>
    decreases ds.len(),
{
    if ds.len() == 0 {
        Seq::empty()
    } else {
        match spec_recognized(ds[0]) {
            Some(p) => seq![p] + spec_recognized_of(ds.drop_first()),
            Option::None => spec_recognized_of(ds.drop_first()),
        }
    }
}

/// The text of a type name: the identifier itself, or the dotted spelling
/// of a qualified name.
pub open spec fn spec_type_text(t: SpecTypeName) -> Seq<char>
    decreases t,
{
    match t {
        SpecTypeName::Ident { name } => name,
        SpecTypeName::Qualified { left, right } => spec_type_text(*left) + "."@ + right,
    }
}

/// A parameter with its compiled-away decorators stripped.
pub open spec fn spec_strip_param(p: SpecParam) -> SpecParam {
    SpecParam {
        decorators: spec_kept(p.decorators),
        name: p.name,
        type_annotation: p.type_annotation,
    }
}

/// The injection token a modifier carries.
pub open spec fn spec_modifier_token(m: SpecParamDecorator) -> Seq<char> {
    match m {
        SpecParamDecorator::Optional(t) => t,
        SpecParamDecorator::ASelf(t) => t,
        SpecParamDecorator::SkipSelf(t) => t,
        SpecParamDecorator::Inject(t) => t,
        SpecParamDecorator::Unmarked => Seq::empty(),
    }
}

/// The same modifier carrying token `t`.
pub open spec fn spec_with_token(m: SpecParamDecorator, t: Seq<char>) -> SpecParamDecorator {
    match m {
        SpecParamDecorator::Optional(_) => SpecParamDecorator::Optional(t),
        SpecParamDecorator::ASelf(_) => SpecParamDecorator::ASelf(t),
        SpecParamDecorator::SkipSelf(_) => SpecParamDecorator::SkipSelf(t),
        SpecParamDecorator::Inject(_) => SpecParamDecorator::Inject(t),
        SpecParamDecorator::Unmarked => SpecParamDecorator::Unmarked,
    }
}

/// A modifier with its token resolved: the one it carries, or — when it
/// carries none — the parameter's declared type name.
pub open spec fn spec_fill(m: SpecParamDecorator, ty: Option<SpecTypeName>) -> SpecParamDecorator {
    if spec_modifier_token(m).len() > 0 {
        m
    } else {
        match ty {
            Some(t) => spec_with_token(m, spec_type_text(t)),
            Option::None => m,
        }
    }
}

/// All of a parameter's modifiers with their tokens resolved, element-wise.
pub open spec fn spec_fill_all(
    rec: Seq<SpecParamDecorator>,
    ty: Option<SpecTypeName>,
) -> Seq<SpecParamDecorator> {
    Seq::new(rec.len(), |i: int| spec_fill(rec[i], ty))
}

/// The injection modifiers one parameter contributes, in order: its
/// recognized decorators — each resolving its token from its explicit
/// argument or, failing that, from the declared type — or, without any, a
/// plain token from the declared type; nothing when neither exists.
pub open spec fn spec_param_tokens(p: SpecParam) -> Seq<SpecParamDecorator> {
    let rec = spec_recognized_of(p.decorators);
    if rec.len() > 0 {
        spec_fill_all(rec, p.type_annotation)
    } else {
        match p.type_annotation {
            Some(t) => seq![SpecParamDecorator::Inject(spec_type_text(t))],
            Option::None => Seq::empty(),
        }
    }
}

/// A parameter resolves to no injection argument somewhere: it has neither a
/// recognized decorator nor a type annotation, or one of its modifiers still
/// carries no token after the declared type was consulted.
pub open spec fn spec_param_unresolved(p: SpecParam) -> bool {
    let rec = spec_recognized_of(p.decorators);
    if rec.len() > 0 {
        exists|k: int|
            0 <= k < rec.len() && spec_modifier_token(
                #[trigger] spec_fill_all(rec, p.type_annotation)[k],
            ).len() == 0
    } else {
        p.type_annotation is None
    }
}

/// The diagnostics one parameter causes: exactly one, when some of its
/// injection arguments cannot be resolved.
pub open spec fn spec_param_diag(p: SpecParam) -> Seq<SpecDiagnostic> {
    if spec_param_unresolved(p) {
        seq![SpecDiagnostic { kind: DiagnosticKind::UnresolvedInjectionToken, subject: p.name }]
    } else {
        Seq::empty()
    }
}

/// Parameters with their compiled-away decorators stripped, element-wise.
pub open spec fn spec_strip_params(ps: Seq<SpecParam>) -> Seq<SpecParam> {
    Seq::new(ps.len(), |i: int| spec_strip_param(ps[i]))
}

/// The injection modifiers of a parameter list, in declaration order.
pub open spec fn spec_tokens_of_params(ps: Seq<SpecParam>) -> Seq<SpecParamDecorator>
    decreases ps.len(),
{
    if ps.len() == 0 {
        Seq::empty()
    } else {
        spec_param_tokens(ps[0]) + spec_tokens_of_params(ps.drop_first())
    }
}

/// The diagnostics of a parameter list, in declaration order.
pub open spec fn spec_diags_of_params(ps: Seq<SpecParam>) -> Seq<SpecDiagnostic>
    decreases ps.len(),
{
    if ps.len() == 0 {
        Seq::empty()
    } else {
        spec_param_diag(ps[0]) + spec_diags_of_params(ps.drop_first())
    }
}

/// The spec-level values of a sequence of injection modifiers.
pub open spec fn spec_pds(s: Seq<ParamDecorator>) -> Seq<SpecParamDecorator> {
    Seq::new(s.len(), |i: int| s[i].spec())
}

/// Injection-order preservation: when every parameter contributes exactly
/// one injection token, the resolved sequence has one token per parameter,
/// in declaration order — the token of parameter `i` stands at position `i`,
/// regardless of which parameters carried explicit decorators.
pub proof fn lemma_injection_order(ps: Seq<SpecParam>)
    requires
        forall|i: int| 0 <= i < ps.len() ==> (#[trigger] spec_param_tokens(ps[i])).len() == 1,
    ensures
        spec_tokens_of_params(ps).len() == ps.len(),
        forall|i: int| 0 <= i < ps.len() ==> spec_tokens_of_params(ps)[i] == #[trigger]
        spec_param_tokens(ps[i])[0],
    decreases ps.len(),
{
    if ps.len() > 0 {
        assert forall|i: int| 0 <= i < ps.drop_first().len() implies (#[trigger] spec_param_tokens(
            ps.drop_first()[i],
        )).len() == 1 by {
            assert(ps.drop_first()[i] == ps[i + 1]);
        }
        lemma_injection_order(ps.drop_first());
        assert forall|i: int| 0 <= i < ps.len() implies spec_tokens_of_params(ps)[i]
            == #[trigger] spec_param_tokens(ps[i])[0] by {
            if i > 0 {
                assert(ps.drop_first()[i - 1] == ps[i]);
                assert(spec_tokens_of_params(ps)[i] == spec_tokens_of_params(ps.drop_first())[i
                    - 1]);
            }
        }
    }
}

} // verus!

verus! {

/// The factory's name: `factory` followed by the class identifier.
pub open spec fn spec_factory_name(class_name: Seq<char>) -> Seq<char> {
    "factory"@ + class_name
}

/// One injection call: `i0.inject(token)` through the runtime's injection
/// primitive.
pub open spec fn spec_inject_call(token: Seq<char>) -> SpecExpr {
    SpecExpr::Call {
        callee: Box::new(
            SpecExpr::Member {
                object: Box::new(SpecExpr::Ident { name: "i0"@ }),
                property: "\u{0275}\u{0275}inject"@,
            },
        ),
        args: seq![SpecExpr::Ident { name: token }],
    }
}

/// The token one recorded modifier feeds to the factory: its resolved
/// token, or nothing when none could be resolved.
pub open spec fn spec_inject_contribution(m: SpecParamDecorator) -> Seq<Seq<char>> {
    if m is Unmarked || spec_modifier_token(m).len() == 0 {
        Seq::empty()
    } else {
        seq![spec_modifier_token(m)]
    }
}

/// The tokens that feed the factory's injection calls: one per recorded
/// modifier with a resolved token — explicit, modifier-carried, or
/// type-derived alike — in order.
pub open spec fn spec_inject_tokens(cps: Seq<SpecParamDecorator>) -> Seq<Seq<char>>
    decreases cps.len(),
{
    if cps.len() == 0 {
        Seq::empty()
    } else {
        spec_inject_contribution(cps[0]) + spec_inject_tokens(cps.drop_first())
    }
}

/// The factory's argument list: one injection call per token, in order.
pub open spec fn spec_inject_args(tokens: Seq<Seq<char>>) -> Seq<SpecExpr> {
    Seq::new(tokens.len(), |i: int| spec_inject_call(tokens[i]))
}

/// The synthesized factory member: a static property whose initializer is a
/// named function of one parameter `t` returning
/// `t || new <class>(<injection calls>)` — idempotent construction that
/// reuses an already-made instance when one is supplied.
pub open spec fn spec_factory_member(
    class_name: Seq<char>,
    factory_name: Seq<char>,
    tokens: Seq<Seq<char>>,
) -> SpecClassElement {
    SpecClassElement::Property(
        SpecPropertyDef {
            key: "\u{0275}fac"@,
            value: Some(
                SpecExpr::FunctionExpr {
                    name: Some(factory_name),
                    params: seq!["t"@],
                    ret: Some(
                        Box::new(
                            SpecExpr::LogicalOr {
                                left: Box::new(SpecExpr::Ident { name: "t"@ }),
                                right: Box::new(
                                    SpecExpr::NewExpr {
                                        callee: Box::new(SpecExpr::Ident { name: class_name }),
                                        args: spec_inject_args(tokens),
                                    },
                                ),
                            },
                        ),
                    ),
                },
            ),
            is_static: true,
        },
    )
}

/// The idempotent factory shape: a function whose returned expression is
/// `<name> || new <something>(...)`.
pub open spec fn is_idempotent_factory_shape(e: SpecExpr) -> bool {
    &&& e matches SpecExpr::FunctionExpr { name: _, params: _, ret: Some(r) }
        && (*r) matches SpecExpr::LogicalOr { left, right } && (*left) matches SpecExpr::Ident {
        name: _,
    } && (*right) matches SpecExpr::NewExpr { callee: _, args: _ }
}

/// Idempotent factory shape: every synthesized factory has the form
/// `<name> || new <class>(...)`.
pub proof fn lemma_factory_shape(
    class_name: Seq<char>,
    factory_name: Seq<char>,
    tokens: Seq<Seq<char>>,
)
    ensures
        spec_factory_member(class_name, factory_name, tokens) matches SpecClassElement::Property(
            p,
        ) && p.value matches Some(v) && is_idempotent_factory_shape(v) && p.is_static,
{
}

/// The class-level decorators recognized among `ds` from index `i` on, each
/// with its index.
pub open spec fn spec_classified(ds: Seq<SpecDecorator>, i: int) -> Seq<(TopLevelDecorator, int)>
    decreases ds.len() - i,
{
    if i < 0 || i >= ds.len() {
        Seq::empty()
    } else {
        let here = match spec_decorator_ident(ds[i]) {
            Some(name) => spec_top_level(name, ds[i]),
            Option::None => Option::None,
        };
        match here {
            Some(t) => seq![(t, i)] + spec_classified(ds, i + 1),
            Option::None => spec_classified(ds, i + 1),
        }
    }
}

/// The index of the first constructor among a class body's elements.
pub open spec fn spec_first_ctor(body: Seq<SpecClassElement>, i: int) -> Option<int>
    decreases body.len() - i,
{
    if i < 0 || i >= body.len() {
        Option::None
    } else if body[i] matches SpecClassElement::Method(m) && m.kind == MethodKind::Constructor {
        Some(i)
    } else {
        spec_first_ctor(body, i + 1)
    }
}

/// The identifier a decorator's call expression names, if any.
pub(crate) fn decorator_ident(d: &Decorator) -> (r: Option<&String>)
    ensures
        r matches Some(s) ==> spec_decorator_ident(d.spec()) == Some(s@),
        r is None ==> spec_decorator_ident(d.spec()) is None,
{
    match &d.expression {
        Expr::Call { callee, args: _ } => {
            proof {
                assert(d.spec().expression == d.expression.spec());
                assert(d.expression.spec() matches SpecExpr::Call { callee: c, args: _ } && *c
                    == callee.spec());
            }
            match &**callee {
                Expr::Ident { name } => {
                    proof {
                        assert(callee.spec() == (SpecExpr::Ident { name: name@ }));
                    }
                    Some(name)
                },
                _ => {
                    proof {
                        assert(!(callee.spec() matches SpecExpr::Ident { name: _ }));
                    }
                    None
                },
            }
        },
        _ => None,
    }
}

/// Classify a class's decorators: each recognized class-level decorator,
/// with the index it stands at.
pub fn classify_decorators(ds: &Vec<Decorator>) -> (r: Vec<(TopLevelDecorator, usize)>)
    ensures
        spec_pairs(r@) == spec_classified(spec_decorators(ds@), 0),
{
    let n = ds.len();
    let mut out: Vec<(TopLevelDecorator, usize)> = Vec::new();
    let ghost sd = spec_decorators(ds@);
    let mut i: usize = 0;
    proof {
        assert(spec_pairs(out@) =~= Seq::<(TopLevelDecorator, int)>::empty());
    }
    while i < n
        invariant
            i <= n,
            n == ds@.len(),
            sd == spec_decorators(ds@),
            spec_classified(sd, 0) == spec_pairs(out@) + spec_classified(sd, i as int),
        decreases n - i,
    {
        proof {
            assert(sd[i as int] == ds@[i as int].spec());
        }
        let d = &ds[i];
        let ident: Option<&String> = decorator_ident(d);
        let ghost before = out@;
        match ident {
            Some(nm) => {
                match TopLevelDecorator::from_str(nm.as_str(), d) {
                    Some(t) => {
                        out.push((t, i));
                        proof {
                            assert(spec_pairs(out@) =~= spec_pairs(before) + seq![
                                (t, i as int),
                            ]);
                            assert(spec_pairs(before) + seq![(t, i as int)] + spec_classified(
                                sd,
                                i + 1,
                            ) =~= spec_pairs(before) + (seq![(t, i as int)] + spec_classified(
                                sd,
                                i + 1,
                            )));
                        }
                    },
                    None => {
                        proof {
                            assert(spec_classified(sd, i as int) == spec_classified(sd, i + 1));
                        }
                    },
                }
            },
            None => {
                proof {
                    assert(spec_decorator_ident(sd[i as int]) is None);
                    assert(spec_classified(sd, i as int) == spec_classified(sd, i + 1));
                }
            },
        }
        i += 1;
    }
    out
}

/// The spec-level values of classified decorator pairs.
pub open spec fn spec_pairs(s: Seq<(TopLevelDecorator, usize)>) -> Seq<(TopLevelDecorator, int)> {
    Seq::new(s.len(), |i: int| (s[i].0, s[i].1 as int))
}

} // verus!

verus! {

/// One more decorator extends the kept-and-recognized split.
proof fn lemma_kept_snoc(s: Seq<SpecDecorator>, x: SpecDecorator)
    ensures
        spec_kept(s.push(x)) == spec_kept(s) + (if spec_recognized(x) is None {
            seq![x]
        } else {
            Seq::<SpecDecorator>::empty()
        }),
        spec_recognized_of(s.push(x)) == spec_recognized_of(s) + (match spec_recognized(x) {
            Some(p) => seq![p],
            Option::None => Seq::<SpecParamDecorator>::empty(),
        }),
    decreases s.len(),
{
    let kx: Seq<SpecDecorator> = if spec_recognized(x) is None {
        seq![x]
    } else {
        Seq::empty()
    };
    let rx: Seq<SpecParamDecorator> = match spec_recognized(x) {
        Some(p) => seq![p],
        Option::None => Seq::empty(),
    };
    if s.len() == 0 {
        assert(s.push(x)[0] == x);
        assert(s.push(x).drop_first() =~= Seq::<SpecDecorator>::empty());
        assert(spec_kept(Seq::<SpecDecorator>::empty()) =~= Seq::<SpecDecorator>::empty());
        assert(spec_recognized_of(Seq::<SpecDecorator>::empty())
            =~= Seq::<SpecParamDecorator>::empty());
        assert(spec_kept(s.push(x)) =~= spec_kept(s) + kx);
        assert(spec_recognized_of(s.push(x)) =~= spec_recognized_of(s) + rx);
    } else {
        lemma_kept_snoc(s.drop_first(), x);
        assert(s.push(x)[0] == s[0]);
        assert(s.push(x).drop_first() =~= s.drop_first().push(x));
        assert(spec_kept(s.push(x)) =~= spec_kept(s) + kx);
        assert(spec_recognized_of(s.push(x)) =~= spec_recognized_of(s) + rx);
    }
}

/// The component that both analyses constructors and synthesizes factories:
/// it accumulates, per class, the injection modifiers resolved from the
/// constructor's parameters.
pub struct DependencyInjection {
    constructor_params: Vec<ParamDecorator>,
}

impl DependencyInjection {
    /// The injection modifiers resolved so far for the class under
    /// transformation.
    pub closed spec fn params_view(self) -> Seq<SpecParamDecorator> {
        spec_pds(self.constructor_params@)
    }

    pub fn new() -> (r: Option<DependencyInjection>)
        ensures
            r matches Some(di) && di.params_view() == Seq::<SpecParamDecorator>::empty(),
    {
        let di = DependencyInjection { constructor_params: Vec::new() };
        proof {
            assert(di.params_view() =~= Seq::<SpecParamDecorator>::empty());
        }
        Some(di)
    }

    /// The dotted text of a type name.
    pub fn extract_type_name_from_tstype_name(&self, tstype_name: &TypeName) -> (r: Option<
        String,
    >)
        ensures
            r matches Some(s) && s@ == spec_type_text(tstype_name.spec()),
        decreases tstype_name,
    {
        match tstype_name {
            TypeName::Ident { name } => Some(name.clone()),
            TypeName::Qualified { left, right } => {
                let l = self.extract_type_name_from_tstype_name(left);
                match l {
                    Some(ls) => Some(ls.concat(".").concat(right.as_str())),
                    None => None,
                }
            },
        }
    }

    /// The implicit injection token of a type annotation, when there is one.
    pub fn extract_type_name_from_type_annotation(&self, type_annotation: &Option<TypeName>) -> (r:
        Option<String>)
        ensures
            type_annotation matches Some(t) ==> r matches Some(s) && s@ == spec_type_text(
                t.spec(),
            ),
            type_annotation is None ==> r is None,
    {
        match type_annotation {
            Some(t) => self.extract_type_name_from_tstype_name(t),
            None => None,
        }
    }

    /// Resolve one constructor parameter: record one injection modifier per
    /// recognized decorator — its token taken from the decorator's explicit
    /// argument or, failing that, from the declared type — or, without any
    /// recognized decorator, a plain token from the declared type; strip the
    /// compiled-away decorators; report the parameter when some injection
    /// argument stays unresolved.
    #[verifier::loop_isolation(false)]
    fn resolve_param(&mut self, p: Param, ctx: &mut AngularCtx) -> (r: Param)
        ensures
            r.spec() == spec_strip_param(p.spec()),
            final(self).params_view() == old(self).params_view() + spec_param_tokens(p.spec()),
            final(ctx).errors_view() == old(ctx).errors_view() + spec_param_diag(p.spec()),
            final(ctx).used_view() == old(ctx).used_view(),
    {
        let ghost orig = spec_decorators(p.decorators@);
        let ghost base = old(self).params_view();
        let ghost name0 = p.name@;
        let ghost ty0 = p.spec().type_annotation;
        let mut p = p;
        let mut kept: Vec<Decorator> = Vec::new();
        let mut mods: Vec<ParamDecorator> = Vec::new();
        proof {
            assert(spec_decorators(kept@) =~= Seq::<SpecDecorator>::empty());
            assert(spec_pds(mods@) =~= Seq::<SpecParamDecorator>::empty());
            assert(spec_decorators(kept@) + spec_decorators(p.decorators@) =~= orig);
        }
        let ghost processed = Seq::<SpecDecorator>::empty();
        while p.decorators.len() > 0
            invariant
                orig == processed + spec_decorators(p.decorators@),
                p.name@ == name0,
                p.spec().type_annotation == ty0,
                spec_decorators(kept@) == spec_kept(processed),
                spec_pds(mods@) == spec_recognized_of(processed),
            decreases p.decorators@.len(),
        {
            let ghost rem0 = p.decorators@;
            let d = p.decorators.remove(0);
            let ghost dv = d.spec();
            let ident = decorator_ident(&d);
            let recognized = match ident {
                Some(nm) => {
                    let nm2 = nm.clone();
                    ParamDecorator::from_str(nm2.as_str(), &p, &d)
                },
                None => None,
            };
            proof {
                assert(dv == orig[processed.len() as int]);
                assert forall|j: int| 0 <= j < p.decorators@.len() implies spec_decorators(
                    p.decorators@,
                )[j] == rem0.subrange(1, rem0.len() as int)[j].spec() by {
                    assert(p.decorators@[j] == rem0[j + 1]);
                }
                lemma_kept_snoc(processed, dv);
            }
            let ghost before_kept = spec_decorators(kept@);
            let ghost before_mods = spec_pds(mods@);
            match recognized {
                Some(pd) => {
                    proof {
                        assert(spec_recognized(dv) == Some(pd.spec()));
                    }
                    mods.push(pd);
                    proof {
                        assert(spec_pds(mods@) =~= before_mods.push(dv_recognized(dv)));
                    }
                },
                None => {
                    proof {
                        assert(spec_recognized(dv) is None);
                    }
                    kept.push(d);
                    proof {
                        assert(spec_decorators(kept@) =~= before_kept.push(dv));
                    }
                },
            }
            proof {
                processed = processed.push(dv);
                assert(orig == processed + spec_decorators(p.decorators@)) by {
                    assert(processed + spec_decorators(p.decorators@) =~= processed.drop_last()
                        + (seq![dv] + spec_decorators(p.decorators@)));
                }
            }
        }
        proof {
            assert(spec_decorators(p.decorators@) =~= Seq::<SpecDecorator>::empty());
            assert(processed =~= orig);
        }
        p.decorators = kept;
        let ghost p0 = SpecParam { decorators: orig, name: name0, type_annotation: ty0 };
        let ghost rec = spec_recognized_of(orig);
        proof {
            assert(p.spec() =~= spec_strip_param(p0));
            assert(spec_pds(mods@) == rec);
        }
        let tyname = self.extract_type_name_from_type_annotation(&p.type_annotation);
        if mods.len() > 0 {
            let mut unresolved = false;
            let ghost filled = spec_fill_all(rec, ty0);
            let mut mods = mods;
            proof {
                assert(self.params_view() == base);
                assert(base + filled.subrange(0, 0) =~= base);
                assert(rec.subrange(0, rec.len() as int) =~= rec);
            }
            while mods.len() > 0
                invariant
                    mods@.len() <= rec.len(),
                    spec_pds(mods@) == rec.subrange(
                        rec.len() - mods@.len(),
                        rec.len() as int,
                    ),
                    self.params_view() == base + filled.subrange(
                        0,
                        rec.len() - mods@.len(),
                    ),
                    unresolved <==> exists|j: int|
                        0 <= j < rec.len() - mods@.len() && spec_modifier_token(
                            #[trigger] filled[j],
                        ).len() == 0,
                decreases mods@.len(),
            {
                let ghost k = rec.len() - mods@.len();
                let ghost mrem = mods@;
                let m = mods.remove(0);
                let ghost mv = m.spec();
                proof {
                    assert(spec_pds(mrem)[0] == mrem[0].spec());
                    assert(mv == rec[k]);
                    assert forall|j: int| 0 <= j < mods@.len() implies spec_pds(mods@)[j]
                        == rec.subrange(rec.len() - mods@.len(), rec.len() as int)[j] by {
                        assert(mods@[j] == mrem[j + 1]);
                        assert(spec_pds(mrem)[j + 1] == mrem[j + 1].spec());
                    }
                    assert(spec_pds(mods@) =~= rec.subrange(
                        rec.len() - mods@.len(),
                        rec.len() as int,
                    ));
                }
                let token_empty = match &m {
                    ParamDecorator::Unmarked => true,
                    ParamDecorator::Optional(t) => t.as_str().unicode_len() == 0,
                    ParamDecorator::ASelf(t) => t.as_str().unicode_len() == 0,
                    ParamDecorator::SkipSelf(t) => t.as_str().unicode_len() == 0,
                    ParamDecorator::Inject(t) => t.as_str().unicode_len() == 0,
                };
                let m2 = if token_empty {
                    match &tyname {
                        Some(tn) => {
                            let t2 = tn.clone();
                            match m {
                                ParamDecorator::Unmarked => ParamDecorator::Unmarked,
                                ParamDecorator::Optional(_) => ParamDecorator::Optional(t2),
                                ParamDecorator::ASelf(_) => ParamDecorator::ASelf(t2),
                                ParamDecorator::SkipSelf(_) => ParamDecorator::SkipSelf(t2),
                                ParamDecorator::Inject(_) => ParamDecorator::Inject(t2),
                            }
                        },
                        None => m,
                    }
                } else {
                    m
                };
                proof {
                    assert(m2.spec() == spec_fill(mv, ty0));
                    assert(spec_fill(mv, ty0) == filled[k]);
                }
                let m2_empty = match &m2 {
                    ParamDecorator::Unmarked => true,
                    ParamDecorator::Optional(t) => t.as_str().unicode_len() == 0,
                    ParamDecorator::ASelf(t) => t.as_str().unicode_len() == 0,
                    ParamDecorator::SkipSelf(t) => t.as_str().unicode_len() == 0,
                    ParamDecorator::Inject(t) => t.as_str().unicode_len() == 0,
                };
                if m2_empty {
                    unresolved = true;
                }
                let ghost before_cp = self.params_view();
                self.constructor_params.push(m2);
                proof {
                    assert(self.params_view() =~= before_cp.push(filled[k]));
                    assert(base + filled.subrange(0, k + 1) =~= (base + filled.subrange(
                        0,
                        k,
                    )).push(filled[k]));
                }
            }
            proof {
                assert(filled.subrange(0, rec.len() as int) =~= filled);
                assert(self.params_view() =~= base + spec_param_tokens(p0));
            }
            if unresolved {
                let ghost before_err = ctx.errors_view();
                ctx.error(
                    Diagnostic {
                        kind: DiagnosticKind::UnresolvedInjectionToken,
                        subject: p.name.clone(),
                    },
                );
                proof {
                    assert(spec_param_unresolved(p0));
                    assert(ctx.errors_view() =~= before_err + spec_param_diag(p0));
                }
            } else {
                proof {
                    assert(!spec_param_unresolved(p0));
                    assert(ctx.errors_view() =~= old(ctx).errors_view() + spec_param_diag(p0));
                }
            }
        } else {
            match tyname {
                Some(t) => {
                    let ghost tv = t@;
                    let ghost before = self.params_view();
                    self.constructor_params.push(ParamDecorator::Inject(t));
                    proof {
                        assert(self.params_view() =~= before.push(
                            SpecParamDecorator::Inject(tv),
                        ));
                        assert(base + seq![SpecParamDecorator::Inject(tv)] =~= base.push(
                            SpecParamDecorator::Inject(tv),
                        ));
                        assert(ctx.errors_view() =~= old(ctx).errors_view() + spec_param_diag(
                            p0,
                        ));
                    }
                },
                None => {
                    let ghost before_err = ctx.errors_view();
                    ctx.error(
                        Diagnostic {
                            kind: DiagnosticKind::UnresolvedInjectionToken,
                            subject: p.name.clone(),
                        },
                    );
                    proof {
                        assert(self.params_view() =~= base + Seq::<SpecParamDecorator>::empty());
                        assert(ctx.errors_view() =~= before_err + spec_param_diag(p0));
                    }
                },
            }
        }
        proof {
            assert(self.params_view() =~= base + spec_param_tokens(p0));
        }
        p
    }
}

/// The modifier a recognized decorator contributes.
pub open spec fn dv_recognized(d: SpecDecorator) -> SpecParamDecorator {
    match spec_recognized(d) {
        Some(p) => p,
        Option::None => SpecParamDecorator::Unmarked,
    }
}

} // verus!

verus! {

/// One more parameter extends the token and diagnostic sequences.
proof fn lemma_params_snoc(s: Seq<SpecParam>, x: SpecParam)
    ensures
        spec_tokens_of_params(s.push(x)) == spec_tokens_of_params(s) + spec_param_tokens(x),
        spec_diags_of_params(s.push(x)) == spec_diags_of_params(s) + spec_param_diag(x),
    decreases s.len(),
{
    if s.len() == 0 {
        assert(s.push(x)[0] == x);
        assert(s.push(x).drop_first() =~= Seq::<SpecParam>::empty());
        assert(spec_tokens_of_params(Seq::<SpecParam>::empty())
            =~= Seq::<SpecParamDecorator>::empty());
        assert(spec_diags_of_params(Seq::<SpecParam>::empty()) =~= Seq::<SpecDiagnostic>::empty());
        assert(spec_tokens_of_params(s.push(x)) =~= spec_tokens_of_params(s)
            + spec_param_tokens(x));
        assert(spec_diags_of_params(s.push(x)) =~= spec_diags_of_params(s) + spec_param_diag(x));
    } else {
        lemma_params_snoc(s.drop_first(), x);
        assert(s.push(x)[0] == s[0]);
        assert(s.push(x).drop_first() =~= s.drop_first().push(x));
        assert(spec_tokens_of_params(s.push(x)) =~= spec_tokens_of_params(s)
            + spec_param_tokens(x));
        assert(spec_diags_of_params(s.push(x)) =~= spec_diags_of_params(s) + spec_param_diag(x));
    }
}

/// One more modifier extends the injection-token sequence.
proof fn lemma_inject_tokens_snoc(s: Seq<SpecParamDecorator>, x: SpecParamDecorator)
    ensures
        spec_inject_tokens(s.push(x)) == spec_inject_tokens(s) + spec_inject_contribution(x),
    decreases s.len(),
{
    if s.len() == 0 {
        assert(s.push(x)[0] == x);
        assert(s.push(x).drop_first() =~= Seq::<SpecParamDecorator>::empty());
        assert(spec_inject_tokens(Seq::<SpecParamDecorator>::empty())
            =~= Seq::<Seq<char>>::empty());
        assert(spec_inject_tokens(s.push(x)) =~= spec_inject_tokens(s)
            + spec_inject_contribution(x));
    } else {
        lemma_inject_tokens_snoc(s.drop_first(), x);
        assert(s.push(x)[0] == s[0]);
        assert(s.push(x).drop_first() =~= s.drop_first().push(x));
        assert(spec_inject_tokens(s.push(x)) =~= spec_inject_tokens(s)
            + spec_inject_contribution(x));
    }
}

/// Injection-order preservation across modifiers: when every recorded
/// modifier carries a resolved token, the factory's injection tokens are
/// exactly those tokens, one per modifier, in recording order — whether the
/// token came from `Inject`, a carried modifier argument, or the declared
/// type.
pub proof fn lemma_modifier_injection_order(cps: Seq<SpecParamDecorator>)
    requires
        forall|i: int|
            0 <= i < cps.len() ==> !((#[trigger] cps[i]) is Unmarked) && spec_modifier_token(
                cps[i],
            ).len() > 0,
    ensures
        spec_inject_tokens(cps).len() == cps.len(),
        forall|i: int|
            0 <= i < cps.len() ==> spec_inject_tokens(cps)[i] == spec_modifier_token(
                #[trigger] cps[i],
            ),
    decreases cps.len(),
{
    if cps.len() > 0 {
        assert forall|i: int|
            0 <= i < cps.drop_first().len() implies !((#[trigger] cps.drop_first()[i])
            is Unmarked) && spec_modifier_token(cps.drop_first()[i]).len() > 0 by {
            assert(cps.drop_first()[i] == cps[i + 1]);
        }
        lemma_modifier_injection_order(cps.drop_first());
        assert forall|i: int|
            0 <= i < cps.len() implies spec_inject_tokens(cps)[i] == spec_modifier_token(
            #[trigger] cps[i],
        ) by {
            if i > 0 {
                assert(cps.drop_first()[i - 1] == cps[i]);
                assert(spec_inject_tokens(cps)[i] == spec_inject_tokens(cps.drop_first())[i - 1]);
            }
        }
    }
}

impl DependencyInjection {
    /// Build one injection call `i0.inject(token)`.
    fn inject_call(token: String) -> (r: Expr)
        ensures
            r.spec() == spec_inject_call(token@),
    {
        let ghost tv = token@;
        let mut args: Vec<Expr> = Vec::new();
        args.push(Expr::Ident { name: token });
        let ghost argsv = args@;
        let r = Expr::Call {
            callee: Box::new(
                Expr::Member {
                    object: Box::new(Expr::Ident { name: String::from_str("i0") }),
                    property: String::from_str("\u{0275}\u{0275}inject"),
                },
            ),
            args,
        };
        proof {
            reveal_with_fuel(crate::script::Expr::spec, 5);
            crate::script::lemma_spec_exprs(argsv);
            assert(crate::script::spec_exprs(argsv) =~= seq![SpecExpr::Ident { name: tv }]);
            assert(r.spec() =~~= spec_inject_call(tv));
        }
        r
    }

    /// Synthesize the factory member from the modifiers resolved so far:
    /// a static property holding
    /// `function <factory_name>(t) { return t || new <class_name>(...); }`
    /// whose construction arguments inject each resolved token in order.
    pub fn ng_factory_builder(&self, class_name: &str, factory_name: &str) -> (r: ClassElement)
        ensures
            r.spec() == spec_factory_member(
                class_name@,
                factory_name@,
                spec_inject_tokens(self.params_view()),
            ),
    {
        let ghost cps = self.params_view();
        let n = self.constructor_params.len();
        let mut args: Vec<Expr> = Vec::new();
        let mut i: usize = 0;
        proof {
            assert(cps.subrange(0, 0) =~= Seq::<SpecParamDecorator>::empty());
            assert(spec_inject_tokens(Seq::<SpecParamDecorator>::empty())
                =~= Seq::<Seq<char>>::empty());
            assert(crate::script::spec_exprs(args@) =~= Seq::<SpecExpr>::empty());
        }
        while i < n
            invariant
                i <= n,
                n == self.constructor_params@.len(),
                cps == self.params_view(),
                crate::script::spec_exprs(args@) == spec_inject_args(
                    spec_inject_tokens(cps.subrange(0, i as int)),
                ),
            decreases n - i,
        {
            let ghost before = crate::script::spec_exprs(args@);
            proof {
                assert(cps.subrange(0, i + 1) =~= cps.subrange(0, i as int).push(cps[i as int]));
                lemma_inject_tokens_snoc(cps.subrange(0, i as int), cps[i as int]);
                crate::script::lemma_spec_exprs(args@);
            }
            let tok: Option<&String> = match &self.constructor_params[i] {
                ParamDecorator::Unmarked => None,
                ParamDecorator::Optional(t) => Some(t),
                ParamDecorator::ASelf(t) => Some(t),
                ParamDecorator::SkipSelf(t) => Some(t),
                ParamDecorator::Inject(t) => Some(t),
            };
            proof {
                assert(cps[i as int] == self.constructor_params@[i as int].spec());
            }
            let usable = match tok {
                Some(t) => t.as_str().unicode_len() > 0,
                None => false,
            };
            if usable {
                let t = match tok {
                    Some(t) => t,
                    None => unreached(),
                };
                proof {
                    assert(spec_modifier_token(cps[i as int]) == t@);
                    assert(spec_inject_contribution(cps[i as int]) == seq![t@]);
                }
                let ghost argsv0 = args@;
                let call = Self::inject_call(t.clone());
                args.push(call);
                proof {
                    let oldtoks = spec_inject_tokens(cps.subrange(0, i as int));
                    let newtoks = spec_inject_tokens(cps.subrange(0, i + 1));
                    assert(newtoks == oldtoks + seq![t@]);
                    crate::script::lemma_spec_exprs(argsv0);
                    crate::script::lemma_spec_exprs(args@);
                    assert(args@ == argsv0.push(call));
                    assert(crate::script::spec_exprs(argsv0).len() == argsv0.len());
                    assert(oldtoks.len() == argsv0.len());
                    assert forall|k: int|
                        0 <= k < args@.len() implies crate::script::spec_exprs(args@)[k]
                        == spec_inject_args(newtoks)[k] by {
                        if k < argsv0.len() {
                            assert(args@[k] == argsv0[k]);
                            assert(crate::script::spec_exprs(argsv0)[k] == spec_inject_args(
                                oldtoks,
                            )[k]);
                            assert(newtoks[k] == oldtoks[k]);
                        } else {
                            assert(args@[k] == call);
                            assert(newtoks[k] == t@);
                        }
                    }
                    assert(crate::script::spec_exprs(args@) =~= spec_inject_args(newtoks));
                }
            } else {
                proof {
                    assert(spec_inject_contribution(cps[i as int]) =~= Seq::<Seq<char>>::empty());
                    assert(spec_inject_tokens(cps.subrange(0, i as int))
                        + Seq::<Seq<char>>::empty() =~= spec_inject_tokens(
                        cps.subrange(0, i as int),
                    ));
                    assert(spec_inject_tokens(cps.subrange(0, i + 1)) == spec_inject_tokens(
                        cps.subrange(0, i as int),
                    ));
                    assert(crate::script::spec_exprs(args@) =~= spec_inject_args(
                        spec_inject_tokens(cps.subrange(0, i + 1)),
                    ));
                }
            }
            i += 1;
        }
        proof {
            assert(cps.subrange(0, n as int) =~= cps);
        }
        let mut fparams: Vec<String> = Vec::new();
        fparams.push(String::from_str("t"));
        let ghost fpv = fparams@;
        let function = Expr::FunctionExpr {
            name: Some(String::from_str(factory_name)),
            params: fparams,
            ret: Some(
                Box::new(
                    Expr::LogicalOr {
                        left: Box::new(Expr::Ident { name: String::from_str("t") }),
                        right: Box::new(
                            Expr::NewExpr {
                                callee: Box::new(
                                    Expr::Ident { name: String::from_str(class_name) },
                                ),
                                args,
                            },
                        ),
                    },
                ),
            ),
        };
        let r = ClassElement::Property(
            PropertyDef {
                key: String::from_str("\u{0275}fac"),
                value: Some(function),
                is_static: true,
            },
        );
        proof {
            reveal_with_fuel(crate::script::Expr::spec, 6);
            assert(Seq::new(fpv.len(), |k: int| fpv[k]@) =~= seq!["t"@]);
            assert(r.spec() =~~= spec_factory_member(
                class_name@,
                factory_name@,
                spec_inject_tokens(cps),
            ));
        }
        r
    }
}

} // verus!

verus! {

/// The class-level classification of one decorator.
pub open spec fn spec_class_of(d: SpecDecorator) -> Option<TopLevelDecorator> {
    match spec_decorator_ident(d) {
        Some(name) => spec_top_level(name, d),
        Option::None => Option::None,
    }
}

/// The decorators that survive the transform: those that classify as no
/// class-level decorator, in order.
pub open spec fn spec_unrecognized(ds: Seq<SpecDecorator>) -> Seq<SpecDecorator>
    decreases ds.len(),
{
    if ds.len() == 0 {
        Seq::empty()
    } else if spec_class_of(ds[0]) is None {
        seq![ds[0]] + spec_unrecognized(ds.drop_first())
    } else {
        spec_unrecognized(ds.drop_first())
    }
}

/// One more decorator extends the surviving list.
pub(crate) proof fn lemma_unrecognized_snoc(s: Seq<SpecDecorator>, x: SpecDecorator)
    ensures
        spec_unrecognized(s.push(x)) == spec_unrecognized(s) + (if spec_class_of(x) is None {
            seq![x]
        } else {
            Seq::<SpecDecorator>::empty()
        }),
    decreases s.len(),
{
    let kx: Seq<SpecDecorator> = if spec_class_of(x) is None {
        seq![x]
    } else {
        Seq::empty()
    };
    if s.len() == 0 {
        assert(s.push(x)[0] == x);
        assert(s.push(x).drop_first() =~= Seq::<SpecDecorator>::empty());
        assert(spec_unrecognized(Seq::<SpecDecorator>::empty()) =~= Seq::<SpecDecorator>::empty());
        assert(spec_unrecognized(s.push(x)) =~= spec_unrecognized(s) + kx);
    } else {
        lemma_unrecognized_snoc(s.drop_first(), x);
        assert(s.push(x)[0] == s[0]);
        assert(s.push(x).drop_first() =~= s.drop_first().push(x));
        assert(spec_unrecognized(s.push(x)) =~= spec_unrecognized(s) + kx);
    }
}

/// Every survivor classifies as nothing.
pub(crate) proof fn lemma_unrecognized_elems(ds: Seq<SpecDecorator>)
    ensures
        forall|k: int|
            0 <= k < spec_unrecognized(ds).len() ==> spec_class_of(
                #[trigger] spec_unrecognized(ds)[k],
            ) is None,
    decreases ds.len(),
{
    if ds.len() > 0 {
        lemma_unrecognized_elems(ds.drop_first());
    }
}

/// A list of unclassifiable decorators classifies to nothing.
pub(crate) proof fn lemma_classified_of_unrecognized(ds: Seq<SpecDecorator>, i: int)
    requires
        0 <= i <= ds.len(),
        forall|k: int| 0 <= k < ds.len() ==> spec_class_of(#[trigger] ds[k]) is None,
    ensures
        spec_classified(ds, i) == Seq::<(TopLevelDecorator, int)>::empty(),
    decreases ds.len() - i,
{
    if i < ds.len() {
        lemma_classified_of_unrecognized(ds, i + 1);
    }
}

/// The parameters of a class body's first constructor; empty without one.
pub open spec fn spec_ctor_params(body: Seq<SpecClassElement>) -> Seq<SpecParam> {
    match spec_first_ctor(body, 0) {
        Some(i) => match body[i] {
            SpecClassElement::Method(m) => m.params,
            _ => Seq::empty(),
        },
        Option::None => Seq::empty(),
    }
}

/// The injection modifiers this pass resolves for a class: those of the
/// constructor's parameters, in order — nothing for an undecorated class.
pub open spec fn spec_di_tokens(c: SpecClass) -> Seq<SpecParamDecorator> {
    if spec_classified(c.decorators, 0).len() == 0 {
        Seq::empty()
    } else {
        spec_tokens_of_params(spec_ctor_params(c.body))
    }
}

/// The diagnostics this pass reports for a class: one per unresolvable
/// constructor parameter, in order — nothing for an undecorated class.
pub open spec fn spec_di_diags(c: SpecClass) -> Seq<SpecDiagnostic> {
    if spec_classified(c.decorators, 0).len() == 0 {
        Seq::empty()
    } else {
        spec_diags_of_params(spec_ctor_params(c.body))
    }
}

/// What this pass does to a class.  A class with no recognized class-level
/// decorator is untouched.  Otherwise: the constructor's compiled-away
/// parameter decorators are stripped, the factory member — built from the
/// resolved injection tokens — becomes the first body element, and the
/// recognized class-level decorators are removed from the decorator list
/// (the unrecognized ones stay, in order).
pub open spec fn spec_di_transform(c: SpecClass, class_name: Seq<char>) -> SpecClass {
    if spec_classified(c.decorators, 0).len() == 0 {
        c
    } else {
        let body1 = match spec_first_ctor(c.body, 0) {
            Some(i) => match c.body[i] {
                SpecClassElement::Method(m) => c.body.update(
                    i,
                    SpecClassElement::Method(
                        SpecMethodDef {
                            kind: m.kind,
                            key: m.key,
                            params: spec_strip_params(m.params),
                        },
                    ),
                ),
                _ => c.body,
            },
            Option::None => c.body,
        };
        let toks = spec_inject_tokens(spec_tokens_of_params(spec_ctor_params(c.body)));
        SpecClass {
            id: c.id,
            decorators: spec_unrecognized(c.decorators),
            body: seq![
                spec_factory_member(class_name, spec_factory_name(class_name), toks),
            ] + body1,
        }
    }
}

/// Where the first-constructor search points, a constructor stands.
proof fn lemma_first_ctor(body: Seq<SpecClassElement>, i: int)
    requires
        0 <= i <= body.len(),
    ensures
        spec_first_ctor(body, i) matches Some(j) ==> i <= j < body.len() && (body[j]
            matches SpecClassElement::Method(m) && m.kind == MethodKind::Constructor),
    decreases body.len() - i,
{
    if i < body.len() {
        if !(body[i] matches SpecClassElement::Method(m) && m.kind == MethodKind::Constructor) {
            lemma_first_ctor(body, i + 1);
        }
    }
}

impl DependencyInjection {
    /// Transform one class as [`spec_di_transform`] describes, reporting the
    /// diagnostics of [`spec_di_diags`] and leaving the resolved modifiers
    /// of this class in the analyzer.
    pub fn transform_class(&mut self, class: &mut Class, class_name: &String, ctx: &mut AngularCtx)
        ensures
            final(class).spec() == spec_di_transform(old(class).spec(), class_name@),
            final(ctx).errors_view() == old(ctx).errors_view() + spec_di_diags(
                old(class).spec(),
            ),
            final(ctx).used_view() == old(ctx).used_view(),
            spec_classified(old(class).spec().decorators, 0).len() > 0 ==> final(self).params_view()
                == spec_tokens_of_params(spec_ctor_params(old(class).spec().body)),
            spec_classified(old(class).spec().decorators, 0).len() == 0 ==> final(self).params_view()
                == old(self).params_view(),
    {
        let ghost c0 = old(class).spec();
        let classified = classify_decorators(&class.decorators);
        if classified.len() == 0 {
            proof {
                assert(spec_pairs(classified@) =~= Seq::<(TopLevelDecorator, int)>::empty());
                assert(old(ctx).errors_view() + spec_di_diags(c0) =~= old(ctx).errors_view());
            }
            return ;
        }
        self.constructor_params = Vec::new();
        proof {
            assert(self.params_view() =~= Seq::<SpecParamDecorator>::empty());
        }
        let ghost sbody = c0.body;
        let nb = class.body.len();
        let mut ci: usize = 0;
        let mut found_ctor = false;
        while ci < nb && !found_ctor
            invariant
                ci <= nb,
                nb == class.body@.len(),
                class == old(class),
                sbody == old(class).spec().body,
                spec_first_ctor(sbody, 0) == spec_first_ctor(sbody, ci as int),
                found_ctor ==> ci < nb && spec_first_ctor(sbody, 0) == Some(ci as int),
            decreases nb - ci + (if found_ctor {
                0int
            } else {
                1int
            }),
        {
            proof {
                assert(sbody[ci as int] == class.body@[ci as int].spec());
            }
            match &class.body[ci] {
                ClassElement::Method(m) => {
                    if m.kind == MethodKind::Constructor {
                        found_ctor = true;
                    } else {
                        ci += 1;
                    }
                },
                _ => {
                    ci += 1;
                },
            }
        }
        let ghost base_err = ctx.errors_view();
        if found_ctor {
            proof {
                lemma_first_ctor(sbody, 0);
            }
            let el = class.body.remove(ci);
            proof {
                assert(el.spec() == sbody[ci as int]);
            }
            match el {
                ClassElement::Method(m) => {
                    let mut m = m;
                    let ghost ps0 = spec_params(m.params@);
                    let ghost kind0 = m.kind;
                    let ghost key0 = m.key@;
                    let mut new_params: Vec<Param> = Vec::new();
                    proof {
                        assert(ps0.subrange(0, 0) =~= Seq::<SpecParam>::empty());
                        assert(spec_params(new_params@) =~= Seq::<SpecParam>::empty());
                        assert(spec_strip_params(ps0).subrange(0, 0) =~= Seq::<SpecParam>::empty());
                        assert(spec_tokens_of_params(Seq::<SpecParam>::empty())
                            =~= Seq::<SpecParamDecorator>::empty());
                        assert(spec_diags_of_params(Seq::<SpecParam>::empty())
                            =~= Seq::<SpecDiagnostic>::empty());
                        assert(base_err + Seq::<SpecDiagnostic>::empty() =~= base_err);
                        assert(spec_params(m.params@) =~= ps0.subrange(0, ps0.len() as int));
                    }
                    while m.params.len() > 0
                        invariant
                            new_params@.len() + m.params@.len() == ps0.len(),
                            m.kind == kind0,
                            m.key@ == key0,
                            spec_params(m.params@) == ps0.subrange(
                                new_params@.len() as int,
                                ps0.len() as int,
                            ),
                            spec_params(new_params@) == spec_strip_params(ps0).subrange(
                                0,
                                new_params@.len() as int,
                            ),
                            self.params_view() == spec_tokens_of_params(
                                ps0.subrange(0, new_params@.len() as int),
                            ),
                            ctx.errors_view() == base_err + spec_diags_of_params(
                                ps0.subrange(0, new_params@.len() as int),
                            ),
                            ctx.used_view() == old(ctx).used_view(),
                        decreases m.params@.len(),
                    {
                        let ghost k = new_params@.len() as int;
                        proof {
                            assert(spec_params(m.params@)[0] == m.params@[0].spec());
                            assert(ps0.subrange(k, ps0.len() as int)[0] == ps0[k]);
                            assert(ps0.subrange(0, k + 1) =~= ps0.subrange(0, k).push(ps0[k]));
                            lemma_params_snoc(ps0.subrange(0, k), ps0[k]);
                        }
                        let ghost rem0 = m.params@;
                        let p = m.params.remove(0);
                        proof {
                            assert(p.spec() == ps0[k]);
                            assert(m.params@ =~= rem0.subrange(1, rem0.len() as int));
                            assert forall|j: int| 0 <= j < m.params@.len() implies spec_params(
                                m.params@,
                            )[j] == ps0.subrange(k + 1, ps0.len() as int)[j] by {
                                assert(m.params@[j] == rem0[j + 1]);
                                assert(spec_params(rem0)[j + 1] == rem0[j + 1].spec());
                            }
                            assert(spec_params(m.params@) =~= ps0.subrange(
                                k + 1,
                                ps0.len() as int,
                            ));
                        }
                        let r = self.resolve_param(p, ctx);
                        new_params.push(r);
                        proof {
                            assert(spec_params(new_params@) =~= spec_strip_params(ps0).subrange(
                                0,
                                k + 1,
                            ));
                        }
                    }
                    proof {
                        assert(ps0.subrange(0, ps0.len() as int) =~= ps0);
                        assert(spec_strip_params(ps0).subrange(
                            0,
                            spec_strip_params(ps0).len() as int,
                        ) =~= spec_strip_params(ps0));
                    }
                    m.params = new_params;
                    class.body.insert(ci, ClassElement::Method(m));
                    proof {
                        assert(spec_elements(class.body@) =~= sbody.update(
                            ci as int,
                            SpecClassElement::Method(
                                SpecMethodDef {
                                    kind: kind0,
                                    key: key0,
                                    params: spec_strip_params(ps0),
                                },
                            ),
                        ));
                        assert(sbody[ci as int] matches SpecClassElement::Method(sm)
                            && sm.params == ps0 && sm.kind == kind0 && sm.key == key0);
                    }
                },
                other => {
                    proof {
                        lemma_first_ctor(sbody, 0);
                        assert(other.spec() == sbody[ci as int]);
                        assert(false);
                    }
                    class.body.insert(ci, other);
                },
            }
        } else {
            proof {
                assert(spec_ctor_params(sbody) =~= Seq::<SpecParam>::empty());
                assert(spec_tokens_of_params(Seq::<SpecParam>::empty())
                    =~= Seq::<SpecParamDecorator>::empty());
                assert(spec_diags_of_params(Seq::<SpecParam>::empty())
                    =~= Seq::<SpecDiagnostic>::empty());
                assert(self.params_view() =~= spec_tokens_of_params(spec_ctor_params(sbody)));
                assert(ctx.errors_view() =~= base_err + spec_diags_of_params(
                    spec_ctor_params(sbody),
                ));
            }
        }
        let factory_name = String::from_str("factory").concat(class_name.as_str());
        let fac = self.ng_factory_builder(class_name.as_str(), factory_name.as_str());
        let ghost fv = fac.spec();
        let ghost body1 = spec_elements(class.body@);
        class.body.insert(0, fac);
        let ghost dorig = c0.decorators;
        let mut olds: Vec<Decorator> = Vec::new();
        core::mem::swap(&mut olds, &mut class.decorators);
        let mut kept_decorators: Vec<Decorator> = Vec::new();
        let ghost dprocessed = Seq::<SpecDecorator>::empty();
        proof {
            assert(spec_decorators(kept_decorators@) =~= Seq::<SpecDecorator>::empty());
            assert(spec_unrecognized(dprocessed) =~= Seq::<SpecDecorator>::empty());
            assert(dprocessed + spec_decorators(olds@) =~= dorig);
        }
        while olds.len() > 0
            invariant
                dorig == dprocessed + spec_decorators(olds@),
                spec_decorators(kept_decorators@) == spec_unrecognized(dprocessed),
            decreases olds@.len(),
        {
            let ghost rem0 = olds@;
            let d = olds.remove(0);
            let ghost dv = d.spec();
            proof {
                assert(dv == dorig[dprocessed.len() as int]);
                assert forall|j: int| 0 <= j < olds@.len() implies spec_decorators(olds@)[j]
                    == rem0.subrange(1, rem0.len() as int)[j].spec() by {
                    assert(olds@[j] == rem0[j + 1]);
                }
                lemma_unrecognized_snoc(dprocessed, dv);
            }
            let ident = decorator_ident(&d);
            let class_level = match ident {
                Some(nm) => {
                    let nm2 = nm.clone();
                    TopLevelDecorator::from_str(nm2.as_str(), &d)
                },
                None => None,
            };
            let ghost before_kept = spec_decorators(kept_decorators@);
            match class_level {
                Some(_) => {
                    proof {
                        assert(spec_class_of(dv) is Some);
                    }
                },
                None => {
                    proof {
                        assert(spec_class_of(dv) is None);
                    }
                    kept_decorators.push(d);
                    proof {
                        assert(spec_decorators(kept_decorators@) =~= before_kept.push(dv));
                    }
                },
            }
            proof {
                dprocessed = dprocessed.push(dv);
                assert(dorig =~= dprocessed + spec_decorators(olds@));
            }
        }
        proof {
            assert(spec_decorators(olds@) =~= Seq::<SpecDecorator>::empty());
            assert(dprocessed =~= dorig);
        }
        class.decorators = kept_decorators;
        proof {
            assert(factory_name@ == spec_factory_name(class_name@));
            assert(fv == spec_factory_member(
                class_name@,
                spec_factory_name(class_name@),
                spec_inject_tokens(spec_tokens_of_params(spec_ctor_params(sbody))),
            ));
            assert(spec_elements(class.body@) =~= seq![fv] + body1);
            assert(final(class).spec() =~~= spec_di_transform(c0, class_name@));
        }
    }
}

} // verus!

verus! {

impl DependencyInjection {
    /// The decorator names this pass compiles away: the specifiers to strip
    /// from framework imports.
    pub fn specifier_to_remove() -> (r: Vec<&'static str>)
        ensures
            r@.len() == 4,
            r@[0]@ == "Inject"@,
            r@[1]@ == "Optional"@,
            r@[2]@ == "Self"@,
            r@[3]@ == "SkipSelf"@,
    {
        let mut v: Vec<&'static str> = Vec::new();
        v.push("Inject");
        v.push("Optional");
        v.push("Self");
        v.push("SkipSelf");
        v
    }
}

} // verus!
