//! The transform driver: one depth-first pass over a program that rewrites
//! every decorated class — factory first, then provider descriptor, then the
//! compiled-away decorators pruned — and strips the now-unused specifiers
//! from framework imports.  Diagnostics accumulate in the context and are
//! drained once at the end of the build.

use vstd::prelude::*;

use crate::context::{AngularCtx, Diagnostic, SpecDiagnostic};
use crate::decorators::TopLevelDecorator;
use crate::dependency::{
    classify_decorators, lemma_classified_of_unrecognized, lemma_unrecognized_elems,
    spec_classified, spec_di_diags, spec_di_transform, spec_pairs, spec_unrecognized,
    DependencyInjection,
};
use crate::injectable::{spec_has_factory, spec_ic_transform, InjectableCreator};
use crate::script::{
    spec_decorators, spec_specifiers, spec_statements, Class, Decorator, ImportDecl, ImportEntry,
    Program, SpecClass, SpecDecorator, SpecImportDecl, SpecImportEntry, SpecStatement, Statement,
};
use crate::text::{starts_at, str_eq, str_starts_at};

verus! {

/// What one class visit does: nothing for an undecorated class; otherwise
/// the injection analysis, factory synthesis and decorator pruning of the
/// dependency pass, then the provider descriptor for an injectable-scoped
/// class.
pub open spec fn spec_visit_class(c: SpecClass, name: Seq<char>) -> SpecClass {
    let cls = spec_classified(c.decorators, 0);
    if cls.len() == 0 {
        c
    } else {
        let c1 = spec_di_transform(c, name);
        SpecClass {
            id: c1.id,
            decorators: c1.decorators,
            body: spec_ic_transform(c1.body, cls, name),
        }
    }
}

/// Idempotent transformation: running the class visit twice, under any
/// identifiers, changes nothing beyond the first run — a class already
/// transformed has lost its compiled decorators, so the second visit takes
/// the silent no-op path and can never duplicate a factory member.
pub proof fn lemma_transform_idempotent(c: SpecClass, n1: Seq<char>, n2: Seq<char>)
    ensures
        spec_visit_class(spec_visit_class(c, n1), n2) == spec_visit_class(c, n1),
{
    let cls = spec_classified(c.decorators, 0);
    if cls.len() == 0 {
    } else {
        let c1 = spec_visit_class(c, n1);
        lemma_unrecognized_elems(c.decorators);
        lemma_classified_of_unrecognized(spec_unrecognized(c.decorators), 0);
        assert(spec_classified(c1.decorators, 0).len() == 0);
    }
}

/// Whether an import entry is removed: only a named import whose imported
/// name is in `names`; default and namespace imports always stay.
pub open spec fn spec_entry_removed(e: SpecImportEntry, names: Seq<Seq<char>>) -> bool {
    match e {
        SpecImportEntry::Named(s) => names.contains(s.imported),
        _ => false,
    }
}

/// The import entries kept: all but the named imports whose imported name
/// is in `names`.
pub open spec fn spec_retain_specifiers(
    v: Seq<SpecImportEntry>,
    names: Seq<Seq<char>>,
) -> Seq<SpecImportEntry>
    decreases v.len(),
{
    if v.len() == 0 {
        Seq::empty()
    } else if spec_entry_removed(v[0], names) {
        spec_retain_specifiers(v.drop_first(), names)
    } else {
        seq![v[0]] + spec_retain_specifiers(v.drop_first(), names)
    }
}

/// One more specifier extends the retained list.
proof fn lemma_retain_snoc(v: Seq<SpecImportEntry>, names: Seq<Seq<char>>, x: SpecImportEntry)
    ensures
        spec_retain_specifiers(v.push(x), names) == spec_retain_specifiers(v, names) + (
        if spec_entry_removed(x, names) {
            Seq::<SpecImportEntry>::empty()
        } else {
            seq![x]
        }),
    decreases v.len(),
{
    let kx: Seq<SpecImportEntry> = if spec_entry_removed(x, names) {
        Seq::empty()
    } else {
        seq![x]
    };
    if v.len() == 0 {
        assert(v.push(x)[0] == x);
        assert(v.push(x).drop_first() =~= Seq::<SpecImportEntry>::empty());
        assert(spec_retain_specifiers(Seq::<SpecImportEntry>::empty(), names)
            =~= Seq::<SpecImportEntry>::empty());
        assert(spec_retain_specifiers(v.push(x), names) =~= spec_retain_specifiers(v, names) + kx);
    } else {
        lemma_retain_snoc(v.drop_first(), names, x);
        assert(v.push(x)[0] == v[0]);
        assert(v.push(x).drop_first() =~= v.drop_first().push(x));
        assert(spec_retain_specifiers(v.push(x), names) =~= spec_retain_specifiers(v, names) + kx);
    }
}

/// The views of a list of names.
pub open spec fn spec_names(v: Seq<&str>) -> Seq<Seq<char>> {
    Seq::new(v.len(), |i: int| v[i]@)
}

/// The decorator names the whole transform compiles away.
pub open spec fn spec_removed_names() -> Seq<Seq<char>> {
    seq!["Inject"@, "Optional"@, "Self"@, "SkipSelf"@, "Injectable"@]
}

/// What an import declaration becomes: on a framework import, the compiled
/// decorator names disappear from its specifiers; any other import is
/// untouched.
pub open spec fn spec_strip_import(d: SpecImportDecl) -> SpecImportDecl {
    if starts_at(d.source, 0, "@angular"@) {
        SpecImportDecl {
            source: d.source,
            specifiers: match d.specifiers {
                Some(v) => Some(spec_retain_specifiers(v, spec_removed_names())),
                Option::None => Option::None,
            },
        }
    } else {
        d
    }
}

/// Whether `name` is among the views of `names`.
fn name_in(names: &Vec<&str>, name: &str) -> (r: bool)
    ensures
        r == spec_names(names@).contains(name@),
{
    let n = names.len();
    let mut i: usize = 0;
    while i < n
        invariant
            i <= n,
            n == names@.len(),
            forall|k: int| 0 <= k < i ==> spec_names(names@)[k] != name@,
        decreases n - i,
    {
        if str_eq(names[i], name) {
            proof {
                assert(spec_names(names@)[i as int] == name@);
            }
            return true;
        }
        i += 1;
    }
    false
}

} // verus!

verus! {

/// The transform pass over one compilation unit, holding the shared context
/// and the two synthesizer components.
pub struct Angular {
    ctx: AngularCtx,
    dependency_injection: Option<DependencyInjection>,
    injectable_creator: Option<InjectableCreator>,
}

impl Angular {
    /// The diagnostics reported so far.
    pub closed spec fn errors_in(self) -> Seq<SpecDiagnostic> {
        self.ctx.errors_view()
    }

    /// Whether both synthesizer components are in place.
    pub closed spec fn wf(self) -> bool {
        self.dependency_injection is Some && self.injectable_creator is Some
    }

    pub fn new(ctx: AngularCtx) -> (r: Angular)
        ensures
            r.wf(),
            r.errors_in() == ctx.errors_view(),
    {
        Angular {
            ctx,
            dependency_injection: DependencyInjection::new(),
            injectable_creator: InjectableCreator::new(),
        }
    }

    /// Remove from `specifiers` every named import whose imported name is
    /// among `desired_imported_names`; every other specifier — other named
    /// imports, the default import, a namespace import — stays, in order.
    pub fn remove_import_specifiers_matching_imported_name(
        specifiers: &mut Option<Vec<ImportEntry>>,
        desired_imported_names: &Vec<&str>,
    )
        ensures
            (*old(specifiers)) matches Some(v0) ==> (*final(specifiers)) matches Some(v1)
                && spec_specifiers(v1@) == spec_retain_specifiers(
                spec_specifiers(v0@),
                spec_names(desired_imported_names@),
            ),
            (*old(specifiers)) is None ==> (*final(specifiers)) is None,
    {
        let ghost names = spec_names(desired_imported_names@);
        match specifiers {
            Some(v) => {
                let ghost orig = spec_specifiers(v@);
                let mut kept: Vec<ImportEntry> = Vec::new();
                let ghost processed = Seq::<SpecImportEntry>::empty();
                proof {
                    assert(spec_specifiers(kept@) =~= Seq::<SpecImportEntry>::empty());
                    assert(spec_retain_specifiers(processed, names)
                        =~= Seq::<SpecImportEntry>::empty());
                    assert(processed + spec_specifiers(v@) =~= orig);
                }
                while v.len() > 0
                    invariant
                        orig == processed + spec_specifiers(v@),
                        spec_specifiers(kept@) == spec_retain_specifiers(processed, names),
                        names == spec_names(desired_imported_names@),
                    decreases v@.len(),
                {
                    let ghost rem0 = v@;
                    let s = v.remove(0);
                    let ghost sv = s.spec();
                    proof {
                        assert(sv == orig[processed.len() as int]);
                        assert forall|j: int| 0 <= j < v@.len() implies spec_specifiers(v@)[j]
                            == rem0.subrange(1, rem0.len() as int)[j].spec() by {
                            assert(v@[j] == rem0[j + 1]);
                        }
                        lemma_retain_snoc(processed, names, sv);
                    }
                    let ghost before_kept = spec_specifiers(kept@);
                    let removed = match &s {
                        ImportEntry::Named(named) => name_in(
                            desired_imported_names,
                            named.imported.as_str(),
                        ),
                        _ => false,
                    };
                    if removed {
                        proof {
                            assert(spec_entry_removed(sv, names));
                        }
                    } else {
                        proof {
                            assert(!spec_entry_removed(sv, names));
                        }
                        kept.push(s);
                        proof {
                            assert(spec_specifiers(kept@) =~= before_kept.push(sv));
                        }
                    }
                    proof {
                        processed = processed.push(sv);
                        assert(orig =~= processed + spec_specifiers(v@)) by {
                            assert forall|j: int| 0 <= j < orig.len() implies orig[j] == (
                            processed + spec_specifiers(v@))[j] by {}
                        }
                    }
                }
                proof {
                    assert(spec_specifiers(v@) =~= Seq::<SpecImportEntry>::empty());
                    assert(processed =~= orig);
                }
                *v = kept;
            },
            None => {},
        }
    }

    /// Visit an import declaration: on a framework import, strip the
    /// specifiers of every decorator name the transform compiled away.
    pub fn visit_import_declaration(&mut self, decl: &mut ImportDecl)
        ensures
            final(decl).spec() == spec_strip_import(old(decl).spec()),
            final(self).errors_in() == old(self).errors_in(),
            final(self).wf() == old(self).wf(),
    {
        let is_angular = str_starts_at(decl.source.as_str(), 0, "@angular");
        if is_angular {
            let mut all: Vec<&str> = DependencyInjection::specifier_to_remove();
            let more = InjectableCreator::specifier_to_remove();
            all.push(more[0]);
            proof {
                assert(spec_names(all@) =~= spec_removed_names());
            }
            Self::remove_import_specifiers_matching_imported_name(&mut decl.specifiers, &all);
        }
    }
}

} // verus!

verus! {

/// How one statement relates to its transformed form: imports are stripped,
/// classes are visited (under their own name, or under some minted one when
/// anonymous), and anything else is untouched.
pub open spec fn spec_stmt_rel(a: SpecStatement, b: SpecStatement) -> bool {
    match a {
        SpecStatement::Import(d) => b == SpecStatement::Import(spec_strip_import(d)),
        SpecStatement::ClassDecl(c) => {
            &&& (c.id matches Some(n) ==> b == SpecStatement::ClassDecl(spec_visit_class(c, n)))
            &&& (c.id is None ==> exists|nm: Seq<char>|
                b == SpecStatement::ClassDecl(spec_visit_class(c, nm)))
        },
        SpecStatement::Other(t) => b == a,
    }
}

/// The diagnostics one statement's visit reports.
pub open spec fn spec_stmt_diags(s: SpecStatement) -> Seq<SpecDiagnostic> {
    match s {
        SpecStatement::ClassDecl(c) => spec_di_diags(c),
        _ => Seq::empty(),
    }
}

/// The diagnostics a whole program's visit reports, in statement order.
pub open spec fn spec_program_diags(ss: Seq<SpecStatement>) -> Seq<SpecDiagnostic>
    decreases ss.len(),
{
    if ss.len() == 0 {
        Seq::empty()
    } else {
        spec_stmt_diags(ss[0]) + spec_program_diags(ss.drop_first())
    }
}

/// One more statement extends the program's diagnostics.
proof fn lemma_program_diags_snoc(ss: Seq<SpecStatement>, x: SpecStatement)
    ensures
        spec_program_diags(ss.push(x)) == spec_program_diags(ss) + spec_stmt_diags(x),
    decreases ss.len(),
{
    if ss.len() == 0 {
        assert(ss.push(x)[0] == x);
        assert(ss.push(x).drop_first() =~= Seq::<SpecStatement>::empty());
        assert(spec_program_diags(Seq::<SpecStatement>::empty())
            =~= Seq::<SpecDiagnostic>::empty());
        assert(spec_program_diags(ss.push(x)) =~= spec_program_diags(ss) + spec_stmt_diags(x));
    } else {
        lemma_program_diags_snoc(ss.drop_first(), x);
        assert(ss.push(x)[0] == ss[0]);
        assert(ss.push(x).drop_first() =~= ss.drop_first().push(x));
        assert(spec_program_diags(ss.push(x)) =~= spec_program_diags(ss) + spec_stmt_diags(x));
    }
}

impl Angular {
    /// Visit one class.  An undecorated class is untouched (a silent no-op);
    /// a decorated one is rewritten as [`spec_visit_class`] describes, under
    /// its own name or a freshly minted one, and the analyzer's diagnostics
    /// are reported to the context.
    pub fn visit_class(&mut self, class: &mut Class)
        requires
            old(self).wf(),
        ensures
            final(self).wf(),
            old(class).spec().id matches Some(n) ==> final(class).spec() == spec_visit_class(
                old(class).spec(),
                n,
            ),
            old(class).spec().id is None ==> exists|nm: Seq<char>|
                final(class).spec() == spec_visit_class(old(class).spec(), nm),
            final(self).errors_in() == old(self).errors_in() + spec_di_diags(old(class).spec()),
    {
        let ghost c0 = old(class).spec();
        let classified = classify_decorators(&class.decorators);
        if classified.len() == 0 {
            proof {
                assert(spec_pairs(classified@) =~= Seq::<(TopLevelDecorator, int)>::empty());
                assert(spec_visit_class(c0, Seq::<char>::empty()) == c0);
                if c0.id is None {
                    assert(final(class).spec() == spec_visit_class(c0, Seq::<char>::empty()));
                }
                assert(old(self).errors_in() + spec_di_diags(c0) =~= old(self).errors_in());
            }
            return ;
        }
        let class_name: String = match &class.id {
            Some(n) => n.clone(),
            None => self.ctx.generate_uid("class"),
        };
        let ghost name = class_name@;
        let ghost cls = spec_classified(c0.decorators, 0);
        match &mut self.dependency_injection {
            Some(di) => {
                di.transform_class(class, &class_name, &mut self.ctx);
            },
            None => {},
        }
        let ghost c1 = spec_di_transform(c0, name);
        proof {
            assert(class.spec() == c1);
            assert(c1.body[0] == crate::dependency::spec_factory_member(
                name,
                crate::dependency::spec_factory_name(name),
                crate::dependency::spec_inject_tokens(
                    crate::dependency::spec_tokens_of_params(
                        crate::dependency::spec_ctor_params(c0.body),
                    ),
                ),
            ));
            assert(spec_has_factory(c1.body));
        }
        match &mut self.injectable_creator {
            Some(ic) => {
                let r = ic.transform_class(class, &classified, &class_name);
                proof {
                    if r is Err {
                        assert(false);
                    }
                }
            },
            None => {},
        }
        proof {
            assert(class.spec().body == spec_ic_transform(c1.body, cls, name));
            assert(class.spec().id == c1.id);
            assert(class.spec().decorators == c1.decorators);
        }
        proof {
            assert(final(class).spec() =~~= spec_visit_class(c0, name));
            if c0.id is None {
                assert(final(class).spec() == spec_visit_class(c0, name));
            }
        }
    }

    /// Run the whole transform over a program: visit every class, strip every
    /// framework import, then drain the diagnostics — `Ok` when none were
    /// reported, otherwise all of them in reporting order.
    pub fn build(self, program: &mut Program) -> (r: Result<(), Vec<Diagnostic>>)
        requires
            self.wf(),
        ensures
            final(program).spec().statements.len() == old(program).spec().statements.len(),
            forall|i: int|
                0 <= i < old(program).spec().statements.len() ==> spec_stmt_rel(
                    old(program).spec().statements[i],
                    #[trigger] final(program).spec().statements[i],
                ),
            r matches Err(es) ==> crate::context::spec_diagnostics(es@) == self.errors_in()
                + spec_program_diags(old(program).spec().statements) && es@.len() > 0,
            r is Ok ==> self.errors_in().len() + spec_program_diags(
                old(program).spec().statements,
            ).len() == 0,
    {
        let ghost ss0 = old(program).spec().statements;
        let ghost err0 = self.errors_in();
        let mut me = self;
        let n = program.statements.len();
        let mut i: usize = 0;
        proof {
            assert(spec_program_diags(ss0.subrange(0, 0)) =~= Seq::<SpecDiagnostic>::empty());
            assert(err0 + Seq::<SpecDiagnostic>::empty() =~= err0);
            assert(ss0.subrange(0, 0) =~= Seq::<SpecStatement>::empty());
        }
        while i < n
            invariant
                i <= n,
                n == program.statements@.len(),
                me.wf(),
                ss0.len() == n,
                forall|k: int|
                    0 <= k < i ==> spec_stmt_rel(
                        ss0[k],
                        #[trigger] spec_statements(program.statements@)[k],
                    ),
                forall|k: int|
                    i <= k < n ==> #[trigger] spec_statements(program.statements@)[k] == ss0[k],
                me.errors_in() == err0 + spec_program_diags(ss0.subrange(0, i as int)),
            decreases n - i,
        {
            proof {
                assert(ss0.subrange(0, i + 1) =~= ss0.subrange(0, i as int).push(ss0[i as int]));
                lemma_program_diags_snoc(ss0.subrange(0, i as int), ss0[i as int]);
                assert(spec_statements(program.statements@)[i as int]
                    == program.statements@[i as int].spec());
            }
            let ghost stmts_before = program.statements@;
            let st = program.statements.remove(i);
            let ghost stv = st.spec();
            proof {
                assert(stv == ss0[i as int]);
            }
            match st {
                Statement::Import(d) => {
                    let mut d = d;
                    me.visit_import_declaration(&mut d);
                    let ghost newd = d.spec();
                    program.statements.insert(i, Statement::Import(d));
                    proof {
                        assert(program.statements@[i as int].spec() == SpecStatement::Import(
                            newd,
                        ));
                        assert(spec_stmt_rel(ss0[i as int], SpecStatement::Import(newd)));
                        assert forall|k: int|
                            0 <= k < n && k != i implies program.statements@[k]
                            == stmts_before[k] by {}
                    }
                },
                Statement::ClassDecl(c) => {
                    let mut c = c;
                    me.visit_class(&mut c);
                    let ghost newc = c.spec();
                    program.statements.insert(i, Statement::ClassDecl(c));
                    proof {
                        assert(program.statements@[i as int].spec() == SpecStatement::ClassDecl(
                            newc,
                        ));
                        assert(spec_stmt_rel(ss0[i as int], SpecStatement::ClassDecl(newc)));
                        assert forall|k: int|
                            0 <= k < n && k != i implies program.statements@[k]
                            == stmts_before[k] by {}
                    }
                },
                other => {
                    let ghost ov = other.spec();
                    proof {
                        assert(spec_stmt_diags(stv) =~= Seq::<SpecDiagnostic>::empty());
                        assert(me.errors_in() + Seq::<SpecDiagnostic>::empty()
                            =~= me.errors_in());
                    }
                    program.statements.insert(i, other);
                    proof {
                        assert(program.statements@[i as int].spec() == ov);
                        assert(spec_stmt_rel(ss0[i as int], ov));
                        assert forall|k: int|
                            0 <= k < n && k != i implies program.statements@[k]
                            == stmts_before[k] by {}
                    }
                },
            }
            proof {
                assert forall|k: int|
                    0 <= k < i + 1 implies spec_stmt_rel(
                    ss0[k],
                    #[trigger] spec_statements(program.statements@)[k],
                ) by {
                    assert(spec_statements(program.statements@)[k]
                        == program.statements@[k].spec());
                    if k < i {
                        assert(program.statements@[k] == stmts_before[k]);
                        assert(spec_statements(stmts_before)[k] == stmts_before[k].spec());
                    }
                }
                assert forall|k: int|
                    i + 1 <= k < n implies #[trigger] spec_statements(program.statements@)[k]
                    == ss0[k] by {
                    assert(spec_statements(program.statements@)[k]
                        == program.statements@[k].spec());
                    assert(program.statements@[k] == stmts_before[k]);
                    assert(spec_statements(stmts_before)[k] == stmts_before[k].spec());
                }
            }
            i += 1;
        }
        proof {
            assert(ss0.subrange(0, n as int) =~= ss0);
        }
        let errs = me.ctx.errors();
        if errs.len() == 0 {
            proof {
                assert(crate::context::spec_diagnostics(errs@).len() == 0);
            }
            Ok(())
        } else {
            proof {
                assert(crate::context::spec_diagnostics(errs@).len() == errs@.len());
            }
            Err(errs)
        }
    }
}

} // verus!
