//! The plugin-style class visitor: classifies each class decorator whose
//! callee is a member access naming one of the five runtime roles, runs the
//! role's handler under the configured compilation mode, and removes the
//! processed decorators.  The plugin configuration itself is a JSON object,
//! read through the one outside call of this crate.

use vstd::prelude::*;

use crate::meta::{AnyNgTraitHandler, NgTrait, NgTraitHandlerFactory};
use crate::script::{spec_decorators, Class, Decorator, Expr, SpecDecorator, SpecExpr};
use crate::text::str_eq;

verus! {

/// Whether classes compile just-in-time or ahead-of-time.
#[derive(Clone, Copy, PartialEq, Eq, Structural, Debug)]
pub enum CompilationMode {
    JIT,
    AOT,
}

/// The plugin's configuration.
#[derive(Clone, Copy, PartialEq, Eq, Structural, Debug)]
pub struct PluginOptions {
    pub compilation_mode: CompilationMode,
}

/// The key-value fields of a JSON object of string keys and string values,
/// in key order; nothing when the text is not such an object.
pub uninterp spec fn config_fields(s: Seq<char>) -> Option<Seq<(Seq<char>, Seq<char>)>>;

/// The views of a sequence of string pairs.
pub open spec fn spec_pair_views(v: Seq<(String, String)>) -> Seq<(Seq<char>, Seq<char>)> {
    Seq::new(v.len(), |i: int| (v[i].0@, v[i].1@))
}

/// Relies on serde_json::from_str: deserializing a JSON object into an
/// ordered map of string keys and string values is a function of the text
/// alone, and the map iterates in key order; the pairs come back in that
/// order.
#[verifier::external_body]
fn config_pairs(s: &str) -> (r: Option<Vec<(String, String)>>)
    ensures
        r matches Some(v) ==> config_fields(s@) == Some(spec_pair_views(v@)),
        r is None ==> config_fields(s@) is None,
{
    serde_json::from_str::<std::collections::BTreeMap<String, String>>(s).ok().map(
        |m| m.into_iter().collect(),
    )
}

/// The first value under `key`, if any.
pub open spec fn spec_lookup(fields: Seq<(Seq<char>, Seq<char>)>, key: Seq<char>) -> Option<
    Seq<char>,
>
    decreases fields.len(),
{
    if fields.len() == 0 {
        Option::None
    } else if fields[0].0 == key {
        Some(fields[0].1)
    } else {
        spec_lookup(fields.drop_first(), key)
    }
}

/// Executable lookup matching [`spec_lookup`].
fn lookup_field<'a>(fields: &'a Vec<(String, String)>, key: &str) -> (r: Option<&'a String>)
    ensures
        r matches Some(v) ==> spec_lookup(spec_pair_views(fields@), key@) == Some(v@),
        r is None ==> spec_lookup(spec_pair_views(fields@), key@) is None,
{
    let ghost fv = spec_pair_views(fields@);
    let n = fields.len();
    let mut i: usize = 0;
    proof {
        assert(fv.subrange(0, n as int) =~= fv);
    }
    while i < n
        invariant
            i <= n,
            n == fields@.len(),
            fv == spec_pair_views(fields@),
            spec_lookup(fv, key@) == spec_lookup(fv.subrange(i as int, n as int), key@),
        decreases n - i,
    {
        proof {
            assert(fv.subrange(i as int, n as int)[0] == fv[i as int]);
            assert(fv.subrange(i as int, n as int).drop_first() =~= fv.subrange(i + 1, n as int));
        }
        if str_eq(fields[i].0.as_str(), key) {
            return Some(&fields[i].1);
        }
        i += 1;
    }
    proof {
        assert(fv.subrange(n as int, n as int) =~= Seq::<(Seq<char>, Seq<char>)>::empty());
    }
    None
}

/// The compilation mode a configuration text selects: `AOT` when its
/// `compilation_mode` field says so, and the just-in-time default for any
/// other value, a missing field, or unparseable text.
pub open spec fn spec_mode_of_config(s: Seq<char>) -> CompilationMode {
    match config_fields(s) {
        Some(fields) => match spec_lookup(fields, "compilation_mode"@) {
            Some(v) => if v == "AOT"@ {
                CompilationMode::AOT
            } else {
                CompilationMode::JIT
            },
            Option::None => CompilationMode::JIT,
        },
        Option::None => CompilationMode::JIT,
    }
}

/// Read the plugin options from a configuration text, falling back to the
/// just-in-time default whenever the text does not plainly say otherwise.
pub fn plugin_options_from_config(s: &str) -> (r: PluginOptions)
    ensures
        r.compilation_mode == spec_mode_of_config(s@),
{
    match config_pairs(s) {
        Some(fields) => match lookup_field(&fields, "compilation_mode") {
            Some(v) => {
                if str_eq(v.as_str(), "AOT") {
                    PluginOptions { compilation_mode: CompilationMode::AOT }
                } else {
                    PluginOptions { compilation_mode: CompilationMode::JIT }
                }
            },
            None => PluginOptions { compilation_mode: CompilationMode::JIT },
        },
        None => PluginOptions { compilation_mode: CompilationMode::JIT },
    }
}

/// The runtime role a member-access name selects.
pub open spec fn spec_trait_name(n: Seq<char>) -> Option<NgTrait> {
    if n == "Component"@ {
        Some(NgTrait::Component)
    } else if n == "Directive"@ {
        Some(NgTrait::Directive)
    } else if n == "Injectable"@ {
        Some(NgTrait::Injectable)
    } else if n == "NgModule"@ {
        Some(NgTrait::NgModule)
    } else if n == "Pipe"@ {
        Some(NgTrait::Pipe)
    } else {
        Option::None
    }
}

/// The role a decorator names, when its expression is a call whose callee is
/// a member access on a role name (the plugin form `core.Component(...)`).
pub open spec fn spec_member_trait(d: SpecDecorator) -> Option<NgTrait> {
    match d.expression {
        SpecExpr::Call { callee, args } => match *callee {
            SpecExpr::Member { object, property } => spec_trait_name(property),
            _ => Option::None,
        },
        _ => Option::None,
    }
}

/// The decorators this visitor leaves on a class: those naming no role.
pub open spec fn spec_visitor_kept(ds: Seq<SpecDecorator>) -> Seq<SpecDecorator>
    decreases ds.len(),
{
    if ds.len() == 0 {
        Seq::empty()
    } else if spec_member_trait(ds[0]) is None {
        seq![ds[0]] + spec_visitor_kept(ds.drop_first())
    } else {
        spec_visitor_kept(ds.drop_first())
    }
}

/// One more decorator extends the kept list.
proof fn lemma_visitor_kept_snoc(s: Seq<SpecDecorator>, x: SpecDecorator)
    ensures
        spec_visitor_kept(s.push(x)) == spec_visitor_kept(s) + (if spec_member_trait(x) is None {
            seq![x]
        } else {
            Seq::<SpecDecorator>::empty()
        }),
    decreases s.len(),
{
    let kx: Seq<SpecDecorator> = if spec_member_trait(x) is None {
        seq![x]
    } else {
        Seq::empty()
    };
    if s.len() == 0 {
        assert(s.push(x)[0] == x);
        assert(s.push(x).drop_first() =~= Seq::<SpecDecorator>::empty());
        assert(spec_visitor_kept(Seq::<SpecDecorator>::empty()) =~= Seq::<SpecDecorator>::empty());
        assert(spec_visitor_kept(s.push(x)) =~= spec_visitor_kept(s) + kx);
    } else {
        lemma_visitor_kept_snoc(s.drop_first(), x);
        assert(s.push(x)[0] == s[0]);
        assert(s.push(x).drop_first() =~= s.drop_first().push(x));
        assert(spec_visitor_kept(s.push(x)) =~= spec_visitor_kept(s) + kx);
    }
}

/// The runtime role a decorator names through a member-access callee.
fn member_trait(d: &Decorator) -> (r: Option<NgTrait>)
    ensures
        r == spec_member_trait(d.spec()),
{
    match &d.expression {
        Expr::Call { callee, args: _ } => {
            proof {
                assert(d.spec().expression == d.expression.spec());
                assert(d.expression.spec() matches SpecExpr::Call { callee: c, args: _ } && *c
                    == callee.spec());
            }
            match &**callee {
                Expr::Member { object: _, property } => {
                    proof {
                        assert(callee.spec() matches SpecExpr::Member {
                            object: _,
                            property: pn,
                        } && pn == property@);
                    }
                    if str_eq(property.as_str(), "Component") {
                        Some(NgTrait::Component)
                    } else if str_eq(property.as_str(), "Directive") {
                        Some(NgTrait::Directive)
                    } else if str_eq(property.as_str(), "Injectable") {
                        Some(NgTrait::Injectable)
                    } else if str_eq(property.as_str(), "NgModule") {
                        Some(NgTrait::NgModule)
                    } else if str_eq(property.as_str(), "Pipe") {
                        Some(NgTrait::Pipe)
                    } else {
                        None
                    }
                },
                _ => {
                    proof {
                        assert(!(callee.spec() matches SpecExpr::Member {
                            object: _,
                            property: _,
                        }));
                    }
                    None
                },
            }
        },
        _ => None,
    }
}

/// The plugin-style visitor, carrying its configuration.
pub struct TransformVisitor {
    options: PluginOptions,
}

impl TransformVisitor {
    /// The configured options.
    pub closed spec fn options_spec(self) -> PluginOptions {
        self.options
    }

    pub fn new(options: PluginOptions) -> (r: TransformVisitor)
        ensures
            r.options_spec() == options,
    {
        TransformVisitor { options }
    }

    /// Visit one class: run the matching handler (under the configured mode)
    /// for every decorator that names a runtime role through a member access,
    /// then remove exactly those decorators.  The class body is never changed
    /// by the placeholder handlers, and a handler failure never aborts the
    /// visit.
    pub fn visit_mut_class(&mut self, n: &mut Class)
        ensures
            final(n).spec().decorators == spec_visitor_kept(old(n).spec().decorators),
            final(n).spec().body == old(n).spec().body,
            final(n).spec().id == old(n).spec().id,
            final(self).options_spec() == old(self).options_spec(),
    {
        let ghost orig = old(n).spec().decorators;
        let mut olds: Vec<Decorator> = Vec::new();
        core::mem::swap(&mut olds, &mut n.decorators);
        let mut kept: Vec<Decorator> = Vec::new();
        let ghost processed = Seq::<SpecDecorator>::empty();
        proof {
            assert(spec_decorators(kept@) =~= Seq::<SpecDecorator>::empty());
            assert(spec_visitor_kept(processed) =~= Seq::<SpecDecorator>::empty());
            assert(processed + spec_decorators(olds@) =~= orig);
        }
        while olds.len() > 0
            invariant
                orig == processed + spec_decorators(olds@),
                spec_decorators(kept@) == spec_visitor_kept(processed),
                n.spec().body == old(n).spec().body,
                n.spec().id == old(n).spec().id,
                self.options == old(self).options,
            decreases olds@.len(),
        {
            let ghost rem0 = olds@;
            let d = olds.remove(0);
            let ghost dv = d.spec();
            proof {
                assert(dv == orig[processed.len() as int]);
                assert forall|j: int| 0 <= j < olds@.len() implies spec_decorators(olds@)[j]
                    == rem0.subrange(1, rem0.len() as int)[j].spec() by {
                    assert(olds@[j] == rem0[j + 1]);
                }
                lemma_visitor_kept_snoc(processed, dv);
            }
            let ghost before_kept = spec_decorators(kept@);
            let trait_type: Option<NgTrait> = member_trait(&d);
            match trait_type {
                Some(t) => {
                    proof {
                        assert(spec_member_trait(dv) == Some(t));
                    }
                    let handler = NgTraitHandlerFactory::get_handler(&t);
                    let parsed = match &d.expression {
                        Expr::Call { callee: _, args } => handler.parse(args),
                        _ => Err(String::new()),
                    };
                    match parsed {
                        Ok(meta) => {
                            let tr = match self.options.compilation_mode {
                                CompilationMode::JIT => handler.transform_to_jit(&meta, n),
                                CompilationMode::AOT => handler.transform_to_ivy(&meta, n),
                            };
                            let _ = tr;
                        },
                        Err(e) => {
                            let _ = e;
                        },
                    }
                },
                None => {
                    proof {
                        assert(spec_member_trait(dv) is None);
                    }
                    kept.push(d);
                    proof {
                        assert(spec_decorators(kept@) =~= before_kept.push(dv));
                    }
                },
            }
            proof {
                processed = processed.push(dv);
                assert(orig =~= processed + spec_decorators(olds@));
            }
        }
        proof {
            assert(spec_decorators(olds@) =~= Seq::<SpecDecorator>::empty());
            assert(processed =~= orig);
        }
        n.decorators = kept;
    }
}

} // verus!
