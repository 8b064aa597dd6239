//! The compilation context: the diagnostics sink that the transform appends
//! to and drains once per compilation unit, and the table that mints
//! collision-free identifiers.

use vstd::prelude::*;

use crate::text::str_eq;

verus! {

/// Why a diagnostic was reported.
#[derive(Clone, Copy, PartialEq, Eq, Structural, Debug)]
pub enum DiagnosticKind {
    /// A constructor parameter with neither an injection decorator nor a
    /// resolvable type annotation: the factory omits its argument.
    UnresolvedInjectionToken,
}

/// One reported, recoverable condition: its kind and the name of what it
/// concerns.
#[derive(Clone, PartialEq, Eq, Debug)]
pub struct Diagnostic {
    pub kind: DiagnosticKind,
    pub subject: String,
}

/// Spec-level mirror of [`Diagnostic`].
#[verifier::ext_equal]
pub struct SpecDiagnostic {
    pub kind: DiagnosticKind,
    pub subject: Seq<char>,
}

impl Diagnostic {
    pub open spec fn spec(self) -> SpecDiagnostic {
        SpecDiagnostic { kind: self.kind, subject: self.subject@ }
    }
}

/// The spec-level values of a sequence of diagnostics, element-wise.
pub open spec fn spec_diagnostics(s: Seq<Diagnostic>) -> Seq<SpecDiagnostic> {
    Seq::new(s.len(), |i: int| s[i].spec())
}

/// The views of a sequence of names, element-wise.
pub open spec fn names_view(s: Seq<String>) -> Seq<Seq<char>> {
    Seq::new(s.len(), |i: int| s[i]@)
}

/// The context shared by the transform's sub-passes during one compilation
/// unit: the append-only error accumulator, drained once at the end, and the
/// set of identifiers already in use, consulted when minting fresh ones.
pub struct AngularCtx {
    errors: Vec<Diagnostic>,
    used_names: Vec<String>,
}

impl AngularCtx {
    /// The diagnostics reported so far.
    pub closed spec fn errors_view(self) -> Seq<SpecDiagnostic> {
        spec_diagnostics(self.errors@)
    }

    /// The identifiers known to be taken.
    pub closed spec fn used_view(self) -> Seq<Seq<char>> {
        names_view(self.used_names@)
    }

    pub fn new() -> (r: AngularCtx)
        ensures
            r.errors_view() == Seq::<SpecDiagnostic>::empty(),
            r.used_view() == Seq::<Seq<char>>::empty(),
    {
        let r = AngularCtx { errors: Vec::new(), used_names: Vec::new() };
        proof {
            assert(r.errors_view() =~= Seq::<SpecDiagnostic>::empty());
            assert(r.used_view() =~= Seq::<Seq<char>>::empty());
        }
        r
    }

    /// Record an identifier as taken.
    pub fn add_binding(&mut self, name: String)
        ensures
            final(self).used_view() == old(self).used_view().push(name@),
            final(self).errors_view() == old(self).errors_view(),
    {
        let ghost n = name@;
        self.used_names.push(name);
        proof {
            assert(final(self).used_view() =~= old(self).used_view().push(n));
            assert(final(self).errors_view() =~= old(self).errors_view());
        }
    }

    /// Report one diagnostic.  Appends; never drops or reorders.
    pub fn error(&mut self, d: Diagnostic)
        ensures
            final(self).errors_view() == old(self).errors_view().push(d.spec()),
            final(self).used_view() == old(self).used_view(),
    {
        let ghost dv = d.spec();
        self.errors.push(d);
        proof {
            assert(final(self).errors_view() =~= old(self).errors_view().push(dv));
            assert(final(self).used_view() =~= old(self).used_view());
        }
    }

    /// Drain the accumulated diagnostics: returns them all, in order of
    /// reporting, and leaves the sink empty.
    pub fn errors(&mut self) -> (r: Vec<Diagnostic>)
        ensures
            spec_diagnostics(r@) == old(self).errors_view(),
            final(self).errors_view() == Seq::<SpecDiagnostic>::empty(),
            final(self).used_view() == old(self).used_view(),
    {
        let mut out: Vec<Diagnostic> = Vec::new();
        core::mem::swap(&mut out, &mut self.errors);
        proof {
            assert(final(self).errors_view() =~= Seq::<SpecDiagnostic>::empty());
        }
        out
    }

    /// Whether `name` is already taken.
    fn is_taken(&self, name: &str) -> (r: bool)
        ensures
            r == self.used_view().contains(name@),
    {
        let n = self.used_names.len();
        let mut i: usize = 0;
        while i < n
            invariant
                i <= n,
                n == self.used_names@.len(),
                forall|k: int| 0 <= k < i ==> self.used_view()[k] != name@,
            decreases n - i,
        {
            if str_eq(self.used_names[i].as_str(), name) {
                proof {
                    assert(self.used_view()[i as int] == name@);
                }
                return true;
            }
            i += 1;
        }
        proof {
            assert forall|k: int| 0 <= k < self.used_view().len() implies self.used_view()[k]
                != name@ by {}
        }
        false
    }

    /// The length of the longest taken name.
    fn max_taken_len(&self) -> (r: usize)
        ensures
            forall|k: int| 0 <= k < self.used_view().len() ==> #[trigger] self.used_view()[
                k
            ].len() <= r,
    {
        let n = self.used_names.len();
        let mut i: usize = 0;
        let mut best: usize = 0;
        while i < n
            invariant
                i <= n,
                n == self.used_names@.len(),
                forall|k: int| 0 <= k < i ==> #[trigger] self.used_view()[k].len() <= best,
            decreases n - i,
        {
            let l = self.used_names[i].as_str().unicode_len();
            if l > best {
                best = l;
            }
            i += 1;
        }
        best
    }

    /// Mint an identifier not yet taken, starting from `preferred` and
    /// extending it with underscores exactly until it is fresh; the result
    /// is recorded as taken.  Guaranteed collision-free within this context:
    /// the result was not taken, every shorter candidate tried was.
    pub fn generate_uid(&mut self, preferred: &str) -> (r: String)
        ensures
            !old(self).used_view().contains(r@),
            final(self).used_view() == old(self).used_view().push(r@),
            final(self).errors_view() == old(self).errors_view(),
            r@.len() >= preferred@.len(),
            r@.subrange(0, preferred@.len() as int) == preferred@,
            forall|j: int| preferred@.len() <= j < r@.len() ==> r@[j] == '_',
            forall|m: int|
                preferred@.len() <= m < r@.len() ==> old(self).used_view().contains(
                    r@.subrange(0, m),
                ),
    {
        let cap = self.max_taken_len();
        let mut cand = String::from_str(preferred);
        proof {
            assert(cand@.subrange(0, preferred@.len() as int) =~= preferred@);
        }
        while self.is_taken(cand.as_str())
            invariant
                cand@.len() >= preferred@.len(),
                cand@.subrange(0, preferred@.len() as int) == preferred@,
                forall|j: int| preferred@.len() <= j < cand@.len() ==> cand@[j] == '_',
                forall|m: int|
                    preferred@.len() <= m < cand@.len() ==> self.used_view().contains(
                        cand@.subrange(0, m),
                    ),
                forall|k: int| 0 <= k < self.used_view().len() ==> #[trigger] self.used_view()[
                    k
                ].len() <= cap,
            decreases cap + 1 - cand@.len(),
        {
            proof {
                let i = choose|i: int|
                    0 <= i < self.used_view().len() && self.used_view()[i] == cand@;
                assert(self.used_view()[i].len() <= cap);
                assert(cand@.len() <= cap);
            }
            let ghost before = cand@;
            cand.append("_");
            proof {
                reveal_strlit("_");
                assert(cand@.subrange(0, preferred@.len() as int) =~= preferred@);
                assert(cand@.subrange(0, before.len() as int) =~= before);
                assert forall|m: int|
                    preferred@.len() <= m < cand@.len() implies self.used_view().contains(
                    cand@.subrange(0, m),
                ) by {
                    if m < before.len() {
                        assert(cand@.subrange(0, m) =~= before.subrange(0, m));
                    } else {
                        assert(cand@.subrange(0, m) =~= before);
                    }
                }
            }
        }
        let out = cand.clone();
        let ghost ov = out@;
        self.used_names.push(cand);
        proof {
            assert(final(self).used_view() =~= old(self).used_view().push(ov));
            assert(final(self).errors_view() =~= old(self).errors_view());
        }
        out
    }
}

} // verus!
