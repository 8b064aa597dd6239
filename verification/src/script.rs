//! The library's own model of the script syntax tree.
//!
//! The transform stage never parses script text itself: it visits a parsed
//! tree.  This module models, as plain data, exactly the tree shapes the
//! transform reads and writes: identifiers, string literals, call, member,
//! object, logical-or, parenthesized, `new` and function expressions.  Each
//! executable type has a spec-level mirror, reached through its `spec`
//! function, over which the transform's contracts are stated.

use vstd::prelude::*;

verus! {

/// Spec-level mirror of [`Expr`]: the same shape over `Seq<char>`.
#[verifier::ext_equal]
pub enum SpecExpr {
    Ident { name: Seq<char> },
    StrLit { value: Seq<char> },
    Call { callee: Box<SpecExpr>, args: Seq<SpecExpr> },
    Member { object: Box<SpecExpr>, property: Seq<char> },
    ObjectLit { properties: Seq<SpecObjectProperty> },
    LogicalOr { left: Box<SpecExpr>, right: Box<SpecExpr> },
    Paren { inner: Box<SpecExpr> },
    NewExpr { callee: Box<SpecExpr>, args: Seq<SpecExpr> },
    FunctionExpr { name: Option<Seq<char>>, params: Seq<Seq<char>>, ret: Option<Box<SpecExpr>> },
}

/// Spec-level mirror of [`ObjectProperty`].
#[verifier::ext_equal]
pub struct SpecObjectProperty {
    pub key: Seq<char>,
    pub value: SpecExpr,
}

/// An expression of the modelled script language: just the shapes that
/// decorators and the synthesized members use.
#[derive(PartialEq, Eq, Debug)]
pub enum Expr {
    /// A bare identifier reference.
    Ident { name: String },
    /// A string literal.
    StrLit { value: String },
    /// A call `callee(args...)`.
    Call { callee: Box<Expr>, args: Vec<Expr> },
    /// A static member access `object.property`.
    Member { object: Box<Expr>, property: String },
    /// An object literal `{ key: value, ... }`.
    ObjectLit { properties: Vec<ObjectProperty> },
    /// A logical or `left || right`.
    LogicalOr { left: Box<Expr>, right: Box<Expr> },
    /// A parenthesized expression `(inner)`.
    Paren { inner: Box<Expr> },
    /// A construction `new callee(args...)`.
    NewExpr { callee: Box<Expr>, args: Vec<Expr> },
    /// A function expression `function name(params...) { return ret; }`;
    /// the body is modelled as its single optional return expression.
    FunctionExpr { name: Option<String>, params: Vec<String>, ret: Option<Box<Expr>> },
}

/// A `key: value` property of an object literal.
#[derive(PartialEq, Eq, Debug)]
pub struct ObjectProperty {
    pub key: String,
    pub value: Expr,
}

/// The spec-level values of a sequence of expressions, element-wise.
pub open spec fn spec_exprs(s: Seq<Expr>) -> Seq<SpecExpr>
    decreases s,
{
    if s.len() == 0 {
        Seq::empty()
    } else {
        seq![s[0].spec()] + spec_exprs(s.subrange(1, s.len() as int))
    }
}

/// The spec-level values of a sequence of object properties, element-wise.
pub open spec fn spec_properties(s: Seq<ObjectProperty>) -> Seq<SpecObjectProperty>
    decreases s,
{
    if s.len() == 0 {
        Seq::empty()
    } else {
        seq![SpecObjectProperty { key: s[0].key@, value: s[0].value.spec() }] + spec_properties(
            s.subrange(1, s.len() as int),
        )
    }
}

/// Indexing [`spec_exprs`]: element-wise.
pub proof fn lemma_spec_exprs(s: Seq<Expr>)
    ensures
        spec_exprs(s).len() == s.len(),
        forall|i: int| 0 <= i < s.len() ==> #[trigger] spec_exprs(s)[i] == s[i].spec(),
    decreases s,
{
    if s.len() > 0 {
        lemma_spec_exprs(s.subrange(1, s.len() as int));
        assert forall|i: int| 0 <= i < s.len() implies #[trigger] spec_exprs(s)[i]
            == s[i].spec() by {
            if i > 0 {
                assert(s.subrange(1, s.len() as int)[i - 1] == s[i]);
            }
        }
    }
}

/// Indexing [`spec_properties`]: element-wise.
pub proof fn lemma_spec_properties(s: Seq<ObjectProperty>)
    ensures
        spec_properties(s).len() == s.len(),
        forall|i: int| 0 <= i < s.len() ==> #[trigger] spec_properties(s)[i]
            == (SpecObjectProperty { key: s[i].key@, value: s[i].value.spec() }),
    decreases s,
{
    if s.len() > 0 {
        lemma_spec_properties(s.subrange(1, s.len() as int));
        assert forall|i: int| 0 <= i < s.len() implies #[trigger] spec_properties(s)[i]
            == (SpecObjectProperty { key: s[i].key@, value: s[i].value.spec() }) by {
            if i > 0 {
                assert(s.subrange(1, s.len() as int)[i - 1] == s[i]);
            }
        }
    }
}

impl Expr {
    /// The spec-level value of this expression.
    pub open spec fn spec(self) -> SpecExpr
        decreases self,
    {
        match self {
            Expr::Ident { name } => SpecExpr::Ident { name: name@ },
            Expr::StrLit { value } => SpecExpr::StrLit { value: value@ },
            Expr::Call { callee, args } => SpecExpr::Call {
                callee: Box::new(callee.spec()),
                args: spec_exprs(args@),
            },
            Expr::Member { object, property } => SpecExpr::Member {
                object: Box::new(object.spec()),
                property: property@,
            },
            Expr::ObjectLit { properties } => SpecExpr::ObjectLit {
                properties: spec_properties(properties@),
            },
            Expr::LogicalOr { left, right } => SpecExpr::LogicalOr {
                left: Box::new(left.spec()),
                right: Box::new(right.spec()),
            },
            Expr::Paren { inner } => SpecExpr::Paren { inner: Box::new(inner.spec()) },
            Expr::NewExpr { callee, args } => SpecExpr::NewExpr {
                callee: Box::new(callee.spec()),
                args: spec_exprs(args@),
            },
            Expr::FunctionExpr { name, params, ret } => SpecExpr::FunctionExpr {
                name: match name {
                    Some(n) => Some(n@),
                    None => None,
                },
                params: Seq::new(params@.len(), |i: int| params@[i]@),
                ret: match ret {
                    Some(r) => Some(Box::new(r.spec())),
                    None => None,
                },
            },
        }
    }
}

impl ObjectProperty {
    /// The spec-level value of this property.
    pub open spec fn spec(self) -> SpecObjectProperty {
        SpecObjectProperty { key: self.key@, value: self.value.spec() }
    }
}

} // verus!

verus! {

/// A decorator: an `@`-prefixed expression attached to a class or parameter.
#[derive(PartialEq, Eq, Debug)]
pub struct Decorator {
    pub expression: Expr,
}

/// Spec-level mirror of [`Decorator`].
#[verifier::ext_equal]
pub struct SpecDecorator {
    pub expression: SpecExpr,
}

impl Decorator {
    pub open spec fn spec(self) -> SpecDecorator {
        SpecDecorator { expression: self.expression.spec() }
    }
}

/// The spec-level values of a sequence of decorators, element-wise.
pub open spec fn spec_decorators(s: Seq<Decorator>) -> Seq<SpecDecorator> {
    Seq::new(s.len(), |i: int| s[i].spec())
}

/// A type name in an annotation: a plain identifier or a dotted qualified
/// name.
#[derive(PartialEq, Eq, Debug)]
pub enum TypeName {
    Ident { name: String },
    Qualified { left: Box<TypeName>, right: String },
}

/// Spec-level mirror of [`TypeName`].
#[verifier::ext_equal]
pub enum SpecTypeName {
    Ident { name: Seq<char> },
    Qualified { left: Box<SpecTypeName>, right: Seq<char> },
}

impl TypeName {
    pub open spec fn spec(self) -> SpecTypeName
        decreases self,
    {
        match self {
            TypeName::Ident { name } => SpecTypeName::Ident { name: name@ },
            TypeName::Qualified { left, right } => SpecTypeName::Qualified {
                left: Box::new(left.spec()),
                right: right@,
            },
        }
    }
}

/// A constructor parameter: its decorators, its name, and its optional
/// declared type.
#[derive(PartialEq, Eq, Debug)]
pub struct Param {
    pub decorators: Vec<Decorator>,
    pub name: String,
    pub type_annotation: Option<TypeName>,
}

/// Spec-level mirror of [`Param`].
#[verifier::ext_equal]
pub struct SpecParam {
    pub decorators: Seq<SpecDecorator>,
    pub name: Seq<char>,
    pub type_annotation: Option<SpecTypeName>,
}

impl Param {
    pub open spec fn spec(self) -> SpecParam {
        SpecParam {
            decorators: spec_decorators(self.decorators@),
            name: self.name@,
            type_annotation: match self.type_annotation {
                Some(t) => Some(t.spec()),
                None => None,
            },
        }
    }
}

/// The spec-level values of a sequence of parameters, element-wise.
pub open spec fn spec_params(s: Seq<Param>) -> Seq<SpecParam> {
    Seq::new(s.len(), |i: int| s[i].spec())
}

/// What kind a class method is.
#[derive(Clone, Copy, PartialEq, Eq, Structural, Debug)]
pub enum MethodKind {
    Constructor,
    Method,
}

/// A method of a class body.
#[derive(PartialEq, Eq, Debug)]
pub struct MethodDef {
    pub kind: MethodKind,
    pub key: String,
    pub params: Vec<Param>,
}

/// Spec-level mirror of [`MethodDef`].
#[verifier::ext_equal]
pub struct SpecMethodDef {
    pub kind: MethodKind,
    pub key: Seq<char>,
    pub params: Seq<SpecParam>,
}

impl MethodDef {
    pub open spec fn spec(self) -> SpecMethodDef {
        SpecMethodDef { kind: self.kind, key: self.key@, params: spec_params(self.params@) }
    }
}

/// A property of a class body: its key, optional initializer, and whether
/// it is static.
#[derive(PartialEq, Eq, Debug)]
pub struct PropertyDef {
    pub key: String,
    pub value: Option<Expr>,
    pub is_static: bool,
}

/// Spec-level mirror of [`PropertyDef`].
#[verifier::ext_equal]
pub struct SpecPropertyDef {
    pub key: Seq<char>,
    pub value: Option<SpecExpr>,
    pub is_static: bool,
}

impl PropertyDef {
    pub open spec fn spec(self) -> SpecPropertyDef {
        SpecPropertyDef {
            key: self.key@,
            value: match self.value {
                Some(e) => Some(e.spec()),
                None => None,
            },
            is_static: self.is_static,
        }
    }
}

/// One element of a class body.
#[derive(PartialEq, Eq, Debug)]
pub enum ClassElement {
    Method(MethodDef),
    Property(PropertyDef),
}

/// Spec-level mirror of [`ClassElement`].
#[verifier::ext_equal]
pub enum SpecClassElement {
    Method(SpecMethodDef),
    Property(SpecPropertyDef),
}

impl ClassElement {
    pub open spec fn spec(self) -> SpecClassElement {
        match self {
            ClassElement::Method(m) => SpecClassElement::Method(m.spec()),
            ClassElement::Property(p) => SpecClassElement::Property(p.spec()),
        }
    }
}

/// The spec-level values of a sequence of class elements, element-wise.
pub open spec fn spec_elements(s: Seq<ClassElement>) -> Seq<SpecClassElement> {
    Seq::new(s.len(), |i: int| s[i].spec())
}

/// A class declaration: its optional name, its decorators, and its body.
#[derive(PartialEq, Eq, Debug)]
pub struct Class {
    pub id: Option<String>,
    pub decorators: Vec<Decorator>,
    pub body: Vec<ClassElement>,
}

/// Spec-level mirror of [`Class`].
#[verifier::ext_equal]
pub struct SpecClass {
    pub id: Option<Seq<char>>,
    pub decorators: Seq<SpecDecorator>,
    pub body: Seq<SpecClassElement>,
}

impl Class {
    pub open spec fn spec(self) -> SpecClass {
        SpecClass {
            id: match self.id {
                Some(n) => Some(n@),
                None => None,
            },
            decorators: spec_decorators(self.decorators@),
            body: spec_elements(self.body@),
        }
    }
}

/// One named import of an import declaration.
#[derive(PartialEq, Eq, Debug)]
pub struct ImportSpecifier {
    pub imported: String,
    pub local: String,
}

/// Spec-level mirror of [`ImportSpecifier`].
#[verifier::ext_equal]
pub struct SpecImportSpecifier {
    pub imported: Seq<char>,
    pub local: Seq<char>,
}

impl ImportSpecifier {
    pub open spec fn spec(self) -> SpecImportSpecifier {
        SpecImportSpecifier { imported: self.imported@, local: self.local@ }
    }
}

/// One specifier of an import declaration: a named import, the default
/// import, or a namespace import (the latter two by their local name).
#[derive(PartialEq, Eq, Debug)]
pub enum ImportEntry {
    Named(ImportSpecifier),
    Default(String),
    Namespace(String),
}

/// Spec-level mirror of [`ImportEntry`].
#[verifier::ext_equal]
pub enum SpecImportEntry {
    Named(SpecImportSpecifier),
    Default(Seq<char>),
    Namespace(Seq<char>),
}

impl ImportEntry {
    pub open spec fn spec(self) -> SpecImportEntry {
        match self {
            ImportEntry::Named(s) => SpecImportEntry::Named(s.spec()),
            ImportEntry::Default(l) => SpecImportEntry::Default(l@),
            ImportEntry::Namespace(l) => SpecImportEntry::Namespace(l@),
        }
    }
}

/// The spec-level values of a sequence of import entries, element-wise.
pub open spec fn spec_specifiers(s: Seq<ImportEntry>) -> Seq<SpecImportEntry> {
    Seq::new(s.len(), |i: int| s[i].spec())
}

/// An import declaration: its module source and its specifiers.
#[derive(PartialEq, Eq, Debug)]
pub struct ImportDecl {
    pub source: String,
    pub specifiers: Option<Vec<ImportEntry>>,
}

/// Spec-level mirror of [`ImportDecl`].
#[verifier::ext_equal]
pub struct SpecImportDecl {
    pub source: Seq<char>,
    pub specifiers: Option<Seq<SpecImportEntry>>,
}

impl ImportDecl {
    pub open spec fn spec(self) -> SpecImportDecl {
        SpecImportDecl {
            source: self.source@,
            specifiers: match self.specifiers {
                Some(v) => Some(spec_specifiers(v@)),
                None => None,
            },
        }
    }
}

/// A top-level statement of the modelled program: the shapes the transform
/// visits, and an opaque remainder for everything else.
#[derive(PartialEq, Eq, Debug)]
pub enum Statement {
    Import(ImportDecl),
    ClassDecl(Class),
    Other(String),
}

/// Spec-level mirror of [`Statement`].
#[verifier::ext_equal]
pub enum SpecStatement {
    Import(SpecImportDecl),
    ClassDecl(SpecClass),
    Other(Seq<char>),
}

impl Statement {
    pub open spec fn spec(self) -> SpecStatement {
        match self {
            Statement::Import(d) => SpecStatement::Import(d.spec()),
            Statement::ClassDecl(c) => SpecStatement::ClassDecl(c.spec()),
            Statement::Other(t) => SpecStatement::Other(t@),
        }
    }
}

/// The spec-level values of a sequence of statements, element-wise.
pub open spec fn spec_statements(s: Seq<Statement>) -> Seq<SpecStatement> {
    Seq::new(s.len(), |i: int| s[i].spec())
}

/// A whole parsed program: its top-level statements.
#[derive(PartialEq, Eq, Debug)]
pub struct Program {
    pub statements: Vec<Statement>,
}

/// Spec-level mirror of [`Program`].
#[verifier::ext_equal]
pub struct SpecProgram {
    pub statements: Seq<SpecStatement>,
}

impl Program {
    pub open spec fn spec(self) -> SpecProgram {
        SpecProgram { statements: spec_statements(self.statements@) }
    }
}

} // verus!
