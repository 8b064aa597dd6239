//! The closed set of class-role handlers and their metadata records: one
//! variant per runtime role (component / directive / injectable / module /
//! pipe), resolved by matching on a tagged union rather than virtual
//! dispatch.  Values that the original metadata held behind type-erased
//! pointers are modelled by their printable token names.

use vstd::prelude::*;

use crate::script::{spec_elements, Class, Expr};
use crate::text::str_eq;

verus! {

/// Marker for values usable as runtime types in metadata positions.
pub trait Type<T> {

}

/// Schema metadata a module may declare.
#[derive(Clone, Copy, PartialEq, Eq, Structural, Debug)]
pub enum SchemaMetadata {
    NoErrorsSchema,
    CustomElementsSchema,
}

/// A provider registration: how a token resolves to a value at runtime.
/// Provided values, classes and factories are carried by their token names.
#[derive(Clone, PartialEq, Eq, Debug)]
pub enum Provider {
    Value { provide: String, use_value: String },
    Class { provide: String, use_class: String },
    Factory { provide: String, use_factory: String, deps: Vec<String> },
    Existing { provide: String, use_existing: String },
}

impl Provider {
    pub fn value(provide: String, use_value: String) -> (r: Provider)
        ensures
            r == (Provider::Value { provide, use_value }),
    {
        Provider::Value { provide, use_value }
    }

    pub fn class(provide: String, use_class: String) -> (r: Provider)
        ensures
            r == (Provider::Class { provide, use_class }),
    {
        Provider::Class { provide, use_class }
    }

    pub fn factory(provide: String, use_factory: String, deps: Vec<String>) -> (r: Provider)
        ensures
            r == (Provider::Factory { provide, use_factory, deps }),
    {
        Provider::Factory { provide, use_factory, deps }
    }

    pub fn existing(provide: String, use_existing: String) -> (r: Provider)
        ensures
            r == (Provider::Existing { provide, use_existing }),
    {
        Provider::Existing { provide, use_existing }
    }
}

/// A declared member of a module, by token name.
#[derive(Clone, PartialEq, Eq, Debug)]
pub enum Declaration {
    Component(String),
    Directive(String),
    Pipe(String),
}

/// An import of a module, by token name.
#[derive(Clone, PartialEq, Eq, Debug)]
pub enum Import {
    Module(String),
}

/// An export of a module, by token name.
#[derive(Clone, PartialEq, Eq, Debug)]
pub enum Export {
    Component(String),
    Directive(String),
    Pipe(String),
    Module(String),
}

/// When change detection runs for a component.
#[derive(Clone, Copy, PartialEq, Eq, Structural, Debug)]
pub enum ChangeDetectionStrategy {
    OnPush,
    Default,
}

/// The strategy named by a string: `OnPush` by name, anything else the
/// default.
pub open spec fn spec_change_detection(value: Seq<char>) -> Option<ChangeDetectionStrategy> {
    if value == "OnPush"@ {
        Some(ChangeDetectionStrategy::OnPush)
    } else {
        Some(ChangeDetectionStrategy::Default)
    }
}

impl ChangeDetectionStrategy {
    pub fn from_str(value: &str) -> (r: Option<ChangeDetectionStrategy>)
        ensures
            r == spec_change_detection(value@),
    {
        if str_eq(value, "OnPush") {
            Some(ChangeDetectionStrategy::OnPush)
        } else {
            Some(ChangeDetectionStrategy::Default)
        }
    }
}

/// How a component's styles are scoped.  `NoEncapsulation` is the variant
/// the framework spells `None`.
#[derive(Clone, Copy, PartialEq, Eq, Structural, Debug)]
pub enum ViewEncapsulation {
    Emulated,
    NoEncapsulation,
    ShadowDom,
}

/// The encapsulation named by a string, if any.
pub open spec fn spec_view_encapsulation(value: Seq<char>) -> Option<ViewEncapsulation> {
    if value == "Emulated"@ {
        Some(ViewEncapsulation::Emulated)
    } else if value == "None"@ {
        Some(ViewEncapsulation::NoEncapsulation)
    } else if value == "ShadowDom"@ {
        Some(ViewEncapsulation::ShadowDom)
    } else {
        Option::None
    }
}

impl ViewEncapsulation {
    pub fn from_str(value: &str) -> (r: Option<ViewEncapsulation>)
        ensures
            r == spec_view_encapsulation(value@),
    {
        if str_eq(value, "Emulated") {
            Some(ViewEncapsulation::Emulated)
        } else if str_eq(value, "None") {
            Some(ViewEncapsulation::NoEncapsulation)
        } else if str_eq(value, "ShadowDom") {
            Some(ViewEncapsulation::ShadowDom)
        } else {
            None
        }
    }
}

/// The five runtime roles a decorated class can play.
#[derive(Clone, Copy, PartialEq, Eq, Structural, Debug)]
pub enum NgTrait {
    Component,
    Directive,
    Injectable,
    NgModule,
    Pipe,
}

/// The metadata parsed for each role.
#[derive(Debug)]
pub enum NgTraitMeta {
    Directive(DirectiveMeta),
    Component(ComponentMeta),
    Injectable(InjectableMeta),
    Pipe(PipeMeta),
    NgModule(NgModuleMeta),
}

/// Metadata of a pipe.
#[derive(Clone, PartialEq, Eq, Debug)]
pub struct PipeMeta {
    pub standalone: StandaloneMeta,
    pub name: String,
    pub pure: Option<bool>,
}

/// Whether a declarable is standalone.
#[derive(Clone, Copy, PartialEq, Eq, Structural, Debug)]
pub struct StandaloneMeta {
    pub standalone: Option<bool>,
}

impl StandaloneMeta {
    pub fn new(standalone: Option<bool>) -> (r: StandaloneMeta)
        ensures
            r == (StandaloneMeta { standalone }),
    {
        StandaloneMeta { standalone }
    }
}

/// Flags qualifying a directive input.  `Unflagged` is the zero value.
#[derive(Clone, Copy, PartialEq, Eq, Structural, Debug)]
pub enum InputFlags {
    Unflagged,
    SignalBased,
    HasDecoratorInputTransform,
}

/// The flag encoded by an integer, if any.
pub open spec fn spec_input_flags(value: i32) -> Option<InputFlags> {
    if value == 0 {
        Some(InputFlags::Unflagged)
    } else if value == 1 {
        Some(InputFlags::SignalBased)
    } else if value == 2 {
        Some(InputFlags::HasDecoratorInputTransform)
    } else {
        Option::None
    }
}

/// The integer encoding of a flag.
pub open spec fn spec_input_flags_code(f: InputFlags) -> i32 {
    match f {
        InputFlags::Unflagged => 0,
        InputFlags::SignalBased => 1,
        InputFlags::HasDecoratorInputTransform => 2,
    }
}

impl InputFlags {
    pub fn from_i32(value: i32) -> (r: Option<InputFlags>)
        ensures
            r == spec_input_flags(value),
    {
        if value == 0 {
            Some(InputFlags::Unflagged)
        } else if value == 1 {
            Some(InputFlags::SignalBased)
        } else if value == 2 {
            Some(InputFlags::HasDecoratorInputTransform)
        } else {
            None
        }
    }

    pub fn to_i32(self) -> (r: i32)
        ensures
            r == spec_input_flags_code(self),
            spec_input_flags(r) == Some(self),
    {
        match self {
            InputFlags::Unflagged => 0,
            InputFlags::SignalBased => 1,
            InputFlags::HasDecoratorInputTransform => 2,
        }
    }
}

/// A transform attached to an input (modelled as an opaque marker).
#[derive(Clone, Copy, PartialEq, Eq, Structural, Debug)]
pub struct InputTransformFunction;

/// The value bound to one directive input.
#[derive(Clone, PartialEq, Eq, Debug)]
pub enum DirectiveInputValue {
    Simple(String),
    Detailed {
        flags: InputFlags,
        public_name: String,
        declared_name: Option<String>,
        transform: Option<InputTransformFunction>,
    },
}

/// A host directive applied by a directive.
#[derive(Clone, PartialEq, Eq, Debug)]
pub enum HostDirective {
    Type(String),
    Detailed { directive: String, inputs: Option<Vec<String>>, outputs: Option<Vec<String>> },
}

/// Metadata of a module (richer form): its members by token name.  Keys that
/// the framework keeps in maps are held as ordered key-value lists.
#[derive(Clone, PartialEq, Eq, Debug)]
pub struct NgModuleMeta {
    pub bootstrap: Vec<String>,
    pub declarations: Vec<Declaration>,
    pub imports: Vec<Import>,
    pub exports: Vec<Export>,
    pub providers: Vec<Provider>,
    pub id: Option<String>,
    pub schemas: Vec<SchemaMetadata>,
}

/// Metadata of a module (older, minimal form).
#[derive(Clone, PartialEq, Eq, Debug)]
pub struct ModuleMeta {
    pub imports: Vec<String>,
    pub declare: Vec<String>,
}

/// Metadata of a directive.
#[derive(Clone, PartialEq, Eq, Debug)]
pub struct DirectiveMeta {
    pub selector: String,
    pub inputs: Vec<(String, DirectiveInputValue)>,
    pub outputs: Vec<String>,
    pub providers: Vec<Provider>,
    pub export_as: Option<String>,
    pub queries: Vec<(String, String)>,
    pub host: Vec<(String, String)>,
    pub jit: Option<bool>,
    pub standalone: StandaloneMeta,
    pub host_directives: Vec<HostDirective>,
}

/// Metadata of a component: a directive plus template and style fields.
#[derive(Clone, PartialEq, Eq, Debug)]
pub struct ComponentMeta {
    pub directive: DirectiveMeta,
    pub template_url: Option<String>,
    pub template: Option<String>,
    pub style_urls: Vec<String>,
    pub styles: Vec<String>,
    pub animations: Vec<String>,
    pub encapsulation: Option<ViewEncapsulation>,
    pub interpolation: Option<(String, String)>,
    pub preserve_whitespaces: Option<bool>,
    pub standalone: Option<bool>,
    pub imports: Vec<String>,
}

/// Where an injectable is provided.
#[derive(Clone, PartialEq, Eq, Debug)]
pub enum ProvidedIn {
    Type(String),
    Root,
    Platform,
    Any,
    Null,
}

/// Metadata of an injectable.
#[derive(Clone, PartialEq, Eq, Debug)]
pub struct InjectableMeta {
    pub provided_in: ProvidedIn,
}

} // verus!

verus! {

/// Handler of `Component` classes.
pub struct ComponentHandler;

/// Handler of `Directive` classes.
pub struct DirectiveHandler;

/// Handler of `Injectable` classes.
pub struct InjectableHandler;

/// Handler of `NgModule` classes.
pub struct NgModuleHandler;

/// Handler of `Pipe` classes.
pub struct PipeHandler;

impl DirectiveHandler {
    /// Parse directive metadata from a decorator's call arguments.  Only the
    /// record's shape is produced so far: a placeholder selector and empty
    /// member lists.
    pub fn parse(&self, node: &Vec<Expr>) -> (r: Result<DirectiveMeta, String>)
        ensures
            r matches Ok(m) ==> m.selector@ == "dummy_selector"@ && m.inputs@.len() == 0
                && m.outputs@.len() == 0 && m.providers@.len() == 0 && m.export_as is None
                && m.queries@.len() == 0 && m.host@.len() == 0 && m.jit is None
                && m.standalone.standalone is None && m.host_directives@.len() == 0,
            r is Ok,
    {
        let _ = node;
        Ok(
            DirectiveMeta {
                selector: String::from_str("dummy_selector"),
                inputs: Vec::new(),
                outputs: Vec::new(),
                providers: Vec::new(),
                export_as: None,
                queries: Vec::new(),
                host: Vec::new(),
                jit: None,
                standalone: StandaloneMeta::new(None),
                host_directives: Vec::new(),
            },
        )
    }

    pub fn transform_to_ivy(&self, meta: &DirectiveMeta, class: &mut Class) -> (r: Result<
        (),
        String,
    >)
        ensures
            r is Ok,
            final(class).spec() == old(class).spec(),
    {
        let _ = meta;
        Ok(())
    }

    pub fn transform_to_jit(&self, meta: &DirectiveMeta, class: &mut Class) -> (r: Result<
        (),
        String,
    >)
        ensures
            r is Ok,
            final(class).spec() == old(class).spec(),
    {
        let _ = meta;
        Ok(())
    }
}

impl ComponentHandler {
    /// Parse component metadata: the common directive metadata, extended
    /// with yet-unfilled template and style fields.
    pub fn parse(&self, node: &Vec<Expr>) -> (r: Result<ComponentMeta, String>)
        ensures
            r matches Ok(m) ==> m.directive.selector@ == "dummy_selector"@ && m.template_url
                is None && m.template is None && m.style_urls@.len() == 0 && m.styles@.len() == 0
                && m.animations@.len() == 0 && m.encapsulation is None && m.interpolation is None
                && m.preserve_whitespaces is None && m.standalone is None && m.imports@.len() == 0,
            r is Ok,
    {
        let directive_handler = DirectiveHandler;
        let directive_result = directive_handler.parse(node);
        match directive_result {
            Ok(directive_meta) => Ok(
                ComponentMeta {
                    directive: directive_meta,
                    template_url: None,
                    template: None,
                    style_urls: Vec::new(),
                    styles: Vec::new(),
                    animations: Vec::new(),
                    encapsulation: None,
                    interpolation: None,
                    preserve_whitespaces: None,
                    standalone: None,
                    imports: Vec::new(),
                },
            ),
            _ => Err(String::from_str("Failed to parse directive metadata for component")),
        }
    }

    pub fn transform_to_ivy(&self, meta: &ComponentMeta, class: &mut Class) -> (r: Result<
        (),
        String,
    >)
        ensures
            r is Ok,
            final(class).spec() == old(class).spec(),
    {
        let _ = meta;
        Ok(())
    }

    pub fn transform_to_jit(&self, meta: &ComponentMeta, class: &mut Class) -> (r: Result<
        (),
        String,
    >)
        ensures
            r is Ok,
            final(class).spec() == old(class).spec(),
    {
        let _ = meta;
        Ok(())
    }
}

impl InjectableHandler {
    /// Parse injectable metadata; the scope argument is not yet read, so the
    /// root scope stands in.
    pub fn parse(&self, node: &Vec<Expr>) -> (r: Result<InjectableMeta, String>)
        ensures
            r matches Ok(m) && m == (InjectableMeta { provided_in: ProvidedIn::Root }),
    {
        let _ = node;
        Ok(InjectableMeta { provided_in: ProvidedIn::Root })
    }

    pub fn transform_to_ivy(&self, meta: &InjectableMeta, class: &mut Class) -> (r: Result<
        (),
        String,
    >)
        ensures
            r is Ok,
            final(class).spec() == old(class).spec(),
    {
        let _ = meta;
        Ok(())
    }

    pub fn transform_to_jit(&self, meta: &InjectableMeta, class: &mut Class) -> (r: Result<
        (),
        String,
    >)
        ensures
            r is Ok,
            final(class).spec() == old(class).spec(),
    {
        let _ = meta;
        Ok(())
    }
}

impl NgModuleHandler {
    /// Parsing module metadata is not implemented; every call reports so.
    pub fn parse(&self, node: &Vec<Expr>) -> (r: Result<NgModuleMeta, String>)
        ensures
            r matches Err(m) && m@ == "Parsing NgModule metadata is not implemented"@,
    {
        let _ = node;
        Err(String::from_str("Parsing NgModule metadata is not implemented"))
    }

    pub fn transform_to_ivy(&self, meta: &NgModuleMeta, class: &mut Class) -> (r: Result<
        (),
        String,
    >)
        ensures
            r is Ok,
            final(class).spec() == old(class).spec(),
    {
        let _ = meta;
        Ok(())
    }

    pub fn transform_to_jit(&self, meta: &NgModuleMeta, class: &mut Class) -> (r: Result<
        (),
        String,
    >)
        ensures
            r is Ok,
            final(class).spec() == old(class).spec(),
    {
        let _ = meta;
        Ok(())
    }
}

impl PipeHandler {
    /// Parse pipe metadata; only the record's shape is produced so far.
    pub fn parse(&self, node: &Vec<Expr>) -> (r: Result<PipeMeta, String>)
        ensures
            r matches Ok(m) ==> m.standalone.standalone is None && m.name@ == Seq::<
                char,
            >::empty() && m.pure is None,
            r is Ok,
    {
        let _ = node;
        Ok(PipeMeta { standalone: StandaloneMeta::new(None), name: String::new(), pure: None })
    }

    pub fn transform_to_ivy(&self, meta: &PipeMeta, class: &mut Class) -> (r: Result<(), String>)
        ensures
            r is Ok,
            final(class).spec() == old(class).spec(),
    {
        let _ = meta;
        Ok(())
    }

    pub fn transform_to_jit(&self, meta: &PipeMeta, class: &mut Class) -> (r: Result<(), String>)
        ensures
            r is Ok,
            final(class).spec() == old(class).spec(),
    {
        let _ = meta;
        Ok(())
    }
}

/// The closed union of the five handlers: each role's behaviour is resolved
/// by matching, not virtual dispatch.
pub enum AnyNgTraitHandler {
    Component(ComponentHandler),
    Directive(DirectiveHandler),
    Injectable(InjectableHandler),
    NgModule(NgModuleHandler),
    Pipe(PipeHandler),
}

/// Whether a handler and a metadata record belong to the same role.
pub open spec fn spec_meta_matches(h: AnyNgTraitHandler, meta: NgTraitMeta) -> bool {
    match h {
        AnyNgTraitHandler::Component(_) => meta is Component,
        AnyNgTraitHandler::Directive(_) => meta is Directive,
        AnyNgTraitHandler::Injectable(_) => meta is Injectable,
        AnyNgTraitHandler::NgModule(_) => meta is NgModule,
        AnyNgTraitHandler::Pipe(_) => meta is Pipe,
    }
}

impl AnyNgTraitHandler {
    /// Parse a decorator's call arguments into this handler's metadata.
    /// Succeeds for every role whose parser is implemented; the module
    /// handler's parser reports that it is not.
    pub fn parse(&self, node: &Vec<Expr>) -> (r: Result<NgTraitMeta, String>)
        ensures
            r matches Ok(m) ==> spec_meta_matches(*self, m),
            r is Ok <==> !(self is NgModule),
            r matches Err(m) ==> m@ == "Parsing NgModule metadata is not implemented"@,
    {
        match self {
            AnyNgTraitHandler::Component(handler) => match handler.parse(node) {
                Ok(m) => Ok(NgTraitMeta::Component(m)),
                Err(e) => Err(e),
            },
            AnyNgTraitHandler::Directive(handler) => match handler.parse(node) {
                Ok(m) => Ok(NgTraitMeta::Directive(m)),
                Err(e) => Err(e),
            },
            AnyNgTraitHandler::Injectable(handler) => match handler.parse(node) {
                Ok(m) => Ok(NgTraitMeta::Injectable(m)),
                Err(e) => Err(e),
            },
            AnyNgTraitHandler::Pipe(handler) => match handler.parse(node) {
                Ok(m) => Ok(NgTraitMeta::Pipe(m)),
                Err(e) => Err(e),
            },
            AnyNgTraitHandler::NgModule(handler) => match handler.parse(node) {
                Ok(m) => Ok(NgTraitMeta::NgModule(m)),
                Err(e) => Err(e),
            },
        }
    }

    /// Apply this handler's ahead-of-time transform to a class.  Succeeds,
    /// leaving the class unchanged, exactly when the metadata belongs to
    /// this handler's role; a mismatched record is an error.
    pub fn transform_to_ivy(&self, meta: &NgTraitMeta, class: &mut Class) -> (r: Result<
        (),
        String,
    >)
        ensures
            r is Ok <==> spec_meta_matches(*self, *meta),
            final(class).spec() == old(class).spec(),
            r matches Err(e) ==> e@ == "Mismatched meta type for ComponentHandler"@,
    {
        match self {
            AnyNgTraitHandler::Component(handler) => {
                if let NgTraitMeta::Component(c_meta) = meta {
                    handler.transform_to_ivy(c_meta, class)
                } else {
                    Err(String::from_str("Mismatched meta type for ComponentHandler"))
                }
            },
            AnyNgTraitHandler::Directive(handler) => {
                if let NgTraitMeta::Directive(c_meta) = meta {
                    handler.transform_to_ivy(c_meta, class)
                } else {
                    Err(String::from_str("Mismatched meta type for ComponentHandler"))
                }
            },
            AnyNgTraitHandler::Injectable(handler) => {
                if let NgTraitMeta::Injectable(c_meta) = meta {
                    handler.transform_to_ivy(c_meta, class)
                } else {
                    Err(String::from_str("Mismatched meta type for ComponentHandler"))
                }
            },
            AnyNgTraitHandler::NgModule(handler) => {
                if let NgTraitMeta::NgModule(c_meta) = meta {
                    handler.transform_to_ivy(c_meta, class)
                } else {
                    Err(String::from_str("Mismatched meta type for ComponentHandler"))
                }
            },
            AnyNgTraitHandler::Pipe(handler) => {
                if let NgTraitMeta::Pipe(c_meta) = meta {
                    handler.transform_to_ivy(c_meta, class)
                } else {
                    Err(String::from_str("Mismatched meta type for ComponentHandler"))
                }
            },
        }
    }

    /// Apply this handler's just-in-time transform to a class; same success
    /// condition as the ahead-of-time form.
    pub fn transform_to_jit(&self, meta: &NgTraitMeta, class: &mut Class) -> (r: Result<
        (),
        String,
    >)
        ensures
            r is Ok <==> spec_meta_matches(*self, *meta),
            final(class).spec() == old(class).spec(),
            r matches Err(e) ==> e@ == "Mismatched meta type for ComponentHandler"@,
    {
        match self {
            AnyNgTraitHandler::Component(handler) => {
                if let NgTraitMeta::Component(c_meta) = meta {
                    handler.transform_to_jit(c_meta, class)
                } else {
                    Err(String::from_str("Mismatched meta type for ComponentHandler"))
                }
            },
            AnyNgTraitHandler::Directive(handler) => {
                if let NgTraitMeta::Directive(c_meta) = meta {
                    handler.transform_to_jit(c_meta, class)
                } else {
                    Err(String::from_str("Mismatched meta type for ComponentHandler"))
                }
            },
            AnyNgTraitHandler::Injectable(handler) => {
                if let NgTraitMeta::Injectable(c_meta) = meta {
                    handler.transform_to_jit(c_meta, class)
                } else {
                    Err(String::from_str("Mismatched meta type for ComponentHandler"))
                }
            },
            AnyNgTraitHandler::NgModule(handler) => {
                if let NgTraitMeta::NgModule(c_meta) = meta {
                    handler.transform_to_jit(c_meta, class)
                } else {
                    Err(String::from_str("Mismatched meta type for ComponentHandler"))
                }
            },
            AnyNgTraitHandler::Pipe(handler) => {
                if let NgTraitMeta::Pipe(c_meta) = meta {
                    handler.transform_to_jit(c_meta, class)
                } else {
                    Err(String::from_str("Mismatched meta type for ComponentHandler"))
                }
            },
        }
    }
}

/// Resolves each role to its handler.
pub struct NgTraitHandlerFactory;

/// The handler variant of each role.
pub open spec fn spec_handler_of(t: NgTrait) -> AnyNgTraitHandler {
    match t {
        NgTrait::Component => AnyNgTraitHandler::Component(ComponentHandler),
        NgTrait::Directive => AnyNgTraitHandler::Directive(DirectiveHandler),
        NgTrait::Injectable => AnyNgTraitHandler::Injectable(InjectableHandler),
        NgTrait::NgModule => AnyNgTraitHandler::NgModule(NgModuleHandler),
        NgTrait::Pipe => AnyNgTraitHandler::Pipe(PipeHandler),
    }
}

impl NgTraitHandlerFactory {
    pub fn get_handler(trait_type: &NgTrait) -> (r: AnyNgTraitHandler)
        ensures
            r == spec_handler_of(*trait_type),
    {
        match trait_type {
            NgTrait::Component => AnyNgTraitHandler::Component(ComponentHandler),
            NgTrait::Directive => AnyNgTraitHandler::Directive(DirectiveHandler),
            NgTrait::Injectable => AnyNgTraitHandler::Injectable(InjectableHandler),
            NgTrait::NgModule => AnyNgTraitHandler::NgModule(NgModuleHandler),
            NgTrait::Pipe => AnyNgTraitHandler::Pipe(PipeHandler),
        }
    }
}

} // verus!
