//! Transform core of a source-to-source compiler for component-oriented UI
//! class declarations: a mixed-content lexer that splits an authoring file
//! into typed script / style / markup / interpolation segments, a control-flow
//! sub-reader for `@`-prefixed regions, and a decorator-to-runtime transform
//! that rewrites decorator-annotated classes into dependency-injection
//! factories and injectable provider descriptors.

mod angular;
mod ast;
mod content;
mod context;
mod decorators;
mod dependency;
mod html_parser;
mod html_tokenizer;
mod injectable;
mod lexer;
mod markup;
mod meta;
mod mixed;
mod parser;
mod pass;
mod runtime;
mod script;
mod splitter;
mod text;
mod token;
mod visitor;

pub use angular::{
    lemma_transform_idempotent, spec_entry_removed, spec_names, spec_program_diags,
    spec_removed_names, spec_retain_specifiers, spec_stmt_diags, spec_stmt_rel, spec_strip_import,
    spec_visit_class, Angular,
};
pub use ast::{spec_nodes, Ast, AstNode, SpecAstNode};
pub use content::{
    block_end, cf_keyword_at, content_fail_at, content_token_at, for_scan, if_scan,
    segment_content, spec_block_contents, spec_cf_cases, spec_contents, switch_cases, switch_scan,
    text_end, tokenized, ControlFlowContent, HtmlContent, Lexer as ContentLexer, SpecCfContent,
    SpecContentToken, SpecHtmlContent, Token as ContentToken,
};
pub use context::{spec_diagnostics, AngularCtx, Diagnostic, DiagnosticKind, SpecDiagnostic};
pub use decorators::{
    default_options, spec_classify_param, spec_first_arg_ident, spec_first_options,
    spec_from_properties, spec_parse_decorator, spec_property_decorator, spec_scope,
    spec_top_level, InjectableOptions, InjectableProvider, ParamDecorator, PropertyDecorator,
    ProviderScope, SpecParamDecorator, TopLevelDecorator,
};
pub use dependency::{
    classify_decorators, is_idempotent_factory_shape, lemma_factory_shape, lemma_injection_order,
    lemma_modifier_injection_order, spec_class_of, spec_classified, spec_ctor_params,
    spec_decorator_ident, spec_di_diags, spec_di_tokens, spec_di_transform, spec_diags_of_params,
    spec_factory_member, spec_factory_name, spec_fill, spec_fill_all, spec_first_ctor,
    spec_inject_args, spec_inject_call, spec_inject_contribution, spec_inject_tokens, spec_kept,
    spec_modifier_token, spec_param_diag, spec_param_tokens, spec_param_unresolved, spec_pairs,
    spec_pds, spec_recognized, spec_recognized_of, spec_strip_param, spec_strip_params,
    spec_tokens_of_params, spec_type_text, spec_unrecognized, spec_with_token,
    DependencyInjection,
};
pub use html_parser::{
    spec_dom, spec_dom_build, spec_dom_nodes, spec_dom_step, DomNode, ElementNode,
    Parser as DomParser, SpecDomNode, SpecElementNode, SpecFrame,
};
pub use html_tokenizer::{
    spec_position, spec_step, Attribute as PositionedAttribute, ControlFlowKind as HtmlControlFlowKind,
    HtmlTokenizer as PositionedHtmlTokenizer, Position, SpecCfKind, SpecTokenKind as SpecHtmlTokenKind,
    Token as PositionedToken, TokenKind as HtmlTokenKind,
};
pub use injectable::{
    lemma_scope_omission, spec_first_injectable, spec_has_factory, spec_ic_transform,
    spec_provider_member, spec_provider_properties, InjectableCreator, TransformError,
};
pub use lexer::{
    chain, concat_with_gaps, interp_scan, js_scan, lemma_segment_coverage,
    lemma_string_literal_immunity, lemma_terminator_ends_segment, lemma_tiles_cover, lex_step,
    markup_scan, style_scan, tiles, views_of, InterpMode, JsMode, Lexer, LexerState, MarkupPhase,
    ScanEnd, StepResult,
};
pub use markup::{
    attrs_scan, char_from, name_end, spec_attrs, spec_next_token, Attribute, HtmlTokenizer,
    SpecMarkupToken, Token as MarkupToken,
};
pub use meta::{
    spec_change_detection, spec_handler_of, spec_input_flags, spec_input_flags_code,
    spec_meta_matches, spec_view_encapsulation, AnyNgTraitHandler, ChangeDetectionStrategy,
    ComponentHandler, ComponentMeta, Declaration, DirectiveHandler, DirectiveInputValue,
    DirectiveMeta, Export, HostDirective, Import, InjectableHandler, InjectableMeta, InputFlags,
    InputTransformFunction, ModuleMeta, NgModuleHandler, NgModuleMeta, NgTrait, NgTraitHandlerFactory,
    NgTraitMeta, PipeHandler, PipeMeta, Provider, ProvidedIn, SchemaMetadata, StandaloneMeta, Type,
    ViewEncapsulation,
};
pub use mixed::{
    content_run, content_trace, parse_mixed_content, spec_texts, toks_css, toks_html, toks_js,
    ParsedContent,
};
pub use parser::{spec_cf_node, spec_defer_node, spec_node_of, spec_parse_tokens, Parser};
pub use pass::TreatyAuthoring;
pub use runtime::{spec_runtime_name, Identifier};
pub use script::{
    spec_decorators, spec_elements, spec_exprs, spec_params, spec_properties, spec_specifiers,
    spec_statements, Class, ClassElement, Decorator, Expr, ImportDecl, ImportEntry,
    ImportSpecifier, MethodDef,
    MethodKind, ObjectProperty, Param, Program, PropertyDef, SpecClass, SpecClassElement,
    SpecDecorator, SpecExpr, SpecImportDecl, SpecImportEntry, SpecImportSpecifier, SpecMethodDef,
    SpecObjectProperty,
    SpecParam, SpecProgram, SpecPropertyDef, SpecStatement, SpecTypeName, Statement, TypeName,
};
pub use splitter::{
    lemma_script_lines_verbatim, parse_mixed_content as split_mixed_content, spec_lines_from,
    spec_parse_mixed, spec_split_fold, spec_split_step, split_init, split_lines,
    ParsedContent as SplitContent, SplitAcc,
};
pub use text::{
    all_ws, find_from, is_word, is_ws, starts_at, str_eq, trim_spec, trim_str, ws_end,
};
pub use token::{
    ControlFlowKind, DeferKind, LexError, SpecToken, SpecTokenKind, Token, TokenKind,
};
pub use visitor::{
    config_fields, plugin_options_from_config, spec_lookup, spec_member_trait, spec_mode_of_config,
    spec_trait_name, spec_visitor_kept, CompilationMode, PluginOptions, TransformVisitor,
};
