//! The calls into oxc: parsing (to an ESTree tree of plain values), scope
//! analysis, TypeScript/decorator/JSX lowering and code generation. Each
//! takes and returns plain values; everything the passes decide is verified
//! elsewhere.

use std::path::Path;
use std::path::PathBuf;
use std::sync::Arc;

use oxc_allocator::Allocator;
use oxc_codegen::{Codegen, CodegenOptions};
use oxc_coverage_instrument::{instrument as instrument_source, InstrumentOptions};
use oxc_parser::Parser;
use oxc_semantic::SemanticBuilder;
use oxc_sourcemap::{SourceMap, Token};
use oxc_span::{GetSpan, SourceType};
use oxc_transformer::{
    CompilerAssumptions, DecoratorOptions, EnvOptions, JsxOptions, JsxRuntime as OxcJsxRuntime,
    Module, TransformOptions as OxcTransformOptions, Transformer, TypeScriptOptions,
};
#[allow(unused_imports)]
use serde::Deserialize;
use vstd::prelude::*;

use crate::json::{json_from_value, Json};
use crate::mapping::{MapData, MapToken};
use crate::resources::string_views;
use crate::options::{JsxConfig, JsxRuntime};

verus! {

#[verifier::external_type_specification]
#[verifier::external_body]
pub struct ExEnvOptions(EnvOptions);

#[verifier::external_type_specification]
#[verifier::external_body]
pub struct ExJsxOptions(JsxOptions);

#[verifier::external_type_specification]
#[verifier::external_body]
pub struct ExOxcTransformOptions(OxcTransformOptions);

/// A parsed module: its ESTree (TypeScript flavour, byte offsets) and the
/// parser's diagnostics.
pub struct Parsed {
    pub tree: Option<Json>,
    pub errors: Vec<String>,
}

/// A binding and the start offsets of the references that resolve to it.
pub struct Symbol {
    /// Start offset of the binding identifier.
    pub decl: usize,
    /// Start offsets of the identifier references resolved to the binding.
    pub refs: Vec<usize>,
}

/// Generated code, its source map (JSON) when one was asked for, and the
/// diagnostics of the step.
pub struct Printed {
    pub code: String,
    pub map: Option<String>,
    pub errors: Vec<String>,
}

/// What oxc's parser makes of `source` (the file type is chosen by
/// `filename`'s extension, TypeScript module by default).
pub uninterp spec fn parsed(source: Seq<char>, filename: Seq<char>) -> Parsed;

/// The bindings of `source` and their resolved references, per oxc's scope
/// analysis.
pub uninterp spec fn symbol_table(source: Seq<char>, filename: Seq<char>) -> Seq<Symbol>;

/// oxc's code generation for the parse of `source`.
pub uninterp spec fn printed(source: Seq<char>, filename: Seq<char>, source_map: bool) -> Printed;

/// `oxc_parser::Parser::parse` followed by `Program::to_estree_ts_json`: the
/// module's ESTree as plain values, with the parser's diagnostics rendered as
/// strings. The contract names the result; nothing more of it is claimed.
#[verifier::external_body]
pub(crate) fn parse_tree(source: &str, filename: &str) -> (r: Parsed)
    ensures
        r == parsed(source@, filename@),
{
    let allocator = Allocator::default();
    let source_type = SourceType::from_path(filename).unwrap_or_default();
    let ret = Parser::new(&allocator, source, source_type).parse();
    let errors = ret.errors.iter().map(ToString::to_string).collect();
    let json = ret.program.to_estree_ts_json(false);
    let mut de = serde_json::Deserializer::from_str(&json);
    de.disable_recursion_limit();
    let tree = serde_json::Value::deserialize(&mut de).ok().map(|v| json_from_value(&v));
    Parsed { tree, errors }
}

/// `oxc_semantic::SemanticBuilder::build` on the parse of `source`: each
/// symbol's binding offset with the offsets of its resolved references.
#[verifier::external_body]
pub(crate) fn symbols(source: &str, filename: &str) -> (r: Vec<Symbol>)
    ensures
        r@ == symbol_table(source@, filename@),
{
    let allocator = Allocator::default();
    let source_type = SourceType::from_path(filename).unwrap_or_default();
    let ret = Parser::new(&allocator, source, source_type).parse();
    let semantic = SemanticBuilder::new().build(&ret.program).semantic;
    let (scoping, nodes) = (semantic.scoping(), semantic.nodes());
    scoping.symbol_ids().map(|s| Symbol {
        decl: scoping.symbol_span(s).start as usize,
        refs: scoping.get_resolved_reference_ids(s).iter().map(|r| {
            nodes.get_node(scoping.get_reference(*r).node_id()).span().start as usize
        }).collect(),
    }).collect()
}

/// `oxc_codegen::Codegen::build` on the parse of `source`, with a source map
/// for `filename` exactly when `source_map` is set (the code generator
/// builds one when given a map path); `errors` are the parser's.
#[verifier::external_body]
pub(crate) fn print(source: &str, filename: &str, source_map: bool) -> (r: Printed)
    ensures
        r == printed(source@, filename@, source_map),
        r.map is Some <==> source_map,
{
    let allocator = Allocator::default();
    let source_type = SourceType::from_path(filename).unwrap_or_default();
    let ret = Parser::new(&allocator, source, source_type).parse();
    let path = if source_map { Some(PathBuf::from(filename)) } else { None };
    let options = CodegenOptions { source_map_path: path, ..CodegenOptions::default() };
    let out = Codegen::new().with_options(options).build(&ret.program);
    let errors = ret.errors.iter().map(ToString::to_string).collect();
    Printed { code: out.code, map: out.map.map(|m| m.to_json_string()), errors }
}

/// A module instrumented for istanbul coverage: its code (the coverage
/// setup placed after its directives, counters in its statements), its
/// coverage map (istanbul `FileCoverage` JSON), and the source map of the
/// code onto the module when one was asked for.
pub struct Instrumented {
    pub code: String,
    pub coverage_map: String,
    pub map: Option<String>,
}

/// What `oxc_coverage_instrument::instrument` makes of `source` (the
/// contents of `filename`) with the coverage variable `variable`: the
/// instrumented code, the coverage map and the source map, or its error
/// message.
pub uninterp spec fn instrumented(
    source: Seq<char>,
    filename: Seq<char>,
    variable: Seq<char>,
    source_map: bool,
) -> Result<(Seq<char>, Seq<char>, Option<Seq<char>>), Seq<char>>;

/// `oxc_coverage_instrument::instrument` on `source` with the coverage
/// variable `variable` (TypeScript kept, the other options default): the
/// instrumented code, the serialized coverage map and the source map, or
/// the error's message. The contract names the result; nothing more of it
/// is claimed.
#[verifier::external_body]
pub(crate) fn instrument(source: &str, filename: &str, variable: &str, source_map: bool) -> (r: Result<Instrumented, String>)
    ensures
        match r {
            Ok(i) => instrumented(source@, filename@, variable@, source_map) == Ok::<
                (Seq<char>, Seq<char>, Option<Seq<char>>),
                Seq<char>,
            >((i.code@, i.coverage_map@, opt_view(i.map))),
            Err(e) => instrumented(source@, filename@, variable@, source_map) == Err::<
                (Seq<char>, Seq<char>, Option<Seq<char>>),
                Seq<char>,
            >(e@),
        },
{
    let options = InstrumentOptions::default().with_coverage_variable(variable.to_string()).with_source_map(source_map);
    match instrument_source(source, filename, &options) {
        Ok(r) => Ok(Instrumented { code: r.code, coverage_map: r.coverage_map_json, map: r.source_map }),
        Err(e) => Err(e.to_string()),
    }
}

/// What `oxc_sourcemap::SourceMap::from_json_string` reads from `json`:
/// its mappings (with their name indices) and names, or nothing when it
/// fails.
pub uninterp spec fn decoded_map(json: Seq<char>) -> Option<(Seq<MapToken>, Seq<Seq<char>>)>;

/// `oxc_sourcemap::SourceMap::from_json_string` on `json`: its tokens and
/// names as plain values, `None` on its error. The contract names the
/// result; nothing more of it is claimed.
#[verifier::external_body]
pub(crate) fn decode_map(json: &str) -> (r: Option<MapData>)
    ensures
        match r {
            Some(m) => decoded_map(json@) == Some((m.tokens@, string_views(m.names@))),
            None => decoded_map(json@) is None,
        },
{
    let m = SourceMap::from_json_string(json).ok()?;
    let tokens = m.get_tokens().map(|t| MapToken {
        dst_line: t.get_dst_line(), dst_col: t.get_dst_col(), src_line: t.get_src_line(),
        src_col: t.get_src_col(), name: t.get_name_id(),
    }).collect();
    Some(MapData { tokens, names: m.get_names().map(|n| n.to_string()).collect() })
}

/// The source map JSON `oxc_sourcemap` writes for the mappings `tokens`
/// onto the single source `filename` with content `content`, and `names`.
pub uninterp spec fn map_text(
    filename: Seq<char>,
    content: Seq<char>,
    tokens: Seq<MapToken>,
    names: Seq<Seq<char>>,
) -> Seq<char>;

/// `oxc_sourcemap::SourceMap::new` with `names`, the source `filename`
/// with content `content` and the mappings `tokens` (onto that source),
/// then `to_json_string`. The contract names the result; nothing more of it
/// is claimed. The writer takes the mappings in the order of their
/// generated lines (it counts the lines between one and the next).
#[verifier::external_body]
pub(crate) fn encode_map(filename: &str, content: &str, tokens: &Vec<MapToken>, names: &Vec<String>) -> (r: String)
    requires
        crate::mapping::lines_ordered(tokens@),
    ensures
        r@ == map_text(filename@, content@, tokens@, string_views(names@)),
{
    let names = names.iter().map(|n| Arc::from(n.as_str())).collect();
    let tokens = tokens.iter().map(|t| Token::new(t.dst_line, t.dst_col, t.src_line, t.src_col, Some(0), t.name)).collect();
    let sources = vec![Arc::from(filename)];
    SourceMap::new(None, names, None, sources, vec![Some(Arc::from(content))], tokens, None).to_json_string()
}

/// oxc's environment options together with the target and module format
/// they were made from.
pub struct EnvSetup {
    options: EnvOptions,
    target: Option<String>,
    esm: bool,
}

impl EnvSetup {
    /// The ES target the environment was made for (`None`: oxc's default).
    pub closed spec fn target(&self) -> Option<Seq<char>> {
        opt_view(self.target)
    }

    /// Whether the environment keeps ES module syntax.
    pub closed spec fn esm(&self) -> bool {
        self.esm
    }
}

/// oxc's JSX options together with the configuration they were made from.
pub struct JsxSetup {
    options: JsxOptions,
    config: JsxConfig,
}

impl JsxSetup {
    /// The configuration the options were made from.
    pub closed spec fn config(&self) -> JsxConfig {
        self.config
    }
}

/// oxc's transformer options together with the settings they were made
/// from.
pub struct Lowering {
    options: OxcTransformOptions,
    plain_fields: bool,
    legacy: bool,
    emit_metadata: bool,
    target: Option<String>,
    esm: bool,
    jsx: JsxConfig,
}

/// The settings of the TypeScript/decorator/JSX lowering as plain values.
pub struct LoweringView {
    /// Class fields as plain assignments (`useDefineForClassFields: false`).
    pub plain_fields: bool,
    /// Legacy (`experimentalDecorators`) decorator lowering.
    pub legacy: bool,
    /// `emitDecoratorMetadata`.
    pub emit_metadata: bool,
    /// ES target to downlevel to; `None` for oxc's default environment,
    /// which downlevels nothing.
    pub target: Option<Seq<char>>,
    /// Keep ES module syntax (`true`) or leave modules as written.
    pub esm: bool,
    pub runtime: JsxRuntime,
    pub development: bool,
    pub import_source: Option<Seq<char>>,
    pub pragma: Option<Seq<char>>,
    pub pragma_frag: Option<Seq<char>>,
}

/// The text of an optional string.
pub open spec fn opt_view(s: Option<String>) -> Option<Seq<char>> {
    match s {
        Some(t) => Some(t@),
        None => None,
    }
}

impl View for Lowering {
    type V = LoweringView;

    closed spec fn view(&self) -> LoweringView {
        LoweringView {
            plain_fields: self.plain_fields,
            legacy: self.legacy,
            emit_metadata: self.emit_metadata,
            target: opt_view(self.target),
            esm: self.esm,
            runtime: self.jsx.runtime,
            development: self.jsx.development,
            import_source: opt_view(self.jsx.import_source),
            pragma: opt_view(self.jsx.pragma),
            pragma_frag: opt_view(self.jsx.pragma_frag),
        }
    }
}

/// What `oxc_transformer::EnvOptions::from_target` reports for `target`:
/// `None` when it knows the target, else its message.
pub uninterp spec fn target_check(target: Seq<char>) -> Option<Seq<char>>;

/// oxc's lowering of the parse of `source` under `settings`, generated as
/// code with its source map, with the transformer's diagnostics.
pub uninterp spec fn lowered(source: Seq<char>, filename: Seq<char>, settings: LoweringView) -> Printed;

/// `oxc_transformer::EnvOptions::from_target(target)`: `None` when it
/// accepts the target, else the message it fails with.
#[verifier::external_body]
pub(crate) fn check_target(target: &str) -> (r: Option<String>)
    ensures
        opt_view(r) == target_check(target@),
{
    EnvOptions::from_target(target).err()
}

/// `oxc_transformer::EnvOptions::from_target` for `target` (`default` for
/// `None`), with the module format set to ESM (`esm`) or left as written
/// (`Module::Preserve`); kept with the target and format it was made for.
#[verifier::external_body]
pub(crate) fn env_setup(target: Option<String>, esm: bool) -> (r: EnvSetup)
    requires
        target matches Some(t) ==> target_check(t@) is None,
    ensures
        r.target() == opt_view(target),
        r.esm() == esm,
{
    let mut options = match &target {
        Some(t) => EnvOptions::from_target(t).unwrap_or_default(),
        None => EnvOptions::default(),
    };
    options.module = if esm { Module::Esm } else { Module::Preserve };
    EnvSetup { options, target, esm }
}

/// `oxc_transformer::JsxOptions::enable` set from `config` (runtime,
/// development, import source, pragmas), then `conform`ed; kept with the
/// configuration it was made from.
#[verifier::external_body]
pub(crate) fn jsx_setup(config: JsxConfig) -> (r: JsxSetup)
    ensures
        r.config() == config,
{
    let mut options = JsxOptions::enable();
    options.runtime = match config.runtime {
        JsxRuntime::Automatic => OxcJsxRuntime::Automatic,
        JsxRuntime::Classic => OxcJsxRuntime::Classic,
    };
    options.development = config.development;
    options.import_source = config.import_source.clone();
    options.pragma = config.pragma.clone();
    options.pragma_frag = config.pragma_frag.clone();
    options.conform();
    JsxSetup { options, config }
}

/// `oxc_transformer::TransformOptions` with the class-field setting
/// (`remove_class_fields_without_initializer` and `set_public_class_fields`),
/// the decorator settings, `env` and `jsx`, the rest default; kept with the
/// settings it was made from.
#[verifier::external_body]
pub(crate) fn lowering(plain_fields: bool, legacy: bool, emit_metadata: bool, env: EnvSetup, jsx: JsxSetup) -> (r: Lowering)
    ensures
        r@ == (LoweringView {
            plain_fields,
            legacy,
            emit_metadata,
            target: env.target(),
            esm: env.esm(),
            runtime: jsx.config().runtime,
            development: jsx.config().development,
            import_source: opt_view(jsx.config().import_source),
            pragma: opt_view(jsx.config().pragma),
            pragma_frag: opt_view(jsx.config().pragma_frag),
        }),
{
    let options = OxcTransformOptions {
        typescript: TypeScriptOptions { remove_class_fields_without_initializer: plain_fields, ..Default::default() },
        assumptions: CompilerAssumptions { set_public_class_fields: plain_fields, ..Default::default() },
        jsx: jsx.options,
        decorator: DecoratorOptions { legacy, emit_decorator_metadata: emit_metadata },
        env: env.options,
        ..OxcTransformOptions::default()
    };
    Lowering { options, plain_fields, legacy, emit_metadata, target: env.target, esm: env.esm, jsx: jsx.config }
}

/// Parse `source`, run `oxc_transformer::Transformer::build_with_scoping`
/// with `settings`' options, and generate code with its source map (JSON,
/// onto `source`). `errors` holds the transformer's diagnostics only (the
/// parser's are reported by [`parse_tree`]). The contract names the result;
/// nothing more of it is claimed.
#[verifier::external_body]
pub(crate) fn lower(source: &str, filename: &str, settings: &Lowering) -> (r: Printed)
    ensures
        r == lowered(source@, filename@, settings@),
{
    let allocator = Allocator::default();
    let source_type = SourceType::from_path(filename).unwrap_or_default();
    let mut program = Parser::new(&allocator, source, source_type).parse().program;
    let scoping = SemanticBuilder::new().build(&program).semantic.into_scoping();
    let ret = Transformer::new(&allocator, Path::new(filename), &settings.options)
        .build_with_scoping(scoping, &mut program);
    let codegen = CodegenOptions { source_map_path: Some(PathBuf::from(filename)), ..CodegenOptions::default() };
    let out = Codegen::new().with_options(codegen).build(&program);
    let errors = ret.errors.iter().map(ToString::to_string).collect();
    Printed { code: out.code, map: out.map.map(|m| m.to_json_string()), errors }
}

} // verus!
