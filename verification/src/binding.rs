//! The JavaScript-facing entry point: options as a JavaScript caller passes
//! them (every field optional, omitted fields taking the defaults of
//! [`crate::TransformOptions`]) and the transform's output.

use vstd::prelude::*;

use crate::options::{JsxConfig, JsxRuntime, ModuleKind, TransformOptions as NgOptions};
use crate::resources::string_views;
use crate::syntax::opt_view;
use crate::text::str_eq;
use crate::transform_ok;

verus! {

/// Options forwarded to the transform. All fields are optional; omitted
/// fields fall back to the defaults of [`crate::TransformOptions`].
pub struct TransformOptions {
    /// Output module format: `"commonjs"` (default) or `"esm"`. Unknown
    /// values fall back to `"commonjs"`.
    pub module: Option<String>,
    /// tsconfig `experimentalDecorators`.
    pub experimental_decorators: Option<bool>,
    /// tsconfig `emitDecoratorMetadata`.
    pub emit_decorator_metadata: Option<bool>,
    /// tsconfig `useDefineForClassFields` (default `false`).
    pub use_define_for_class_fields: Option<bool>,
    /// Run the Angular JIT transforms. Default `true`.
    pub jit_transforms: Option<bool>,
    /// Hoist `jest.mock()` / `jest.unmock()` / … above imports. Default `false`.
    pub hoist_jest_mock: Option<bool>,
    /// JSX runtime: `"automatic"` (default) or `"classic"`.
    pub jsx: Option<String>,
    /// Automatic-runtime import source (default `"react"`).
    pub jsx_import_source: Option<String>,
    /// Classic-runtime factory (default `"React.createElement"`).
    pub jsx_factory: Option<String>,
    /// Classic-runtime fragment factory (default `"React.Fragment"`).
    pub jsx_fragment_factory: Option<String>,
    /// `react-jsxdev`: emit JSX debug info.
    pub jsx_development: Option<bool>,
    /// ECMAScript target for syntax downleveling. Default `"esnext"`.
    pub target: Option<String>,
    /// Keep component styles instead of stripping them (default `false`).
    pub keep_styles: Option<bool>,
    /// Query parameter appended to each style URL rewritten under
    /// `keep_styles` (e.g. `"inline"`). Default: unset.
    pub keep_styles_query: Option<String>,
    /// Master switch for TS→JS + decorator lowering (default `true`).
    pub lower: Option<bool>,
    /// Instrument the output for istanbul coverage.
    pub coverage: Option<bool>,
    /// Global coverage variable name (default `"__coverage__"`).
    pub coverage_variable: Option<String>,
    /// Emit a source map (default `true`).
    pub source_map: Option<bool>,
}

/// Result of a transform.
pub struct TransformOutput {
    /// Transformed JavaScript.
    pub code: String,
    /// Source map JSON, if requested.
    pub map: Option<String>,
    /// Istanbul `FileCoverage` JSON, if `coverage` was set.
    pub coverage_map: Option<String>,
    /// Non-fatal diagnostics.
    pub errors: Vec<String>,
}

/// The module format a `module` option names.
pub open spec fn module_named(value: Option<Seq<char>>) -> ModuleKind {
    if value == Some("esm"@) {
        ModuleKind::Esm
    } else {
        ModuleKind::CommonJs
    }
}

/// A flag, or `default` when it is omitted.
pub open spec fn flag_or(value: Option<bool>, default: bool) -> bool {
    match value {
        Some(b) => b,
        None => default,
    }
}

/// Whether `n` holds the defaults of [`crate::TransformOptions`].
pub open spec fn is_default(n: NgOptions) -> bool {
    &&& n.module == ModuleKind::CommonJs
    &&& n.experimental_decorators
    &&& !n.emit_decorator_metadata
    &&& !n.use_define_for_class_fields
    &&& n.jit_transforms
    &&& !n.hoist_jest_mock
    &&& n.jsx.runtime == JsxRuntime::Automatic
    &&& !n.jsx.development
    &&& n.jsx.import_source is None
    &&& n.jsx.pragma is None
    &&& n.jsx.pragma_frag is None
    &&& n.target@ == "esnext"@
    &&& !n.keep_styles
    &&& n.keep_styles_query is None
    &&& n.lower
    &&& !n.coverage
    &&& n.coverage_variable is None
    &&& n.source_map
}

/// Whether `n` is what the JavaScript options `options` stand for: each
/// given field taken over, each omitted one at its default.
pub open spec fn options_from(options: Option<TransformOptions>, n: NgOptions) -> bool {
    match options {
        None => is_default(n),
        Some(o) => {
            &&& n.module == module_named(opt_view(o.module))
            &&& n.experimental_decorators == flag_or(o.experimental_decorators, true)
            &&& n.emit_decorator_metadata == flag_or(o.emit_decorator_metadata, false)
            &&& n.use_define_for_class_fields == flag_or(o.use_define_for_class_fields, false)
            &&& n.jit_transforms == flag_or(o.jit_transforms, true)
            &&& n.hoist_jest_mock == flag_or(o.hoist_jest_mock, false)
            &&& n.jsx.runtime == (if opt_view(o.jsx) == Some("classic"@) {
                JsxRuntime::Classic
            } else {
                JsxRuntime::Automatic
            })
            &&& n.jsx.development == flag_or(o.jsx_development, false)
            &&& opt_view(n.jsx.import_source) == opt_view(o.jsx_import_source)
            &&& opt_view(n.jsx.pragma) == opt_view(o.jsx_factory)
            &&& opt_view(n.jsx.pragma_frag) == opt_view(o.jsx_fragment_factory)
            &&& n.target@ == match o.target {
                Some(t) => t@,
                None => "esnext"@,
            }
            &&& n.keep_styles == flag_or(o.keep_styles, false)
            &&& opt_view(n.keep_styles_query) == opt_view(o.keep_styles_query)
            &&& n.lower == flag_or(o.lower, true)
            &&& n.coverage == flag_or(o.coverage, false)
            &&& opt_view(n.coverage_variable) == opt_view(o.coverage_variable)
            &&& n.source_map == flag_or(o.source_map, true)
        },
    }
}

/// Whether every field of `o` is omitted.
pub open spec fn all_omitted(o: TransformOptions) -> bool {
    &&& o.module is None
    &&& o.experimental_decorators is None
    &&& o.emit_decorator_metadata is None
    &&& o.use_define_for_class_fields is None
    &&& o.jit_transforms is None
    &&& o.hoist_jest_mock is None
    &&& o.jsx is None
    &&& o.jsx_import_source is None
    &&& o.jsx_factory is None
    &&& o.jsx_fragment_factory is None
    &&& o.jsx_development is None
    &&& o.target is None
    &&& o.keep_styles is None
    &&& o.keep_styles_query is None
    &&& o.lower is None
    &&& o.coverage is None
    &&& o.coverage_variable is None
    &&& o.source_map is None
}

/// Omitting every field is the same as passing no options: both stand for
/// the defaults of [`crate::TransformOptions`].
pub proof fn lemma_omitted_fields_are_defaults(o: TransformOptions, n: NgOptions)
    requires
        all_omitted(o),
        options_from(Some(o), n),
    ensures
        is_default(n),
        options_from(None, n),
{
    reveal_strlit("esm");
    reveal_strlit("classic");
    assert(n.jsx.import_source is None);
    assert(n.jsx.pragma is None);
    assert(n.jsx.pragma_frag is None);
    assert(n.keep_styles_query is None);
    assert(n.coverage_variable is None);
}

/// The module format a `module` option names: `"esm"` is ESM, anything
/// else (or nothing) CommonJS.
pub fn parse_module(value: Option<&str>) -> (r: ModuleKind)
    ensures
        r == module_named(
            match value {
                Some(v) => Some(v@),
                None => None,
            },
        ),
{
    match value {
        Some(v) => {
            proof {
                reveal_strlit("esm");
            }
            if str_eq(v, "esm") {
                ModuleKind::Esm
            } else {
                ModuleKind::CommonJs
            }
        },
        None => ModuleKind::CommonJs,
    }
}

/// A flag, or `default` when it is omitted.
fn flag(value: Option<bool>, default: bool) -> (r: bool)
    ensures
        r == flag_or(value, default),
{
    match value {
        Some(b) => b,
        None => default,
    }
}

/// The transform options the JavaScript options stand for (see
/// [`options_from`]).
pub fn to_ng_options(options: Option<TransformOptions>) -> (r: NgOptions)
    ensures
        options_from(options, r),
{
    let defaults = NgOptions::default();
    match options {
        None => defaults,
        Some(o) => {
            let module = parse_module(
                match &o.module {
                    Some(m) => Some(m.as_str()),
                    None => None,
                },
            );
            let runtime = match &o.jsx {
                Some(j) => {
                    proof {
                        reveal_strlit("classic");
                    }
                    if str_eq(j.as_str(), "classic") {
                        JsxRuntime::Classic
                    } else {
                        JsxRuntime::Automatic
                    }
                },
                None => JsxRuntime::Automatic,
            };
            let target = match o.target {
                Some(t) => t,
                None => defaults.target,
            };
            NgOptions {
                module,
                experimental_decorators: flag(o.experimental_decorators, defaults.experimental_decorators),
                emit_decorator_metadata: flag(o.emit_decorator_metadata, defaults.emit_decorator_metadata),
                use_define_for_class_fields: flag(
                    o.use_define_for_class_fields,
                    defaults.use_define_for_class_fields,
                ),
                jit_transforms: flag(o.jit_transforms, defaults.jit_transforms),
                hoist_jest_mock: flag(o.hoist_jest_mock, defaults.hoist_jest_mock),
                jsx: JsxConfig {
                    runtime,
                    development: flag(o.jsx_development, false),
                    import_source: o.jsx_import_source,
                    pragma: o.jsx_factory,
                    pragma_frag: o.jsx_fragment_factory,
                },
                target,
                keep_styles: flag(o.keep_styles, defaults.keep_styles),
                keep_styles_query: match o.keep_styles_query {
                    Some(q) => Some(q),
                    None => defaults.keep_styles_query,
                },
                lower: flag(o.lower, defaults.lower),
                coverage: flag(o.coverage, defaults.coverage),
                coverage_variable: match o.coverage_variable {
                    Some(v) => Some(v),
                    None => defaults.coverage_variable,
                },
                source_map: flag(o.source_map, defaults.source_map),
            }
        },
    }
}

/// Transform `source` (the contents of `filename`) for use under a test
/// runner, with the options a JavaScript caller passed.
pub fn transform(source: String, filename: String, options: Option<TransformOptions>) -> (r: TransformOutput)
    ensures
        exists|n: NgOptions|
            options_from(options, n) && (r.map is Some <==> n.source_map) && transform_ok(
                source@,
                filename@,
                n,
                r.code@,
                opt_view(r.map),
                opt_view(r.coverage_map),
                string_views(r.errors@),
            ),
{
    let ng = to_ng_options(options);
    let result = crate::transform(source.as_str(), filename.as_str(), &ng);
    TransformOutput {
        code: result.code,
        map: result.source_map,
        coverage_map: result.coverage_map,
        errors: result.errors,
    }
}

} // verus!
