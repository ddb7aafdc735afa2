//! Transform options, including the settings read from the project tsconfig.

use vstd::prelude::*;

verus! {

/// The module format of the emitted code.
///
/// This single setting drives everything that depends on the output format:
/// component `templateUrl` becomes `require('./x.html')` under
/// [`ModuleKind::CommonJs`] and a hoisted top-level `import` under
/// [`ModuleKind::Esm`], and the ESM→CommonJS rewrite runs only for `CommonJs`.
#[derive(Debug, Clone, Copy, PartialEq, Eq, Structural)]
pub enum ModuleKind {
    /// `require(...)` / `module.exports`, as `tsc` emits for `module: "commonjs"`.
    CommonJs,
    /// Top-level `import` / `export`.
    Esm,
}

impl Default for ModuleKind {
    fn default() -> (r: Self)
        ensures
            r == ModuleKind::CommonJs,
    {
        ModuleKind::CommonJs
    }
}

/// JSX runtime, mirroring tsconfig `jsx`.
#[derive(Debug, Clone, Copy, PartialEq, Eq, Structural)]
pub enum JsxRuntime {
    /// `react-jsx` / `react-jsxdev`: auto-imports from `jsxImportSource`.
    Automatic,
    /// `react`: classic `React.createElement`.
    Classic,
}

impl Default for JsxRuntime {
    fn default() -> (r: Self)
        ensures
            r == JsxRuntime::Automatic,
    {
        JsxRuntime::Automatic
    }
}

/// JSX/TSX transform configuration, for repositories that mix Angular and
/// React. Only files that contain JSX are affected.
#[derive(Debug, Clone)]
pub struct JsxConfig {
    pub runtime: JsxRuntime,
    /// `react-jsxdev`: add `__source` / `__self` debug info.
    pub development: bool,
    /// Automatic runtime import source (`react` when `None`).
    pub import_source: Option<String>,
    /// Classic runtime factory (`React.createElement` when `None`).
    pub pragma: Option<String>,
    /// Classic runtime fragment factory (`React.Fragment` when `None`).
    pub pragma_frag: Option<String>,
}

impl Default for JsxConfig {
    fn default() -> (r: Self)
        ensures
            r.runtime == JsxRuntime::Automatic,
            !r.development,
            r.import_source is None,
            r.pragma is None,
            r.pragma_frag is None,
    {
        JsxConfig {
            runtime: JsxRuntime::Automatic,
            development: false,
            import_source: None,
            pragma: None,
            pragma_frag: None,
        }
    }
}

/// Options controlling the Angular transforms and the lowering.
#[derive(Debug, Clone)]
pub struct TransformOptions {
    /// Output module format. See [`ModuleKind`].
    pub module: ModuleKind,
    /// tsconfig `experimentalDecorators`: legacy decorator lowering.
    pub experimental_decorators: bool,
    /// tsconfig `emitDecoratorMetadata`.
    pub emit_decorator_metadata: bool,
    /// tsconfig `useDefineForClassFields`. When `false`, class fields are
    /// emitted as plain assignments (`this.x = …`).
    pub use_define_for_class_fields: bool,
    /// Run the Angular JIT transforms (downlevel decorators + signal
    /// initializer-API decorators) before lowering.
    pub jit_transforms: bool,
    /// Hoist `jest.mock()` / `jest.unmock()` / … above imports.
    pub hoist_jest_mock: bool,
    /// JSX/TSX transform configuration.
    pub jsx: JsxConfig,
    /// ECMAScript target for syntax downleveling, e.g. `"es2017"`, `"esnext"`.
    pub target: String,
    /// Keep component styles: style URLs become imports/requires merged into
    /// one `styles: [...]`, instead of all style metadata being stripped.
    pub keep_styles: bool,
    /// Query parameter appended to each style URL rewritten under
    /// `keep_styles` (e.g. `inline`); `None` emits the URL verbatim.
    pub keep_styles_query: Option<String>,
    /// Master switch for the TypeScript → JavaScript + decorator lowering.
    pub lower: bool,
    /// Instrument the output for istanbul-compatible coverage.
    pub coverage: bool,
    /// Global coverage variable name (default `__coverage__`).
    pub coverage_variable: Option<String>,
    /// Emit a source map.
    pub source_map: bool,
}

impl Default for TransformOptions {
    fn default() -> (r: Self)
        ensures
            r.module == ModuleKind::CommonJs,
            r.experimental_decorators,
            !r.emit_decorator_metadata,
            !r.use_define_for_class_fields,
            r.jit_transforms,
            !r.hoist_jest_mock,
            r.jsx.runtime == JsxRuntime::Automatic,
            !r.jsx.development,
            r.jsx.import_source is None,
            r.jsx.pragma is None,
            r.jsx.pragma_frag is None,
            r.target@ == "esnext"@,
            !r.keep_styles,
            r.keep_styles_query is None,
            r.lower,
            !r.coverage,
            r.coverage_variable is None,
            r.source_map,
    {
        TransformOptions {
            module: ModuleKind::CommonJs,
            experimental_decorators: true,
            emit_decorator_metadata: false,
            use_define_for_class_fields: false,
            jit_transforms: true,
            hoist_jest_mock: false,
            jsx: JsxConfig::default(),
            target: "esnext".to_string(),
            keep_styles: false,
            keep_styles_query: None,
            lower: true,
            coverage: false,
            coverage_variable: None,
            source_map: true,
        }
    }
}

impl TransformOptions {
    /// Whether the output is ESM (top-level `import` for `templateUrl`, no
    /// ESM→CommonJS rewrite). The inverse selects the CommonJS path.
    pub fn is_esm(&self) -> (r: bool)
        ensures
            r == (self.module == ModuleKind::Esm),
    {
        matches!(self.module, ModuleKind::Esm)
    }
}

} // verus!
