//! The library's laws on concrete values, and its edge cases.

use ng_transform::binding::{self, to_ng_options};
use ng_transform::esm_to_cjs::{esm_to_cjs, unique_module_var};
use ng_transform::resources::normalize_url;
use ng_transform::runtime_helpers::inline_async_helpers;
use ng_transform::json::Json;
use ng_transform::text::{rewrite, sorted_edits, Edit};
use ng_transform::{assemble, run_pass, transform, ModuleKind, TransformOptions};

/// The ESTree of `src` as the library's plain JSON.
fn tree(src: &str, filename: &str) -> Json {
    let allocator = oxc_allocator::Allocator::default();
    let source_type = oxc_span::SourceType::from_path(filename).unwrap();
    let ret = oxc_parser::Parser::new(&allocator, src, source_type).parse();
    let json = ret.program.to_estree_ts_json(false);
    let value: serde_json::Value = serde_json::from_str(&json).unwrap();
    to_json(&value)
}

fn to_json(v: &serde_json::Value) -> Json {
    match v {
        serde_json::Value::Null => Json::Null,
        serde_json::Value::Bool(b) => Json::Bool(*b),
        serde_json::Value::Number(n) => Json::Num(n.to_string().into_bytes()),
        serde_json::Value::String(s) => Json::Str(s.clone()),
        serde_json::Value::Array(a) => Json::Arr(a.iter().map(to_json).collect()),
        serde_json::Value::Object(o) => {
            Json::Obj(o.iter().map(|(k, x)| (k.clone(), to_json(x))).collect())
        }
    }
}

fn edit(start: usize, end: usize, text: &str) -> Edit {
    Edit { start, end, text: text.as_bytes().to_vec(), origin: None }
}

#[test]
fn pass_without_rewrites_keeps_the_text() {
    assert_eq!(run_pass("const a = 1;\n", &Vec::new()), Some("const a = 1;\n".to_string()));
}

#[test]
fn rewrites_apply_in_source_order() {
    // Given out of order, applied by start.
    let edits = vec![edit(6, 7, "B"), edit(0, 1, "A")];
    assert_eq!(run_pass("a.....b", &edits), Some("A.....B".to_string()));
}

#[test]
fn overlapping_rewrites_are_refused() {
    let edits = vec![edit(0, 3, "x"), edit(2, 4, "y")];
    assert_eq!(run_pass("abcdef", &edits), None);
    assert_eq!(rewrite(b"abcdef", &edits), None);
}

#[test]
fn sorting_rewrites_keeps_each_and_equal_starts_keep_their_order() {
    let edits = vec![edit(5, 5, "c"), edit(1, 1, "a"), edit(5, 5, "d"), edit(3, 3, "b")];
    let sorted = sorted_edits(&edits);
    let texts: Vec<String> = sorted.iter().map(|e| String::from_utf8(e.text.clone()).unwrap()).collect();
    assert_eq!(texts, vec!["a", "b", "c", "d"]);
    let starts: Vec<usize> = sorted.iter().map(|e| e.start).collect();
    assert_eq!(starts, vec![1, 3, 5, 5]);
}

#[test]
fn commonjs_module_is_not_converted() {
    let src = "exports.foo = 42;\nconst m = import('./m');\n";
    let (edits, result) = esm_to_cjs(src, &tree(src, "index.js"), &Vec::new());
    assert!(!result.converted);
    // Only the dynamic import is rewritten; the only helper is `__importStar`.
    let out = run_pass(src, &edits).unwrap();
    assert!(out.starts_with("exports.foo = 42;\nconst m = "), "{out}");
    assert!(out.contains("__importStar(require('./m'))"), "{out}");
    assert!(!out.contains("__esModule"), "{out}");
    assert!(result.prelude.contains("var __importStar"));
    assert!(!result.prelude.contains("__importDefault"));
    assert!(!result.prelude.contains("var __exportStar"));
}

#[test]
fn es_module_is_converted() {
    let src = "export const a = 1;\n";
    let (_edits, result) = esm_to_cjs(src, &tree(src, "m.js"), &Vec::new());
    assert!(result.converted);
    assert_eq!(result.prelude, "");
}

#[test]
fn module_variables_are_fresh() {
    let mut used = Vec::new();
    assert_eq!(unique_module_var("./m", &mut used), "m_1");
    assert_eq!(unique_module_var("./m", &mut used), "m_2");
    assert_eq!(unique_module_var("@scope/pkg.js", &mut used), "pkg_1");
    assert_eq!(unique_module_var("./9lives.ts", &mut used), "_9lives_1");
    assert_eq!(unique_module_var("./a-b", &mut used), "a_b_1");
}

#[test]
fn module_variables_of_different_specifiers_do_not_collide() {
    let mut used = Vec::new();
    let a = unique_module_var("./a", &mut used);
    let b = unique_module_var("./a_1", &mut used);
    let c = unique_module_var("./a", &mut used);
    assert_eq!((a.as_str(), b.as_str(), c.as_str()), ("a_1", "a_1_1", "a_2"));
    let mut used = Vec::new();
    let d = unique_module_var("./class", &mut used);
    assert_eq!(d, "class_1");
}

#[test]
fn shifting_a_source_map_twice_adds_the_lines() {
    let map = r#"{"version":3,"sources":["a.ts"],"names":[],"mappings":"AAAA;AACA"}"#;
    let once = ng_transform::source_map::offset_source_map(&ng_transform::source_map::offset_source_map(map, 2), 3);
    let both = ng_transform::source_map::offset_source_map(map, 5);
    let a: serde_json::Value = serde_json::from_str(&once).unwrap();
    let b: serde_json::Value = serde_json::from_str(&both).unwrap();
    assert_eq!(a, b);
    assert_eq!(b["mappings"], ";;;;;AAAA;AACA");
}

#[test]
fn omitted_js_options_are_the_defaults() {
    let all_omitted = to_ng_options(Some(binding::TransformOptions {
        module: None,
        experimental_decorators: None,
        emit_decorator_metadata: None,
        use_define_for_class_fields: None,
        jit_transforms: None,
        hoist_jest_mock: None,
        jsx: None,
        jsx_import_source: None,
        jsx_factory: None,
        jsx_fragment_factory: None,
        jsx_development: None,
        target: None,
        keep_styles: None,
        keep_styles_query: None,
        lower: None,
        coverage: None,
        coverage_variable: None,
        source_map: None,
    }));
    let none = to_ng_options(None);
    for o in [&all_omitted, &none] {
        assert_eq!(o.module, ModuleKind::CommonJs);
        assert!(o.experimental_decorators);
        assert!(!o.emit_decorator_metadata);
        assert!(!o.use_define_for_class_fields);
        assert!(o.jit_transforms);
        assert!(!o.hoist_jest_mock);
        assert_eq!(o.target, "esnext");
        assert!(!o.keep_styles);
        assert!(o.keep_styles_query.is_none());
        assert!(o.lower);
        assert!(!o.coverage);
        assert!(o.source_map);
    }
}

#[test]
fn js_options_are_taken_over() {
    let o = to_ng_options(Some(binding::TransformOptions {
        module: Some("esm".to_string()),
        experimental_decorators: Some(false),
        emit_decorator_metadata: Some(true),
        use_define_for_class_fields: Some(true),
        jit_transforms: Some(false),
        hoist_jest_mock: Some(true),
        jsx: Some("classic".to_string()),
        jsx_import_source: Some("preact".to_string()),
        jsx_factory: Some("h".to_string()),
        jsx_fragment_factory: Some("Fragment".to_string()),
        jsx_development: Some(true),
        target: Some("es2017".to_string()),
        keep_styles: Some(true),
        keep_styles_query: Some("inline".to_string()),
        lower: Some(false),
        coverage: Some(true),
        coverage_variable: Some("__cov__".to_string()),
        source_map: Some(false),
    }));
    assert_eq!(o.module, ModuleKind::Esm);
    assert!(!o.experimental_decorators);
    assert!(o.emit_decorator_metadata);
    assert!(o.use_define_for_class_fields);
    assert!(!o.jit_transforms);
    assert!(o.hoist_jest_mock);
    assert_eq!(o.jsx.runtime, ng_transform::JsxRuntime::Classic);
    assert_eq!(o.jsx.import_source.as_deref(), Some("preact"));
    assert_eq!(o.jsx.pragma.as_deref(), Some("h"));
    assert_eq!(o.jsx.pragma_frag.as_deref(), Some("Fragment"));
    assert!(o.jsx.development);
    assert_eq!(o.target, "es2017");
    assert!(o.keep_styles);
    assert_eq!(o.keep_styles_query.as_deref(), Some("inline"));
    assert!(!o.lower);
    assert!(o.coverage);
    assert_eq!(o.coverage_variable.as_deref(), Some("__cov__"));
    assert!(!o.source_map);
}

#[test]
fn unknown_module_values_fall_back_to_commonjs() {
    assert_eq!(binding::parse_module(Some("esm")), ModuleKind::Esm);
    assert_eq!(binding::parse_module(Some("ESM")), ModuleKind::CommonJs);
    assert_eq!(binding::parse_module(Some("umd")), ModuleKind::CommonJs);
    assert_eq!(binding::parse_module(None), ModuleKind::CommonJs);
}

#[test]
fn binding_transform_matches_the_library() {
    let out = binding::transform("export const x = 1;".to_string(), "x.ts".to_string(), None);
    let direct = transform("export const x = 1;", "x.ts", &TransformOptions::default());
    assert_eq!(out.code, direct.code);
    assert_eq!(out.map, direct.source_map);
    assert_eq!(out.errors, direct.errors);
    assert!(out.code.contains("exports.x = x"));
}

#[test]
fn normalizing_twice_is_normalizing_once() {
    for url in ["a.html", "./a.html", "../a.html", "/abs/a.html", ""] {
        let once = normalize_url(url);
        assert_eq!(normalize_url(&once), once);
    }
    assert_eq!(normalize_url("a.html"), "./a.html");
    assert_eq!(normalize_url(""), "./");
}

#[test]
fn assemble_with_nothing_to_prepend_is_the_code() {
    assert_eq!(assemble(false, "", "", "x;\n".to_string()), ("x;\n".to_string(), 0));
}

#[test]
fn assemble_counts_the_prepended_lines() {
    let (code, lines) = assemble(true, "var a;\nvar b;\n", "cov()", "x;".to_string());
    assert_eq!(code, "\"use strict\";\nvar a;\nvar b;\ncov()\nx;");
    assert_eq!(lines, 4);
}

#[test]
fn coverage_map_describes_the_source() {
    let opts = TransformOptions { coverage: true, jit_transforms: false, ..TransformOptions::default() };
    let out = transform("export function f(a) {\n  return a ? 1 : 2;\n}\n", "f.ts", &opts);
    assert!(out.errors.is_empty(), "{:?}", out.errors);
    let map: serde_json::Value = serde_json::from_str(&out.coverage_map.expect("coverage map")).unwrap();
    assert_eq!(map["path"], "f.ts");
    assert_eq!(map["fnMap"]["0"]["name"], "f");
    assert_eq!(map["fnMap"]["0"]["loc"]["start"]["line"], 1);
    assert_eq!(map["branchMap"]["0"]["type"], "cond-expr");
    assert!(out.code.contains("exports.f = f"), "{}", out.code);
}

#[test]
fn coverage_map_does_not_depend_on_the_other_passes() {
    let src = "import { Component } from '@angular/core';\n@Component({ template: 'x' })\nexport class A {\n  f(a: number) { return a ? 1 : 2; }\n}\n";
    let cjs = TransformOptions { coverage: true, target: "es5".to_string(), ..TransformOptions::default() };
    let esm = TransformOptions {
        coverage: true,
        module: ModuleKind::Esm,
        target: "esnext".to_string(),
        jit_transforms: false,
        lower: false,
        ..TransformOptions::default()
    };
    let a = transform(src, "a.component.ts", &cjs);
    let b = transform(src, "a.component.ts", &esm);
    assert!(a.coverage_map.is_some());
    assert_eq!(a.coverage_map, b.coverage_map);
    assert_ne!(a.code, b.code);
}

#[test]
fn coverage_variable_is_configurable() {
    let opts = TransformOptions {
        coverage: true,
        coverage_variable: Some("__my_cov__".to_string()),
        ..TransformOptions::default()
    };
    let out = transform("export const x = 1;\n", "x.ts", &opts);
    assert!(out.errors.is_empty(), "{:?}", out.errors);
    assert!(out.code.contains("__my_cov__"), "{}", out.code);
    assert!(!out.code.contains("__coverage__"), "{}", out.code);
}

#[test]
fn invalid_coverage_variable_is_reported() {
    let opts = TransformOptions {
        coverage: true,
        coverage_variable: Some("not an identifier".to_string()),
        ..TransformOptions::default()
    };
    let out = transform("export const x = 1;\n", "x.ts", &opts);
    assert_eq!(out.errors.len(), 1, "{:?}", out.errors);
    assert!(out.errors[0].contains("invalid coverage variable"), "{:?}", out.errors);
    assert!(out.coverage_map.is_none());
    assert!(out.code.contains("exports.x = x"), "{}", out.code);
}

#[test]
fn parse_errors_are_reported() {
    let out = transform("const = ;", "x.ts", &TransformOptions::default());
    assert!(!out.errors.is_empty());
}

#[test]
fn no_source_map_when_not_asked() {
    let opts = TransformOptions { source_map: false, ..TransformOptions::default() };
    let out = transform("export const x = 1;\n", "x.ts", &opts);
    assert!(out.source_map.is_none());
}

#[test]
fn async_helper_import_is_inlined() {
    let src = "import _asyncToGenerator from \"@oxc-project/runtime/helpers/asyncToGenerator\";\nimport _other from \"@oxc-project/runtime/helpers/decorate\";\nf();\n";
    let (edits, prelude) = inline_async_helpers(&tree(src, "m.js"));
    assert_eq!(edits.len(), 1);
    assert!(prelude.starts_with("var _asyncToGenerator = (function () {"));
    assert!(prelude.ends_with("})();\n"));
    let out = run_pass(src, &edits).unwrap();
    assert!(!out.contains("asyncToGenerator\""));
    assert!(out.contains("helpers/decorate"));
}

#[test]
fn no_helper_import_means_no_prelude() {
    let src = "async function f() { await g(); }\n";
    let (edits, prelude) = inline_async_helpers(&tree(src, "m.js"));
    assert!(edits.is_empty());
    assert_eq!(prelude, "");
}

#[test]
fn use_strict_only_for_a_converted_module() {
    let esm = TransformOptions { module: ModuleKind::Esm, ..TransformOptions::default() };
    let out = transform("export const x = 1;\n", "x.ts", &esm);
    assert!(!out.code.contains("use strict"), "{}", out.code);
    let unlowered = TransformOptions { lower: false, ..TransformOptions::default() };
    let out = transform("export const x = 1;\n", "x.ts", &unlowered);
    assert!(!out.code.contains("use strict"), "{}", out.code);
    let cjs = transform("export const x = 1;\n", "x.ts", &TransformOptions::default());
    assert!(cjs.code.starts_with("\"use strict\";\n"), "{}", cjs.code);
}

#[test]
fn module_without_angular_core_is_left_to_the_lowering() {
    let src = "import { Component } from 'other-lib';\n@Component({ selector: 'x' })\nexport class A {\n  constructor(private s: string) {}\n}\n";
    let opts = TransformOptions { lower: false, module: ModuleKind::Esm, ..TransformOptions::default() };
    let out = transform(src, "a.ts", &opts);
    assert!(out.errors.is_empty(), "{:?}", out.errors);
    assert!(!out.code.contains("ctorParameters"), "{}", out.code);
    assert!(!out.code.contains("propDecorators"), "{}", out.code);
    assert!(out.code.contains("@Component"), "{}", out.code);
}
