//! End-to-end smoke tests: the pipeline parses, transforms and prints, and
//! (when requested) instruments for istanbul coverage.

use ng_transform::{transform, TransformOptions};

#[test]
fn plain_transform_returns_code() {
    // Default options are CommonJS → `export const` becomes `exports.x`.
    let out = transform(
        "export const x = 1 + 2;",
        "x.ts",
        &TransformOptions::default(),
    );
    assert!(out.errors.is_empty(), "errors: {:?}", out.errors);
    assert!(out.code.contains("exports.x = x"), "code:\n{}", out.code);
    assert!(out.coverage_map.is_none());
}

#[test]
fn coverage_instruments_in_one_pass() {
    let opts = TransformOptions {
        coverage: true,
        ..TransformOptions::default()
    };
    let out = transform("function add(a, b) { return a + b; }", "add.js", &opts);
    assert!(out.errors.is_empty(), "errors: {:?}", out.errors);
    // Preamble + counter wiring from oxc_coverage_instrument.
    assert!(out.code.contains("__coverage__"), "code:\n{}", out.code);
    let map = out.coverage_map.expect("coverage map present");
    assert!(map.contains("fnMap"), "coverage map: {map}");
    assert!(map.contains("statementMap"));
}

#[test]
fn coverage_preamble_carries_the_istanbul_schema_marker() {
    // istanbul's `readInitialCoverage` (used by jest's generateEmptyCoverage to
    // report never-imported `collectCoverageFrom` files as 0%) locates our coverage
    // object by the bare-identifier key `_coverageSchema: "<sha1>"`. Guard our own
    // emission of it; the JS plugins separately verify the value still matches the
    // consumer's installed istanbul at runtime.
    let opts = TransformOptions {
        coverage: true,
        jit_transforms: false,
        ..TransformOptions::default()
    };
    let out = transform("export const x = 1;\n", "x.ts", &opts);
    assert!(out.errors.is_empty(), "errors: {:?}", out.errors);
    assert!(
        out.code
            .contains(r#"_coverageSchema:"1a1c01bbd47fc00a2c39e90264f33305004495a9""#),
        "emitted preamble must carry istanbul's _coverageSchema marker:\n{}",
        out.code
    );
}

#[test]
fn schema_marker_only_when_instrumenting() {
    let out = transform("export const x = 1;\n", "x.ts", &TransformOptions::default());
    assert!(!out.code.contains("_coverageSchema"), "code:\n{}", out.code);
    // Exactly one marker, at the head of the coverage object.
    let opts = TransformOptions { coverage: true, ..TransformOptions::default() };
    let out = transform("export const x = 1;\n", "x.ts", &opts);
    assert_eq!(out.code.matches("_coverageSchema").count(), 1, "code:\n{}", out.code);
    assert!(
        out.code.contains(r#"var coverageData = {_coverageSchema:"1a1c01bbd47fc00a2c39e90264f33305004495a9","#),
        "code:\n{}",
        out.code
    );
}

#[test]
fn coverage_setup_leads_the_generated_code() {
    let opts = TransformOptions { coverage: true, hoist_jest_mock: true, ..TransformOptions::default() };
    let src = "import { a } from './a';\njest.mock('./a');\nexport const x = a();\n";
    let out = transform(src, "x.spec.ts", &opts);
    assert!(out.errors.is_empty(), "errors: {:?}", out.errors);
    let code = &out.code;
    assert!(code.starts_with("\"use strict\";\n"), "code:\n{code}");
    let setup = code.find("var cov_").expect("coverage setup");
    let header = code.find("Object.defineProperty(exports").expect("CommonJS header");
    let mock = code.find("jest.mock(").expect("hoisted mock");
    assert!(setup < header && setup < mock, "code:\n{code}");
    // The setup is taken out of the module, so it is emitted once.
    assert_eq!(code.matches("var coverageData = ").count(), 1, "code:\n{code}");
}
