//! Source-map shifting, unit and end to end.

use ng_transform::source_map::offset_source_map;
use ng_transform::{transform, ModuleKind, TransformOptions};

#[test]
fn offset_prepends_semicolons_without_touching_source_deltas() {
    let map = r#"{"version":3,"sources":["m.ts"],"names":[],"mappings":"AAAA,CAAC;AACD"}"#;
    let out = offset_source_map(map, 4);
    let value: serde_json::Value = serde_json::from_str(&out).unwrap();
    let mappings = value["mappings"].as_str().unwrap();
    // 4 leading empty lines, then the original mappings unchanged.
    assert_eq!(mappings, ";;;;AAAA,CAAC;AACD");
}

#[test]
fn offset_zero_is_a_no_op() {
    let map = r#"{"version":3,"sources":["m.ts"],"names":[],"mappings":"AAAA"}"#;
    assert_eq!(offset_source_map(map, 0), map);
}

#[test]
fn cjs_source_map_is_shifted_by_the_prelude() {
    // A default import emits `"use strict";` + the `__importDefault` helper
    // ahead of the generated code, so the map must gain that many empty
    // leading lines — otherwise every position is reported too high.
    let opts = TransformOptions {
        module: ModuleKind::CommonJs,
        target: "es2022".to_string(),
        jit_transforms: false,
        source_map: true,
        ..TransformOptions::default()
    };
    let out = transform("import d from './m';\nd();\n", "m.ts", &opts);
    let map = out.source_map.expect("source map");
    let value: serde_json::Value = serde_json::from_str(&map).unwrap();
    let mappings = value["mappings"].as_str().unwrap();
    let lead = mappings.bytes().take_while(|&b| b == b';').count();
    let prelude_lines = out
        .code
        .lines()
        .take_while(|l| !l.contains("__esModule"))
        .count();
    assert!(prelude_lines >= 2, "sanity: prelude present");
    assert!(
        lead >= prelude_lines,
        "map not shifted by the prelude: {lead} leading lines < prelude height {prelude_lines}: {mappings}"
    );
}

#[test]
fn offset_keeps_text_that_is_not_json() {
    assert_eq!(offset_source_map("not json", 3), "not json");
}

#[test]
fn offset_keeps_a_map_without_mappings() {
    let out = offset_source_map(r#"{"version":3,"mappings":7}"#, 2);
    assert_eq!(out, r#"{"version":3,"mappings":7}"#);
}

#[test]
fn offset_by_one_line_adds_one_semicolon() {
    let out = offset_source_map(r#"{"mappings":"AAAA","version":3}"#, 1);
    assert_eq!(out, r#"{"mappings":";AAAA","version":3}"#);
}
