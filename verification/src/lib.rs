//! Angular test transforms on top of oxc.
//!
//! The source transforms `jest-preset-angular` applies to Angular code under
//! test (component resource inlining, Angular decorator downleveling, the JIT
//! signal-initializer-API decorators), `jest.mock()` hoisting, and the ESM to
//! CommonJS rewrite, with oxc's TypeScript/decorator/JSX lowering and
//! optional istanbul coverage instrumentation.
//!
//! Pipeline: parse → [coverage] → resources → JIT → jest hoisting → (oxc
//! lowering → delegate constructors → ESM→CJS) → codegen. Coverage is
//! instrumented first, on the module's own source, so the coverage map
//! mirrors the source; its setup is taken out of the module and prepended
//! to the generated code, after `"use strict";` and the interop prelude. Each Angular pass reads the module's syntax tree and
//! describes its rewrites as byte-range edits of the module text; the edited
//! text is parsed again for the next pass. The source map of the final code
//! generation is traced back through every step to the module's own
//! source, then shifted by the lines prepended to its output.

pub mod binding;
pub mod coverage;
pub mod delegate_ctor;
pub mod esm_to_cjs;
pub mod estree;
pub mod jest_hoist;
pub mod jit_transform;
pub mod json;
pub mod mapping;
pub mod options;
pub mod resources;
pub mod runtime_helpers;
pub mod source_map;
pub mod syntax;
pub mod text;
pub mod walk;

pub use options::{JsxConfig, JsxRuntime, ModuleKind, TransformOptions};

use vstd::prelude::*;

use crate::json::{json_parse, json_text, Json};
use crate::resources::{enc, query_view, resource_edits, resource_rewrites, resource_start, string_views};
use crate::syntax::{
    check_target, decode_map, decoded_map, encode_map, env_setup, instrument, instrumented, jsx_setup,
    lower, lowered, lowering, map_text, opt_view, parse_tree, parsed, print, printed, symbol_table,
    target_check, LoweringView,
};
use crate::mapping::{
    edit_step, reprint, reprint_step, steps_view, steps_wf, trace_tokens, traced_tokens, MapData, MapToken, Step,
    StepView,
};
use crate::text::{edit_views, edits_ordered, rewrite, sort_edits, text_from_utf8, Edit, EditV};

verus! {

/// Result of a [`transform`] call.
pub struct TransformResult {
    /// The transformed JavaScript.
    pub code: String,
    /// Source map JSON, when [`TransformOptions::source_map`] is set.
    pub source_map: Option<String>,
    /// Istanbul `FileCoverage` JSON, when [`TransformOptions::coverage`] is set.
    pub coverage_map: Option<String>,
    /// Diagnostics (parse/transform errors, an unknown ES target, …) rendered
    /// as strings. `transform` never hard-fails: it always returns the `code`
    /// it produced, and a non-empty `errors` means that code may be
    /// incomplete or wrong. Callers must inspect it.
    pub errors: Vec<String>,
}

/// The directive an actual ESM→CommonJS conversion is given.
pub const USE_STRICT: &'static str = "\"use strict\";\n";

/// Whether the UTF-8 text of `s` ends with a line feed.
pub open spec fn ends_with_newline(s: Seq<char>) -> bool {
    let b = vstd::utf8::encode_utf8(s);
    b.len() > 0 && b.last() == 10
}

/// The text prepended to the generated code: `"use strict";` (after an
/// ESM→CJS conversion), the CJS interop prelude, then the coverage preamble
/// (ended by a line feed).
pub open spec fn prefix_text(did_cjs: bool, cjs_prelude: Seq<char>, coverage_preamble: Seq<char>) -> Seq<char> {
    let strict = if did_cjs {
        USE_STRICT@
    } else {
        seq![]
    };
    let coverage = if vstd::utf8::encode_utf8(coverage_preamble).len() == 0 {
        seq![]
    } else if ends_with_newline(coverage_preamble) {
        coverage_preamble
    } else {
        coverage_preamble + "\n"@
    };
    strict + cjs_prelude + coverage
}

/// The number of line feeds in `b`.
pub open spec fn newline_count(b: Seq<u8>) -> nat
    decreases b.len(),
{
    if b.len() == 0 {
        0
    } else {
        newline_count(b.drop_last()) + if b.last() == 10 {
            1nat
        } else {
            0nat
        }
    }
}

/// Count the line feeds in `b`.
pub fn count_newlines(b: &[u8]) -> (r: usize)
    ensures
        r == newline_count(b@),
{
    let mut n: usize = 0;
    let mut i: usize = 0;
    while i < b.len()
        invariant
            i <= b@.len(),
            n == newline_count(b@.subrange(0, i as int)),
            n <= i,
        decreases b@.len() - i,
    {
        assert(b@.subrange(0, i + 1 as int).drop_last() =~= b@.subrange(0, i as int));
        if b[i] == 10 {
            n = n + 1;
        }
        i = i + 1;
    }
    assert(b@.subrange(0, b@.len() as int) =~= b@);
    n
}

/// Prepend, in order, `"use strict";` (when `did_cjs`), the CJS interop
/// prelude, and the coverage preamble (ended by a line feed) to `code`.
/// Returns the assembled code and the number of prepended lines, by which
/// the source map is shifted.
pub fn assemble(did_cjs: bool, cjs_prelude: &str, coverage_preamble: &str, code: String) -> (r: (
    String,
    usize,
))
    ensures
        ({
            let p = prefix_text(did_cjs, cjs_prelude@, coverage_preamble@);
            if vstd::utf8::encode_utf8(p).len() == 0 {
                r.0@ == code@ && r.1 == 0
            } else {
                r.0@ == p + code@ && r.1 == newline_count(vstd::utf8::encode_utf8(p))
            }
        }),
{
    let mut prefix = String::new();
    if did_cjs {
        prefix.append(USE_STRICT);
    }
    prefix.append(cjs_prelude);
    let cov = coverage_preamble.as_bytes();
    if cov.len() > 0 {
        prefix.append(coverage_preamble);
        if cov[cov.len() - 1] != 10 {
            prefix.append("\n");
        }
    }
    proof {
        let strict: Seq<char> = if did_cjs {
            USE_STRICT@
        } else {
            seq![]
        };
        assert(prefix@ =~= prefix_text(did_cjs, cjs_prelude@, coverage_preamble@)) by {
            if !did_cjs {
                assert(strict + cjs_prelude@ =~= cjs_prelude@);
            }
        }
    }
    let bytes = prefix.as_str().as_bytes();
    if bytes.len() == 0 {
        return (code, 0);
    }
    let lines = count_newlines(bytes);
    prefix.append(code.as_str());
    (prefix, lines)
}

/// The text after a pass: the UTF-8 text of `text` with `edits` applied in
/// source order; `None` when, so ordered, they overlap or run past the end,
/// or the result is not UTF-8.
pub open spec fn after_pass(text: Seq<char>, edits: Seq<EditV>) -> Option<Seq<char>> {
    let src = vstd::utf8::encode_utf8(text);
    let sorted = sort_edits(edits);
    if crate::text::edits_ordered(sorted, src.len() as int) && vstd::utf8::valid_utf8(
        crate::text::apply(src, sorted),
    ) {
        Some(vstd::utf8::decode_utf8(crate::text::apply(src, sorted)))
    } else {
        None
    }
}

/// Apply one pass's rewrites to `text` (see [`after_pass`]).
pub fn run_pass(text: &str, edits: &Vec<Edit>) -> (r: Option<String>)
    ensures
        match r {
            Some(t) => after_pass(text@, edit_views(edits@)) == Some(t@),
            None => after_pass(text@, edit_views(edits@)) is None,
        },
{
    match rewrite(text.as_bytes(), edits) {
        Some(bytes) => {
            let ghost b = bytes@;
            let r = text_from_utf8(bytes);
            proof {
                if r is Some {
                    vstd::utf8::encode_utf8_decode_utf8(r->0@);
                }
            }
            r
        },
        None => None,
    }
}

/// A pass that has nothing to rewrite leaves the module text as it is.
pub proof fn lemma_pass_without_rewrites(text: Seq<char>)
    ensures
        after_pass(text, seq![]) == Some(text),
{
    let src = vstd::utf8::encode_utf8(text);
    assert(sort_edits(seq![]) =~= Seq::<EditV>::empty());
    assert(crate::text::apply(src, seq![]) =~= src);
    vstd::utf8::encode_utf8_valid_utf8(text);
    vstd::utf8::encode_utf8_decode_utf8(text);
}

/// The head of the coverage object literal in the instrumenter's setup
/// code, as the code generator prints it.
pub const COVERAGE_DATA_HEAD: &'static str = "var coverageData = {";

/// istanbul's schema key with its hash, by which `readInitialCoverage`
/// (and so jest's report of never-imported files) finds the coverage
/// object; it goes first in that literal.
pub const COVERAGE_SCHEMA: &'static str = "_coverageSchema:\"1a1c01bbd47fc00a2c39e90264f33305004495a9\",";

/// The byte offset at which the schema key goes in a coverage setup: right
/// after its first `var coverageData = {`.
pub open spec fn schema_point(code: Seq<char>) -> Option<nat> {
    match crate::text::first_occurrence(enc(code), enc(COVERAGE_DATA_HEAD@), 0) {
        Some(i) => Some(i + enc(COVERAGE_DATA_HEAD@).len()),
        None => None,
    }
}

/// The coverage setup of an instrumented module with the schema key put in
/// place, when there is a place for it.
pub open spec fn with_schema(code: Seq<char>, instrumented: bool) -> Option<Seq<char>> {
    if instrumented {
        match schema_point(code) {
            Some(p) => after_pass(code, seq![EditV { start: p, end: p, text: enc(COVERAGE_SCHEMA@), origin: None }]),
            None => None,
        }
    } else {
        None
    }
}

/// The coverage setup, with the schema key when it went in (see
/// [`with_schema`]).
pub open spec fn marked_code(code: Seq<char>, instrumented: bool) -> Seq<char> {
    match with_schema(code, instrumented) {
        Some(t) => t,
        None => code,
    }
}

/// Put the schema key in an instrumented module's coverage setup (see
/// [`with_schema`]).
fn mark_schema(code: String, instrumented: bool) -> (r: String)
    ensures
        r@ == marked_code(code@, instrumented),
{
    if !instrumented {
        return code;
    }
    let bytes = bytes_of(code.as_str());
    let n = bytes.len();
    let head = bytes_of(COVERAGE_DATA_HEAD);
    match crate::text::find_bytes(bytes.as_slice(), head.as_slice()) {
        Some(i) => {
            proof {
                crate::text::lemma_first_occurrence(bytes@, head@, 0);
                assert(crate::text::occurs_at(bytes@, head@, i as int));
                assert(i + head@.len() <= n);
            }
            let p = i + head.len();
            let schema = bytes_of(COVERAGE_SCHEMA);
            let mut edits: Vec<Edit> = Vec::new();
            edits.push(Edit { start: p, end: p, text: schema, origin: None });
            assert(edit_views(edits@) =~= seq![
                EditV { start: p as nat, end: p as nat, text: enc(COVERAGE_SCHEMA@), origin: None },
            ]);
            match run_pass(code.as_str(), &edits) {
                Some(t) => t,
                None => code,
            }
        },
        None => code,
    }
}

/// The message for an ES target oxc does not know.
pub open spec fn unknown_target_message(target: Seq<char>, detail: Seq<char>) -> Seq<char> {
    "unknown ES target "@ + crate::text::debug_text(target) + ": "@ + detail
        + " (expected es5\u{2013}es2024 or esnext)"@
}

/// The message for a pass whose rewrites could not be applied.
pub const PASS_FAILED: &'static str = "internal error: overlapping rewrites in an Angular pass";

/// The coverage variable `options` name (`__coverage__` when none is
/// given).
pub open spec fn coverage_variable(options: TransformOptions) -> Seq<char> {
    match options.coverage_variable {
        Some(v) => v@,
        None => "__coverage__"@,
    }
}

/// Instrumented code `code` with its coverage setup taken out (see
/// [`setup_range`](crate::coverage::setup_range)): the code without it,
/// the setup's text and its byte range; none when it has no setup.
pub open spec fn split_setup(code: Seq<char>, filename: Seq<char>) -> Option<(Seq<char>, Seq<char>, nat, nat)> {
    match parsed(code, filename).tree {
        Some(t) => match crate::coverage::setup_range(enc(code), t) {
            Some((s, e)) => match (
                after_pass(code, seq![crate::coverage::cut(s, e)]),
                after_pass(code, seq![crate::coverage::cut(0, s), crate::coverage::cut(e, enc(code).len())]),
            ) {
                (Some(rest), Some(setup)) => Some((rest, setup, s, e)),
                _ => None,
            },
            None => None,
        },
        None => None,
    }
}

/// The coverage stage: when coverage is asked for, the module instrumented
/// with its coverage setup taken out (its text, the error-free coverage
/// map, the reprint step onto the module and the step that took the setup
/// out, and the setup), or, if instrumentation fails, the module as it is
/// and the error.
pub open spec fn coverage_stage(source: Seq<char>, filename: Seq<char>, options: TransformOptions) -> (
    Seq<char>,
    Seq<Seq<char>>,
    Option<Seq<char>>,
    Seq<StepView>,
    Seq<char>,
) {
    if options.coverage {
        match instrumented(source, filename, coverage_variable(options), options.source_map) {
            Ok((code, map, json)) => {
                let printed_step = reprint(map_tokens(json), enc(source), enc(code));
                match split_setup(code, filename) {
                    Some((rest, setup, s, e)) => (
                        rest,
                        seq![],
                        Some(map),
                        seq![printed_step, StepView::Edits(seq![crate::coverage::cut(s, e)])],
                        setup,
                    ),
                    None => (code, seq![], Some(map), seq![printed_step], seq![]),
                }
            },
            Err(e) => (source, seq![e], None, seq![], seq![]),
        }
    } else {
        (source, seq![], None, seq![], seq![])
    }
}

/// One pass over `text`, whose parse gave `tree`: the text after the edits
/// `rewrites` computes from the tree, the errors the pass adds, and the
/// step it took (its edits, in the order they were applied). Without a tree
/// the text stays; edits that cannot be applied leave it too and report
/// [`PASS_FAILED`].
pub open spec fn pass(
    text: Seq<char>,
    tree: Option<Json>,
    rewrites: spec_fn(Json) -> Seq<EditV>,
) -> (Seq<char>, Seq<Seq<char>>, Seq<StepView>) {
    match tree {
        Some(t) => match after_pass(text, rewrites(t)) {
            Some(after) => (after, seq![], seq![StepView::Edits(sort_edits(rewrites(t)))]),
            None => (text, seq![PASS_FAILED@], seq![]),
        },
        None => (text, seq![], seq![]),
    }
}

/// The `jest.mock` hoisting rounds over `text`, at most `fuel` of them:
/// each round is a hoisting pass on a fresh parse, and rounds go on while
/// one has something to rewrite. A list whose moved statements hold an
/// inner list rewritten in the same round waits for the next one, so
/// nested lists are hoisted from the inside out.
pub open spec fn hoist_rounds(text: Seq<char>, filename: Seq<char>, fuel: nat) -> (
    Seq<char>,
    Seq<Seq<char>>,
    Seq<StepView>,
)
    decreases fuel,
{
    if fuel == 0 {
        (text, seq![], seq![])
    } else {
        match parsed(text, filename).tree {
            Some(t) => {
                let edits = crate::jest_hoist::hoist_rewrites(enc(text), t);
                if edits.len() == 0 {
                    (text, seq![], seq![])
                } else {
                    match after_pass(text, edits) {
                        Some(after) => {
                            let (t2, e2, s2) = hoist_rounds(after, filename, (fuel - 1) as nat);
                            (t2, e2, seq![StepView::Edits(sort_edits(edits))] + s2)
                        },
                        None => (text, seq![PASS_FAILED@], seq![]),
                    }
                }
            },
            None => (text, seq![], seq![]),
        }
    }
}

/// The Angular passes over `text`: resources, then (when enabled) JIT and
/// `jest.mock` hoisting (in rounds, see [`hoist_rounds`]), each on a fresh
/// parse of the text before it.
/// Returns the text, the errors and the steps of the passes.
pub open spec fn angular_stage(text: Seq<char>, filename: Seq<char>, options: TransformOptions) -> (
    Seq<char>,
    Seq<Seq<char>>,
    Seq<StepView>,
) {
    let esm = options.module == ModuleKind::Esm;
    let start = resource_start(esm, options.keep_styles, query_view(options.keep_styles_query), enc(text));
    let (t1, e1, s1) = pass(text, parsed(text, filename).tree, |t: Json| resource_rewrites(start, t));
    let (t2, e2, s2) = if options.jit_transforms {
        pass(t1, parsed(t1, filename).tree, |t: Json| crate::jit_transform::jit_rewrites(enc(t1), t))
    } else {
        (t1, seq![], seq![])
    };
    let (t3, e3, s3) = if options.hoist_jest_mock {
        hoist_rounds(t2, filename, enc(t2).len())
    } else {
        (t2, seq![], seq![])
    };
    (t3, e1 + e2 + e3, s1 + s2 + s3)
}

/// The lowering settings `options` give, with the target oxc accepts (or
/// none).
pub open spec fn lowering_of(options: TransformOptions) -> LoweringView {
    LoweringView {
        plain_fields: !options.use_define_for_class_fields,
        legacy: options.experimental_decorators,
        emit_metadata: options.emit_decorator_metadata,
        target: match target_check(options.target@) {
            None => Some(options.target@),
            Some(_) => None,
        },
        esm: options.module == ModuleKind::Esm,
        runtime: options.jsx.runtime,
        development: options.jsx.development,
        import_source: opt_view(options.jsx.import_source),
        pragma: opt_view(options.jsx.pragma),
        pragma_frag: opt_view(options.jsx.pragma_frag),
    }
}

/// The mappings of an optional source map (JSON), when it can be read.
pub open spec fn map_tokens(json: Option<Seq<char>>) -> Option<Seq<MapToken>> {
    match json {
        Some(j) => match decoded_map(j) {
            Some((tokens, _names)) => Some(tokens),
            None => None,
        },
        None => None,
    }
}

/// The lowering of `text` and the delegate-constructor pass after it, with
/// their errors (an unknown target first, then the transformer's) and
/// steps (the reprint, then the pass's).
pub open spec fn lower_stage(text: Seq<char>, filename: Seq<char>, options: TransformOptions) -> (
    Seq<char>,
    Seq<Seq<char>>,
    Seq<StepView>,
) {
    let target_errors = match target_check(options.target@) {
        Some(detail) => seq![unknown_target_message(options.target@, detail)],
        None => seq![],
    };
    let low = lowered(text, filename, lowering_of(options));
    let t4 = low.code@;
    let table = symbol_table(t4, filename);
    let (t5, e5, s5) = pass(t4, parsed(t4, filename).tree, |t: Json| crate::delegate_ctor::delegate_rewrites(table, t));
    (t5, target_errors + string_views(low.errors@) + e5, seq![reprint(map_tokens(opt_view(low.map)), enc(text), enc(t4))] + s5)
}

/// The ESM→CommonJS pass over `text`: the text, its errors, the interop
/// prelude, whether the module was converted, and its steps.
pub open spec fn cjs_stage(text: Seq<char>, filename: Seq<char>) -> (
    Seq<char>,
    Seq<Seq<char>>,
    Seq<char>,
    bool,
    Seq<StepView>,
) {
    match parsed(text, filename).tree {
        Some(t) => {
            let (edits, needs, converted) = crate::esm_to_cjs::cjs_rewrite(
                enc(text),
                t,
                symbol_table(text, filename),
            );
            match after_pass(text, edits) {
                Some(after) => (
                    after,
                    seq![],
                    crate::esm_to_cjs::prelude_text(needs),
                    converted,
                    seq![StepView::Edits(sort_edits(edits))],
                ),
                None => (text, seq![PASS_FAILED@], seq![], false, seq![]),
            }
        },
        None => (text, seq![], seq![], false, seq![]),
    }
}

/// The outcome of the stages before code generation.
pub struct Outcome {
    /// The final text.
    pub text: Seq<char>,
    /// The errors: the parser's diagnostics of the module first, then
    /// those of the stages in turn.
    pub errors: Seq<Seq<char>>,
    /// The interop prelude.
    pub prelude: Seq<char>,
    /// Whether the module was converted to CommonJS.
    pub converted: bool,
    /// The coverage map.
    pub coverage: Option<Seq<char>>,
    /// The steps the module text took.
    pub steps: Seq<StepView>,
    /// The coverage setup, prepended to the generated code.
    pub setup: Seq<char>,
}

/// The stages up to the Angular passes: the parser's diagnostics of the
/// module, coverage, and the Angular passes; the text, errors, coverage
/// map, steps and coverage setup.
pub open spec fn front_stage(source: Seq<char>, filename: Seq<char>, options: TransformOptions) -> (
    Seq<char>,
    Seq<Seq<char>>,
    Option<Seq<char>>,
    Seq<StepView>,
    Seq<char>,
) {
    let parse_errors = string_views(parsed(source, filename).errors@);
    let (t0, e0, coverage, s0, setup) = coverage_stage(source, filename, options);
    let (t3, e3, s3) = angular_stage(t0, filename, options);
    (t3, parse_errors + e0 + e3, coverage, s0 + s3, setup)
}

/// The stages after the Angular passes: when lowering, the lowering with
/// the delegate-constructor pass and, for CommonJS output, the
/// ESM→CommonJS pass; the text, errors, interop prelude, whether the
/// module was converted, and steps.
pub open spec fn back_stage(text: Seq<char>, filename: Seq<char>, options: TransformOptions) -> (
    Seq<char>,
    Seq<Seq<char>>,
    Seq<char>,
    bool,
    Seq<StepView>,
) {
    if options.lower {
        let (t5, e5, s5) = lower_stage(text, filename, options);
        if options.module == ModuleKind::Esm {
            (t5, e5, seq![], false, s5)
        } else {
            let (t6, e6, prelude, converted, s6) = cjs_stage(t5, filename);
            (t6, e5 + e6, prelude, converted, s5 + s6)
        }
    } else {
        (text, seq![], seq![], false, seq![])
    }
}

/// The stages before code generation (see [`front_stage`] and
/// [`back_stage`]).
pub open spec fn pipeline(source: Seq<char>, filename: Seq<char>, options: TransformOptions) -> Outcome {
    let (t3, e3, coverage, s3, setup) = front_stage(source, filename, options);
    let (text, e, prelude, converted, s) = back_stage(t3, filename, options);
    Outcome { text, errors: e3 + e, prelude, converted, coverage, steps: s3 + s, setup }
}

/// The text prepended to the generated code: `"use strict";`, the interop
/// prelude and the coverage setup with its schema key (see
/// [`prefix_text`]).
pub open spec fn transform_prefix(o: Outcome) -> Seq<char> {
    prefix_text(o.converted, o.prelude, marked_code(o.setup, o.coverage is Some))
}

/// The generated code of a transform: the prefix (see
/// [`transform_prefix`]) and the code generated from the final text.
pub open spec fn transformed_code(source: Seq<char>, filename: Seq<char>, options: TransformOptions) -> Seq<char> {
    let o = pipeline(source, filename, options);
    transform_prefix(o) + printed(o.text, filename, options.source_map).code@
}

/// The number of lines prepended to the generated code.
pub open spec fn prefix_lines(source: Seq<char>, filename: Seq<char>, options: TransformOptions) -> nat {
    newline_count(vstd::utf8::encode_utf8(transform_prefix(pipeline(source, filename, options))))
}

/// Only an actual ESM→CommonJS conversion gets the `"use strict";`
/// directive: a converted module's code starts with it, and a transform
/// for ESM output, or without lowering, converts nothing and prepends
/// nothing but the coverage setup.
pub proof fn lemma_use_strict_only_when_converted(source: Seq<char>, filename: Seq<char>, options: TransformOptions)
    ensures
        pipeline(source, filename, options).converted ==> transformed_code(source, filename, options).subrange(
            0,
            USE_STRICT@.len() as int,
        ) == USE_STRICT@,
        options.module == ModuleKind::Esm || !options.lower ==> !pipeline(source, filename, options).converted
            && transformed_code(source, filename, options) == prefix_text(
            false,
            seq![],
            marked_code(pipeline(source, filename, options).setup, pipeline(source, filename, options).coverage is Some),
        ) + printed(pipeline(source, filename, options).text, filename, options.source_map).code@,
{
    let o = pipeline(source, filename, options);
    let code = printed(o.text, filename, options.source_map).code@;
    let p = transform_prefix(o);
    if o.converted {
        let cov = marked_code(o.setup, o.coverage is Some);
        let c = if vstd::utf8::encode_utf8(cov).len() == 0 {
            seq![]
        } else if ends_with_newline(cov) {
            cov
        } else {
            cov + "\n"@
        };
        assert(p =~= USE_STRICT@ + (o.prelude + c));
        assert((p + code).subrange(0, USE_STRICT@.len() as int) =~= USE_STRICT@);
    }
}

/// Instrumentation sees the module as written, before any other pass: two
/// transforms of one module whose options agree on coverage, its variable
/// and source maps give the same coverage map and the same coverage setup,
/// whatever the target, the module format, the lowering or the Angular
/// passes.
pub proof fn lemma_coverage_independent_of_transforms(
    source: Seq<char>,
    filename: Seq<char>,
    a: TransformOptions,
    b: TransformOptions,
)
    requires
        a.coverage == b.coverage,
        coverage_variable(a) == coverage_variable(b),
        a.source_map == b.source_map,
    ensures
        pipeline(source, filename, a).coverage == pipeline(source, filename, b).coverage,
        pipeline(source, filename, a).setup == pipeline(source, filename, b).setup,
{
}

/// Whether `out` is the source map `map` shifted by `lines` lines (see
/// [`offset_source_map`](crate::source_map::offset_source_map)).
pub open spec fn shifted_by(map: Seq<char>, lines: nat, out: Seq<char>) -> bool {
    &&& lines == 0 ==> out == map
    &&& lines > 0 && json_parse(map) is None ==> out == map
    &&& lines > 0 && json_parse(map) is Some ==> exists|k: Json|
        crate::source_map::shifted_map(json_parse(map)->0, k, lines) && out == json_text(k)
}

/// The source map of a transform before the shift: the mappings of the
/// generated map `json` traced back through the steps onto the module's
/// own text, with the generated names, onto the source `filename` with the
/// module's text as its content; the generated map itself when it cannot
/// be read, or when its mappings do not come in line order (the writer
/// needs them so).
pub open spec fn source_map_of(source: Seq<char>, filename: Seq<char>, options: TransformOptions, json: Seq<char>) -> Seq<
    char,
> {
    let o = pipeline(source, filename, options);
    match decoded_map(json) {
        Some((tokens, names)) => {
            let traced = traced_tokens(tokens, enc(o.text), o.steps, enc(source));
            if crate::mapping::lines_ordered(traced) {
                map_text(filename, source, traced, names)
            } else {
                json
            }
        },
        None => json,
    }
}

/// Whether `code`, `map`, `coverage` and `errors` are what transforming
/// `source` (the contents of `filename`) under `options` gives: the
/// generated code with its prefix, the source map traced back to the module
/// and shifted by the prefix's lines, the coverage map, and the errors of
/// the pipeline.
pub open spec fn transform_ok(
    source: Seq<char>,
    filename: Seq<char>,
    options: TransformOptions,
    code: Seq<char>,
    map: Option<Seq<char>>,
    coverage: Option<Seq<char>>,
    errors: Seq<Seq<char>>,
) -> bool {
    let o = pipeline(source, filename, options);
    let generated = printed(o.text, filename, options.source_map);
    &&& code == transformed_code(source, filename, options)
    &&& errors == o.errors
    &&& coverage == o.coverage
    &&& map is Some <==> generated.map is Some
    &&& map matches Some(m) ==> shifted_by(
        source_map_of(source, filename, options, generated.map->0@),
        prefix_lines(source, filename, options),
        m,
    )
}

/// Settle a pass: apply `edits` to `text`, or report [`PASS_FAILED`].
/// Returns the step the pass took, when the edits applied.
fn settle(text: &mut String, errors: &mut Vec<String>, edits: &Vec<Edit>) -> (r: Option<Step>)
    ensures
        r is Some == after_pass(old(text)@, edit_views(edits@)) is Some,
        r matches Some(step) ==> step.wf() && step@ == StepView::Edits(sort_edits(edit_views(edits@))),
        match after_pass(old(text)@, edit_views(edits@)) {
            Some(after) => final(text)@ == after && final(errors)@ == old(errors)@,
            None => final(text)@ == old(text)@ && string_views(final(errors)@) == string_views(
                old(errors)@,
            ).push(PASS_FAILED@),
        },
{
    match run_pass(text.as_str(), edits) {
        Some(t) => {
            let sorted = crate::text::sorted_edits(edits);
            let len = text.as_str().as_bytes().len();
            assert(edits_ordered(edit_views(sorted@), usize::MAX as int)) by {
                assert(edits_ordered(sort_edits(edit_views(edits@)), len as int));
            }
            *text = t;
            Some(edit_step(sorted))
        },
        None => {
            let ghost before = string_views(errors@);
            errors.push(PASS_FAILED.to_string());
            assert(string_views(errors@) =~= before.push(PASS_FAILED@));
            None
        },
    }
}

/// Append the step of a pass, if it took one.
fn add_step(steps: &mut Vec<Step>, step: Option<Step>)
    requires
        steps_wf(old(steps)@),
        step matches Some(s) ==> s.wf(),
    ensures
        steps_wf(final(steps)@),
        steps_view(final(steps)@) == steps_view(old(steps)@) + match step {
            Some(s) => seq![s@],
            None => Seq::<StepView>::empty(),
        },
{
    let ghost before = steps_view(steps@);
    match step {
        Some(s) => {
            steps.push(s);
            assert(steps_view(steps@) =~= before + seq![s@]);
        },
        None => {
            assert(steps_view(steps@) =~= before + Seq::<StepView>::empty());
        },
    }
}

/// See [`angular_stage`]; `tree` is the parse of `text`.
fn angular_passes(text: String, filename: &str, options: &TransformOptions, tree: &Option<Json>) -> (r: (
    String,
    Vec<String>,
    Vec<Step>,
))
    requires
        *tree == parsed(text@, filename@).tree,
    ensures
        (r.0@, string_views(r.1@), steps_view(r.2@)) == angular_stage(text@, filename@, *options),
        steps_wf(r.2@),
{
    let esm = options.is_esm();
    let mut errors: Vec<String> = Vec::new();
    let mut steps: Vec<Step> = Vec::new();
    let mut text = text;
    let ghost t0 = text@;
    let ghost start = resource_start(esm, options.keep_styles, query_view(options.keep_styles_query), enc(t0));
    match tree {
        Some(tree) => {
            let query = copy_opt(&options.keep_styles_query);
            assert(query_view(query) == query_view(options.keep_styles_query));
            let edits = resource_edits(text.as_str(), tree, esm, options.keep_styles, query);
            let step = settle(&mut text, &mut errors, &edits);
            add_step(&mut steps, step);
        },
        None => {},
    }
    let ghost (t1, e1, s1) = pass(t0, parsed(t0, filename@).tree, |t: Json| resource_rewrites(start, t));
    assert(text@ == t1 && string_views(errors@) =~= e1 && steps_view(steps@) =~= s1);
    if options.jit_transforms {
        let reparsed = parse_tree(text.as_str(), filename);
        match &reparsed.tree {
            Some(tree) => {
                let edits = crate::jit_transform::jit_edits(text.as_str(), tree);
                let step = settle(&mut text, &mut errors, &edits);
                add_step(&mut steps, step);
            },
            None => {},
        }
    }
    let ghost (t2, e2, s2) = if options.jit_transforms {
        pass(t1, parsed(t1, filename@).tree, |t: Json| crate::jit_transform::jit_rewrites(enc(t1), t))
    } else {
        (t1, seq![], seq![])
    };
    assert(text@ == t2 && string_views(errors@) =~= e1 + e2 && steps_view(steps@) =~= s1 + s2);
    if options.hoist_jest_mock {
        hoist_passes(&mut text, filename, &mut errors, &mut steps);
    }
    let ghost (t3, e3, s3) = if options.hoist_jest_mock {
        hoist_rounds(t2, filename@, enc(t2).len())
    } else {
        (t2, seq![], seq![])
    };
    assert(text@ == t3 && string_views(errors@) =~= e1 + e2 + e3 && steps_view(steps@) =~= s1 + s2 + s3);
    (text, errors, steps)
}

/// See [`hoist_rounds`]: the rounds over `text`, their errors and steps
/// appended.
fn hoist_passes(text: &mut String, filename: &str, errors: &mut Vec<String>, steps: &mut Vec<Step>)
    requires
        steps_wf(old(steps)@),
    ensures
        ({
            let (t, e, s) = hoist_rounds(old(text)@, filename@, enc(old(text)@).len());
            final(text)@ == t && string_views(final(errors)@) == string_views(old(errors)@) + e
                && steps_view(final(steps)@) == steps_view(old(steps)@) + s
        }),
        steps_wf(final(steps)@),
{
    let ghost t0 = text@;
    let ghost e0 = string_views(errors@);
    let ghost s0 = steps_view(steps@);
    let fuel = text.as_str().as_bytes().len();
    let mut round: usize = 0;
    let ghost mut acc: Seq<StepView> = seq![];
    assert(s0 + acc =~= s0);
    assert(acc + hoist_rounds(t0, filename@, fuel as nat).2 =~= hoist_rounds(t0, filename@, fuel as nat).2);
    while round < fuel
        invariant_except_break
            string_views(errors@) == e0,
            steps_view(steps@) == s0 + acc,
            ({
                let (t, e, s) = hoist_rounds(text@, filename@, (fuel - round) as nat);
                hoist_rounds(t0, filename@, fuel as nat) == (t, e, acc + s)
            }),
        invariant
            round <= fuel,
            steps_wf(steps@),
        ensures
            ({
                let (t, e, s) = hoist_rounds(t0, filename@, fuel as nat);
                text@ == t && string_views(errors@) == e0 + e && steps_view(steps@) == s0 + s
            }),
        decreases fuel - round,
    {
        let ghost tb = text@;
        let ghost n = (fuel - round) as nat;
        let reparsed = parse_tree(text.as_str(), filename);
        match &reparsed.tree {
            Some(tree) => {
                let edits = crate::jest_hoist::hoist_edits(text.as_str(), tree);
                if edits.len() == 0 {
                    assert(e0 + Seq::<Seq<char>>::empty() =~= e0);
                    assert(acc + Seq::<StepView>::empty() =~= acc);
                    break;
                }
                let step = settle(text, errors, &edits);
                match step {
                    Some(st) => {
                        let ghost sb = steps_view(steps@);
                        add_step(steps, Some(st));
                        proof {
                            let (t2, e2, s2) = hoist_rounds(text@, filename@, (n - 1) as nat);
                            assert(acc + (seq![st@] + s2) =~= acc.push(st@) + s2);
                            acc = acc.push(st@);
                            assert(steps_view(steps@) =~= s0 + acc);
                        }
                        round = round + 1;
                    },
                    None => {
                        break;
                    },
                }
            },
            None => {
                assert(e0 + Seq::<Seq<char>>::empty() =~= e0);
                assert(acc + Seq::<StepView>::empty() =~= acc);
                break;
            },
        }
    }
    proof {
        if round == fuel {
            assert(e0 + Seq::<Seq<char>>::empty() =~= e0);
        }
    }
}

/// A copy of an optional string.
fn copy_opt(s: &Option<String>) -> (r: Option<String>)
    ensures
        opt_view(r) == opt_view(*s),
{
    match s {
        Some(t) => Some(t.clone()),
        None => None,
    }
}

/// The UTF-8 bytes of a text.
fn bytes_of(s: &str) -> (r: Vec<u8>)
    ensures
        r@ == enc(s@),
{
    let mut out: Vec<u8> = Vec::new();
    crate::text::push_str(&mut out, s);
    assert(out@ =~= enc(s@));
    out
}

/// See [`lower_stage`].
fn lower_passes(text: String, filename: &str, options: &TransformOptions) -> (r: (String, Vec<String>, Vec<Step>))
    ensures
        (r.0@, string_views(r.1@), steps_view(r.2@)) == lower_stage(text@, filename@, *options),
        steps_wf(r.2@),
{
    let mut errors: Vec<String> = Vec::new();
    let target = match check_target(options.target.as_str()) {
        None => Some(options.target.clone()),
        Some(detail) => {
            let mut msg = "unknown ES target ".to_string();
            msg.append(crate::text::debug_quoted(options.target.as_str()).as_str());
            msg.append(": ");
            msg.append(detail.as_str());
            msg.append(" (expected es5\u{2013}es2024 or esnext)");
            errors.push(msg);
            None
        },
    };
    let ghost target_errors = match target_check(options.target@) {
        Some(detail) => seq![unknown_target_message(options.target@, detail)],
        None => seq![],
    };
    assert(string_views(errors@) =~= target_errors);
    let env = env_setup(target, options.is_esm());
    let jsx = jsx_setup(
        JsxConfig {
            runtime: options.jsx.runtime,
            development: options.jsx.development,
            import_source: copy_opt(&options.jsx.import_source),
            pragma: copy_opt(&options.jsx.pragma),
            pragma_frag: copy_opt(&options.jsx.pragma_frag),
        },
    );
    let settings = lowering(
        !options.use_define_for_class_fields,
        options.experimental_decorators,
        options.emit_decorator_metadata,
        env,
        jsx,
    );
    assert(settings@ == lowering_of(*options));
    let mut low = lower(text.as_str(), filename, &settings);
    let ghost le = string_views(low.errors@);
    errors.append(&mut low.errors);
    assert(string_views(errors@) =~= target_errors + le);
    let mut out = low.code;
    let ghost t4 = out@;
    let tokens: Option<Vec<MapToken>> = match &low.map {
        Some(json) => match decode_map(json.as_str()) {
            Some(m) => Some(m.tokens),
            None => None,
        },
        None => None,
    };
    let reprinted = reprint_step(tokens, bytes_of(text.as_str()), bytes_of(out.as_str()));
    let mut steps: Vec<Step> = Vec::new();
    steps.push(reprinted);
    let reparsed = parse_tree(out.as_str(), filename);
    match &reparsed.tree {
        Some(tree) => {
            let table = crate::syntax::symbols(out.as_str(), filename);
            let edits = crate::delegate_ctor::delegate_edits(table, tree);
            let step = settle(&mut out, &mut errors, &edits);
            add_step(&mut steps, step);
        },
        None => {},
    }
    let ghost table = symbol_table(t4, filename@);
    let ghost (t5, e5, s5) = pass(t4, parsed(t4, filename@).tree, |t: Json| crate::delegate_ctor::delegate_rewrites(table, t));
    assert(out@ == t5 && string_views(errors@) =~= target_errors + le + e5);
    assert(steps_view(steps@) =~= seq![reprint(map_tokens(opt_view(low.map)), enc(text@), enc(t4))] + s5);
    (out, errors, steps)
}

/// See [`cjs_stage`].
fn cjs_pass(text: String, filename: &str) -> (r: (String, Vec<String>, String, bool, Vec<Step>))
    ensures
        (r.0@, string_views(r.1@), r.2@, r.3, steps_view(r.4@)) == cjs_stage(text@, filename@),
        steps_wf(r.4@),
{
    let mut out = text;
    let mut errors: Vec<String> = Vec::new();
    let mut steps: Vec<Step> = Vec::new();
    let mut prelude = String::new();
    let mut converted = false;
    let reparsed = parse_tree(out.as_str(), filename);
    match &reparsed.tree {
        Some(tree) => {
            let table = crate::syntax::symbols(out.as_str(), filename);
            let (edits, result) = crate::esm_to_cjs::esm_to_cjs(out.as_str(), tree, &table);
            let ghost before = out@;
            let step = settle(&mut out, &mut errors, &edits);
            if step.is_some() {
                prelude = result.prelude;
                converted = result.converted;
            }
            add_step(&mut steps, step);
            assert(string_views(errors@) =~= match after_pass(before, edit_views(edits@)) {
                Some(_) => seq![],
                None => seq![PASS_FAILED@],
            });
        },
        None => {
            assert(string_views(errors@) =~= seq![]);
            assert(steps_view(steps@) =~= seq![]);
        },
    }
    (out, errors, prelude, converted, steps)
}

/// See [`split_setup`]; `tree` is the parse of `code`.
fn split_setup_of(code: &str, filename: &str, tree: &Option<Json>) -> (r: Option<(String, String, usize, usize)>)
    requires
        *tree == parsed(code@, filename@).tree,
    ensures
        match r {
            Some((rest, setup, s, e)) => split_setup(code@, filename@) == Some((rest@, setup@, s as nat, e as nat))
                && s <= e,
            None => split_setup(code@, filename@) is None,
        },
{
    match tree {
        Some(t) => {
            let bytes = bytes_of(code);
            match crate::coverage::setup_range_of(&bytes, t) {
                Some((s, e)) => {
                    let len = bytes.len();
                    let mut one: Vec<Edit> = Vec::new();
                    one.push(Edit { start: s, end: e, text: Vec::new(), origin: None });
                    assert(edit_views(one@) =~= seq![crate::coverage::cut(s as nat, e as nat)]);
                    let mut two: Vec<Edit> = Vec::new();
                    two.push(Edit { start: 0, end: s, text: Vec::new(), origin: None });
                    two.push(Edit { start: e, end: len, text: Vec::new(), origin: None });
                    assert(edit_views(two@) =~= seq![
                        crate::coverage::cut(0, s as nat),
                        crate::coverage::cut(e as nat, enc(code@).len()),
                    ]);
                    match (run_pass(code, &one), run_pass(code, &two)) {
                        (Some(rest), Some(setup)) => Some((rest, setup, s, e)),
                        _ => None,
                    }
                },
                None => None,
            }
        },
        None => None,
    }
}

/// See [`coverage_stage`]; `tree` is the parse of `source`, and the parse
/// of the resulting text is returned with it.
fn coverage_pass(source: &str, filename: &str, options: &TransformOptions, tree: Option<Json>) -> (r: (
    String,
    Vec<String>,
    Option<String>,
    Option<Json>,
    Vec<Step>,
    String,
))
    requires
        tree == parsed(source@, filename@).tree,
    ensures
        (r.0@, string_views(r.1@), opt_view(r.2), steps_view(r.4@), r.5@) == coverage_stage(
            source@,
            filename@,
            *options,
        ),
        r.3 == parsed(r.0@, filename@).tree,
        steps_wf(r.4@),
{
    let mut errors: Vec<String> = Vec::new();
    let mut steps: Vec<Step> = Vec::new();
    proof {
        reveal_strlit("");
    }
    if options.coverage {
        let variable = match &options.coverage_variable {
            Some(v) => v.clone(),
            None => "__coverage__".to_string(),
        };
        proof {
            reveal_strlit("__coverage__");
        }
        match instrument(source, filename, variable.as_str(), options.source_map) {
            Ok(i) => {
                let reparsed = parse_tree(i.code.as_str(), filename);
                let tokens: Option<Vec<MapToken>> = match &i.map {
                    Some(json) => match decode_map(json.as_str()) {
                        Some(m) => Some(m.tokens),
                        None => None,
                    },
                    None => None,
                };
                let step = reprint_step(tokens, bytes_of(source), bytes_of(i.code.as_str()));
                steps.push(step);
                assert(string_views(errors@) =~= seq![]);
                match split_setup_of(i.code.as_str(), filename, &reparsed.tree) {
                    Some((rest, setup, s, e)) => {
                        let mut cut_edits: Vec<Edit> = Vec::new();
                        cut_edits.push(Edit { start: s, end: e, text: Vec::new(), origin: None });
                        assert(edit_views(cut_edits@) =~= seq![crate::coverage::cut(s as nat, e as nat)]);
                        let cut_step = edit_step(cut_edits);
                        steps.push(cut_step);
                        assert(steps_view(steps@) =~= seq![step@, cut_step@]);
                        let rest_tree = parse_tree(rest.as_str(), filename);
                        (rest, errors, Some(i.coverage_map), rest_tree.tree, steps, setup)
                    },
                    None => {
                        assert(steps_view(steps@) =~= seq![step@]);
                        (i.code, errors, Some(i.coverage_map), reparsed.tree, steps, String::new())
                    },
                }
            },
            Err(e) => {
                errors.push(e);
                assert(string_views(errors@) =~= seq![e@]);
                assert(steps_view(steps@) =~= seq![]);
                (source.to_string(), errors, None, tree, steps, String::new())
            },
        }
    } else {
        assert(string_views(errors@) =~= seq![]);
        assert(steps_view(steps@) =~= seq![]);
        (source.to_string(), errors, None, tree, steps, String::new())
    }
}

/// See [`front_stage`].
fn front_passes(source: &str, filename: &str, options: &TransformOptions) -> (r: (
    String,
    Vec<String>,
    Option<String>,
    Vec<Step>,
    String,
))
    ensures
        (r.0@, string_views(r.1@), opt_view(r.2), steps_view(r.3@), r.4@) == front_stage(
            source@,
            filename@,
            *options,
        ),
        steps_wf(r.3@),
{
    let first = parse_tree(source, filename);
    let mut errors: Vec<String> = first.errors;
    let ghost parse_errors = string_views(errors@);
    let (text, mut more, coverage_map, tree, mut steps, setup) = coverage_pass(source, filename, options, first.tree);
    let ghost e0 = string_views(more@);
    let ghost s0 = steps_view(steps@);
    errors.append(&mut more);
    assert(string_views(errors@) =~= parse_errors + e0);
    let (passed, mut more, mut more_steps) = angular_passes(text, filename, options, &tree);
    let ghost e3 = string_views(more@);
    let ghost s3 = steps_view(more_steps@);
    errors.append(&mut more);
    steps.append(&mut more_steps);
    assert(string_views(errors@) =~= parse_errors + e0 + e3);
    assert(steps_view(steps@) =~= s0 + s3);
    (passed, errors, coverage_map, steps, setup)
}

/// See [`back_stage`].
fn back_passes(text: String, filename: &str, options: &TransformOptions) -> (r: (
    String,
    Vec<String>,
    String,
    bool,
    Vec<Step>,
))
    ensures
        (r.0@, string_views(r.1@), r.2@, r.3, steps_view(r.4@)) == back_stage(text@, filename@, *options),
        steps_wf(r.4@),
{
    if !options.lower {
        let errors: Vec<String> = Vec::new();
        let steps: Vec<Step> = Vec::new();
        assert(string_views(errors@) =~= seq![]);
        assert(steps_view(steps@) =~= seq![]);
        return (text, errors, String::new(), false, steps);
    }
    let (lowered_text, mut errors, mut steps) = lower_passes(text, filename, options);
    if options.is_esm() {
        return (lowered_text, errors, String::new(), false, steps);
    }
    let ghost e5 = string_views(errors@);
    let ghost s5 = steps_view(steps@);
    let (converted_text, mut more, prelude, converted, mut more_steps) = cjs_pass(lowered_text, filename);
    let ghost e6 = string_views(more@);
    let ghost s6 = steps_view(more_steps@);
    errors.append(&mut more);
    steps.append(&mut more_steps);
    assert(string_views(errors@) =~= e5 + e6);
    assert(steps_view(steps@) =~= s5 + s6);
    (converted_text, errors, prelude, converted, steps)
}

/// The outcome of [`run_stages`] as executable values.
struct Stages {
    text: String,
    errors: Vec<String>,
    prelude: String,
    converted: bool,
    coverage: Option<String>,
    steps: Vec<Step>,
    setup: String,
}

/// See [`pipeline`].
fn run_stages(source: &str, filename: &str, options: &TransformOptions) -> (r: Stages)
    ensures
        (Outcome {
            text: r.text@,
            errors: string_views(r.errors@),
            prelude: r.prelude@,
            converted: r.converted,
            coverage: opt_view(r.coverage),
            steps: steps_view(r.steps@),
            setup: r.setup@,
        }) == pipeline(source@, filename@, *options),
        steps_wf(r.steps@),
{
    let (text, mut errors, coverage, mut steps, setup) = front_passes(source, filename, options);
    let ghost e3 = string_views(errors@);
    let ghost s3 = steps_view(steps@);
    let (text, mut more, prelude, converted, mut more_steps) = back_passes(text, filename, options);
    let ghost e = string_views(more@);
    let ghost s = steps_view(more_steps@);
    errors.append(&mut more);
    steps.append(&mut more_steps);
    assert(string_views(errors@) =~= e3 + e);
    assert(steps_view(steps@) =~= s3 + s);
    Stages { text, errors, prelude, converted, coverage, steps, setup }
}

/// Transform `source` (the contents of `filename`) for use under a test
/// runner. `filename` selects the source type (ts/tsx/js/jsx) and is the
/// source-map path. Errors are accumulated into
/// [`TransformResult::errors`]; the returned `code` may then be incomplete.
pub fn transform(source: &str, filename: &str, options: &TransformOptions) -> (r: TransformResult)
    ensures
        r.source_map is Some <==> options.source_map,
        transform_ok(
            source@,
            filename@,
            *options,
            r.code@,
            opt_view(r.source_map),
            opt_view(r.coverage_map),
            string_views(r.errors@),
        ),
{
    let stages = run_stages(source, filename, options);
    let out = print(stages.text.as_str(), filename, options.source_map);
    let setup = mark_schema(stages.setup, stages.coverage.is_some());
    let (code, lines) = assemble(stages.converted, stages.prelude.as_str(), setup.as_str(), out.code);
    proof {
        let p = prefix_text(stages.converted, stages.prelude@, setup@);
        if vstd::utf8::encode_utf8(p).len() == 0 {
            assert(p =~= Seq::<char>::empty()) by {
                vstd::utf8::encode_utf8_decode_utf8(p);
            }
        }
    }
    let source_map = match out.map {
        Some(json) => {
            let map = match decode_map(json.as_str()) {
                Some(m) => {
                    let tokens = trace_tokens(&m.tokens, bytes_of(stages.text.as_str()), &stages.steps, bytes_of(source));
                    if crate::mapping::lines_ordered_of(&tokens) {
                        encode_map(filename, source, &tokens, &m.names)
                    } else {
                        json
                    }
                },
                None => json,
            };
            Some(crate::source_map::offset_source_map(map.as_str(), lines))
        },
        None => None,
    };
    TransformResult { code, source_map, coverage_map: stages.coverage, errors: stages.errors }
}

} // verus!
