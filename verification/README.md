# ng_transform

Angular test transforms on top of oxc, verified with Verus: component
resource inlining (`templateUrl`, `styleUrls`, `keepStyles`), Angular
decorator downleveling and the signal-initializer-API decorators (JIT),
`jest.mock()` hoisting, the ESM→CommonJS rewrite (TypeScript's
`module: commonjs` + `esModuleInterop` emit), optional istanbul coverage,
and oxc's TypeScript/decorator/JSX lowering.

## How it works

Each Angular pass reads the module's syntax tree (oxc's ESTree, held as
plain JSON values) and describes its rewrites as byte-range edits of the
module text. The edits are ordered by start and applied; the result is
parsed again for the next pass. Every pass is a verified function from
(text, tree) to edits whose contract is a spec function of the same
inputs, and `transform` is specified as the composition of the stages
over named results of the oxc calls (parse, scope analysis, lowering,
code generation, coverage instrumentation).

Every step that changes the text is recorded (a pass's edits, or a
reprint by the lowering or the instrumenter with its own source map), so
the source map of the generated code is traced back through all of them
to the module as written. Text that `jest.mock()` hoisting moves carries
the offset it came from, so it maps to its own line.

The coverage instrumenter's setup code is taken out of the module text
before the other passes and prepended to the generated code (after
`"use strict";` and the interop prelude), with istanbul's schema key put
first in its coverage object. `jest.mock()` hoisting runs in rounds, so
that calls nested in a hoisted call's factory are hoisted first.

## Layout

- `src/lib.rs`: the pipeline (`transform`), its stage specifications,
  `assemble` and the pass plumbing.
- `src/resources.rs`, `src/jit_transform.rs`, `src/jest_hoist.rs`,
  `src/delegate_ctor.rs`, `src/esm_to_cjs.rs`, `src/runtime_helpers.rs`:
  the passes.
- `src/binding.rs`: the JavaScript-facing options and entry point.
- `src/coverage.rs`: finding the coverage setup in instrumented code.
- `src/text.rs`, `src/json.rs`, `src/estree.rs`, `src/walk.rs`: edits,
  JSON values, ESTree access and the depth-first traversal.
- `src/mapping.rs`: offsets, line/column positions and tracing source
  map positions back through the recorded steps.
- `src/source_map.rs`: shifting the source map by the prepended lines.
- `src/syntax.rs`: the trusted calls into oxc, oxc_sourcemap and
  oxc_coverage_instrument.
- `src/options.rs`: the transform options and their defaults.
- `app/lib.rs`: the napi binding.
- `tests/`: scenario tests and the laws on concrete values.
