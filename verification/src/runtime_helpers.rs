//! Inlining oxc's async runtime helper into the emitted module (as tsc
//! inlines `__awaiter`).
//!
//! When `async`/`await` is downleveled, oxc imports `asyncToGenerator` from
//! `@oxc-project/runtime`, whose `new Promise(...)` then belongs to the
//! helper's module. Under zone.js the test's global `Promise` is replaced, so
//! that Promise is not `instanceof`-equal to the test's. Inlining the helper
//! as a module-local `var` makes its `Promise` resolve to the emitting
//! module's global. Only the self-contained `asyncToGenerator` is inlined.

use vstd::prelude::*;

use crate::jit_transform::{append_edits, local_of, removal, removal_of_node, specifiers_of};
use crate::json::{field, get, get_arr, get_str, has_type, is_type, str_field, Json};
use crate::resources::body_of;
use crate::text::{edit_views, str_eq, Edit, EditV};

verus! {

/// The module path prefix of oxc's runtime helpers.
pub const HELPER_PREFIX: &'static str = "@oxc-project/runtime/helpers/";

/// The file name of the helper that is inlined.
pub const ASYNC_TO_GENERATOR_NAME: &'static str = "asyncToGenerator";

/// An expression returning the `asyncToGenerator` helper: the runtime's
/// function, wrapped in an IIFE. Its `new Promise` / `Promise.resolve`
/// resolve to the emitting module's global.
pub const ASYNC_TO_GENERATOR: &'static str = "(function () { function asyncGeneratorStep(n, t, e, r, o, a, c) { try { var i = n[a](c), u = i.value; } catch (n) { return void e(n); } i.done ? t(u) : Promise.resolve(u).then(r, o); } return function (n) { return function () { var t = this, e = arguments; return new Promise(function (r, o) { var a = n.apply(t, e); function _next(n) { asyncGeneratorStep(a, r, o, _next, _throw, \"next\", n); } function _throw(n) { asyncGeneratorStep(a, r, o, _next, _throw, \"throw\", n); } _next(void 0); }); }; }; })()";

/// The source an import statement imports from.
pub open spec fn import_source(stmt: Json) -> Option<Seq<char>> {
    if is_type(stmt, "ImportDeclaration"@) {
        match field(stmt, "source"@) {
            Some(s) => str_field(s, "value"@),
            None => None,
        }
    } else {
        None
    }
}

/// The inline expression for an import source, if it names a helper that
/// is inlined.
pub open spec fn inline_for(source: Seq<char>) -> Option<Seq<char>> {
    if source == HELPER_PREFIX@ + ASYNC_TO_GENERATOR_NAME@ {
        Some(ASYNC_TO_GENERATOR@)
    } else {
        None
    }
}

/// `var <local> = <expr>;` for each default import among `specs[..n]`.
pub open spec fn helper_vars(specs: Seq<Json>, expr: Seq<char>, n: nat) -> Seq<char>
    decreases n,
{
    if n == 0 || n > specs.len() {
        seq![]
    } else {
        helper_vars(specs, expr, (n - 1) as nat) + if is_type(specs[n - 1], "ImportDefaultSpecifier"@) {
            match local_of(specs[n - 1]) {
                Some(l) => "var "@ + l + " = "@ + expr + ";\n"@,
                None => seq![],
            }
        } else {
            seq![]
        }
    }
}

/// Over `body[..n]`: the deletions of the helper imports that are inlined,
/// and the prelude declaring their locals.
pub open spec fn inline_helpers(body: Seq<Json>, n: nat) -> (Seq<EditV>, Seq<char>)
    decreases n,
{
    if n == 0 || n > body.len() {
        (seq![], seq![])
    } else {
        let (edits, prelude) = inline_helpers(body, (n - 1) as nat);
        let stmt = body[n - 1];
        match import_source(stmt) {
            Some(s) => match inline_for(s) {
                Some(expr) => (
                    edits + removal(stmt),
                    prelude + helper_vars(specifiers_of(stmt), expr, specifiers_of(stmt).len()),
                ),
                None => (edits, prelude),
            },
            None => (edits, prelude),
        }
    }
}

/// See [`import_source`].
fn get_import_source<'a>(stmt: &'a Json) -> (r: Option<&'a String>)
    ensures
        match r {
            Some(s) => import_source(*stmt) == Some(s@),
            None => import_source(*stmt) is None,
        },
{
    if has_type(stmt, "ImportDeclaration") {
        match get(stmt, "source") {
            Some(s) => get_str(s, "value"),
            None => None,
        }
    } else {
        None
    }
}

/// See [`inline_for`].
fn get_inline_for(source: &String) -> (r: Option<&'static str>)
    ensures
        match r {
            Some(e) => inline_for(source@) == Some(e@),
            None => inline_for(source@) is None,
        },
{
    let mut full = HELPER_PREFIX.to_string();
    full.append(ASYNC_TO_GENERATOR_NAME);
    if str_eq(source.as_str(), full.as_str()) {
        Some(ASYNC_TO_GENERATOR)
    } else {
        None
    }
}

/// Append [`helper_vars`] of `specs` to `out`.
fn push_helper_vars(out: &mut String, specs: &Vec<Json>, expr: &str)
    ensures
        final(out)@ == old(out)@ + helper_vars(specs@, expr@, specs@.len()),
{
    let ghost start = out@;
    let mut i: usize = 0;
    while i < specs.len()
        invariant
            i <= specs@.len(),
            out@ == start + helper_vars(specs@, expr@, i as nat),
        decreases specs@.len() - i,
    {
        let sp = &specs[i];
        let ghost before = out@;
        if has_type(sp, "ImportDefaultSpecifier") {
            let local: Option<&String> = match get(sp, "local") {
                Some(l) => get_str(l, "name"),
                None => None,
            };
            match local {
                Some(l) => {
                    out.append("var ");
                    out.append(l.as_str());
                    out.append(" = ");
                    out.append(expr);
                    out.append(";\n");
                    assert(out@ =~= before + ("var "@ + l@ + " = "@ + expr@ + ";\n"@));
                },
                None => {
                    assert(out@ =~= before + Seq::<char>::empty());
                },
            }
        } else {
            assert(out@ =~= before + Seq::<char>::empty());
        }
        i = i + 1;
    }
}

/// Drop the `import <local> from "@oxc-project/runtime/helpers/<name>"`
/// statements of the helpers that are inlined, and return the prelude
/// (`var <local> = <inline>;` per default import) to prepend to the
/// generated code: the deletions and the prelude of [`inline_helpers`].
/// The prelude is empty when no such helper is imported.
pub fn inline_async_helpers(program: &Json) -> (r: (Vec<Edit>, String))
    ensures
        (edit_views(r.0@), r.1@) == inline_helpers(body_of(*program), body_of(*program).len()),
{
    let empty: Vec<Json> = Vec::new();
    let body: &Vec<Json> = match get_arr(program, "body") {
        Some(b) => b,
        None => &empty,
    };
    assert(body@ == body_of(*program));
    let mut edits: Vec<Edit> = Vec::new();
    let mut prelude = String::new();
    let mut i: usize = 0;
    proof {
        reveal_strlit("");
    }
    assert(edit_views(edits@) =~= seq![]);
    while i < body.len()
        invariant
            i <= body@.len(),
            empty@.len() == 0,
            (edit_views(edits@), prelude@) == inline_helpers(body@, i as nat),
        decreases body@.len() - i,
    {
        let stmt = &body[i];
        match get_import_source(stmt) {
            Some(s) => match get_inline_for(s) {
                Some(expr) => {
                    let more = removal_of_node(stmt);
                    append_edits(&mut edits, more);
                    let specs: &Vec<Json> = match get_arr(stmt, "specifiers") {
                        Some(v) => v,
                        None => {
                            assert(empty@ =~= seq![]);
                            &empty
                        },
                    };
                    assert(specs@ == specifiers_of(*stmt));
                    push_helper_vars(&mut prelude, specs, expr);
                },
                None => {},
            },
            None => {},
        }
        i = i + 1;
    }
    (edits, prelude)
}

} // verus!
