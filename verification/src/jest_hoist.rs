//! `jest.mock()` hoisting, as `babel-plugin-jest-hoist` does it: in every
//! statement list (module, block, function body, static block, namespace,
//! `case`), the `jest.<method>(...)` calls move to the top, in source order,
//! ahead of everything else (imports included), which keeps its order.
//!
//! Hoisted methods: `mock`, `unmock`, `deepUnmock`, `enableAutomock`,
//! `disableAutomock` (`doMock` and `dontMock` run in place). The `jest`
//! object is the global, an `import { jest } from '@jest/globals'` binding,
//! or a `const { jest } = require('@jest/globals')` binding. Only the call
//! moves: a mock factory is a lazy closure.

use vstd::prelude::*;

use crate::estree::{flag, get_flag, hoist_point, is, is_directive, key_name, get_key_name};
use crate::jit_transform::{append_edits, imported_of, local_of, removal, specifiers_of};
use crate::json::{as_arr, field, get, get_arr, get_str, has_type, is_type, str_field, Json};
use crate::resources::{contains_string, enc, node_text, string_views, text_of, uspan};
use crate::text::{push_bytes, Edit, EditV};
use crate::walk::{Event, Visitor};

verus! {

pub const JEST_GLOBALS: &'static str = "@jest/globals";

/// The `jest` methods whose calls are hoisted.
pub open spec fn is_hoisted_method(n: Seq<char>) -> bool {
    n == "mock"@ || n == "unmock"@ || n == "deepUnmock"@ || n == "enableAutomock"@ || n
        == "disableAutomock"@
}

/// State of the hoisting pass.
pub struct JestHoist {
    /// Local names that refer to `jest`.
    jest_locals: Vec<String>,
    /// Whether the pass changed anything.
    pub changed: bool,
    /// The module's source text.
    source: Vec<u8>,
    /// The rewrites, as byte-range edits of the source.
    edits: Vec<Edit>,
}

/// The state of the hoisting pass as plain values.
pub struct JestView {
    pub locals: Seq<Seq<char>>,
    pub changed: bool,
    pub src: Seq<u8>,
    pub edits: Seq<EditV>,
}

impl View for JestHoist {
    type V = JestView;

    closed spec fn view(&self) -> JestView {
        JestView {
            locals: string_views(self.jest_locals@),
            changed: self.changed,
            src: self.source@,
            edits: crate::text::edit_views(self.edits@),
        }
    }
}

/// Whether a statement is a hoisted `jest.<method>(...)` call.
pub open spec fn is_hoistable(locals: Seq<Seq<char>>, stmt: Json) -> bool {
    &&& is_type(stmt, "ExpressionStatement"@)
    &&& field(stmt, "expression"@) matches Some(call)
    &&& is_type(call, "CallExpression"@)
    &&& field(call, "callee"@) matches Some(callee)
    &&& is_type(callee, "MemberExpression"@)
    &&& !flag(callee, "computed"@)
    &&& field(callee, "object"@) matches Some(obj)
    &&& field(callee, "property"@) matches Some(prop)
    &&& is_type(obj, "Identifier"@)
    &&& is_type(prop, "Identifier"@)
    &&& str_field(obj, "name"@) matches Some(o)
    &&& str_field(prop, "name"@) matches Some(p)
    &&& locals.contains(o)
    &&& is_hoisted_method(p)
}

/// The local that `{ jest } = require('@jest/globals')` (or `{ jest: alias }`)
/// binds: the first such property of the pattern among `props[..n]`.
pub open spec fn jest_property(props: Seq<Json>, n: nat) -> Option<Seq<char>>
    decreases n,
{
    if n == 0 || n > props.len() {
        None
    } else {
        match jest_property(props, (n - 1) as nat) {
            Some(x) => Some(x),
            None => {
                let p = props[n - 1];
                match (field(p, "key"@), field(p, "value"@)) {
                    (Some(k), Some(val)) => if is_type(p, "Property"@) && is_type(k, "Identifier"@)
                        && !flag(p, "computed"@) && str_field(k, "name"@) == Some("jest"@)
                        && is_type(val, "Identifier"@) {
                        str_field(val, "name"@)
                    } else {
                        None
                    },
                    _ => None,
                }
            },
        }
    }
}

/// The local `jest` binding a declarator takes from
/// `require('@jest/globals')`, if any.
pub open spec fn jest_from_require(d: Json) -> Option<Seq<char>> {
    match (field(d, "init"@), field(d, "id"@)) {
        (Some(init), Some(id)) => match (field(init, "callee"@), as_arr(field(init, "arguments"@))) {
            (Some(callee), Some(args)) => if is_type(init, "CallExpression"@) && is_type(
                callee,
                "Identifier"@,
            ) && str_field(callee, "name"@) == Some("require"@) && args.len() > 0 && is_type(
                args[0],
                "Literal"@,
            ) && str_field(args[0], "value"@) == Some(JEST_GLOBALS@) && is_type(
                id,
                "ObjectPattern"@,
            ) {
                match as_arr(field(id, "properties"@)) {
                    Some(props) => jest_property(props, props.len()),
                    None => None,
                }
            } else {
                None
            },
            _ => None,
        },
        _ => None,
    }
}

/// The `jest` locals bound by `specs[..n]` of an `@jest/globals` import.
pub open spec fn jest_specifiers(specs: Seq<Json>, n: nat) -> Seq<Seq<char>>
    decreases n,
{
    if n == 0 || n > specs.len() {
        seq![]
    } else {
        let prev = jest_specifiers(specs, (n - 1) as nat);
        let sp = specs[n - 1];
        if is_type(sp, "ImportSpecifier"@) && imported_of(sp) == Some("jest"@) {
            match local_of(sp) {
                Some(l) => prev.push(l),
                None => prev,
            }
        } else {
            prev
        }
    }
}

/// The `jest` locals bound by the declarators `decls[..n]`.
pub open spec fn jest_declarators(decls: Seq<Json>, n: nat) -> Seq<Seq<char>>
    decreases n,
{
    if n == 0 || n > decls.len() {
        seq![]
    } else {
        let prev = jest_declarators(decls, (n - 1) as nat);
        match jest_from_require(decls[n - 1]) {
            Some(l) => prev.push(l),
            None => prev,
        }
    }
}

/// The `jest` locals a top-level statement binds.
pub open spec fn stmt_jest_locals(stmt: Json) -> Seq<Seq<char>> {
    if crate::estree::import_source(stmt) == Some(JEST_GLOBALS@) {
        let specs = specifiers_of(stmt);
        jest_specifiers(specs, specs.len())
    } else if is_type(stmt, "VariableDeclaration"@) {
        match as_arr(field(stmt, "declarations"@)) {
            Some(ds) => jest_declarators(ds, ds.len()),
            None => seq![],
        }
    } else {
        seq![]
    }
}

/// The `jest` locals bound by `body[..n]`.
pub open spec fn program_jest_locals(body: Seq<Json>, n: nat) -> Seq<Seq<char>>
    decreases n,
{
    if n == 0 || n > body.len() {
        seq![]
    } else {
        program_jest_locals(body, (n - 1) as nat) + stmt_jest_locals(body[n - 1])
    }
}

/// The statement list a node holds (module, block, function body, static
/// block, namespace body, `case`).
pub open spec fn statement_list(j: Json) -> Option<Seq<Json>> {
    if is_type(j, "Program"@) || is_type(j, "BlockStatement"@) || is_type(j, "StaticBlock"@)
        || is_type(j, "TSModuleBlock"@) {
        as_arr(field(j, "body"@))
    } else if is_type(j, "SwitchCase"@) {
        as_arr(field(j, "consequent"@))
    } else {
        None
    }
}

/// The text a hoisted statement moves as: its source, ended by `;`.
pub open spec fn moved_text(src: Seq<u8>, stmt: Json) -> Seq<u8> {
    let t = text_of(src, stmt);
    if t.len() > 0 && t.last() == 0x3b {
        t
    } else {
        t + seq![0x3bu8]
    }
}

/// Where a moved statement's text comes from: the start of the statement.
pub open spec fn moved_from(stmt: Json) -> Option<nat> {
    match uspan(stmt) {
        Some((s, _e)) => Some(s),
        None => None,
    }
}

/// The hoisted statements among `list[..n]`: their moved texts inserted at
/// `at`, in order (each recording where it comes from), and their
/// deletions.
pub open spec fn hoist_scan(v: JestView, list: Seq<Json>, at: nat, n: nat) -> (Seq<EditV>, Seq<EditV>)
    decreases n,
{
    if n == 0 || n > list.len() {
        (seq![], seq![])
    } else {
        let (inserts, edits) = hoist_scan(v, list, at, (n - 1) as nat);
        let stmt = list[n - 1];
        if is_hoistable(v.locals, stmt) {
            (
                inserts.push(EditV { start: at, end: at, text: moved_text(v.src, stmt), origin: moved_from(stmt) }),
                edits + removal(stmt),
            )
        } else {
            (inserts, edits)
        }
    }
}

/// Whether one of `list[..n]` is hoisted.
pub open spec fn any_hoistable(locals: Seq<Seq<char>>, list: Seq<Json>, n: nat) -> bool
    decreases n,
{
    if n == 0 || n > list.len() {
        false
    } else {
        any_hoistable(locals, list, (n - 1) as nat) || is_hoistable(locals, list[n - 1])
    }
}

/// Whether one of `edits` lies within the bytes `s..e`.
pub open spec fn has_edit_within(edits: Seq<EditV>, s: nat, e: nat) -> bool {
    exists|k: int| 0 <= k < edits.len() && s <= (#[trigger] edits[k]).start && edits[k].end <= e
}

/// Whether a hoistable statement of `list` already has a rewrite of this
/// pass inside it (from a statement list nested in it). Such a list waits
/// for the next round, so that its statements move with their inner lists
/// already hoisted.
pub open spec fn rewritten_inside(v: JestView, list: Seq<Json>) -> bool {
    exists|i: int|
        0 <= i < list.len() && is_hoistable(v.locals, #[trigger] list[i]) && match uspan(list[i]) {
            Some((s, e)) => has_edit_within(v.edits, s, e),
            None => false,
        }
}

/// Whether every hoistable statement of `list` already comes before every
/// other statement after the directives: hoisting leaves such a list as it
/// is.
pub open spec fn hoisted_in_place(locals: Seq<Seq<char>>, list: Seq<Json>) -> bool {
    forall|i: int, j: int|
        0 <= i < j < list.len() && is_hoistable(locals, #[trigger] list[j]) && !is_directive(
            #[trigger] list[i],
        ) ==> is_hoistable(locals, list[i])
}

/// The rewrites of one statement list: the hoisted calls inserted before
/// its first statement (after any directives), in order, and deleted where
/// they were.
pub open spec fn hoist_list(v: JestView, list: Seq<Json>) -> Seq<EditV> {
    if !any_hoistable(v.locals, list, list.len()) || hoisted_in_place(v.locals, list) || rewritten_inside(
        v,
        list,
    ) {
        seq![]
    } else {
        let at = hoist_point(list, v.src.len());
        let (inserts, deletions) = hoist_scan(v, list, at, list.len());
        inserts + deletions
    }
}

/// The deletions of `stmts`, in order.
pub open spec fn removals(stmts: Seq<Json>) -> Seq<EditV>
    decreases stmts.len(),
{
    if stmts.len() == 0 {
        seq![]
    } else {
        removals(stmts.drop_last()) + removal(stmts.last())
    }
}

/// The insertion at `at` of a moved statement's text.
pub open spec fn moved_insert(src: Seq<u8>, at: nat, stmt: Json) -> EditV {
    EditV { start: at, end: at, text: moved_text(src, stmt), origin: moved_from(stmt) }
}

/// The scan of `list[..n]` is the hoistable statements among them: their
/// moved texts, and their deletions.
proof fn lemma_hoist_scan_filter(v: JestView, list: Seq<Json>, at: nat, n: nat)
    requires
        n <= list.len(),
    ensures
        ({
            let hoisted = list.take(n as int).filter(|s: Json| is_hoistable(v.locals, s));
            &&& hoist_scan(v, list, at, n).0 == hoisted.map_values(|s: Json| moved_insert(v.src, at, s))
            &&& hoist_scan(v, list, at, n).1 == removals(hoisted)
            &&& any_hoistable(v.locals, list, n) == (hoisted.len() > 0)
        }),
    decreases n,
{
    let pred = |s: Json| is_hoistable(v.locals, s);
    reveal(Seq::filter);
    if n == 0 {
        assert(list.take(0).filter(pred) =~= Seq::<Json>::empty());
    } else {
        lemma_hoist_scan_filter(v, list, at, (n - 1) as nat);
        let t = list.take(n as int);
        assert(t.drop_last() =~= list.take(n - 1));
        assert(t.last() == list[n - 1]);
        let prev = list.take(n - 1).filter(pred);
        if pred(list[n - 1]) {
            assert(t.filter(pred) == prev.push(list[n - 1]));
            assert(prev.push(list[n - 1]).drop_last() =~= prev);
            assert(prev.push(list[n - 1]).map_values(|s: Json| moved_insert(v.src, at, s)) =~= prev.map_values(
                |s: Json| moved_insert(v.src, at, s),
            ).push(moved_insert(v.src, at, list[n - 1])));
        } else {
            assert(t.filter(pred) == prev);
        }
    }
}

/// Hoisting moves exactly the hoistable statements of a list, each intact
/// and in source order: their texts go, in that order, to the hoist point,
/// and each is deleted where it stood; no other statement is touched. A
/// list with nothing to hoist gets no edit and leaves the state as it is; a
/// list whose hoistable statements already lead gets no edit (so hoisting
/// again changes nothing); a list with a rewrite inside a statement it
/// would move waits for the next round.
pub proof fn lemma_hoist_moves_hoistable(v: JestView, list: Seq<Json>)
    ensures
        ({
            let hoisted = list.filter(|s: Json| is_hoistable(v.locals, s));
            let at = hoist_point(list, v.src.len());
            &&& hoisted.len() == 0 ==> hoist_list(v, list) == Seq::<EditV>::empty() && forall|e: Json|
                statement_list(e) == Some(list) ==> #[trigger] hoist_step(v, (true, e)) == v
            &&& hoisted_in_place(v.locals, list) || rewritten_inside(v, list) ==> hoist_list(v, list)
                == Seq::<EditV>::empty()
            &&& hoisted.len() > 0 && !hoisted_in_place(v.locals, list) && !rewritten_inside(v, list)
                ==> hoist_list(v, list) == hoisted.map_values(|s: Json| moved_insert(v.src, at, s)) + removals(
                hoisted,
            )
        }),
{
    let at = hoist_point(list, v.src.len());
    lemma_hoist_scan_filter(v, list, at, list.len());
    assert(list.take(list.len() as int) =~= list);
    assert(v.edits + Seq::<EditV>::empty() =~= v.edits);
}

/// A moved statement is its own text, ended by `;`: the text it moves as
/// ends with `;`, and is the statement's text with at most that `;`
/// added, so it cannot run into the statement it is put before.
pub proof fn lemma_moved_text_terminated(src: Seq<u8>, stmt: Json)
    ensures
        ({
            let t = text_of(src, stmt);
            let m = moved_text(src, stmt);
            &&& m.len() > 0 && m.last() == 0x3bu8
            &&& t.len() <= m.len() <= t.len() + 1
            &&& m.subrange(0, t.len() as int) == t
        }),
{
    let t = text_of(src, stmt);
    assert((t + seq![0x3bu8]).subrange(0, t.len() as int) =~= t);
    assert(t.subrange(0, t.len() as int) =~= t);
}

/// What a hoisting list inserts at its hoist point: for each hoisted
/// statement in order, an insertion (nothing replaced) of the statement's
/// own text ended by `;`.
pub proof fn lemma_hoisted_inserts_terminated(v: JestView, list: Seq<Json>)
    requires
        any_hoistable(v.locals, list, list.len()),
        !hoisted_in_place(v.locals, list),
        !rewritten_inside(v, list),
    ensures
        ({
            let hoisted = list.filter(|s: Json| is_hoistable(v.locals, s));
            let at = hoist_point(list, v.src.len());
            forall|k: int|
                0 <= k < hoisted.len() ==> {
                    let e = #[trigger] hoist_list(v, list)[k];
                    let t = text_of(v.src, hoisted[k]);
                    &&& e.start == at && e.end == at
                    &&& e.text.len() > 0 && e.text.last() == 0x3bu8
                    &&& e.text.subrange(0, t.len() as int) == t
                    &&& e.text.len() <= t.len() + 1
                }
        }),
{
    let hoisted = list.filter(|s: Json| is_hoistable(v.locals, s));
    let at = hoist_point(list, v.src.len());
    lemma_hoist_moves_hoistable(v, list);
    lemma_hoist_scan_filter(v, list, at, list.len());
    assert(list.take(list.len() as int) =~= list);
    let ins = hoisted.map_values(|s: Json| moved_insert(v.src, at, s));
    assert forall|k: int| 0 <= k < hoisted.len() implies {
        let e = #[trigger] hoist_list(v, list)[k];
        let t = text_of(v.src, hoisted[k]);
        &&& e.start == at && e.end == at
        &&& e.text.len() > 0 && e.text.last() == 0x3bu8
        &&& e.text.subrange(0, t.len() as int) == t
        &&& e.text.len() <= t.len() + 1
    } by {
        assert(hoist_list(v, list) == ins + removals(hoisted));
        assert(hoist_list(v, list)[k] == ins[k]);
        lemma_moved_text_terminated(v.src, hoisted[k]);
    }
}

/// The order hoisting gives a list (its directives, then its hoistable
/// statements, then the others, each part in source order) has its
/// hoistable statements in place: hoisting it again moves nothing.
pub proof fn lemma_hoisted_order_in_place(locals: Seq<Seq<char>>, list: Seq<Json>)
    ensures
        hoisted_in_place(
            locals,
            list.filter(|s: Json| !is_hoistable(locals, s) && is_directive(s)) + list.filter(
                |s: Json| is_hoistable(locals, s),
            ) + list.filter(|s: Json| !is_hoistable(locals, s) && !is_directive(s)),
        ),
{
    let pd = |s: Json| !is_hoistable(locals, s) && is_directive(s);
    let ph = |s: Json| is_hoistable(locals, s);
    let pr = |s: Json| !is_hoistable(locals, s) && !is_directive(s);
    let d = list.filter(pd);
    let h = list.filter(ph);
    let r = list.filter(pr);
    let all = d + h + r;
    assert forall|i: int, j: int|
        0 <= i < j < all.len() && is_hoistable(locals, #[trigger] all[j]) && !is_directive(#[trigger] all[i])
            implies is_hoistable(locals, all[i]) by {
        if j >= d.len() + h.len() {
            list.lemma_filter_pred(pr, j - d.len() - h.len());
            assert(all[j] == r[j - d.len() - h.len()]);
        } else if j < d.len() {
            list.lemma_filter_pred(pd, j);
            assert(all[j] == d[j]);
        }
        if i < d.len() {
            list.lemma_filter_pred(pd, i);
            assert(all[i] == d[i]);
        } else {
            list.lemma_filter_pred(ph, i - d.len());
            assert(all[i] == h[i - d.len()]);
        }
    }
}

/// One traversal step: a statement list is rewritten when it is left.
pub open spec fn hoist_step(v: JestView, e: Event) -> JestView {
    if e.0 {
        match statement_list(e.1) {
            Some(list) => JestView {
                changed: v.changed || any_hoistable(v.locals, list, list.len()),
                edits: v.edits + hoist_list(v, list),
                ..v
            },
            None => v,
        }
    } else {
        v
    }
}

/// The state after reading a program with text `src`: the `jest` locals its
/// top-level statements bind are added.
pub open spec fn hoist_enter(v: JestView, program: Json, src: Seq<u8>) -> JestView {
    let body = crate::resources::body_of(program);
    JestView { locals: v.locals + program_jest_locals(body, body.len()), src, ..v }
}

/// The rewrites of the hoisting pass on a module.
pub open spec fn hoist_rewrites(src: Seq<u8>, program: Json) -> Seq<EditV> {
    let v0 = JestView { locals: seq!["jest"@], changed: false, src: seq![], edits: seq![] };
    crate::walk::run::<JestHoist>(hoist_enter(v0, program, src), crate::walk::events(program)).edits
}

impl JestHoist {
    /// A pass state in which only the global `jest` is known.
    pub fn new() -> (r: Self)
        ensures
            r@.locals == seq!["jest"@],
            !r@.changed,
            r@.src.len() == 0,
            r@.edits.len() == 0,
    {
        let mut jest_locals: Vec<String> = Vec::new();
        jest_locals.push("jest".to_string());
        let r = JestHoist { jest_locals, changed: false, source: Vec::new(), edits: Vec::new() };
        assert(r@.locals =~= seq!["jest"@]);
        r
    }
}

impl Default for JestHoist {
    /// The same state as [`JestHoist::new`].
    fn default() -> (r: Self)
        ensures
            r@.locals == seq!["jest"@],
            !r@.changed,
            r@.src.len() == 0,
            r@.edits.len() == 0,
    {
        Self::new()
    }
}

/// Whether `n` names a hoisted method.
fn is_hoisted_method_name(n: &String) -> (r: bool)
    ensures
        r == is_hoisted_method(n@),
{
    is(n, "mock") || is(n, "unmock") || is(n, "deepUnmock") || is(n, "enableAutomock") || is(
        n,
        "disableAutomock",
    )
}

/// See [`jest_property`].
fn get_jest_property(props: &Vec<Json>) -> (r: Option<String>)
    ensures
        match r {
            Some(s) => jest_property(props@, props@.len()) == Some(s@),
            None => jest_property(props@, props@.len()) is None,
        },
{
    let mut i: usize = 0;
    while i < props.len()
        invariant
            i <= props@.len(),
            jest_property(props@, i as nat) is None,
        decreases props@.len() - i,
    {
        let p = &props[i];
        match (get(p, "key"), get(p, "value")) {
            (Some(k), Some(val)) => {
                let named_jest = match get_str(k, "name") {
                    Some(n) => is(n, "jest"),
                    None => false,
                };
                if has_type(p, "Property") && has_type(k, "Identifier") && !get_flag(p, "computed")
                    && named_jest && has_type(val, "Identifier") {
                    match get_str(val, "name") {
                        Some(n) => {
                            proof {
                                lemma_jest_property_stable(props@, (i + 1) as nat, props@.len());
                            }
                            return Some(n.clone());
                        },
                        None => {},
                    }
                }
            },
            _ => {},
        }
        i = i + 1;
    }
    None
}

/// Once found among the first `a` properties, the same local is found
/// among the first `b >= a`.
proof fn lemma_jest_property_stable(props: Seq<Json>, a: nat, b: nat)
    requires
        a <= b <= props.len(),
        jest_property(props, a) is Some,
    ensures
        jest_property(props, b) == jest_property(props, a),
    decreases b - a,
{
    if a < b {
        lemma_jest_property_stable(props, a, (b - 1) as nat);
    }
}

/// See [`jest_from_require`].
fn get_jest_from_require(d: &Json) -> (r: Option<String>)
    ensures
        match r {
            Some(s) => jest_from_require(*d) == Some(s@),
            None => jest_from_require(*d) is None,
        },
{
    match (get(d, "init"), get(d, "id")) {
        (Some(init), Some(id)) => match (get(init, "callee"), get_arr(init, "arguments")) {
            (Some(callee), Some(args)) => {
                let callee_ok = has_type(callee, "Identifier") && match get_str(callee, "name") {
                    Some(n) => is(n, "require"),
                    None => false,
                };
                let arg_ok = args.len() > 0 && has_type(&args[0], "Literal") && match get_str(
                    &args[0],
                    "value",
                ) {
                    Some(v) => is(v, JEST_GLOBALS),
                    None => false,
                };
                if has_type(init, "CallExpression") && callee_ok && arg_ok && has_type(
                    id,
                    "ObjectPattern",
                ) {
                    match get_arr(id, "properties") {
                        Some(props) => get_jest_property(props),
                        None => None,
                    }
                } else {
                    None
                }
            },
            _ => None,
        },
        _ => None,
    }
}

/// See [`is_hoistable`].
fn hoistable(locals: &Vec<String>, stmt: &Json) -> (r: bool)
    ensures
        r == is_hoistable(string_views(locals@), *stmt),
{
    if !has_type(stmt, "ExpressionStatement") {
        return false;
    }
    let call = match get(stmt, "expression") {
        Some(c) => c,
        None => return false,
    };
    if !has_type(call, "CallExpression") {
        return false;
    }
    let callee = match get(call, "callee") {
        Some(c) => c,
        None => return false,
    };
    if !has_type(callee, "MemberExpression") || get_flag(callee, "computed") {
        return false;
    }
    match (get(callee, "object"), get(callee, "property")) {
        (Some(obj), Some(prop)) => {
            if !has_type(obj, "Identifier") || !has_type(prop, "Identifier") {
                return false;
            }
            match (get_str(obj, "name"), get_str(prop, "name")) {
                (Some(o), Some(p)) => contains_string(locals, o) && is_hoisted_method_name(p),
                _ => false,
            }
        },
        _ => false,
    }
}

impl JestHoist {
    /// Read the `jest` locals the program's top-level statements bind, and
    /// keep its source text.
    pub fn enter_program(&mut self, program: &Json, source: &str)
        ensures
            final(self)@ == hoist_enter(old(self)@, *program, enc(source@)),
    {
        let ghost v0 = self@;
        let empty: Vec<Json> = Vec::new();
        let body: &Vec<Json> = match get_arr(program, "body") {
            Some(b) => b,
            None => &empty,
        };
        assert(body@ == crate::resources::body_of(*program));
        let mut names: Vec<String> = Vec::new();
        let mut i: usize = 0;
        assert(string_views(names@) =~= program_jest_locals(body@, 0));
        while i < body.len()
            invariant
                i <= body@.len(),
                string_views(names@) == program_jest_locals(body@, i as nat),
            decreases body@.len() - i,
        {
            let stmt = &body[i];
            let ghost base = string_views(names@);
            let is_jest_import = match crate::estree::get_import_source(stmt) {
                Some(src) => is(src, JEST_GLOBALS),
                None => false,
            };
            if is_jest_import {
                let empty2: Vec<Json> = Vec::new();
                let specs: &Vec<Json> = match get_arr(stmt, "specifiers") {
                    Some(sp) => sp,
                    None => &empty2,
                };
                assert(specs@ == specifiers_of(*stmt));
                let mut j: usize = 0;
                assert(base + jest_specifiers(specs@, 0) =~= base);
                while j < specs.len()
                    invariant
                        j <= specs@.len(),
                        string_views(names@) == base + jest_specifiers(specs@, j as nat),
                    decreases specs@.len() - j,
                {
                    let sp = &specs[j];
                    if has_type(sp, "ImportSpecifier") {
                        let imported: Option<&String> = match get(sp, "imported") {
                            Some(im) => crate::estree::get_export_name(im),
                            None => None,
                        };
                        let is_jest = match imported {
                            Some(im) => is(im, "jest"),
                            None => false,
                        };
                        if is_jest {
                            let local: Option<&String> = match get(sp, "local") {
                                Some(l) => get_str(l, "name"),
                                None => None,
                            };
                            match local {
                                Some(l) => {
                                    let ghost before = string_views(names@);
                                    names.push(l.clone());
                                    assert(string_views(names@) =~= before.push(l@));
                                    assert(base + jest_specifiers(specs@, (j + 1) as nat) =~= (base
                                        + jest_specifiers(specs@, j as nat)).push(l@));
                                },
                                None => {},
                            }
                        }
                    }
                    j = j + 1;
                }
            } else if has_type(stmt, "VariableDeclaration") {
                match get_arr(stmt, "declarations") {
                    Some(ds) => {
                        let mut j: usize = 0;
                        assert(base + jest_declarators(ds@, 0) =~= base);
                        while j < ds.len()
                            invariant
                                j <= ds@.len(),
                                string_views(names@) == base + jest_declarators(ds@, j as nat),
                            decreases ds@.len() - j,
                        {
                            match get_jest_from_require(&ds[j]) {
                                Some(l) => {
                                    let ghost before = string_views(names@);
                                    let ghost lv = l@;
                                    names.push(l);
                                    assert(string_views(names@) =~= before.push(lv));
                                    assert(base + jest_declarators(ds@, (j + 1) as nat) =~= (base
                                        + jest_declarators(ds@, j as nat)).push(lv));
                                },
                                None => {},
                            }
                            j = j + 1;
                        }
                    },
                    None => {
                        assert(base + seq![] =~= base);
                    },
                }
            } else {
                assert(base + seq![] =~= base);
            }
            assert(string_views(names@) =~= base + stmt_jest_locals(body@[i as int]));
            i = i + 1;
        }
        let ghost nv = string_views(names@);
        self.jest_locals.append(&mut names);
        assert(string_views(self.jest_locals@) =~= v0.locals + nv);
        self.source = vstd::slice::slice_to_vec(source.as_bytes());
    }

    /// The rewrites of one statement list (see [`hoist_list`]).
    fn hoist_list(&mut self, list: &Vec<Json>)
        ensures
            final(self)@ == (JestView {
                changed: old(self)@.changed || any_hoistable(old(self)@.locals, list@, list@.len()),
                edits: old(self)@.edits + hoist_list(old(self)@, list@),
                ..old(self)@
            }),
    {
        let ghost v0 = self@;
        let in_place = in_place(&self.jest_locals, list);
        let inside = self.rewritten_inside(list);
        let at = crate::estree::get_hoist_point(list, self.source.len());
        let mut inserts: Vec<Edit> = Vec::new();
        let mut deletions: Vec<Edit> = Vec::new();
        let mut any = false;
        assert(crate::text::edit_views(deletions@) =~= seq![]);
        assert(crate::text::edit_views(inserts@) =~= seq![]);
        let mut i: usize = 0;
        while i < list.len()
            invariant
                self@ == v0,
                i <= list@.len(),
                at == hoist_point(list@, v0.src.len()),
                any == any_hoistable(v0.locals, list@, i as nat),
                (crate::text::edit_views(inserts@), crate::text::edit_views(deletions@)) == hoist_scan(
                    v0,
                    list@,
                    at as nat,
                    i as nat,
                ),
            decreases list@.len() - i,
        {
            if hoistable(&self.jest_locals, &list[i]) {
                any = true;
                let mut text = node_text(&self.source, &list[i]);
                if !(text.len() > 0 && text[text.len() - 1] == 0x3b) {
                    text.push(0x3b);
                }
                let origin = match crate::estree::get_span(&list[i]) {
                    Some((s, _e)) => Some(s),
                    None => None,
                };
                let e = Edit { start: at, end: at, text, origin };
                let ghost ev = e@;
                assert(ev.origin == moved_from(list@[i as int]));
                assert(ev.text == moved_text(v0.src, list@[i as int]));
                let ghost iv = crate::text::edit_views(inserts@);
                inserts.push(e);
                assert(crate::text::edit_views(inserts@) =~= iv.push(ev));
                let rm = crate::jit_transform::removal_of_node(&list[i]);
                append_edits(&mut deletions, rm);
            }
            i = i + 1;
        }
        if any {
            if in_place || inside {
                assert(v0.edits + seq![] =~= v0.edits);
            } else {
                let ghost dv = crate::text::edit_views(deletions@);
                append_edits(&mut inserts, deletions);
                let ghost mv = crate::text::edit_views(inserts@);
                append_edits(&mut self.edits, inserts);
                assert(mv == hoist_list(v0, list@));
            }
            self.changed = true;
        } else {
            assert(v0.edits + seq![] =~= v0.edits);
        }
    }

    /// See [`rewritten_inside`].
    fn rewritten_inside(&self, list: &Vec<Json>) -> (r: bool)
        ensures
            r == rewritten_inside(self@, list@),
    {
        let mut i: usize = 0;
        while i < list.len()
            invariant
                i <= list@.len(),
                forall|a: int|
                    0 <= a < i && is_hoistable(self@.locals, #[trigger] list@[a]) ==> !match uspan(list@[a]) {
                        Some((s, e)) => has_edit_within(self@.edits, s, e),
                        None => false,
                    },
            decreases list@.len() - i,
        {
            if hoistable(&self.jest_locals, &list[i]) {
                match crate::estree::get_span(&list[i]) {
                    Some((s, e)) => {
                        if edit_within(&self.edits, s, e) {
                            assert(is_hoistable(self@.locals, list@[i as int]));
                            return true;
                        }
                    },
                    None => {},
                }
            }
            i = i + 1;
        }
        false
    }
}

/// See [`has_edit_within`].
fn edit_within(edits: &Vec<Edit>, s: usize, e: usize) -> (r: bool)
    ensures
        r == has_edit_within(crate::text::edit_views(edits@), s as nat, e as nat),
{
    let ghost ev = crate::text::edit_views(edits@);
    let mut k: usize = 0;
    while k < edits.len()
        invariant
            ev == crate::text::edit_views(edits@),
            k <= edits@.len(),
            forall|a: int| 0 <= a < k ==> !(s <= (#[trigger] ev[a]).start && ev[a].end <= e),
        decreases edits@.len() - k,
    {
        assert(ev[k as int] == edits@[k as int]@);
        if s <= edits[k].start && edits[k].end <= e {
            return true;
        }
        k = k + 1;
    }
    false
}

/// See [`hoisted_in_place`].
fn in_place(locals: &Vec<String>, list: &Vec<Json>) -> (r: bool)
    ensures
        r == hoisted_in_place(string_views(locals@), list@),
{
    let ghost l = string_views(locals@);
    let mut seen: Option<usize> = None;
    let mut i: usize = 0;
    while i < list.len()
        invariant
            l == string_views(locals@),
            i <= list@.len(),
            forall|a: int, b: int|
                0 <= a < b < i && is_hoistable(l, #[trigger] list@[b]) && !is_directive(#[trigger] list@[a])
                    ==> is_hoistable(l, list@[a]),
            match seen {
                Some(k) => k < i && !is_hoistable(l, list@[k as int]) && !is_directive(list@[k as int]),
                None => forall|k: int| 0 <= k < i ==> is_hoistable(l, #[trigger] list@[k]) || is_directive(list@[k]),
            },
        decreases list@.len() - i,
    {
        if hoistable(locals, &list[i]) {
            match seen {
                Some(k) => {
                    assert(is_hoistable(l, list@[i as int]) && !is_directive(list@[k as int]) && !is_hoistable(
                        l,
                        list@[k as int],
                    ));
                    return false;
                },
                None => {},
            }
        } else if get_str(&list[i], "directive").is_none() {
            seen = Some(i);
        }
        i = i + 1;
    }
    true
}

impl Visitor for JestHoist {
    open spec fn step(s: JestView, e: Event) -> JestView {
        hoist_step(s, e)
    }

    fn visit(&mut self, exit: bool, node: &Json) {
        if exit {
            let list: Option<&Vec<Json>> = if has_type(node, "Program") || has_type(
                node,
                "BlockStatement",
            ) || has_type(node, "StaticBlock") || has_type(node, "TSModuleBlock") {
                get_arr(node, "body")
            } else if has_type(node, "SwitchCase") {
                get_arr(node, "consequent")
            } else {
                None
            };
            match list {
                Some(l) => self.hoist_list(l),
                None => {},
            }
        }
    }
}

/// The hoisting pass over a parsed module (`program`, the tree of `source`):
/// the rewrites it makes (see [`hoist_rewrites`]).
pub fn hoist_edits(source: &str, program: &Json) -> (r: Vec<Edit>)
    ensures
        crate::text::edit_views(r@) == hoist_rewrites(enc(source@), *program),
{
    let mut h = JestHoist::new();
    proof {
        let v0 = JestView { locals: seq!["jest"@], changed: false, src: seq![], edits: seq![] };
        assert(h@.src =~= v0.src);
        assert(h@.edits =~= v0.edits);
        assert(h@ == v0);
    }
    h.enter_program(program, source);
    crate::walk::walk(&mut h, program);
    h.edits
}

} // verus!
