//! Angular's JIT transforms (`angularJitApplicationTransform`), in one class
//! traversal:
//!
//! 1. **Initializer APIs**: on `@Component`/`@Directive`/… classes, a member
//!    initialized with `input()`, `input.required()`, `model()`, `output()`,
//!    `viewChild()`, `viewChildren()`, `contentChild()` or
//!    `contentChildren()` from `@angular/core` gains the matching Angular
//!    decorator (`@Input({ isSignal: true, … })`, `@Output("…")`, …).
//! 2. **Decorator downleveling**: Angular decorators on constructor
//!    parameters move into `static ctorParameters = () => [{ type, decorators? }, …]`,
//!    Angular decorators on members (including those of step 1) into
//!    `static propDecorators = { name: [{ type, args? }, …] }`. Class
//!    decorators, and decorators that are not Angular's, stay in place.
//!
//! A decorator is Angular's when its name resolves to an `@angular/core`
//! import (named specifiers with aliases, or a namespace import). Symbols the
//! pass introduces (`Input`, `Output`, the query decorators) are imported
//! from `@angular/core` when they are not already.

use vstd::prelude::*;

use crate::estree::{
    export_name, flag, get_export_name, get_flag, get_key_name, get_span, key_name, span_of,
};
use crate::json::{as_arr, field, get, get_arr, get_str, has_type, is_type, str_field, Json};
use crate::resources::{
    contains_string, enc, get_value, node_text, string_views, text_of, text_views, uspan, value_of,
};
use crate::text::{
    join, join_bytes, js_string, push_bytes, push_js_string, push_slice, push_str, Edit, EditV,
};
use crate::walk::{Event, Visitor};

verus! {

pub const ANGULAR_CORE: &'static str = "@angular/core";

/// The class decorators that make a class an Angular class.
pub open spec fn is_class_decorator_name(n: Seq<char>) -> bool {
    n == "Component"@ || n == "Directive"@ || n == "Injectable"@ || n == "Pipe"@ || n
        == "NgModule"@
}

/// State of the JIT pass.
pub struct JitTransform {
    /// `(local, imported)` for each named `@angular/core` import (and each
    /// symbol the pass introduced); a later entry for a local wins.
    ng_locals: Vec<(String, String)>,
    /// Local name of `import * as <ns> from '@angular/core'` (the last one).
    ng_namespace: Option<String>,
    /// `@angular/core` names the pass introduced, to be imported.
    needed_imports: Vec<String>,
    /// Top-level names bound to a runtime value (value imports, classes,
    /// enums): only these are emitted as a constructor parameter's `type`.
    value_names: Vec<String>,
    /// Whether the pass changed anything.
    pub changed: bool,
    /// The module's source text.
    source: Vec<u8>,
    /// The rewrites, as byte-range edits of the source.
    edits: Vec<Edit>,
}

/// The state of the JIT pass as plain values.
pub struct JitView {
    pub locals: Seq<(Seq<char>, Seq<char>)>,
    pub namespace: Option<Seq<char>>,
    pub needed: Seq<Seq<char>>,
    pub values: Seq<Seq<char>>,
    pub changed: bool,
    pub src: Seq<u8>,
    pub edits: Seq<EditV>,
}

pub open spec fn pair_string_views(v: Seq<(String, String)>) -> Seq<(Seq<char>, Seq<char>)> {
    v.map_values(|p: (String, String)| (p.0@, p.1@))
}

impl View for JitTransform {
    type V = JitView;

    closed spec fn view(&self) -> JitView {
        JitView {
            locals: pair_string_views(self.ng_locals@),
            namespace: match self.ng_namespace {
                Some(n) => Some(n@),
                None => None,
            },
            needed: string_views(self.needed_imports@),
            values: string_views(self.value_names@),
            changed: self.changed,
            src: self.source@,
            edits: crate::text::edit_views(self.edits@),
        }
    }
}

/// The `@angular/core` name a local is bound to (the last binding).
pub open spec fn ng_lookup(locals: Seq<(Seq<char>, Seq<char>)>, name: Seq<char>) -> Option<Seq<char>>
    decreases locals.len(),
{
    if locals.len() == 0 {
        None
    } else if locals.last().0 == name {
        Some(locals.last().1)
    } else {
        ng_lookup(locals.drop_last(), name)
    }
}

/// The `@angular/core` name an expression resolves to: a local bound to an
/// import, or `<ns>.<Name>` on the namespace import.
pub open spec fn ng_name(v: JitView, e: Json) -> Option<Seq<char>> {
    if is_type(e, "Identifier"@) {
        match str_field(e, "name"@) {
            Some(n) => ng_lookup(v.locals, n),
            None => None,
        }
    } else if is_type(e, "MemberExpression"@) && !flag(e, "computed"@) {
        match (field(e, "object"@), field(e, "property"@)) {
            (Some(o), Some(p)) => if is_type(o, "Identifier"@) && is_type(p, "Identifier"@)
                && v.namespace is Some && str_field(o, "name"@) == v.namespace {
                str_field(p, "name"@)
            } else {
                None
            },
            _ => None,
        }
    } else {
        None
    }
}

/// The expression of a decorator (`null` when missing).
pub open spec fn expression_of(dec: Json) -> Json {
    match field(dec, "expression"@) {
        Some(x) => x,
        None => Json::Null,
    }
}

/// The `@angular/core` name a decorator resolves to (its callee's, when it
/// is a call).
pub open spec fn decorator_ng_name(v: JitView, dec: Json) -> Option<Seq<char>> {
    let x = expression_of(dec);
    if is_type(x, "CallExpression"@) {
        match field(x, "callee"@) {
            Some(c) => ng_name(v, c),
            None => None,
        }
    } else {
        ng_name(v, x)
    }
}

/// The decorators of a node (none when the field is missing).
pub open spec fn decorators_of(j: Json) -> Seq<Json> {
    match as_arr(field(j, "decorators"@)) {
        Some(d) => d,
        None => seq![],
    }
}

/// Whether one of `decs[..n]` is an Angular class decorator.
pub open spec fn any_class_decorator(v: JitView, decs: Seq<Json>, n: nat) -> bool
    decreases n,
{
    if n == 0 || n > decs.len() {
        false
    } else {
        any_class_decorator(v, decs, (n - 1) as nat) || match decorator_ng_name(v, decs[n - 1]) {
            Some(name) => is_class_decorator_name(name),
            None => false,
        }
    }
}

/// Whether a class carries an Angular class decorator.
pub open spec fn class_is_angular(v: JitView, class: Json) -> bool {
    any_class_decorator(v, decorators_of(class), decorators_of(class).len())
}

/// The state after the pass introduced the `@angular/core` symbol `name`:
/// it resolves to itself and is recorded for import.
pub open spec fn use_symbol(v: JitView, name: Seq<char>) -> JitView {
    JitView {
        locals: v.locals.push((name, name)),
        needed: if v.needed.contains(name) {
            v.needed
        } else {
            v.needed.push(name)
        },
        ..v
    }
}

impl Default for JitTransform {
    /// The same state as [`JitTransform::new`].
    fn default() -> (r: Self)
        ensures
            r@.locals.len() == 0,
            r@.namespace is None,
            r@.needed.len() == 0,
            r@.values.len() == 0,
            !r@.changed,
            r@.src.len() == 0,
            r@.edits.len() == 0,
    {
        Self::new()
    }
}

impl JitTransform {
    /// An empty pass state.
    pub fn new() -> (r: Self)
        ensures
            r@.locals.len() == 0,
            r@.namespace is None,
            r@.needed.len() == 0,
            r@.values.len() == 0,
            !r@.changed,
            r@.src.len() == 0,
            r@.edits.len() == 0,
    {
        JitTransform {
            ng_locals: Vec::new(),
            ng_namespace: None,
            needed_imports: Vec::new(),
            value_names: Vec::new(),
            changed: false,
            source: Vec::new(),
            edits: Vec::new(),
        }
    }

    /// Introduce the `@angular/core` symbol `name` (see [`use_symbol`]).
    pub fn use_ng_symbol(&mut self, name: &str)
        ensures
            final(self)@ == use_symbol(old(self)@, name@),
    {
        let ghost v0 = self@;
        self.ng_locals.push((name.to_string(), name.to_string()));
        assert(pair_string_views(self.ng_locals@) =~= v0.locals.push((name@, name@)));
        let s = name.to_string();
        if !contains_string(&self.needed_imports, &s) {
            self.needed_imports.push(s);
            assert(string_views(self.needed_imports@) =~= v0.needed.push(name@));
        }
    }

    /// The `@angular/core` name an expression resolves to (see [`ng_name`]).
    fn ng_name(&self, e: &Json) -> (r: Option<String>)
        ensures
            match r {
                Some(s) => ng_name(self@, *e) == Some(s@),
                None => ng_name(self@, *e) is None,
            },
    {
        if has_type(e, "Identifier") {
            match get_str(e, "name") {
                Some(n) => self.lookup(n),
                None => None,
            }
        } else if has_type(e, "MemberExpression") && !get_flag(e, "computed") {
            match (get(e, "object"), get(e, "property")) {
                (Some(o), Some(p)) => {
                    if has_type(o, "Identifier") && has_type(p, "Identifier") {
                        match (&self.ng_namespace, get_str(o, "name")) {
                            (Some(ns), Some(on)) => {
                                if *ns == *on {
                                    match get_str(p, "name") {
                                        Some(pn) => Some(pn.clone()),
                                        None => None,
                                    }
                                } else {
                                    None
                                }
                            },
                            _ => None,
                        }
                    } else {
                        None
                    }
                },
                _ => None,
            }
        } else {
            None
        }
    }

    /// The `@angular/core` name bound to a local (see [`ng_lookup`]).
    fn lookup(&self, name: &String) -> (r: Option<String>)
        ensures
            match r {
                Some(s) => ng_lookup(self@.locals, name@) == Some(s@),
                None => ng_lookup(self@.locals, name@) is None,
            },
    {
        let ghost lv = self@.locals;
        let mut i: usize = self.ng_locals.len();
        assert(lv.subrange(0, i as int) =~= lv);
        while i > 0
            invariant
                lv == pair_string_views(self.ng_locals@),
                i <= lv.len(),
                ng_lookup(lv, name@) == ng_lookup(lv.subrange(0, i as int), name@),
            decreases i,
        {
            let ghost pre = lv.subrange(0, i as int);
            assert(pre.drop_last() =~= lv.subrange(0, i - 1 as int));
            assert(pre.last() == lv[i - 1]);
            if self.ng_locals[i - 1].0 == *name {
                return Some(self.ng_locals[i - 1].1.clone());
            }
            i = i - 1;
        }
        None
    }

    /// The `@angular/core` name a decorator resolves to.
    fn decorator_ng_name(&self, dec: &Json) -> (r: Option<String>)
        ensures
            match r {
                Some(s) => decorator_ng_name(self@, *dec) == Some(s@),
                None => decorator_ng_name(self@, *dec) is None,
            },
    {
        match get(dec, "expression") {
            Some(x) => {
                if has_type(x, "CallExpression") {
                    match get(x, "callee") {
                        Some(c) => self.ng_name(c),
                        None => None,
                    }
                } else {
                    self.ng_name(x)
                }
            },
            None => {
                assert(!is_type(Json::Null, "CallExpression"@));
                assert(!is_type(Json::Null, "Identifier"@));
                assert(!is_type(Json::Null, "MemberExpression"@));
                None
            },
        }
    }

    /// Whether a class carries an Angular class decorator.
    fn class_is_angular(&self, class: &Json) -> (r: bool)
        ensures
            r == class_is_angular(self@, *class),
    {
        let empty: Vec<Json> = Vec::new();
        let decs: &Vec<Json> = match get_arr(class, "decorators") {
            Some(d) => d,
            None => &empty,
        };
        assert(decs@ == decorators_of(*class));
        let mut i: usize = 0;
        while i < decs.len()
            invariant
                decs@ == decorators_of(*class),
                i <= decs@.len(),
                !any_class_decorator(self@, decs@, i as nat),
            decreases decs@.len() - i,
        {
            match self.decorator_ng_name(&decs[i]) {
                Some(n) => {
                    if is_class_decorator(&n) {
                        proof {
                            assert(decorator_ng_name(self@, decs@[i as int]) == Some(n@));
                            assert(any_class_decorator(self@, decs@, (i + 1) as nat));
                            lemma_any_class_decorator_mono(self@, decs@, (i + 1) as nat, decs@.len());
                        }
                        return true;
                    }
                },
                None => {},
            }
            i = i + 1;
        }
        false
    }
}

/// A scan that finds an Angular class decorator among the first `a`
/// decorators finds it among the first `b >= a`.
proof fn lemma_any_class_decorator_mono(v: JitView, decs: Seq<Json>, a: nat, b: nat)
    requires
        a <= b <= decs.len(),
        any_class_decorator(v, decs, a),
    ensures
        any_class_decorator(v, decs, b),
    decreases b - a,
{
    if a < b {
        lemma_any_class_decorator_mono(v, decs, a, (b - 1) as nat);
    }
}

/// Whether `n` names an Angular class decorator.
fn is_class_decorator(n: &String) -> (r: bool)
    ensures
        r == is_class_decorator_name(n@),
{
    crate::estree::is(n, "Component") || crate::estree::is(n, "Directive") || crate::estree::is(
        n,
        "Injectable",
    ) || crate::estree::is(n, "Pipe") || crate::estree::is(n, "NgModule")
}

/// The local name a specifier binds.
pub open spec fn local_of(sp: Json) -> Option<Seq<char>> {
    match field(sp, "local"@) {
        Some(l) => str_field(l, "name"@),
        None => None,
    }
}

/// The name an import specifier imports.
pub open spec fn imported_of(sp: Json) -> Option<Seq<char>> {
    match field(sp, "imported"@) {
        Some(i) => export_name(i),
        None => None,
    }
}

/// Whether an import declaration or specifier is type-only.
pub open spec fn is_type_only(j: Json) -> bool {
    str_field(j, "importKind"@) == Some("type"@)
}

/// Whether an import specifier binds a runtime value.
pub open spec fn binds_value(sp: Json) -> bool {
    (is_type(sp, "ImportSpecifier"@) && !is_type_only(sp)) || is_type(
        sp,
        "ImportDefaultSpecifier"@,
    ) || is_type(sp, "ImportNamespaceSpecifier"@)
}

/// The value bindings of `specs[..n]`, in order.
pub open spec fn specifier_value_names(specs: Seq<Json>, n: nat) -> Seq<Seq<char>>
    decreases n,
{
    if n == 0 || n > specs.len() {
        seq![]
    } else {
        let prev = specifier_value_names(specs, (n - 1) as nat);
        if binds_value(specs[n - 1]) {
            match local_of(specs[n - 1]) {
                Some(l) => prev.push(l),
                None => prev,
            }
        } else {
            prev
        }
    }
}

/// The name a class or enum declaration binds.
pub open spec fn declared_value_name(d: Json) -> Seq<Seq<char>> {
    if is_type(d, "ClassDeclaration"@) || is_type(d, "TSEnumDeclaration"@) {
        match field(d, "id"@) {
            Some(id) => match str_field(id, "name"@) {
                Some(n) => seq![n],
                None => seq![],
            },
            None => seq![],
        }
    } else {
        seq![]
    }
}

/// The specifiers of an import declaration (none when missing).
pub open spec fn specifiers_of(stmt: Json) -> Seq<Json> {
    match as_arr(field(stmt, "specifiers"@)) {
        Some(s) => s,
        None => seq![],
    }
}

/// The names a top-level statement binds to a runtime value: value imports,
/// classes and enums (exported or not).
pub open spec fn stmt_value_names(stmt: Json) -> Seq<Seq<char>> {
    if is_type(stmt, "ImportDeclaration"@) {
        if is_type_only(stmt) {
            seq![]
        } else {
            specifier_value_names(specifiers_of(stmt), specifiers_of(stmt).len())
        }
    } else if is_type(stmt, "ExportNamedDeclaration"@) {
        match field(stmt, "declaration"@) {
            Some(d) => declared_value_name(d),
            None => seq![],
        }
    } else {
        declared_value_name(stmt)
    }
}

/// The state after reading the `@angular/core` specifiers `specs[..n]`.
pub open spec fn ng_specifiers(v: JitView, specs: Seq<Json>, n: nat) -> JitView
    decreases n,
{
    if n == 0 || n > specs.len() {
        v
    } else {
        let w = ng_specifiers(v, specs, (n - 1) as nat);
        let sp = specs[n - 1];
        if is_type(sp, "ImportSpecifier"@) {
            match (local_of(sp), imported_of(sp)) {
                (Some(l), Some(i)) => JitView { locals: w.locals.push((l, i)), ..w },
                _ => w,
            }
        } else if is_type(sp, "ImportNamespaceSpecifier"@) {
            match local_of(sp) {
                Some(l) => JitView { namespace: Some(l), ..w },
                None => w,
            }
        } else {
            w
        }
    }
}

/// The state after reading one top-level statement.
pub open spec fn enter_stmt(v: JitView, stmt: Json) -> JitView {
    let w = JitView { values: v.values + stmt_value_names(stmt), ..v };
    if crate::estree::import_source(stmt) == Some(ANGULAR_CORE@) {
        ng_specifiers(w, specifiers_of(stmt), specifiers_of(stmt).len())
    } else {
        w
    }
}

/// The state after reading `body[..n]`.
pub open spec fn enter_scan(v: JitView, body: Seq<Json>, n: nat) -> JitView
    decreases n,
{
    if n == 0 || n > body.len() {
        v
    } else {
        enter_stmt(enter_scan(v, body, (n - 1) as nat), body[n - 1])
    }
}

/// The state after entering a program with text `src`.
pub open spec fn jit_enter(v: JitView, program: Json, src: Seq<u8>) -> JitView {
    let body = crate::resources::body_of(program);
    enter_scan(JitView { src, ..v }, body, body.len())
}

/// The name a specifier binds.
fn get_local<'a>(sp: &'a Json) -> (r: Option<&'a String>)
    ensures
        match r {
            Some(s) => local_of(*sp) == Some(s@),
            None => local_of(*sp) is None,
        },
{
    match get(sp, "local") {
        Some(l) => get_str(l, "name"),
        None => None,
    }
}

/// Whether an import declaration or specifier is type-only.
fn get_type_only(j: &Json) -> (r: bool)
    ensures
        r == is_type_only(*j),
{
    match get_str(j, "importKind") {
        Some(k) => crate::estree::is(k, "type"),
        None => false,
    }
}

/// The specifiers of an import declaration.
fn get_specifiers<'a>(stmt: &'a Json, empty: &'a Vec<Json>) -> (r: &'a Vec<Json>)
    requires
        empty@.len() == 0,
    ensures
        r@ == specifiers_of(*stmt),
{
    match get_arr(stmt, "specifiers") {
        Some(s) => s,
        None => {
            assert(empty@ =~= seq![]);
            empty
        },
    }
}

/// Push the name a class or enum declaration binds.
fn push_declared_name(out: &mut Vec<String>, d: &Json)
    ensures
        string_views(final(out)@) == string_views(old(out)@) + declared_value_name(*d),
{
    let ghost before = string_views(out@);
    if has_type(d, "ClassDeclaration") || has_type(d, "TSEnumDeclaration") {
        match get(d, "id") {
            Some(id) => match get_str(id, "name") {
                Some(n) => {
                    out.push(n.clone());
                    assert(string_views(out@) =~= before + seq![n@]);
                    return;
                },
                None => {},
            },
            None => {},
        }
    }
    assert(string_views(out@) =~= before + seq![]);
}

impl JitTransform {
    /// Record the value bindings of one top-level statement.
    fn push_value_names(&mut self, stmt: &Json)
        ensures
            final(self)@ == (JitView {
                values: old(self)@.values + stmt_value_names(*stmt),
                ..old(self)@
            }),
    {
        let ghost v0 = self@;
        if has_type(stmt, "ImportDeclaration") {
            if get_type_only(stmt) {
                assert(v0.values + seq![] =~= v0.values);
                return;
            }
            let empty: Vec<Json> = Vec::new();
            let specs = get_specifiers(stmt, &empty);
            let mut i: usize = 0;
            while i < specs.len()
                invariant
                    specs@ == specifiers_of(*stmt),
                    i <= specs@.len(),
                    self@ == (JitView {
                        values: v0.values + specifier_value_names(specs@, i as nat),
                        ..v0
                    }),
                decreases specs@.len() - i,
            {
                let sp = &specs[i];
                let binds = (has_type(sp, "ImportSpecifier") && !get_type_only(sp)) || has_type(
                    sp,
                    "ImportDefaultSpecifier",
                ) || has_type(sp, "ImportNamespaceSpecifier");
                if binds {
                    match get_local(sp) {
                        Some(l) => {
                            let ghost before = string_views(self.value_names@);
                            self.value_names.push(l.clone());
                            assert(string_views(self.value_names@) =~= before.push(l@));
                        },
                        None => {},
                    }
                }
                proof {
                    let a = v0.values + specifier_value_names(specs@, i as nat);
                    let b = specifier_value_names(specs@, (i + 1) as nat);
                    if binds && local_of(specs@[i as int]) is Some {
                        assert(v0.values + b =~= a.push(local_of(specs@[i as int])->0));
                    } else {
                        assert(v0.values + b =~= a);
                    }
                }
                i = i + 1;
            }
        } else if has_type(stmt, "ExportNamedDeclaration") {
            match get(stmt, "declaration") {
                Some(d) => push_declared_name(&mut self.value_names, d),
                None => {
                    assert(v0.values + seq![] =~= v0.values);
                },
            }
        } else {
            push_declared_name(&mut self.value_names, stmt);
        }
    }

    /// Read the `@angular/core` specifiers of one import declaration.
    fn read_ng_specifiers(&mut self, specs: &Vec<Json>)
        ensures
            final(self)@ == ng_specifiers(old(self)@, specs@, specs@.len()),
    {
        let ghost v0 = self@;
        let mut i: usize = 0;
        while i < specs.len()
            invariant
                i <= specs@.len(),
                self@ == ng_specifiers(v0, specs@, i as nat),
            decreases specs@.len() - i,
        {
            let sp = &specs[i];
            let ghost w = self@;
            if has_type(sp, "ImportSpecifier") {
                let imported: Option<&String> = match get(sp, "imported") {
                    Some(im) => get_export_name(im),
                    None => None,
                };
                match (get_local(sp), imported) {
                    (Some(l), Some(im)) => {
                        self.ng_locals.push((l.clone(), im.clone()));
                        assert(pair_string_views(self.ng_locals@) =~= w.locals.push((l@, im@)));
                    },
                    _ => {},
                }
            } else if has_type(sp, "ImportNamespaceSpecifier") {
                match get_local(sp) {
                    Some(l) => {
                        self.ng_namespace = Some(l.clone());
                    },
                    None => {},
                }
            }
            i = i + 1;
        }
    }

    /// Read a program's value bindings and `@angular/core` imports, and keep
    /// its source text.
    pub fn enter_program(&mut self, program: &Json, source: &str)
        ensures
            final(self)@ == jit_enter(old(self)@, *program, enc(source@)),
    {
        self.source = vstd::slice::slice_to_vec(source.as_bytes());
        let ghost v0 = self@;
        let empty: Vec<Json> = Vec::new();
        let body: &Vec<Json> = match get_arr(program, "body") {
            Some(b) => b,
            None => &empty,
        };
        assert(body@ == crate::resources::body_of(*program));
        let mut i: usize = 0;
        while i < body.len()
            invariant
                body@ == crate::resources::body_of(*program),
                i <= body@.len(),
                self@ == enter_scan(v0, body@, i as nat),
            decreases body@.len() - i,
        {
            let stmt = &body[i];
            self.push_value_names(stmt);
            let is_core = match crate::estree::get_import_source(stmt) {
                Some(src) => crate::estree::is(src, ANGULAR_CORE),
                None => false,
            };
            if is_core {
                let empty2: Vec<Json> = Vec::new();
                let specs = get_specifiers(stmt, &empty2);
                self.read_ng_specifiers(specs);
            }
            i = i + 1;
        }
    }
}

/// The leftmost identifier of a type name (`ns` in `ns.Service`).
pub open spec fn type_root(n: Json) -> Option<Seq<char>>
    decreases n,
{
    if is_type(n, "Identifier"@) {
        str_field(n, "name"@)
    } else if is_type(n, "TSQualifiedName"@) {
        match field(n, "left"@) {
            Some(l) => {
                proof {
                    crate::json::lemma_field_decreases(n, "left"@);
                }
                type_root(l)
            },
            None => None,
        }
    } else {
        None
    }
}

/// A type name written as a value expression (`ns.Service`).
pub open spec fn type_name_text(n: Json) -> Option<Seq<u8>>
    decreases n,
{
    if is_type(n, "Identifier"@) {
        match str_field(n, "name"@) {
            Some(x) => Some(enc(x)),
            None => None,
        }
    } else if is_type(n, "TSQualifiedName"@) {
        match (field(n, "left"@), field(n, "right"@)) {
            (Some(l), Some(r)) => {
                proof {
                    crate::json::lemma_field_decreases(n, "left"@);
                }
                match (type_name_text(l), str_field(r, "name"@)) {
                    (Some(t), Some(rn)) => Some(t + enc("."@) + enc(rn)),
                    _ => None,
                }
            },
            _ => None,
        }
    } else {
        None
    }
}

/// Whether a type is `null` or `undefined`.
pub open spec fn is_nullish_type(t: Json) -> bool {
    is_type(t, "TSNullKeyword"@) || is_type(t, "TSUndefinedKeyword"@)
}

/// How many of `ts[..n]` are not `null`/`undefined`.
pub open spec fn non_null_count(ts: Seq<Json>, n: nat) -> nat
    decreases n,
{
    if n == 0 || n > ts.len() {
        0
    } else {
        non_null_count(ts, (n - 1) as nat) + if is_nullish_type(ts[n - 1]) {
            0nat
        } else {
            1nat
        }
    }
}

/// The position of the last of `ts[..n]` that is not `null`/`undefined`
/// (`-1` when there is none).
pub open spec fn last_non_null(ts: Seq<Json>, n: nat) -> int
    decreases n,
{
    if n == 0 || n > ts.len() {
        -1
    } else if !is_nullish_type(ts[n - 1]) {
        n - 1
    } else {
        last_non_null(ts, (n - 1) as nat)
    }
}

/// The runtime value a constructor parameter's type stands for, as emitted
/// in `ctorParameters`: a class or enum in scope by name (`values`),
/// `String`/`Number`/`Boolean` for the primitive keywords, the one
/// non-nullish member of a union, `Object` for any other type reference, and
/// `undefined` otherwise.
pub open spec fn type_text(values: Seq<Seq<char>>, t: Json) -> Seq<u8>
    decreases t,
{
    if is_type(t, "TSTypeReference"@) {
        match field(t, "typeName"@) {
            Some(n) => match type_root(n) {
                Some(r) => if values.contains(r) {
                    match type_name_text(n) {
                        Some(x) => x,
                        None => enc("Object"@),
                    }
                } else {
                    enc("Object"@)
                },
                None => enc("Object"@),
            },
            None => enc("Object"@),
        }
    } else if is_type(t, "TSStringKeyword"@) {
        enc("String"@)
    } else if is_type(t, "TSNumberKeyword"@) {
        enc("Number"@)
    } else if is_type(t, "TSBooleanKeyword"@) {
        enc("Boolean"@)
    } else if is_type(t, "TSUnionType"@) {
        match as_arr(field(t, "types"@)) {
            Some(ts) => {
                let k = last_non_null(ts, ts.len());
                if non_null_count(ts, ts.len()) == 1 && 0 <= k < ts.len() {
                    proof {
                        crate::json::lemma_elem_decreases(t, "types"@, k);
                    }
                    type_text(values, ts[k])
                } else {
                    enc("undefined"@)
                }
            },
            None => enc("undefined"@),
        }
    } else {
        enc("undefined"@)
    }
}

/// With one member `ts[i]` that is not `null`/`undefined`, the count of
/// such members among `ts[..n]` and the last of them.
proof fn lemma_single_non_null(ts: Seq<Json>, i: int, n: nat)
    requires
        0 <= i < ts.len(),
        !is_nullish_type(ts[i]),
        forall|j: int| 0 <= j < ts.len() && j != i ==> is_nullish_type(#[trigger] ts[j]),
        n <= ts.len(),
    ensures
        non_null_count(ts, n) == (if i < n { 1nat } else { 0nat }),
        last_non_null(ts, n) == (if i < n { i } else { -1 }),
    decreases n,
{
    if n > 0 {
        lemma_single_non_null(ts, i, (n - 1) as nat);
        if n - 1 != i {
            assert(is_nullish_type(ts[n - 1]));
        }
    }
}

/// A union whose members other than `null` and `undefined` are the one
/// type `ts[i]` stands for what that type stands for: `Dep | null` is
/// emitted as `Dep` would be.
pub proof fn lemma_nullable_union_type(values: Seq<Seq<char>>, t: Json, ts: Seq<Json>, i: int)
    requires
        is_type(t, "TSUnionType"@),
        as_arr(field(t, "types"@)) == Some(ts),
        0 <= i < ts.len(),
        !is_nullish_type(ts[i]),
        forall|j: int| 0 <= j < ts.len() && j != i ==> is_nullish_type(#[trigger] ts[j]),
    ensures
        type_text(values, t) == type_text(values, ts[i]),
{
    reveal_strlit("TSUnionType");
    reveal_strlit("TSTypeReference");
    reveal_strlit("TSStringKeyword");
    reveal_strlit("TSNumberKeyword");
    reveal_strlit("TSBooleanKeyword");
    lemma_single_non_null(ts, i, ts.len());
    assert("TSUnionType"@.len() != "TSTypeReference"@.len());
    assert("TSUnionType"@ != "TSStringKeyword"@) by {
        assert("TSUnionType"@[2] != "TSStringKeyword"@[2]);
    }
    assert("TSUnionType"@ != "TSNumberKeyword"@) by {
        assert("TSUnionType"@[2] != "TSNumberKeyword"@[2]);
    }
    assert("TSUnionType"@.len() != "TSBooleanKeyword"@.len());
}

/// The `type` emitted for a parameter with type annotation `ann`.
pub open spec fn annotation_text(values: Seq<Seq<char>>, ann: Option<Json>) -> Seq<u8> {
    match ann {
        Some(a) => if is_type(a, "TSTypeAnnotation"@) {
            match field(a, "typeAnnotation"@) {
                Some(t) => type_text(values, t),
                None => enc("undefined"@),
            }
        } else {
            enc("undefined"@)
        },
        None => enc("undefined"@),
    }
}

/// See [`type_root`].
fn get_type_root<'a>(n: &'a Json) -> (r: Option<&'a String>)
    ensures
        match r {
            Some(s) => type_root(*n) == Some(s@),
            None => type_root(*n) is None,
        },
    decreases n,
{
    if has_type(n, "Identifier") {
        get_str(n, "name")
    } else if has_type(n, "TSQualifiedName") {
        match get(n, "left") {
            Some(l) => {
                proof {
                    crate::json::lemma_field_decreases(*n, "left"@);
                }
                get_type_root(l)
            },
            None => None,
        }
    } else {
        None
    }
}

/// See [`type_name_text`].
fn type_name_bytes(n: &Json) -> (r: Option<Vec<u8>>)
    ensures
        match r {
            Some(b) => type_name_text(*n) == Some(b@),
            None => type_name_text(*n) is None,
        },
    decreases n,
{
    if has_type(n, "Identifier") {
        match get_str(n, "name") {
            Some(x) => {
                let mut out: Vec<u8> = Vec::new();
                push_str(&mut out, x.as_str());
                assert(out@ =~= enc(x@));
                Some(out)
            },
            None => None,
        }
    } else if has_type(n, "TSQualifiedName") {
        match (get(n, "left"), get(n, "right")) {
            (Some(l), Some(r)) => {
                proof {
                    crate::json::lemma_field_decreases(*n, "left"@);
                }
                match (type_name_bytes(l), get_str(r, "name")) {
                    (Some(mut t), Some(rn)) => {
                        push_str(&mut t, ".");
                        push_str(&mut t, rn.as_str());
                        Some(t)
                    },
                    _ => None,
                }
            },
            _ => None,
        }
    } else {
        None
    }
}

/// Append `type_text(values, t)` to `out`.
fn push_type_text(out: &mut Vec<u8>, values: &Vec<String>, t: &Json)
    ensures
        final(out)@ == old(out)@ + type_text(string_views(values@), *t),
    decreases t,
{
    if has_type(t, "TSTypeReference") {
        match get(t, "typeName") {
            Some(n) => match get_type_root(n) {
                Some(r) => {
                    if contains_string(values, r) {
                        match type_name_bytes(n) {
                            Some(x) => push_bytes(out, x.as_slice()),
                            None => push_str(out, "Object"),
                        }
                    } else {
                        push_str(out, "Object");
                    }
                },
                None => push_str(out, "Object"),
            },
            None => push_str(out, "Object"),
        }
    } else if has_type(t, "TSStringKeyword") {
        push_str(out, "String");
    } else if has_type(t, "TSNumberKeyword") {
        push_str(out, "Number");
    } else if has_type(t, "TSBooleanKeyword") {
        push_str(out, "Boolean");
    } else if has_type(t, "TSUnionType") {
        match get_arr(t, "types") {
            Some(ts) => {
                let mut count: usize = 0;
                let mut last: usize = 0;
                let mut i: usize = 0;
                while i < ts.len()
                    invariant
                        i <= ts@.len(),
                        count == non_null_count(ts@, i as nat),
                        count <= i,
                        count > 0 ==> last < i && last == last_non_null(ts@, i as nat),
                        count == 0 ==> last_non_null(ts@, i as nat) == -1,
                    decreases ts@.len() - i,
                {
                    let nullish = has_type(&ts[i], "TSNullKeyword") || has_type(
                        &ts[i],
                        "TSUndefinedKeyword",
                    );
                    if !nullish {
                        count = count + 1;
                        last = i;
                    }
                    i = i + 1;
                }
                if count == 1 {
                    proof {
                        crate::json::lemma_elem_decreases(*t, "types"@, last as int);
                    }
                    push_type_text(out, values, &ts[last]);
                } else {
                    push_str(out, "undefined");
                }
            },
            None => push_str(out, "undefined"),
        }
    } else {
        push_str(out, "undefined");
    }
}

/// Append `annotation_text(values, ann)` to `out`.
fn push_annotation_text(out: &mut Vec<u8>, values: &Vec<String>, ann: Option<&Json>)
    ensures
        final(out)@ == old(out)@ + annotation_text(
            string_views(values@),
            match ann {
                Some(a) => Some(*a),
                None => None,
            },
        ),
{
    match ann {
        Some(a) => {
            if has_type(a, "TSTypeAnnotation") {
                match get(a, "typeAnnotation") {
                    Some(t) => push_type_text(out, values, t),
                    None => push_str(out, "undefined"),
                }
            } else {
                push_str(out, "undefined");
            }
        },
        None => push_str(out, "undefined"),
    }
}

/// The arguments of a call (none when missing).
pub open spec fn args_of(call: Json) -> Seq<Json> {
    match as_arr(field(call, "arguments"@)) {
        Some(a) => a,
        None => seq![],
    }
}

/// The source texts of `nodes`.
pub open spec fn texts(src: Seq<u8>, nodes: Seq<Json>) -> Seq<Seq<u8>> {
    nodes.map_values(|n: Json| text_of(src, n))
}

/// The metadata object of a decorator: `{ type: <callee>, args: [<args>] }`
/// for a call (without `args` when it has none), `{ type: <expression> }`
/// otherwise.
pub open spec fn decorator_meta(src: Seq<u8>, dec: Json) -> Seq<u8> {
    let x = expression_of(dec);
    if is_type(x, "CallExpression"@) {
        let callee = match field(x, "callee"@) {
            Some(c) => text_of(src, c),
            None => seq![],
        };
        let args = args_of(x);
        enc("{ type: "@) + callee + (if args.len() == 0 {
            seq![]
        } else {
            enc(", args: ["@) + join(texts(src, args), enc(", "@)) + enc("]"@)
        }) + enc(" }"@)
    } else {
        enc("{ type: "@) + text_of(src, x) + enc(" }"@)
    }
}

/// The source texts of `nodes`, each with [`node_text`].
fn node_texts(src: &Vec<u8>, nodes: &Vec<Json>) -> (r: Vec<Vec<u8>>)
    ensures
        text_views(r@) == texts(src@, nodes@),
{
    let mut out: Vec<Vec<u8>> = Vec::new();
    let mut i: usize = 0;
    while i < nodes.len()
        invariant
            i <= nodes@.len(),
            text_views(out@) == texts(src@, nodes@.subrange(0, i as int)),
        decreases nodes@.len() - i,
    {
        let t = node_text(src, &nodes[i]);
        let ghost old_out = out@;
        let ghost tv = t@;
        out.push(t);
        proof {
            assert(text_views(out@) =~= text_views(old_out).push(tv));
            assert(texts(src@, nodes@.subrange(0, i + 1 as int)) =~= texts(
                src@,
                nodes@.subrange(0, i as int),
            ).push(text_of(src@, nodes@[i as int])));
        }
        i = i + 1;
    }
    assert(nodes@.subrange(0, nodes@.len() as int) =~= nodes@);
    out
}

/// The metadata object of a decorator (see [`decorator_meta`]).
fn decorator_meta_bytes(src: &Vec<u8>, dec: &Json) -> (r: Vec<u8>)
    ensures
        r@ == decorator_meta(src@, *dec),
{
    let null = Json::Null;
    let x: &Json = match get(dec, "expression") {
        Some(x) => x,
        None => &null,
    };
    assert(*x == expression_of(*dec));
    let mut out: Vec<u8> = Vec::new();
    push_str(&mut out, "{ type: ");
    if has_type(x, "CallExpression") {
        match get(x, "callee") {
            Some(c) => {
                let t = node_text(src, c);
                push_bytes(&mut out, t.as_slice());
            },
            None => {},
        }
        let empty: Vec<Json> = Vec::new();
        let args: &Vec<Json> = match get_arr(x, "arguments") {
            Some(a) => a,
            None => &empty,
        };
        assert(args@ == args_of(*x));
        if args.len() > 0 {
            push_str(&mut out, ", args: [");
            let parts = node_texts(src, args);
            assert(parts@.map_values(|p: Vec<u8>| p@) =~= text_views(parts@));
            let joined = join_bytes(&parts, ", ".as_bytes());
            push_bytes(&mut out, joined.as_slice());
            push_str(&mut out, "]");
        }
    } else {
        let t = node_text(src, x);
        push_bytes(&mut out, t.as_slice());
    }
    push_str(&mut out, " }");
    proof {
        if is_type(*x, "CallExpression"@) {
            let callee = match field(*x, "callee"@) {
                Some(c) => text_of(src@, c),
                None => seq![],
            };
            if args_of(*x).len() == 0 {
                assert(out@ =~= enc("{ type: "@) + callee + seq![] + enc(" }"@));
            }
        }
    }
    out
}

/// The call a class field is initialized with, seen through sequence
/// expressions (their last element) and parentheses.
pub open spec fn initializer_call(value: Json) -> Option<Json>
    decreases value,
{
    if is_type(value, "CallExpression"@) {
        Some(value)
    } else if is_type(value, "SequenceExpression"@) {
        match as_arr(field(value, "expressions"@)) {
            Some(es) => if es.len() > 0 {
                proof {
                    crate::json::lemma_elem_decreases(value, "expressions"@, es.len() - 1);
                }
                initializer_call(es[es.len() - 1])
            } else {
                None
            },
            None => None,
        }
    } else if is_type(value, "ParenthesizedExpression"@) {
        match field(value, "expression"@) {
            Some(e) => {
                proof {
                    crate::json::lemma_field_decreases(value, "expression"@);
                }
                initializer_call(e)
            },
            None => None,
        }
    } else {
        None
    }
}

/// See [`initializer_call`].
fn get_initializer_call<'a>(value: &'a Json) -> (r: Option<&'a Json>)
    ensures
        match r {
            Some(c) => initializer_call(*value) == Some(*c),
            None => initializer_call(*value) is None,
        },
    decreases value,
{
    if has_type(value, "CallExpression") {
        Some(value)
    } else if has_type(value, "SequenceExpression") {
        match get_arr(value, "expressions") {
            Some(es) => {
                if es.len() > 0 {
                    proof {
                        crate::json::lemma_elem_decreases(*value, "expressions"@, es@.len() - 1);
                    }
                    get_initializer_call(&es[es.len() - 1])
                } else {
                    None
                }
            },
            None => None,
        }
    } else if has_type(value, "ParenthesizedExpression") {
        match get(value, "expression") {
            Some(e) => {
                proof {
                    crate::json::lemma_field_decreases(*value, "expression"@);
                }
                get_initializer_call(e)
            },
            None => None,
        }
    } else {
        None
    }
}

/// The query decorators.
#[derive(Clone, Copy, PartialEq, Eq, Structural)]
pub enum QueryKind {
    ViewChild,
    ViewChildren,
    ContentChild,
    ContentChildren,
}

/// The signal initializer API a class field is initialized with.
#[derive(Clone, Copy, PartialEq, Eq, Structural)]
pub enum Initializer {
    Input { required: bool },
    Model { required: bool },
    Output,
    Query(QueryKind),
}

/// The decorator name of a query.
pub open spec fn query_name(k: QueryKind) -> Seq<char> {
    match k {
        QueryKind::ViewChild => "ViewChild"@,
        QueryKind::ViewChildren => "ViewChildren"@,
        QueryKind::ContentChild => "ContentChild"@,
        QueryKind::ContentChildren => "ContentChildren"@,
    }
}

fn query_str(k: QueryKind) -> (r: &'static str)
    ensures
        r@ == query_name(k),
{
    match k {
        QueryKind::ViewChild => "ViewChild",
        QueryKind::ViewChildren => "ViewChildren",
        QueryKind::ContentChild => "ContentChild",
        QueryKind::ContentChildren => "ContentChildren",
    }
}

/// The initializer API behind `<base>.required(...)`.
pub open spec fn required_init(base: Seq<char>) -> Option<Initializer> {
    if base == "input"@ {
        Some(Initializer::Input { required: true })
    } else if base == "model"@ {
        Some(Initializer::Model { required: true })
    } else if base == "viewChild"@ {
        Some(Initializer::Query(QueryKind::ViewChild))
    } else if base == "contentChild"@ {
        Some(Initializer::Query(QueryKind::ContentChild))
    } else {
        None
    }
}

/// The initializer API behind `<name>(...)`.
pub open spec fn plain_init(name: Seq<char>) -> Option<Initializer> {
    if name == "input"@ {
        Some(Initializer::Input { required: false })
    } else if name == "model"@ {
        Some(Initializer::Model { required: false })
    } else if name == "output"@ {
        Some(Initializer::Output)
    } else if name == "viewChild"@ {
        Some(Initializer::Query(QueryKind::ViewChild))
    } else if name == "viewChildren"@ {
        Some(Initializer::Query(QueryKind::ViewChildren))
    } else if name == "contentChild"@ {
        Some(Initializer::Query(QueryKind::ContentChild))
    } else if name == "contentChildren"@ {
        Some(Initializer::Query(QueryKind::ContentChildren))
    } else {
        None
    }
}

/// The `@angular/core` name `<base>` of a `<base>.required` callee.
pub open spec fn required_base(v: JitView, callee: Json) -> Option<Seq<char>> {
    if is_type(callee, "MemberExpression"@) && !flag(callee, "computed"@) {
        match (field(callee, "property"@), field(callee, "object"@)) {
            (Some(p), Some(o)) => if is_type(p, "Identifier"@) && str_field(p, "name"@) == Some(
                "required"@,
            ) {
                ng_name(v, o)
            } else {
                None
            },
            _ => None,
        }
    } else {
        None
    }
}

/// `name` with its first character, when an ASCII lower-case letter, made
/// upper case.
pub open spec fn capitalized(name: Seq<char>) -> Seq<char> {
    if name.len() > 0 && 'a' <= name[0] && name[0] <= 'z' {
        seq![((name[0] as int) - 32) as char] + name.drop_first()
    } else {
        name
    }
}

/// The decorator a field initialized with an initializer API is given
/// (for `model`, the first of its two).
pub open spec fn decorator_kind(i: Initializer) -> Seq<char> {
    match i {
        Initializer::Input { .. } => "Input"@,
        Initializer::Model { .. } => "Input"@,
        Initializer::Output => "Output"@,
        Initializer::Query(k) => query_name(k),
    }
}

/// The initializer APIs and their decorators: `input`, `output`,
/// `viewChild`, `viewChildren`, `contentChild` and `contentChildren` (and
/// `input.required`, `viewChild.required`, `contentChild.required`) give the
/// decorator named by the API's name with its first letter capitalized;
/// `model` gives an `Input` (with an `Output` beside it). A plain call is
/// not required, a `.required` call is; no other name is an initializer
/// API.
pub proof fn lemma_initializer_decorators(name: Seq<char>)
    ensures
        plain_init(name) matches Some(i) ==> (decorator_kind(i) == capitalized(name) || (name == "model"@
            && i == Initializer::Model { required: false })),
        required_init(name) matches Some(i) ==> (decorator_kind(i) == capitalized(name) || (name == "model"@
            && i == Initializer::Model { required: true })),
        plain_init(name) matches Some(Initializer::Input { required }) ==> !required,
        required_init(name) matches Some(Initializer::Input { required }) ==> required,
        plain_init(name) is Some <==> (name == "input"@ || name == "model"@ || name == "output"@ || name
            == "viewChild"@ || name == "viewChildren"@ || name == "contentChild"@ || name
            == "contentChildren"@),
        required_init(name) is Some <==> (name == "input"@ || name == "model"@ || name == "viewChild"@
            || name == "contentChild"@),
{
    reveal_strlit("input");
    reveal_strlit("Input");
    reveal_strlit("model");
    reveal_strlit("output");
    reveal_strlit("Output");
    reveal_strlit("viewChild");
    reveal_strlit("ViewChild");
    reveal_strlit("viewChildren");
    reveal_strlit("ViewChildren");
    reveal_strlit("contentChild");
    reveal_strlit("ContentChild");
    reveal_strlit("contentChildren");
    reveal_strlit("ContentChildren");
    if name == "input"@ {
        assert(capitalized(name) =~= "Input"@);
    } else if name == "output"@ {
        assert(capitalized(name) =~= "Output"@);
    } else if name == "viewChild"@ {
        assert(capitalized(name) =~= "ViewChild"@);
    } else if name == "viewChildren"@ {
        assert(capitalized(name) =~= "ViewChildren"@);
    } else if name == "contentChild"@ {
        assert(capitalized(name) =~= "ContentChild"@);
    } else if name == "contentChildren"@ {
        assert(capitalized(name) =~= "ContentChildren"@);
    }
}

/// Which `@angular/core` initializer API a call is, if any.
pub open spec fn classify(v: JitView, call: Json) -> Option<Initializer> {
    match field(call, "callee"@) {
        Some(c) => match required_base(v, c) {
            Some(base) => required_init(base),
            None => match ng_name(v, c) {
                Some(n) => plain_init(n),
                None => None,
            },
        },
        None => None,
    }
}

fn required_init_of(base: &String) -> (r: Option<Initializer>)
    ensures
        r == required_init(base@),
{
    if crate::estree::is(base, "input") {
        Some(Initializer::Input { required: true })
    } else if crate::estree::is(base, "model") {
        Some(Initializer::Model { required: true })
    } else if crate::estree::is(base, "viewChild") {
        Some(Initializer::Query(QueryKind::ViewChild))
    } else if crate::estree::is(base, "contentChild") {
        Some(Initializer::Query(QueryKind::ContentChild))
    } else {
        None
    }
}

fn plain_init_of(name: &String) -> (r: Option<Initializer>)
    ensures
        r == plain_init(name@),
{
    if crate::estree::is(name, "input") {
        Some(Initializer::Input { required: false })
    } else if crate::estree::is(name, "model") {
        Some(Initializer::Model { required: false })
    } else if crate::estree::is(name, "output") {
        Some(Initializer::Output)
    } else if crate::estree::is(name, "viewChild") {
        Some(Initializer::Query(QueryKind::ViewChild))
    } else if crate::estree::is(name, "viewChildren") {
        Some(Initializer::Query(QueryKind::ViewChildren))
    } else if crate::estree::is(name, "contentChild") {
        Some(Initializer::Query(QueryKind::ContentChild))
    } else if crate::estree::is(name, "contentChildren") {
        Some(Initializer::Query(QueryKind::ContentChildren))
    } else {
        None
    }
}

impl JitTransform {
    /// See [`required_base`].
    fn required_base(&self, callee: &Json) -> (r: Option<String>)
        ensures
            match r {
                Some(s) => required_base(self@, *callee) == Some(s@),
                None => required_base(self@, *callee) is None,
            },
    {
        if has_type(callee, "MemberExpression") && !get_flag(callee, "computed") {
            match (get(callee, "property"), get(callee, "object")) {
                (Some(p), Some(o)) => {
                    let named_required = has_type(p, "Identifier") && match get_str(p, "name") {
                        Some(n) => crate::estree::is(n, "required"),
                        None => false,
                    };
                    if named_required {
                        self.ng_name(o)
                    } else {
                        None
                    }
                },
                _ => None,
            }
        } else {
            None
        }
    }

    /// See [`classify`].
    fn classify(&self, call: &Json) -> (r: Option<Initializer>)
        ensures
            r == classify(self@, *call),
    {
        match get(call, "callee") {
            Some(c) => match self.required_base(c) {
                Some(base) => required_init_of(&base),
                None => match self.ng_name(c) {
                    Some(n) => plain_init_of(&n),
                    None => None,
                },
            },
            None => None,
        }
    }
}

/// Whether an object-literal member is the property `key` (with a string
/// literal value, when `strings`).
pub open spec fn prop_matches(p: Json, key: Seq<char>, strings: bool) -> bool {
    &&& is_type(p, "Property"@)
    &&& key_name(p) == Some(key)
    &&& strings ==> is_type(value_of(p), "Literal"@) && str_field(value_of(p), "value"@) is Some
}

/// The value of the first of `props[..n]` that matches (see [`prop_matches`]).
pub open spec fn find_in_props(props: Seq<Json>, key: Seq<char>, strings: bool, n: nat) -> Option<Json>
    decreases n,
{
    if n == 0 || n > props.len() {
        None
    } else {
        match find_in_props(props, key, strings, (n - 1) as nat) {
            Some(x) => Some(x),
            None => if prop_matches(props[n - 1], key, strings) {
                Some(value_of(props[n - 1]))
            } else {
                None
            },
        }
    }
}

/// The members of an object literal (none for anything else).
pub open spec fn object_props(o: Json) -> Seq<Json> {
    if is_type(o, "ObjectExpression"@) {
        match as_arr(field(o, "properties"@)) {
            Some(p) => p,
            None => seq![],
        }
    } else {
        seq![]
    }
}

/// The value of the first property `key` among the object-literal
/// arguments `args[..n]`, in order.
pub open spec fn find_in_args(args: Seq<Json>, key: Seq<char>, strings: bool, n: nat) -> Option<Json>
    decreases n,
{
    if n == 0 || n > args.len() {
        None
    } else {
        match find_in_args(args, key, strings, (n - 1) as nat) {
            Some(x) => Some(x),
            None => {
                let props = object_props(args[n - 1]);
                find_in_props(props, key, strings, props.len())
            },
        }
    }
}

/// `true` or `false`.
pub open spec fn bool_text(b: bool) -> Seq<u8> {
    if b {
        enc("true"@)
    } else {
        enc("false"@)
    }
}

/// `{ type: Input, args: [{ isSignal: true, alias, required[, transform] }] }`.
pub open spec fn input_meta(alias: Seq<char>, required: bool, transform: Option<Seq<u8>>) -> Seq<u8> {
    enc("{ type: Input, args: [{ isSignal: true, alias: "@) + js_string(enc(alias)) + enc(
        ", required: "@,
    ) + bool_text(required) + match transform {
        Some(t) => enc(", transform: "@) + t,
        None => seq![],
    } + enc(" }] }"@)
}

/// `{ type: Output, args: ["<binding>"] }`.
pub open spec fn output_meta(binding: Seq<char>) -> Seq<u8> {
    enc("{ type: Output, args: ["@) + js_string(enc(binding)) + enc("] }"@)
}

/// `{ type: <kind>, args: [<predicate>, { ...<options>, isSignal: true }] }`.
pub open spec fn query_meta(kind: Seq<char>, predicate: Option<Seq<u8>>, options: Option<Seq<u8>>) -> Seq<u8> {
    enc("{ type: "@) + enc(kind) + enc(", args: ["@) + match predicate {
        Some(p) => p + enc(", "@),
        None => seq![],
    } + enc("{ "@) + match options {
        Some(o) => enc("..."@) + o + enc(", "@),
        None => seq![],
    } + enc("isSignal: true }] }"@)
}

/// Whether a class member is a field.
pub open spec fn is_field(m: Json) -> bool {
    is_type(m, "PropertyDefinition"@) || is_type(m, "TSAbstractPropertyDefinition"@)
}

/// The decorators synthesized for a field initialized with an
/// `@angular/core` initializer API (their metadata objects), with the
/// symbols they introduce.
pub open spec fn signal_metas(v: JitView, member: Json) -> (JitView, Seq<Seq<u8>>) {
    if !is_field(member) {
        (v, seq![])
    } else {
        match (key_name(member), initializer_call(value_of(member))) {
            (Some(name), Some(call)) => match classify(v, call) {
                Some(init) => {
                    let args = args_of(call);
                    let alias = match find_in_args(args, "alias"@, true, args.len()) {
                        Some(a) => match str_field(a, "value"@) {
                            Some(x) => x,
                            None => name,
                        },
                        None => name,
                    };
                    match init {
                        Initializer::Input { required } => {
                            let t = match find_in_args(args, "transform"@, false, args.len()) {
                                Some(x) => text_of(v.src, x),
                                None => enc("undefined"@),
                            };
                            (use_symbol(v, "Input"@), seq![input_meta(alias, required, Some(t))])
                        },
                        Initializer::Model { required } => (
                            use_symbol(use_symbol(v, "Input"@), "Output"@),
                            seq![input_meta(alias, required, None), output_meta(alias + "Change"@)],
                        ),
                        Initializer::Output => (use_symbol(v, "Output"@), seq![output_meta(alias)]),
                        Initializer::Query(k) => {
                            let predicate = if args.len() > 0 {
                                Some(text_of(v.src, args[0]))
                            } else {
                                None
                            };
                            let options = if args.len() > 1 && !is_type(
                                args[1],
                                "SpreadElement"@,
                            ) {
                                Some(text_of(v.src, args[1]))
                            } else {
                                None
                            };
                            (use_symbol(v, query_name(k)), seq![query_meta(query_name(k), predicate, options)])
                        },
                    }
                },
                None => (v, seq![]),
            },
            _ => (v, seq![]),
        }
    }
}

/// Whether `b` starts with `p`.
pub open spec fn starts_with(b: Seq<u8>, p: Seq<u8>) -> bool {
    p.len() <= b.len() && b.subrange(0, p.len() as int) == p
}

/// A text starts with what its first part starts with.
proof fn lemma_starts_with_concat(p: Seq<u8>, q: Seq<u8>, h: Seq<u8>)
    requires
        starts_with(p, h),
    ensures
        starts_with(p + q, h),
{
    assert((p + q).subrange(0, h.len() as int) =~= p.subrange(0, h.len() as int));
}

/// The literal `lit` starts with `head + kind`, encoded.
proof fn lemma_literal_head(lit: Seq<char>, head: Seq<char>, kind: Seq<char>)
    requires
        (head + kind).len() <= lit.len(),
        lit.subrange(0, (head + kind).len() as int) == head + kind,
    ensures
        starts_with(enc(lit), enc(head + kind)),
{
    let rest = lit.subrange((head + kind).len() as int, lit.len() as int);
    assert(lit =~= (head + kind) + rest);
    crate::text::lemma_encode_concat(head + kind, rest);
    assert((enc(head + kind) + enc(rest)).subrange(0, enc(head + kind).len() as int) =~= enc(head + kind));
}

/// `input_meta` is an `Input` decorator.
proof fn lemma_input_meta_head(alias: Seq<char>, required: bool, t: Option<Seq<u8>>)
    ensures
        starts_with(input_meta(alias, required, t), enc("{ type: "@ + "Input"@)),
{
    reveal_strlit("{ type: ");
    reveal_strlit("Input");
    reveal_strlit("{ type: Input, args: [{ isSignal: true, alias: ");
    let lit = "{ type: Input, args: [{ isSignal: true, alias: "@;
    assert(lit.subrange(0, ("{ type: "@ + "Input"@).len() as int) =~= "{ type: "@ + "Input"@);
    lemma_literal_head(lit, "{ type: "@, "Input"@);
    let m = input_meta(alias, required, t);
    let q = m.subrange(enc(lit).len() as int, m.len() as int);
    assert(m =~= enc(lit) + q);
    lemma_starts_with_concat(enc(lit), q, enc("{ type: "@ + "Input"@));
}

/// `output_meta` is an `Output` decorator.
proof fn lemma_output_meta_head(b: Seq<char>)
    ensures
        starts_with(output_meta(b), enc("{ type: "@ + "Output"@)),
{
    reveal_strlit("{ type: ");
    reveal_strlit("Output");
    reveal_strlit("{ type: Output, args: [");
    let lit = "{ type: Output, args: ["@;
    assert(lit.subrange(0, ("{ type: "@ + "Output"@).len() as int) =~= "{ type: "@ + "Output"@);
    lemma_literal_head(lit, "{ type: "@, "Output"@);
    let m = output_meta(b);
    let q = m.subrange(enc(lit).len() as int, m.len() as int);
    assert(m =~= enc(lit) + q);
    lemma_starts_with_concat(enc(lit), q, enc("{ type: "@ + "Output"@));
}

/// `query_meta(kind, ..)` is a `kind` decorator.
proof fn lemma_query_meta_head(kind: Seq<char>, p: Option<Seq<u8>>, o: Option<Seq<u8>>)
    ensures
        starts_with(query_meta(kind, p, o), enc("{ type: "@ + kind)),
{
    crate::text::lemma_encode_concat("{ type: "@, kind);
    let m = query_meta(kind, p, o);
    let h = enc("{ type: "@ + kind);
    let q = m.subrange(h.len() as int, m.len() as int);
    assert(m =~= h + q);
    assert(starts_with(h, h)) by {
        assert(h.subrange(0, h.len() as int) =~= h);
    }
    lemma_starts_with_concat(h, q, h);
}

/// A symbol the pass introduces is among the names to import, and so are
/// the ones before.
proof fn lemma_use_symbol_needed(v: JitView, n: Seq<char>)
    ensures
        use_symbol(v, n).needed.contains(n),
        forall|x: Seq<char>| v.needed.contains(x) ==> #[trigger] use_symbol(v, n).needed.contains(x),
{
    let w = use_symbol(v, n);
    if !v.needed.contains(n) {
        assert(w.needed[w.needed.len() - 1] == n);
    }
    assert forall|x: Seq<char>| v.needed.contains(x) implies #[trigger] w.needed.contains(x) by {
        let k = choose|k: int| 0 <= k < v.needed.len() && v.needed[k] == x;
        assert(w.needed[k] == x);
    }
}

/// The heads of the synthesized decorators, for all their arguments.
proof fn lemma_meta_heads()
    ensures
        forall|a: Seq<char>, r: bool, t: Option<Seq<u8>>|
            starts_with(#[trigger] input_meta(a, r, t), enc("{ type: "@ + "Input"@)),
        forall|b: Seq<char>| starts_with(#[trigger] output_meta(b), enc("{ type: "@ + "Output"@)),
        forall|kind: Seq<char>, p: Option<Seq<u8>>, o: Option<Seq<u8>>|
            starts_with(#[trigger] query_meta(kind, p, o), enc("{ type: "@ + kind)),
{
    assert forall|a: Seq<char>, r: bool, t: Option<Seq<u8>>|
        starts_with(#[trigger] input_meta(a, r, t), enc("{ type: "@ + "Input"@)) by {
        lemma_input_meta_head(a, r, t);
    }
    assert forall|b: Seq<char>| starts_with(#[trigger] output_meta(b), enc("{ type: "@ + "Output"@)) by {
        lemma_output_meta_head(b);
    }
    assert forall|kind: Seq<char>, p: Option<Seq<u8>>, o: Option<Seq<u8>>|
        starts_with(#[trigger] query_meta(kind, p, o), enc("{ type: "@ + kind)) by {
        lemma_query_meta_head(kind, p, o);
    }
}

/// A field initialized with an initializer API gets the decorator of that
/// API (see [`decorator_kind`]): the first decorator synthesized for it is
/// `{ type: <kind>, ... }`, and `<kind>` is among the `@angular/core`
/// names to import; a `model` field gets an `Output` decorator beside its
/// `Input`.
pub proof fn lemma_signal_decorator(v: JitView, member: Json, call: Json, init: Initializer)
    requires
        is_field(member),
        key_name(member) is Some,
        initializer_call(value_of(member)) == Some(call),
        classify(v, call) == Some(init),
    ensures
        ({
            let (v2, metas) = signal_metas(v, member);
            &&& metas.len() > 0
            &&& starts_with(metas[0], enc("{ type: "@ + decorator_kind(init)))
            &&& v2.needed.contains(decorator_kind(init))
            &&& (init is Model ==> metas.len() == 2 && starts_with(metas[1], enc("{ type: "@ + "Output"@))
                && v2.needed.contains("Output"@))
        }),
{
    lemma_meta_heads();
    lemma_use_symbol_needed(v, "Input"@);
    lemma_use_symbol_needed(v, "Output"@);
    lemma_use_symbol_needed(use_symbol(v, "Input"@), "Output"@);
    match init {
        Initializer::Query(k) => {
            lemma_use_symbol_needed(v, query_name(k));
        },
        _ => {},
    }
}

/// See [`find_in_props`].
fn get_in_props<'a>(props: &'a Vec<Json>, key: &str, strings: bool) -> (r: Option<&'a Json>)
    ensures
        match r {
            Some(x) => find_in_props(props@, key@, strings, props@.len()) == Some(*x),
            None => find_in_props(props@, key@, strings, props@.len()) is None,
        },
{
    let mut i: usize = 0;
    while i < props.len()
        invariant
            i <= props@.len(),
            find_in_props(props@, key@, strings, i as nat) is None,
        decreases props@.len() - i,
    {
        let p = &props[i];
        let key_ok = has_type(p, "Property") && match get_key_name(p) {
            Some(k) => crate::estree::is(k, key),
            None => false,
        };
        let value = get_value(p);
        let value_ok = !strings || (has_type(value, "Literal") && get_str(value, "value").is_some());
        if key_ok && value_ok {
            proof {
                assert(find_in_props(props@, key@, strings, (i + 1) as nat) == Some(*value));
                lemma_find_in_props_stable(props@, key@, strings, (i + 1) as nat, props@.len());
            }
            return Some(value);
        }
        i = i + 1;
    }
    None
}

/// Once found among the first `a` members, the same value is found among
/// the first `b >= a`.
proof fn lemma_find_in_props_stable(props: Seq<Json>, key: Seq<char>, strings: bool, a: nat, b: nat)
    requires
        a <= b <= props.len(),
        find_in_props(props, key, strings, a) is Some,
    ensures
        find_in_props(props, key, strings, b) == find_in_props(props, key, strings, a),
    decreases b - a,
{
    if a < b {
        lemma_find_in_props_stable(props, key, strings, a, (b - 1) as nat);
    }
}

/// Once found among the first `a` arguments, the same value is found among
/// the first `b >= a`.
proof fn lemma_find_in_args_stable(args: Seq<Json>, key: Seq<char>, strings: bool, a: nat, b: nat)
    requires
        a <= b <= args.len(),
        find_in_args(args, key, strings, a) is Some,
    ensures
        find_in_args(args, key, strings, b) == find_in_args(args, key, strings, a),
    decreases b - a,
{
    if a < b {
        lemma_find_in_args_stable(args, key, strings, a, (b - 1) as nat);
    }
}

/// See [`find_in_args`].
fn get_in_args<'a>(args: &'a Vec<Json>, key: &str, strings: bool) -> (r: Option<&'a Json>)
    ensures
        match r {
            Some(x) => find_in_args(args@, key@, strings, args@.len()) == Some(*x),
            None => find_in_args(args@, key@, strings, args@.len()) is None,
        },
{
    let mut i: usize = 0;
    while i < args.len()
        invariant
            i <= args@.len(),
            find_in_args(args@, key@, strings, i as nat) is None,
        decreases args@.len() - i,
    {
        let props: Option<&Vec<Json>> = if has_type(&args[i], "ObjectExpression") {
            get_arr(&args[i], "properties")
        } else {
            None
        };
        match props {
            Some(props) => {
                assert(props@ == object_props(args@[i as int]));
                match get_in_props(props, key, strings) {
                    Some(x) => {
                        proof {
                            assert(find_in_args(args@, key@, strings, (i + 1) as nat) == Some(*x));
                            lemma_find_in_args_stable(args@, key@, strings, (i + 1) as nat, args@.len());
                        }
                        return Some(x);
                    },
                    None => {},
                }
            },
            None => {
                assert(object_props(args@[i as int]) =~= seq![]);
            },
        }
        i = i + 1;
    }
    None
}

/// Append `input_meta(alias, required, transform)` to `out`.
fn push_input_meta(out: &mut Vec<u8>, alias: &String, required: bool, transform: Option<&Vec<u8>>)
    ensures
        final(out)@ == old(out)@ + input_meta(
            alias@,
            required,
            match transform {
                Some(t) => Some(t@),
                None => None,
            },
        ),
{
    let ghost o = old(out)@;
    push_str(out, "{ type: Input, args: [{ isSignal: true, alias: ");
    push_js_string(out, alias.as_str().as_bytes());
    push_str(out, ", required: ");
    if required {
        push_str(out, "true");
    } else {
        push_str(out, "false");
    }
    let ghost mid = out@;
    match transform {
        Some(t) => {
            push_str(out, ", transform: ");
            push_bytes(out, t.as_slice());
        },
        None => {
            assert(out@ =~= mid + seq![]);
        },
    }
    push_str(out, " }] }");
}

/// Append `output_meta(binding)` to `out`.
fn push_output_meta(out: &mut Vec<u8>, binding: &String)
    ensures
        final(out)@ == old(out)@ + output_meta(binding@),
{
    push_str(out, "{ type: Output, args: [");
    push_js_string(out, binding.as_str().as_bytes());
    push_str(out, "] }");
}

/// Append `query_meta(kind, predicate, options)` to `out`.
#[verifier::rlimit(80)]
fn push_query_meta(out: &mut Vec<u8>, kind: &str, predicate: Option<&Vec<u8>>, options: Option<&Vec<u8>>)
    ensures
        final(out)@ == old(out)@ + query_meta(
            kind@,
            match predicate {
                Some(p) => Some(p@),
                None => None,
            },
            match options {
                Some(o) => Some(o@),
                None => None,
            },
        ),
{
    let ghost o0 = out@;
    push_str(out, "{ type: ");
    push_str(out, kind);
    push_str(out, ", args: [");
    let ghost a = out@;
    let mut pred_part: Vec<u8> = Vec::new();
    match predicate {
        Some(p) => {
            push_bytes(&mut pred_part, p.as_slice());
            push_str(&mut pred_part, ", ");
        },
        None => {},
    }
    push_bytes(out, pred_part.as_slice());
    push_str(out, "{ ");
    let mut opt_part: Vec<u8> = Vec::new();
    match options {
        Some(o) => {
            push_str(&mut opt_part, "...");
            push_bytes(&mut opt_part, o.as_slice());
            push_str(&mut opt_part, ", ");
        },
        None => {},
    }
    push_bytes(out, opt_part.as_slice());
    push_str(out, "isSignal: true }] }");
    proof {
        let pv = match predicate {
            Some(p) => Some(p@),
            None => None,
        };
        let ov = match options {
            Some(o) => Some(o@),
            None => None,
        };
        let pp = match pv {
            Some(p) => p + enc(", "@),
            None => seq![],
        };
        let op = match ov {
            Some(o) => enc("..."@) + o + enc(", "@),
            None => seq![],
        };
        assert(pred_part@ =~= pp);
        assert(opt_part@ =~= op);
        assert(out@ =~= o0 + query_meta(kind@, pv, ov));
    }
}

impl JitTransform {
    /// The decorators synthesized for one class member (see [`signal_metas`]).
    fn signal_metas(&mut self, member: &Json) -> (r: Vec<Vec<u8>>)
        ensures
            (final(self)@, text_views(r@)) == signal_metas(old(self)@, *member),
    {
        let ghost v0 = self@;
        let mut out: Vec<Vec<u8>> = Vec::new();
        assert(text_views(out@) =~= seq![]);
        if !(has_type(member, "PropertyDefinition") || has_type(
            member,
            "TSAbstractPropertyDefinition",
        )) {
            return out;
        }
        let name = match get_key_name(member) {
            Some(n) => n,
            None => return out,
        };
        let call = match get_initializer_call(get_value(member)) {
            Some(c) => c,
            None => return out,
        };
        let init = match self.classify(call) {
            Some(i) => i,
            None => return out,
        };
        let empty: Vec<Json> = Vec::new();
        let args: &Vec<Json> = match get_arr(call, "arguments") {
            Some(a) => a,
            None => &empty,
        };
        assert(args@ == args_of(*call));
        let alias: String = match get_in_args(args, "alias", true) {
            Some(a) => match get_str(a, "value") {
                Some(x) => x.clone(),
                None => name.clone(),
            },
            None => name.clone(),
        };
        let mut meta: Vec<u8> = Vec::new();
        match init {
            Initializer::Input { required } => {
                let t: Vec<u8> = match get_in_args(args, "transform", false) {
                    Some(x) => node_text(&self.source, x),
                    None => {
                        let mut u: Vec<u8> = Vec::new();
                        push_str(&mut u, "undefined");
                        u
                    },
                };
                self.use_ng_symbol("Input");
                push_input_meta(&mut meta, &alias, required, Some(&t));
                out.push(meta);
            },
            Initializer::Model { required } => {
                self.use_ng_symbol("Input");
                self.use_ng_symbol("Output");
                push_input_meta(&mut meta, &alias, required, None);
                out.push(meta);
                let mut change = alias.clone();
                change.append("Change");
                let mut meta2: Vec<u8> = Vec::new();
                push_output_meta(&mut meta2, &change);
                out.push(meta2);
            },
            Initializer::Output => {
                self.use_ng_symbol("Output");
                push_output_meta(&mut meta, &alias);
                out.push(meta);
            },
            Initializer::Query(k) => {
                let predicate: Option<Vec<u8>> = if args.len() > 0 {
                    Some(node_text(&self.source, &args[0]))
                } else {
                    None
                };
                let options: Option<Vec<u8>> = if args.len() > 1 && !has_type(
                    &args[1],
                    "SpreadElement",
                ) {
                    Some(node_text(&self.source, &args[1]))
                } else {
                    None
                };
                let kind = query_str(k);
                self.use_ng_symbol(kind);
                push_query_meta(&mut meta, kind, predicate.as_ref(), options.as_ref());
                out.push(meta);
            },
        }
        proof {
            let expect = signal_metas(v0, *member).1;
            assert(text_views(out@) =~= expect);
        }
        out
    }
}

/// The members of a class (none when missing).
pub open spec fn members_of(class: Json) -> Seq<Json> {
    match field(class, "body"@) {
        Some(b) => match as_arr(field(b, "body"@)) {
            Some(m) => m,
            None => seq![],
        },
        None => seq![],
    }
}

/// The decorators synthesized for `members[..n]`, member by member (none at
/// all unless the class is an Angular class), and the state after them.
pub open spec fn synth_scan(v: JitView, members: Seq<Json>, angular: bool, n: nat) -> (
    JitView,
    Seq<Seq<Seq<u8>>>,
)
    decreases n,
{
    if n == 0 || n > members.len() {
        (v, seq![])
    } else {
        let (w, acc) = synth_scan(v, members, angular, (n - 1) as nat);
        if angular {
            let (w2, m) = signal_metas(w, members[n - 1]);
            (w2, acc.push(m))
        } else {
            (w, acc.push(seq![]))
        }
    }
}

/// Deleting a node's text.
pub open spec fn removal(j: Json) -> Seq<EditV> {
    match uspan(j) {
        Some((s, e)) => seq![EditV { start: s, end: e, text: seq![], origin: None }],
        None => seq![],
    }
}

/// The metadata objects of the Angular decorators among `decs[..n]`, and
/// the deletions of those decorators.
pub open spec fn split_decorators(v: JitView, decs: Seq<Json>, n: nat) -> (Seq<Seq<u8>>, Seq<EditV>)
    decreases n,
{
    if n == 0 || n > decs.len() {
        (seq![], seq![])
    } else {
        let (metas, edits) = split_decorators(v, decs, (n - 1) as nat);
        if decorator_ng_name(v, decs[n - 1]) is Some {
            (metas.push(decorator_meta(v.src, decs[n - 1])), edits + removal(decs[n - 1]))
        } else {
            (metas, edits)
        }
    }
}

/// Whether a class member is a constructor.
pub open spec fn is_constructor(m: Json) -> bool {
    (is_type(m, "MethodDefinition"@) || is_type(m, "TSAbstractMethodDefinition"@)) && str_field(
        m,
        "kind"@,
    ) == Some("constructor"@)
}

/// The position of the first constructor among `members[i..]`.
pub open spec fn first_constructor(members: Seq<Json>, i: int) -> Option<int>
    decreases members.len() - i,
{
    if i < 0 || i >= members.len() {
        None
    } else if is_constructor(members[i]) {
        Some(i)
    } else {
        first_constructor(members, i + 1)
    }
}

/// The parameters of a method (none when missing): the `this` parameter
/// and a rest element included.
pub open spec fn params_of(method: Json) -> Seq<Json> {
    match field(method, "value"@) {
        Some(f) => match as_arr(field(f, "params"@)) {
            Some(p) => p,
            None => seq![],
        },
        None => seq![],
    }
}

/// Whether a parameter is an ordinary one (not `this`, not a rest element).
pub open spec fn is_param_item(p: Json) -> bool {
    !is_type(p, "RestElement"@) && !is_type(p, "TSThisParameter"@)
}

/// The type annotation of a parameter (inside a parameter property, and on
/// the left of a default value).
pub open spec fn param_annotation(p: Json) -> Option<Json> {
    let inner = if is_type(p, "TSParameterProperty"@) {
        field(p, "parameter"@)
    } else {
        Some(p)
    };
    match inner {
        Some(q) => if is_type(q, "AssignmentPattern"@) {
            match field(q, "left"@) {
                Some(l) => field(l, "typeAnnotation"@),
                None => None,
            }
        } else {
            field(q, "typeAnnotation"@)
        },
        None => None,
    }
}

/// One `ctorParameters` entry: `{ type: <type>, decorators: [<metadata>] }`
/// (without `decorators` when the parameter has no Angular decorator),
/// whether it had one, and the deletions of its Angular decorators.
pub open spec fn param_entry(v: JitView, p: Json) -> (Seq<u8>, bool, Seq<EditV>) {
    let decs = decorators_of(p);
    let (metas, edits) = split_decorators(v, decs, decs.len());
    let t = annotation_text(v.values, param_annotation(p));
    let entry = enc("{ type: "@) + t + (if metas.len() > 0 {
        enc(", decorators: ["@) + join(metas, enc(", "@)) + enc("]"@)
    } else {
        seq![]
    }) + enc(" }"@);
    (entry, metas.len() > 0, edits)
}

/// The entries of the ordinary parameters among `params[..n]`, whether one
/// of them had an Angular decorator, and the deletions.
pub open spec fn params_scan(v: JitView, params: Seq<Json>, n: nat) -> (Seq<Seq<u8>>, bool, Seq<EditV>)
    decreases n,
{
    if n == 0 || n > params.len() {
        (seq![], false, seq![])
    } else {
        let (entries, any, edits) = params_scan(v, params, (n - 1) as nat);
        if is_param_item(params[n - 1]) {
            let (e, had, rm) = param_entry(v, params[n - 1]);
            (entries.push(e), any || had, edits + rm)
        } else {
            (entries, any, edits)
        }
    }
}

/// Whether a class member can carry `propDecorators`: a field, a method
/// other than the constructor, or an accessor.
pub open spec fn is_decoratable_member(m: Json) -> bool {
    is_field(m) || ((is_type(m, "MethodDefinition"@) || is_type(m, "TSAbstractMethodDefinition"@))
        && !is_constructor(m)) || is_type(m, "AccessorProperty"@) || is_type(
        m,
        "TSAbstractAccessorProperty"@,
    )
}

/// The `propDecorators` entries of `members[..n]` (name and metadata
/// objects: the synthesized ones first, then the member's Angular
/// decorators), and the deletions of those decorators.
pub open spec fn members_scan(
    v: JitView,
    members: Seq<Json>,
    synth: Seq<Seq<Seq<u8>>>,
    n: nat,
) -> (Seq<(Seq<char>, Seq<Seq<u8>>)>, Seq<EditV>)
    decreases n,
{
    if n == 0 || n > members.len() {
        (seq![], seq![])
    } else {
        let (entries, edits) = members_scan(v, members, synth, (n - 1) as nat);
        let m = members[n - 1];
        match key_name(m) {
            Some(name) => if is_decoratable_member(m) {
                let decs = decorators_of(m);
                let (metas, rm) = split_decorators(v, decs, decs.len());
                let all = (if n - 1 < synth.len() {
                    synth[n - 1]
                } else {
                    seq![]
                }) + metas;
                if all.len() > 0 {
                    (entries.push((name, all)), edits + rm)
                } else {
                    (entries, edits)
                }
            } else {
                (entries, edits)
            },
            None => (entries, edits),
        }
    }
}

/// `static ctorParameters = () => [<entries>];`.
pub open spec fn ctor_parameters_text(entries: Seq<Seq<u8>>) -> Seq<u8> {
    enc("static ctorParameters = () => ["@) + join(entries, enc(", "@)) + enc("];"@)
}

/// `<name>: [<metadata>]`.
pub open spec fn prop_entry_text(e: (Seq<char>, Seq<Seq<u8>>)) -> Seq<u8> {
    enc(e.0) + enc(": ["@) + join(e.1, enc(", "@)) + enc("]"@)
}

/// `static propDecorators = { <entries> };`.
pub open spec fn prop_decorators_text(entries: Seq<(Seq<char>, Seq<Seq<u8>>)>) -> Seq<u8> {
    enc("static propDecorators = { "@) + join(
        entries.map_values(|e: (Seq<char>, Seq<Seq<u8>>)| prop_entry_text(e)),
        enc(", "@),
    ) + enc(" };"@)
}

/// Where members are appended to a class: just before the closing brace
/// of its body.
pub open spec fn class_body_end(class: Json) -> Option<nat> {
    match field(class, "body"@) {
        Some(b) => match uspan(b) {
            Some((s, e)) => if e >= 1 {
                Some((e - 1) as nat)
            } else {
                None
            },
            None => None,
        },
        None => None,
    }
}

/// Appending the static members `added` to a class.
pub open spec fn append_members(class: Json, added: Seq<u8>) -> Seq<EditV> {
    match class_body_end(class) {
        Some(at) => seq![EditV { start: at, end: at, text: enc(";"@) + added + enc(" "@), origin: None }],
        None => seq![],
    }
}

/// The `ctorParameters` entries of a class's first constructor, whether a
/// parameter had an Angular decorator, and the deletions of those.
pub open spec fn ctor_scan(v: JitView, members: Seq<Json>) -> (Seq<Seq<u8>>, bool, Seq<EditV>) {
    match first_constructor(members, 0) {
        Some(i) => {
            let ps = params_of(members[i]);
            params_scan(v, ps, ps.len())
        },
        None => (seq![], false, seq![]),
    }
}

/// The static members appended to a class: `ctorParameters` (for an
/// Angular class, or one with an Angular parameter decorator, whose
/// constructor has parameters), then `propDecorators` (when a member has
/// entries).
pub open spec fn added_text(
    angular: bool,
    entries: Seq<Seq<u8>>,
    any_ng: bool,
    props: Seq<(Seq<char>, Seq<Seq<u8>>)>,
) -> Seq<u8> {
    (if (angular || any_ng) && entries.len() > 0 {
        enc(" "@) + ctor_parameters_text(entries)
    } else {
        seq![]
    }) + (if props.len() > 0 {
        enc(" "@) + prop_decorators_text(props)
    } else {
        seq![]
    })
}

/// The state after a class's rewrites: the deletions, then the appended
/// static members.
pub open spec fn finish_class(
    v: JitView,
    class: Json,
    ctor_edits: Seq<EditV>,
    member_edits: Seq<EditV>,
    added: Seq<u8>,
) -> JitView {
    JitView {
        changed: v.changed || added.len() > 0,
        edits: v.edits + ctor_edits + member_edits + (if added.len() > 0 {
            append_members(class, added)
        } else {
            seq![]
        }),
        ..v
    }
}

/// The JIT pass on one class (run when the class is left, after the
/// classes nested in it): synthesize the signal decorators (Angular classes
/// only), downlevel the constructor parameter decorators and the member
/// decorators, and append `ctorParameters` / `propDecorators`.
pub open spec fn class_step(v: JitView, class: Json) -> JitView {
    if v.locals.len() == 0 && v.namespace is None {
        v
    } else {
        let angular = class_is_angular(v, class);
        let members = members_of(class);
        let (v1, synth) = synth_scan(v, members, angular, members.len());
        let (entries, any_ng, ctor_edits) = ctor_scan(v1, members);
        let (props, member_edits) = members_scan(v1, members, synth, members.len());
        finish_class(v1, class, ctor_edits, member_edits, added_text(angular, entries, any_ng, props))
    }
}

/// Whether a node is a class.
pub open spec fn is_class_node(j: Json) -> bool {
    is_type(j, "ClassDeclaration"@) || is_type(j, "ClassExpression"@)
}

/// One traversal step of the JIT pass: classes are processed when left.
#[verifier::opaque]
pub open spec fn jit_step(v: JitView, e: Event) -> JitView {
    if e.0 && is_class_node(e.1) {
        class_step(v, e.1)
    } else {
        v
    }
}

/// Append `more` to `out`.
pub fn append_edits(out: &mut Vec<Edit>, more: Vec<Edit>)
    ensures
        crate::text::edit_views(final(out)@) == crate::text::edit_views(old(out)@)
            + crate::text::edit_views(more@),
{
    let mut more = more;
    let ghost m = more@;
    out.append(&mut more);
    assert(crate::text::edit_views(out@) =~= crate::text::edit_views(old(out)@)
        + crate::text::edit_views(m));
}

/// The views of nested texts.
pub open spec fn nested_views(v: Seq<Vec<Vec<u8>>>) -> Seq<Seq<Seq<u8>>> {
    v.map_values(|m: Vec<Vec<u8>>| text_views(m@))
}

/// See [`removal`].
pub fn removal_of_node(j: &Json) -> (r: Vec<Edit>)
    ensures
        crate::text::edit_views(r@) == removal(*j),
{
    let mut out: Vec<Edit> = Vec::new();
    match get_span(j) {
        Some((s, e)) => {
            out.push(Edit { start: s, end: e, text: Vec::new(), origin: None });
            assert(crate::text::edit_views(out@) =~= removal(*j));
        },
        None => {
            assert(crate::text::edit_views(out@) =~= removal(*j));
        },
    }
    out
}

/// See [`first_constructor`].
fn get_first_constructor(members: &Vec<Json>) -> (r: Option<usize>)
    ensures
        match r {
            Some(i) => first_constructor(members@, 0) == Some(i as int) && i < members@.len(),
            None => first_constructor(members@, 0) is None,
        },
{
    let mut i: usize = 0;
    while i < members.len()
        invariant
            i <= members@.len(),
            first_constructor(members@, 0) == first_constructor(members@, i as int),
        decreases members@.len() - i,
    {
        let m = &members[i];
        let is_ctor = (has_type(m, "MethodDefinition") || has_type(m, "TSAbstractMethodDefinition"))
            && match get_str(m, "kind") {
            Some(k) => crate::estree::is(k, "constructor"),
            None => false,
        };
        if is_ctor {
            return Some(i);
        }
        i = i + 1;
    }
    None
}

/// See [`param_annotation`].
fn get_param_annotation<'a>(p: &'a Json) -> (r: Option<&'a Json>)
    ensures
        match r {
            Some(a) => param_annotation(*p) == Some(*a),
            None => param_annotation(*p) is None,
        },
{
    let inner: Option<&Json> = if has_type(p, "TSParameterProperty") {
        get(p, "parameter")
    } else {
        Some(p)
    };
    match inner {
        Some(q) => {
            if has_type(q, "AssignmentPattern") {
                match get(q, "left") {
                    Some(l) => get(l, "typeAnnotation"),
                    None => None,
                }
            } else {
                get(q, "typeAnnotation")
            }
        },
        None => None,
    }
}

/// The decorators of a node.
fn get_decorators<'a>(j: &'a Json, empty: &'a Vec<Json>) -> (r: &'a Vec<Json>)
    requires
        empty@.len() == 0,
    ensures
        r@ == decorators_of(*j),
{
    match get_arr(j, "decorators") {
        Some(d) => d,
        None => {
            assert(empty@ =~= seq![]);
            empty
        },
    }
}

impl JitTransform {
    /// See [`synth_scan`].
    fn synth(&mut self, members: &Vec<Json>, angular: bool) -> (r: Vec<Vec<Vec<u8>>>)
        ensures
            (final(self)@, nested_views(r@)) == synth_scan(
                old(self)@,
                members@,
                angular,
                members@.len(),
            ),
    {
        let ghost v0 = self@;
        let mut out: Vec<Vec<Vec<u8>>> = Vec::new();
        let mut i: usize = 0;
        while i < members.len()
            invariant
                i <= members@.len(),
                (self@, nested_views(out@)) == synth_scan(v0, members@, angular, i as nat),
            decreases members@.len() - i,
        {
            let ghost before = nested_views(out@);
            let m: Vec<Vec<u8>> = if angular {
                self.signal_metas(&members[i])
            } else {
                let e: Vec<Vec<u8>> = Vec::new();
                assert(text_views(e@) =~= seq![]);
                e
            };
            let ghost mv = text_views(m@);
            out.push(m);
            assert(nested_views(out@) =~= before.push(mv));
            i = i + 1;
        }
        out
    }

    /// See [`split_decorators`].
    fn split_decorators(&self, decs: &Vec<Json>) -> (r: (Vec<Vec<u8>>, Vec<Edit>))
        ensures
            (text_views(r.0@), crate::text::edit_views(r.1@)) == split_decorators(
                self@,
                decs@,
                decs@.len(),
            ),
    {
        let mut metas: Vec<Vec<u8>> = Vec::new();
        let mut edits: Vec<Edit> = Vec::new();
        let mut i: usize = 0;
        assert(text_views(metas@) =~= seq![]);
        assert(crate::text::edit_views(edits@) =~= seq![]);
        while i < decs.len()
            invariant
                i <= decs@.len(),
                (text_views(metas@), crate::text::edit_views(edits@)) == split_decorators(
                    self@,
                    decs@,
                    i as nat,
                ),
            decreases decs@.len() - i,
        {
            if self.decorator_ng_name(&decs[i]).is_some() {
                let m = decorator_meta_bytes(&self.source, &decs[i]);
                let ghost before = text_views(metas@);
                let ghost mv = m@;
                metas.push(m);
                assert(text_views(metas@) =~= before.push(mv));
                let rm = removal_of_node(&decs[i]);
                append_edits(&mut edits, rm);
            }
            i = i + 1;
        }
        (metas, edits)
    }

    /// See [`param_entry`].
    fn param_entry(&self, p: &Json) -> (r: (Vec<u8>, bool, Vec<Edit>))
        ensures
            (r.0@, r.1, crate::text::edit_views(r.2@)) == param_entry(self@, *p),
    {
        let empty: Vec<Json> = Vec::new();
        let decs = get_decorators(p, &empty);
        let (metas, edits) = self.split_decorators(decs);
        let mut out: Vec<u8> = Vec::new();
        push_str(&mut out, "{ type: ");
        push_annotation_text(&mut out, &self.value_names, get_param_annotation(p));
        let ghost mid = out@;
        let had = metas.len() > 0;
        if had {
            push_str(&mut out, ", decorators: [");
            assert(metas@.map_values(|q: Vec<u8>| q@) =~= text_views(metas@));
            let joined = join_bytes(&metas, ", ".as_bytes());
            push_bytes(&mut out, joined.as_slice());
            push_str(&mut out, "]");
        } else {
            assert(out@ =~= mid + seq![]);
        }
        push_str(&mut out, " }");
        (out, had, edits)
    }

    /// See [`params_scan`].
    fn params_scan(&self, params: &Vec<Json>) -> (r: (Vec<Vec<u8>>, bool, Vec<Edit>))
        ensures
            (text_views(r.0@), r.1, crate::text::edit_views(r.2@)) == params_scan(
                self@,
                params@,
                params@.len(),
            ),
    {
        let mut entries: Vec<Vec<u8>> = Vec::new();
        let mut any = false;
        let mut edits: Vec<Edit> = Vec::new();
        assert(text_views(entries@) =~= seq![]);
        assert(crate::text::edit_views(edits@) =~= seq![]);
        let mut i: usize = 0;
        while i < params.len()
            invariant
                i <= params@.len(),
                (text_views(entries@), any, crate::text::edit_views(edits@)) == params_scan(
                    self@,
                    params@,
                    i as nat,
                ),
            decreases params@.len() - i,
        {
            let p = &params[i];
            if !has_type(p, "RestElement") && !has_type(p, "TSThisParameter") {
                let (e, had, rm) = self.param_entry(p);
                let ghost before = text_views(entries@);
                let ghost ev = e@;
                entries.push(e);
                assert(text_views(entries@) =~= before.push(ev));
                any = any || had;
                append_edits(&mut edits, rm);
            }
            i = i + 1;
        }
        (entries, any, edits)
    }
}

/// The views of `propDecorators` entries.
pub open spec fn entry_views(v: Seq<(String, Vec<Vec<u8>>)>) -> Seq<(Seq<char>, Seq<Seq<u8>>)> {
    v.map_values(|e: (String, Vec<Vec<u8>>)| (e.0@, text_views(e.1@)))
}

/// Append a copy of every text of `more` to `out`.
fn append_texts(out: &mut Vec<Vec<u8>>, more: &Vec<Vec<u8>>)
    ensures
        text_views(final(out)@) == text_views(old(out)@) + text_views(more@),
{
    let ghost o = text_views(out@);
    let mut i: usize = 0;
    while i < more.len()
        invariant
            i <= more@.len(),
            text_views(out@) == o + text_views(more@).subrange(0, i as int),
        decreases more@.len() - i,
    {
        let mut t: Vec<u8> = Vec::new();
        push_bytes(&mut t, more[i].as_slice());
        let ghost before = text_views(out@);
        let ghost tv = t@;
        out.push(t);
        assert(text_views(out@) =~= before.push(tv));
        assert(text_views(more@).subrange(0, i + 1 as int) =~= text_views(more@).subrange(
            0,
            i as int,
        ).push(more@[i as int]@));
        i = i + 1;
    }
    assert(text_views(more@).subrange(0, more@.len() as int) =~= text_views(more@));
}

impl JitTransform {
    /// See [`members_scan`].
    fn members_scan(&self, members: &Vec<Json>, synth: &Vec<Vec<Vec<u8>>>) -> (r: (
        Vec<(String, Vec<Vec<u8>>)>,
        Vec<Edit>,
    ))
        ensures
            (entry_views(r.0@), crate::text::edit_views(r.1@)) == members_scan(
                self@,
                members@,
                nested_views(synth@),
                members@.len(),
            ),
    {
        let ghost sv = nested_views(synth@);
        let mut entries: Vec<(String, Vec<Vec<u8>>)> = Vec::new();
        let mut edits: Vec<Edit> = Vec::new();
        assert(entry_views(entries@) =~= seq![]);
        assert(crate::text::edit_views(edits@) =~= seq![]);
        let empty: Vec<Json> = Vec::new();
        let mut i: usize = 0;
        while i < members.len()
            invariant
                sv == nested_views(synth@),
                empty@.len() == 0,
                i <= members@.len(),
                (entry_views(entries@), crate::text::edit_views(edits@)) == members_scan(
                    self@,
                    members@,
                    sv,
                    i as nat,
                ),
            decreases members@.len() - i,
        {
            let m = &members[i];
            match get_key_name(m) {
                Some(name) => {
                    let is_ctor = (has_type(m, "MethodDefinition") || has_type(
                        m,
                        "TSAbstractMethodDefinition",
                    )) && match get_str(m, "kind") {
                        Some(k) => crate::estree::is(k, "constructor"),
                        None => false,
                    };
                    let decoratable = has_type(m, "PropertyDefinition") || has_type(
                        m,
                        "TSAbstractPropertyDefinition",
                    ) || ((has_type(m, "MethodDefinition") || has_type(
                        m,
                        "TSAbstractMethodDefinition",
                    )) && !is_ctor) || has_type(m, "AccessorProperty") || has_type(
                        m,
                        "TSAbstractAccessorProperty",
                    );
                    if decoratable {
                        let decs = get_decorators(m, &empty);
                        let (metas, rm) = self.split_decorators(decs);
                        let mut all: Vec<Vec<u8>> = Vec::new();
                        if i < synth.len() {
                            append_texts(&mut all, &synth[i]);
                            assert(text_views(all@) =~= sv[i as int]);
                        } else {
                            assert(text_views(all@) =~= seq![]);
                        }
                        append_texts(&mut all, &metas);
                        if all.len() > 0 {
                            let ghost before = entry_views(entries@);
                            let ghost ev = (name@, text_views(all@));
                            entries.push((name.clone(), all));
                            assert(entry_views(entries@) =~= before.push(ev));
                            append_edits(&mut edits, rm);
                        }
                    }
                },
                None => {},
            }
            i = i + 1;
        }
        (entries, edits)
    }
}

/// Append `ctor_parameters_text(entries)` to `out`.
fn push_ctor_parameters(out: &mut Vec<u8>, entries: &Vec<Vec<u8>>)
    ensures
        final(out)@ == old(out)@ + ctor_parameters_text(text_views(entries@)),
{
    push_str(out, "static ctorParameters = () => [");
    assert(entries@.map_values(|q: Vec<u8>| q@) =~= text_views(entries@));
    let joined = join_bytes(entries, ", ".as_bytes());
    push_bytes(out, joined.as_slice());
    push_str(out, "];");
}

/// Append `prop_decorators_text(entries)` to `out`.
fn push_prop_decorators(out: &mut Vec<u8>, entries: &Vec<(String, Vec<Vec<u8>>)>)
    ensures
        final(out)@ == old(out)@ + prop_decorators_text(entry_views(entries@)),
{
    let ghost ev = entry_views(entries@);
    let mut parts: Vec<Vec<u8>> = Vec::new();
    let mut i: usize = 0;
    while i < entries.len()
        invariant
            ev == entry_views(entries@),
            i <= entries@.len(),
            text_views(parts@) == ev.subrange(0, i as int).map_values(
                |e: (Seq<char>, Seq<Seq<u8>>)| prop_entry_text(e),
            ),
        decreases entries@.len() - i,
    {
        let (name, metas) = &entries[i];
        let mut t: Vec<u8> = Vec::new();
        push_str(&mut t, name.as_str());
        push_str(&mut t, ": [");
        assert(metas@.map_values(|q: Vec<u8>| q@) =~= text_views(metas@));
        let joined = join_bytes(metas, ", ".as_bytes());
        push_bytes(&mut t, joined.as_slice());
        push_str(&mut t, "]");
        let ghost before = text_views(parts@);
        let ghost tv = t@;
        parts.push(t);
        assert(tv == prop_entry_text(ev[i as int]));
        assert(text_views(parts@) =~= before.push(tv));
        assert(ev.subrange(0, i + 1 as int).map_values(
            |e: (Seq<char>, Seq<Seq<u8>>)| prop_entry_text(e),
        ) =~= ev.subrange(0, i as int).map_values(
            |e: (Seq<char>, Seq<Seq<u8>>)| prop_entry_text(e),
        ).push(prop_entry_text(ev[i as int])));
        i = i + 1;
    }
    assert(ev.subrange(0, ev.len() as int) =~= ev);
    push_str(out, "static propDecorators = { ");
    assert(parts@.map_values(|q: Vec<u8>| q@) =~= text_views(parts@));
    let joined = join_bytes(&parts, ", ".as_bytes());
    push_bytes(out, joined.as_slice());
    push_str(out, " };");
}

/// See [`class_body_end`].
fn get_class_body_end(class: &Json) -> (r: Option<usize>)
    ensures
        match r {
            Some(at) => class_body_end(*class) == Some(at as nat),
            None => class_body_end(*class) is None,
        },
{
    match get(class, "body") {
        Some(b) => match get_span(b) {
            Some((_s, e)) => {
                if e >= 1 {
                    Some(e - 1)
                } else {
                    None
                }
            },
            None => None,
        },
        None => None,
    }
}

/// See [`added_text`].
fn added_members_text(
    angular: bool,
    entries: &Vec<Vec<u8>>,
    any_ng: bool,
    props: &Vec<(String, Vec<Vec<u8>>)>,
) -> (r: Vec<u8>)
    ensures
        r@ == added_text(angular, text_views(entries@), any_ng, entry_views(props@)),
{
    let mut added: Vec<u8> = Vec::new();
    if (angular || any_ng) && entries.len() > 0 {
        push_str(&mut added, " ");
        push_ctor_parameters(&mut added, entries);
    }
    let ghost mid = added@;
    if props.len() > 0 {
        push_str(&mut added, " ");
        push_prop_decorators(&mut added, props);
    } else {
        assert(added@ =~= mid + seq![]);
    }
    proof {
        if !((angular || any_ng) && entries.len() > 0) {
            assert(mid =~= seq![]);
        }
    }
    added
}

/// The edits appending `added` to a class (see [`append_members`]).
fn append_members_of(class: &Json, added: &Vec<u8>) -> (r: Vec<Edit>)
    ensures
        crate::text::edit_views(r@) == append_members(*class, added@),
{
    let mut out: Vec<Edit> = Vec::new();
    match get_class_body_end(class) {
        Some(at) => {
            let mut text: Vec<u8> = Vec::new();
            push_str(&mut text, ";");
            push_bytes(&mut text, added.as_slice());
            push_str(&mut text, " ");
            let e = Edit { start: at, end: at, text, origin: None };
            let ghost ev = e@;
            out.push(e);
            assert(crate::text::edit_views(out@) =~= seq![ev]);
        },
        None => {
            assert(crate::text::edit_views(out@) =~= seq![]);
        },
    }
    out
}

impl JitTransform {
    /// See [`ctor_scan`].
    fn ctor_scan(&self, members: &Vec<Json>) -> (r: (Vec<Vec<u8>>, bool, Vec<Edit>))
        ensures
            (text_views(r.0@), r.1, crate::text::edit_views(r.2@)) == ctor_scan(self@, members@),
    {
        let empty: Vec<Json> = Vec::new();
        match get_first_constructor(members) {
            Some(i) => {
                let ps: &Vec<Json> = match get(&members[i], "value") {
                    Some(f) => match get_arr(f, "params") {
                        Some(p) => p,
                        None => &empty,
                    },
                    None => &empty,
                };
                assert(ps@ == params_of(members@[i as int]));
                self.params_scan(ps)
            },
            None => {
                let e: Vec<Vec<u8>> = Vec::new();
                let x: Vec<Edit> = Vec::new();
                assert(text_views(e@) =~= seq![]);
                assert(crate::text::edit_views(x@) =~= seq![]);
                (e, false, x)
            },
        }
    }

    /// See [`finish_class`].
    fn finish_class(&mut self, class: &Json, ctor_edits: Vec<Edit>, member_edits: Vec<Edit>, added: Vec<u8>)
        ensures
            final(self)@ == finish_class(
                old(self)@,
                *class,
                crate::text::edit_views(ctor_edits@),
                crate::text::edit_views(member_edits@),
                added@,
            ),
    {
        let ghost v0 = self@;
        let ghost ce = crate::text::edit_views(ctor_edits@);
        let ghost me = crate::text::edit_views(member_edits@);
        let mut more = ctor_edits;
        append_edits(&mut more, member_edits);
        let grew = added.len() > 0;
        if grew {
            let tail = append_members_of(class, &added);
            append_edits(&mut more, tail);
        } else {
            assert(crate::text::edit_views(more@) =~= crate::text::edit_views(more@) + seq![]);
        }
        let ghost mv = crate::text::edit_views(more@);
        append_edits(&mut self.edits, more);
        if grew {
            self.changed = true;
        }
        proof {
            assert(self@.edits =~= v0.edits + ce + me + (if added@.len() > 0 {
                append_members(*class, added@)
            } else {
                seq![]
            }));
        }
    }

    /// The JIT pass on one class (see [`class_step`]).
    fn process_class(&mut self, class: &Json)
        ensures
            final(self)@ == class_step(old(self)@, *class),
    {
        if self.ng_locals.len() == 0 && self.ng_namespace.is_none() {
            return;
        }
        let angular = self.class_is_angular(class);
        let empty: Vec<Json> = Vec::new();
        let members: &Vec<Json> = match get(class, "body") {
            Some(b) => match get_arr(b, "body") {
                Some(m) => m,
                None => &empty,
            },
            None => &empty,
        };
        assert(members@ == members_of(*class));
        let synth = self.synth(members, angular);
        let (entries, any_ng, ctor_edits) = self.ctor_scan(members);
        let (props, member_edits) = self.members_scan(members, &synth);
        let added = added_members_text(angular, &entries, any_ng, &props);
        self.finish_class(class, ctor_edits, member_edits, added);
    }
}

impl Visitor for JitTransform {
    open spec fn step(s: JitView, e: Event) -> JitView {
        jit_step(s, e)
    }

    fn visit(&mut self, exit: bool, node: &Json) {
        proof {
            reveal(jit_step);
        }
        if exit && (has_type(node, "ClassDeclaration") || has_type(node, "ClassExpression")) {
            self.process_class(node);
        }
    }
}

/// The symbols the pass may introduce, in sorted order.
pub open spec fn symbol_order() -> Seq<Seq<char>> {
    seq![
        "ContentChild"@,
        "ContentChildren"@,
        "Input"@,
        "Output"@,
        "ViewChild"@,
        "ViewChildren"@,
    ]
}

/// The names imported by the named specifiers of the `@angular/core`
/// imports among `body[..n]`.
pub open spec fn core_imported(body: Seq<Json>, n: nat) -> Seq<Seq<char>>
    decreases n,
{
    if n == 0 || n > body.len() {
        seq![]
    } else {
        let prev = core_imported(body, (n - 1) as nat);
        if crate::estree::import_source(body[n - 1]) == Some(ANGULAR_CORE@) {
            let specs = specifiers_of(body[n - 1]);
            prev + imported_names(specs, specs.len())
        } else {
            prev
        }
    }
}

/// The names imported by the named specifiers among `specs[..n]`.
pub open spec fn imported_names(specs: Seq<Json>, n: nat) -> Seq<Seq<char>>
    decreases n,
{
    if n == 0 || n > specs.len() {
        seq![]
    } else {
        let prev = imported_names(specs, (n - 1) as nat);
        if is_type(specs[n - 1], "ImportSpecifier"@) {
            match imported_of(specs[n - 1]) {
                Some(i) => prev.push(i),
                None => prev,
            }
        } else {
            prev
        }
    }
}

/// The symbols among the first `n` of [`symbol_order`] that are `needed`
/// and not `imported`, in that order.
pub open spec fn select_symbols(needed: Seq<Seq<char>>, imported: Seq<Seq<char>>, n: nat) -> Seq<
    Seq<char>,
>
    decreases n,
{
    if n == 0 || n > symbol_order().len() {
        seq![]
    } else {
        let prev = select_symbols(needed, imported, (n - 1) as nat);
        let s = symbol_order()[n - 1];
        if needed.contains(s) && !imported.contains(s) {
            prev.push(s)
        } else {
            prev
        }
    }
}

/// The introduced symbols `needed` that `imported` lacks, sorted.
pub open spec fn symbols_to_add(needed: Seq<Seq<char>>, imported: Seq<Seq<char>>) -> Seq<Seq<char>> {
    select_symbols(needed, imported, 6)
}

/// Whether one of `specs[..n]` is a namespace specifier.
pub open spec fn any_namespace(specs: Seq<Json>, n: nat) -> bool
    decreases n,
{
    if n == 0 || n > specs.len() {
        false
    } else {
        any_namespace(specs, (n - 1) as nat) || is_type(specs[n - 1], "ImportNamespaceSpecifier"@)
    }
}

/// Whether a statement is an `@angular/core` import that can take named
/// specifiers (it has no namespace specifier).
pub open spec fn is_named_core_import(stmt: Json) -> bool {
    crate::estree::import_source(stmt) == Some(ANGULAR_CORE@) && !any_namespace(
        specifiers_of(stmt),
        specifiers_of(stmt).len(),
    )
}

/// The position of the first named `@angular/core` import among `body[i..]`.
pub open spec fn first_named_core_import(body: Seq<Json>, i: int) -> Option<int>
    decreases body.len() - i,
{
    if i < 0 || i >= body.len() {
        None
    } else if is_named_core_import(body[i]) {
        Some(i)
    } else {
        first_named_core_import(body, i + 1)
    }
}

/// The last specifier of type `t` among `specs[..n]`.
pub open spec fn last_of_type(specs: Seq<Json>, t: Seq<char>, n: nat) -> Option<Json>
    decreases n,
{
    if n == 0 || n > specs.len() {
        None
    } else if is_type(specs[n - 1], t) {
        Some(specs[n - 1])
    } else {
        last_of_type(specs, t, (n - 1) as nat)
    }
}

/// `A, B, …`.
pub open spec fn names_text(names: Seq<Seq<char>>) -> Seq<u8> {
    join(names.map_values(|n: Seq<char>| enc(n)), enc(", "@))
}

/// An insertion of `text` at `at`.
pub open spec fn insertion(at: nat, text: Seq<u8>) -> Seq<EditV> {
    seq![EditV { start: at, end: at, text, origin: None }]
}

/// Importing `names` from `@angular/core`: added to the first
/// `@angular/core` import that can take named specifiers (after its last
/// named specifier, or after its default specifier, or as its only
/// specifiers), or else in a new import at the top of the module.
pub open spec fn import_edits(body: Seq<Json>, len: nat, names: Seq<Seq<char>>) -> Seq<EditV> {
    if names.len() == 0 {
        seq![]
    } else {
        let list = names_text(names);
        match first_named_core_import(body, 0) {
            Some(k) => {
                let imp = body[k];
                let specs = specifiers_of(imp);
                match last_of_type(specs, "ImportSpecifier"@, specs.len()) {
                    Some(sp) => match uspan(sp) {
                        Some((_s, e)) => insertion(e, enc(", "@) + list),
                        None => seq![],
                    },
                    None => match last_of_type(specs, "ImportDefaultSpecifier"@, specs.len()) {
                        Some(d) => match uspan(d) {
                            Some((_s, e)) => insertion(e, enc(", { "@) + list + enc(" }"@)),
                            None => seq![],
                        },
                        None => match (uspan(imp), field(imp, "source"@)) {
                            (Some((s, _e)), Some(src)) => match uspan(src) {
                                Some((ss, _se)) => if s + 6 <= ss {
                                    seq![
                                        EditV {
                                            start: (s + 6) as nat,
                                            end: ss,
                                            text: enc(" { "@) + list + enc(" } from "@),
                                            origin: None,
                                        },
                                    ]
                                } else {
                                    seq![]
                                },
                                None => seq![],
                            },
                            _ => seq![],
                        },
                    },
                }
            },
            None => insertion(
                crate::estree::hoist_point(body, len),
                enc("import { "@) + list + enc(" } from \"@angular/core\";"@),
            ),
        }
    }
}

/// The pass state once a module with text `src` and tree `program` has been
/// entered: its value names and `@angular/core` bindings read.
pub open spec fn jit_start(src: Seq<u8>, program: Json) -> JitView {
    let v0 = JitView {
        locals: seq![],
        namespace: None,
        needed: seq![],
        values: seq![],
        changed: false,
        src: seq![],
        edits: seq![],
    };
    jit_enter(v0, program, src)
}

/// Reading specifiers binds names only.
proof fn lemma_ng_specifiers_bind_only(v: JitView, specs: Seq<Json>, n: nat)
    ensures
        ng_specifiers(v, specs, n).edits == v.edits,
        ng_specifiers(v, specs, n).needed == v.needed,
    decreases n,
{
    if n > 0 && n <= specs.len() {
        lemma_ng_specifiers_bind_only(v, specs, (n - 1) as nat);
    }
}

/// Reading statements binds names only.
proof fn lemma_enter_scan_binds_only(v: JitView, body: Seq<Json>, n: nat)
    ensures
        enter_scan(v, body, n).edits == v.edits,
        enter_scan(v, body, n).needed == v.needed,
    decreases n,
{
    if n > 0 && n <= body.len() {
        lemma_enter_scan_binds_only(v, body, (n - 1) as nat);
        let w = enter_scan(v, body, (n - 1) as nat);
        let stmt = body[n - 1];
        let w2 = JitView { values: w.values + stmt_value_names(stmt), ..w };
        lemma_ng_specifiers_bind_only(w2, specifiers_of(stmt), specifiers_of(stmt).len());
    }
}

/// Without `@angular/core` bindings every traversal step keeps the state.
proof fn lemma_run_without_core(v: JitView, es: Seq<crate::walk::Event>)
    requires
        v.locals.len() == 0,
        v.namespace is None,
    ensures
        crate::walk::run::<JitTransform>(v, es) == v,
    decreases es.len(),
{
    if es.len() > 0 {
        reveal(jit_step);
        assert(jit_step(v, es[0]) == v);
        lemma_run_without_core(v, es.drop_first());
    }
}

/// Nothing needed, nothing to import.
proof fn lemma_select_nothing(imported: Seq<Seq<char>>, n: nat)
    ensures
        select_symbols(seq![], imported, n) == Seq::<Seq<char>>::empty(),
    decreases n,
{
    if n > 0 && n <= symbol_order().len() {
        lemma_select_nothing(imported, (n - 1) as nat);
    }
}

/// A module that binds nothing from `@angular/core` is left untouched by
/// the JIT pass: none of its classes is treated as an Angular class and no
/// import is added.
pub proof fn lemma_no_angular_core_untouched(src: Seq<u8>, program: Json)
    requires
        jit_start(src, program).locals.len() == 0,
        jit_start(src, program).namespace is None,
    ensures
        jit_rewrites(src, program) == Seq::<EditV>::empty(),
{
    let body = crate::resources::body_of(program);
    let v0 = JitView {
        locals: seq![],
        namespace: None,
        needed: seq![],
        values: seq![],
        changed: false,
        src: seq![],
        edits: seq![],
    };
    lemma_enter_scan_binds_only(JitView { src, ..v0 }, body, body.len());
    let v = jit_start(src, program);
    lemma_run_without_core(v, crate::walk::events(program));
    lemma_select_nothing(core_imported(body, body.len()), 6);
    assert(v.edits =~= Seq::<EditV>::empty());
    assert(v.needed =~= Seq::<Seq<char>>::empty());
}

/// The rewrites of the JIT pass on a module: every class, then the imports
/// of the symbols it introduced.
pub open spec fn jit_rewrites(src: Seq<u8>, program: Json) -> Seq<EditV> {
    let body = crate::resources::body_of(program);
    let v = crate::walk::run::<JitTransform>(jit_start(src, program), crate::walk::events(program));
    v.edits + import_edits(
        body,
        src.len(),
        symbols_to_add(v.needed, core_imported(body, body.len())),
    )
}

/// Push `sym` when it is needed and not imported.
fn select_symbol(out: &mut Vec<String>, needed: &Vec<String>, imported: &Vec<String>, sym: &str)
    ensures
        string_views(final(out)@) == if string_views(needed@).contains(sym@)
            && !string_views(imported@).contains(sym@) {
            string_views(old(out)@).push(sym@)
        } else {
            string_views(old(out)@)
        },
{
    let s = sym.to_string();
    if contains_string(needed, &s) && !contains_string(imported, &s) {
        let ghost before = string_views(out@);
        out.push(s);
        assert(string_views(out@) =~= before.push(sym@));
    }
}

/// See [`symbols_to_add`].
fn get_symbols_to_add(needed: &Vec<String>, imported: &Vec<String>) -> (r: Vec<String>)
    ensures
        string_views(r@) == symbols_to_add(string_views(needed@), string_views(imported@)),
{
    let ghost n = string_views(needed@);
    let ghost m = string_views(imported@);
    let mut out: Vec<String> = Vec::new();
    assert(string_views(out@) =~= select_symbols(n, m, 0));
    select_symbol(&mut out, needed, imported, "ContentChild");
    assert(string_views(out@) == select_symbols(n, m, 1));
    select_symbol(&mut out, needed, imported, "ContentChildren");
    assert(string_views(out@) == select_symbols(n, m, 2));
    select_symbol(&mut out, needed, imported, "Input");
    assert(string_views(out@) == select_symbols(n, m, 3));
    select_symbol(&mut out, needed, imported, "Output");
    assert(string_views(out@) == select_symbols(n, m, 4));
    select_symbol(&mut out, needed, imported, "ViewChild");
    assert(string_views(out@) == select_symbols(n, m, 5));
    select_symbol(&mut out, needed, imported, "ViewChildren");
    assert(string_views(out@) == select_symbols(n, m, 6));
    out
}

/// See [`core_imported`].
fn get_core_imported(body: &Vec<Json>) -> (r: Vec<String>)
    ensures
        string_views(r@) == core_imported(body@, body@.len()),
{
    let mut out: Vec<String> = Vec::new();
    assert(string_views(out@) =~= seq![]);
    let empty: Vec<Json> = Vec::new();
    let mut i: usize = 0;
    while i < body.len()
        invariant
            empty@.len() == 0,
            i <= body@.len(),
            string_views(out@) == core_imported(body@, i as nat),
        decreases body@.len() - i,
    {
        let is_core = match crate::estree::get_import_source(&body[i]) {
            Some(src) => crate::estree::is(src, ANGULAR_CORE),
            None => false,
        };
        if is_core {
            let specs = get_specifiers(&body[i], &empty);
            let ghost base = string_views(out@);
            let mut j: usize = 0;
            while j < specs.len()
                invariant
                    i < body@.len(),
                    specs@ == specifiers_of(body@[i as int]),
                    j <= specs@.len(),
                    string_views(out@) == base + imported_names(specs@, j as nat),
                decreases specs@.len() - j,
            {
                let sp = &specs[j];
                if has_type(sp, "ImportSpecifier") {
                    let imported: Option<&String> = match get(sp, "imported") {
                        Some(im) => get_export_name(im),
                        None => None,
                    };
                    match imported {
                        Some(im) => {
                            let ghost before = string_views(out@);
                            out.push(im.clone());
                            assert(string_views(out@) =~= before.push(im@));
                            assert(base + imported_names(specs@, (j + 1) as nat) =~= (base
                                + imported_names(specs@, j as nat)).push(im@));
                        },
                        None => {},
                    }
                }
                j = j + 1;
            }
        }
        i = i + 1;
    }
    out
}

/// See [`first_named_core_import`].
fn get_first_named_core_import(body: &Vec<Json>) -> (r: Option<usize>)
    ensures
        match r {
            Some(k) => first_named_core_import(body@, 0) == Some(k as int) && k < body@.len(),
            None => first_named_core_import(body@, 0) is None,
        },
{
    let empty: Vec<Json> = Vec::new();
    let mut i: usize = 0;
    while i < body.len()
        invariant
            empty@.len() == 0,
            i <= body@.len(),
            first_named_core_import(body@, 0) == first_named_core_import(body@, i as int),
        decreases body@.len() - i,
    {
        let is_core = match crate::estree::get_import_source(&body[i]) {
            Some(src) => crate::estree::is(src, ANGULAR_CORE),
            None => false,
        };
        if is_core {
            let specs = get_specifiers(&body[i], &empty);
            let mut has_ns = false;
            let mut j: usize = 0;
            while j < specs.len()
                invariant
                    j <= specs@.len(),
                    has_ns == any_namespace(specs@, j as nat),
                decreases specs@.len() - j,
            {
                has_ns = has_ns || has_type(&specs[j], "ImportNamespaceSpecifier");
                j = j + 1;
            }
            if !has_ns {
                return Some(i);
            }
        }
        i = i + 1;
    }
    None
}

/// See [`last_of_type`].
fn get_last_of_type<'a>(specs: &'a Vec<Json>, t: &str) -> (r: Option<&'a Json>)
    ensures
        match r {
            Some(x) => last_of_type(specs@, t@, specs@.len()) == Some(*x),
            None => last_of_type(specs@, t@, specs@.len()) is None,
        },
{
    let mut i: usize = specs.len();
    while i > 0
        invariant
            i <= specs@.len(),
            last_of_type(specs@, t@, specs@.len()) == last_of_type(specs@, t@, i as nat),
        decreases i,
    {
        if has_type(&specs[i - 1], t) {
            return Some(&specs[i - 1]);
        }
        i = i - 1;
    }
    None
}

/// See [`names_text`].
fn names_bytes(names: &Vec<String>) -> (r: Vec<u8>)
    ensures
        r@ == names_text(string_views(names@)),
{
    let ghost nv = string_views(names@);
    let mut parts: Vec<Vec<u8>> = Vec::new();
    let mut i: usize = 0;
    while i < names.len()
        invariant
            nv == string_views(names@),
            i <= names@.len(),
            parts@.map_values(|p: Vec<u8>| p@) == nv.subrange(0, i as int).map_values(
                |n: Seq<char>| enc(n),
            ),
        decreases names@.len() - i,
    {
        let mut t: Vec<u8> = Vec::new();
        push_str(&mut t, names[i].as_str());
        let ghost before = parts@;
        parts.push(t);
        assert(parts@.map_values(|p: Vec<u8>| p@) =~= before.map_values(|p: Vec<u8>| p@).push(
            enc(nv[i as int]),
        ));
        assert(nv.subrange(0, i + 1 as int).map_values(|n: Seq<char>| enc(n)) =~= nv.subrange(
            0,
            i as int,
        ).map_values(|n: Seq<char>| enc(n)).push(enc(nv[i as int])));
        i = i + 1;
    }
    assert(nv.subrange(0, nv.len() as int) =~= nv);
    join_bytes(&parts, ", ".as_bytes())
}

/// One insertion.
fn insertion_of(at: usize, text: Vec<u8>) -> (r: Vec<Edit>)
    ensures
        crate::text::edit_views(r@) == insertion(at as nat, text@),
{
    let mut out: Vec<Edit> = Vec::new();
    let e = Edit { start: at, end: at, text, origin: None };
    let ghost ev = e@;
    out.push(e);
    assert(crate::text::edit_views(out@) =~= seq![ev]);
    out
}

/// See [`import_edits`].
fn import_edits_of(body: &Vec<Json>, len: usize, names: &Vec<String>) -> (r: Vec<Edit>)
    ensures
        crate::text::edit_views(r@) == import_edits(body@, len as nat, string_views(names@)),
{
    let none: Vec<Edit> = Vec::new();
    assert(crate::text::edit_views(none@) =~= seq![]);
    if names.len() == 0 {
        return none;
    }
    let list = names_bytes(names);
    match get_first_named_core_import(body) {
        Some(k) => {
            let imp = &body[k];
            let empty: Vec<Json> = Vec::new();
            let specs = get_specifiers(imp, &empty);
            match get_last_of_type(specs, "ImportSpecifier") {
                Some(sp) => match get_span(sp) {
                    Some((_s, e)) => {
                        let mut t: Vec<u8> = Vec::new();
                        push_str(&mut t, ", ");
                        push_bytes(&mut t, list.as_slice());
                        insertion_of(e, t)
                    },
                    None => none,
                },
                None => match get_last_of_type(specs, "ImportDefaultSpecifier") {
                    Some(d) => match get_span(d) {
                        Some((_s, e)) => {
                            let mut t: Vec<u8> = Vec::new();
                            push_str(&mut t, ", { ");
                            push_bytes(&mut t, list.as_slice());
                            push_str(&mut t, " }");
                            insertion_of(e, t)
                        },
                        None => none,
                    },
                    None => match (get_span(imp), get(imp, "source")) {
                        (Some((st, _e)), Some(src)) => match get_span(src) {
                            Some((ss, _se)) => {
                                if st <= ss && ss - st >= 6 {
                                    let mut t: Vec<u8> = Vec::new();
                                    push_str(&mut t, " { ");
                                    push_bytes(&mut t, list.as_slice());
                                    push_str(&mut t, " } from ");
                                    let mut out: Vec<Edit> = Vec::new();
                                    let e = Edit { start: st + 6, end: ss, text: t, origin: None };
                                    let ghost ev = e@;
                                    out.push(e);
                                    assert(crate::text::edit_views(out@) =~= seq![ev]);
                                    out
                                } else {
                                    none
                                }
                            },
                            None => none,
                        },
                        _ => none,
                    },
                },
            }
        },
        None => {
            let mut t: Vec<u8> = Vec::new();
            push_str(&mut t, "import { ");
            push_bytes(&mut t, list.as_slice());
            push_str(&mut t, " } from \"@angular/core\";");
            insertion_of(crate::estree::get_hoist_point(body, len), t)
        },
    }
}

/// The JIT pass over a parsed module (`program`, the tree of `source`):
/// the rewrites it makes (see [`jit_rewrites`]).
pub fn jit_edits(source: &str, program: &Json) -> (r: Vec<Edit>)
    ensures
        crate::text::edit_views(r@) == jit_rewrites(enc(source@), *program),
{
    let mut t = JitTransform::new();
    proof {
        let v0 = JitView {
            locals: seq![],
            namespace: None,
            needed: seq![],
            values: seq![],
            changed: false,
            src: seq![],
            edits: seq![],
        };
        assert(t@.locals =~= v0.locals);
        assert(t@.needed =~= v0.needed);
        assert(t@.values =~= v0.values);
        assert(t@.src =~= v0.src);
        assert(t@.edits =~= v0.edits);
        assert(t@ == v0);
    }
    t.enter_program(program, source);
    crate::walk::walk(&mut t, program);
    let ghost v = t@;
    assert(string_views(t.needed_imports@) == v.needed);
    assert(crate::text::edit_views(t.edits@) == v.edits);
    let empty: Vec<Json> = Vec::new();
    let body: &Vec<Json> = match get_arr(program, "body") {
        Some(b) => b,
        None => &empty,
    };
    assert(body@ == crate::resources::body_of(*program));
    let imported = get_core_imported(body);
    let names = get_symbols_to_add(&t.needed_imports, &imported);
    let more = import_edits_of(body, source.as_bytes().len(), &names);
    let mut edits = t.edits;
    append_edits(&mut edits, more);
    edits
}

} // verus!
