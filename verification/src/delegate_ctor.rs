//! Rewrite oxc's synthesized derived-class constructor to the TypeScript
//! shape.
//!
//! When a class with fields `extends` a base and has no constructor, oxc's
//! class-field lowering synthesizes `constructor(..._args) { super(..._args); … }`.
//! TypeScript emits `constructor() { super(...arguments); … }`, and Angular
//! JIT's `isDelegateCtor` recognizes only that shape: only then does a
//! derived class inherit its parent's constructor dependencies.
//!
//! The match is narrow: the class `extends` something; the constructor's
//! parameters are exactly one rest element bound to an identifier; its first
//! statement is `super(...<that identifier>)`; and that identifier is
//! referenced exactly once (by the `super` spread). The rest parameter is
//! then dropped and the spread becomes `...arguments`.

use vstd::prelude::*;

use crate::estree::{first_statement, is};
use crate::jit_transform::{append_edits, members_of, params_of, removal, removal_of_node};
use crate::json::{as_arr, field, get, get_arr, get_nat, get_str, has_type, is_type, start_of, str_field, Json};
use crate::resources::{enc, uspan};
use crate::syntax::Symbol;
use crate::text::{push_str, Edit, EditV};
use crate::walk::{Event, Visitor};

verus! {

/// State of the delegate-constructor pass.
pub struct DelegateCtorTransform {
    /// The module's bindings with their references.
    symbols: Vec<Symbol>,
    /// The rewrites, as byte-range edits of the source.
    edits: Vec<Edit>,
}

/// The state of the pass as plain values.
pub struct DelegateView {
    pub symbols: Seq<Symbol>,
    pub edits: Seq<EditV>,
}

impl View for DelegateCtorTransform {
    type V = DelegateView;

    closed spec fn view(&self) -> DelegateView {
        DelegateView { symbols: self.symbols@, edits: crate::text::edit_views(self.edits@) }
    }
}

/// How many references resolve to the binding declared at `decl`, per the
/// first of `table[..n]` declared there.
pub open spec fn reference_count(table: Seq<Symbol>, decl: nat, n: nat) -> Option<nat>
    decreases n,
{
    if n == 0 || n > table.len() {
        None
    } else {
        match reference_count(table, decl, (n - 1) as nat) {
            Some(c) => Some(c),
            None => if table[n - 1].decl == decl {
                Some(table[n - 1].refs@.len())
            } else {
                None
            },
        }
    }
}

/// Whether a statement is `super(...<name>)`.
pub open spec fn is_super_spread_of(stmt: Json, name: Seq<char>) -> bool {
    &&& is_type(stmt, "ExpressionStatement"@)
    &&& field(stmt, "expression"@) matches Some(call)
    &&& is_type(call, "CallExpression"@)
    &&& field(call, "callee"@) matches Some(callee)
    &&& is_type(callee, "Super"@)
    &&& as_arr(field(call, "arguments"@)) matches Some(args)
    &&& args.len() == 1
    &&& is_type(args[0], "SpreadElement"@)
    &&& field(args[0], "argument"@) matches Some(a)
    &&& is_type(a, "Identifier"@)
    &&& str_field(a, "name"@) == Some(name)
}

/// The statements of a method's body (none when missing).
pub open spec fn body_statements(method: Json) -> Seq<Json> {
    match field(method, "value"@) {
        Some(f) => match field(f, "body"@) {
            Some(b) => match as_arr(field(b, "body"@)) {
                Some(s) => s,
                None => seq![],
            },
            None => seq![],
        },
        None => seq![],
    }
}

/// The spread element of a `super(...x)` statement.
pub open spec fn super_spread(stmt: Json) -> Json {
    match field(stmt, "expression"@) {
        Some(call) => match as_arr(field(call, "arguments"@)) {
            Some(args) => if args.len() > 0 {
                args[0]
            } else {
                Json::Null
            },
            None => Json::Null,
        },
        None => Json::Null,
    }
}

/// The rewrite of one class member: for a delegating constructor
/// `constructor(...x) { super(...x); … }` whose `x` is referenced once, the
/// rest parameter is deleted and the spread becomes `...arguments`.
pub open spec fn ctor_rewrite(table: Seq<Symbol>, m: Json) -> Seq<EditV> {
    let params = params_of(m);
    if (is_type(m, "MethodDefinition"@) || is_type(m, "TSAbstractMethodDefinition"@)) && str_field(
        m,
        "kind"@,
    ) == Some("constructor"@) && params.len() == 1 && is_type(params[0], "RestElement"@) {
        match field(params[0], "argument"@) {
            Some(a) => match (str_field(a, "name"@), start_of(a)) {
                (Some(name), Some(at)) => match first_statement(body_statements(m), 0) {
                    Some(first) => if is_type(a, "Identifier"@) && is_super_spread_of(first, name)
                        && reference_count(table, at, table.len()) == Some(1nat) {
                        removal(params[0]) + match uspan(super_spread(first)) {
                            Some((s, e)) => seq![
                                EditV { start: s, end: e, text: enc("...arguments"@), origin: None },
                            ],
                            None => seq![],
                        }
                    } else {
                        seq![]
                    },
                    None => seq![],
                },
                _ => seq![],
            },
            None => seq![],
        }
    } else {
        seq![]
    }
}

/// The rewrites of `members[..n]`.
pub open spec fn ctor_rewrites(table: Seq<Symbol>, members: Seq<Json>, n: nat) -> Seq<EditV>
    decreases n,
{
    if n == 0 || n > members.len() {
        seq![]
    } else {
        ctor_rewrites(table, members, (n - 1) as nat) + ctor_rewrite(table, members[n - 1])
    }
}

/// Whether a class has a superclass.
pub open spec fn is_derived(class: Json) -> bool {
    match field(class, "superClass"@) {
        Some(s) => s != Json::Null,
        None => false,
    }
}

/// One traversal step: a derived class's constructors are rewritten when
/// the class is entered.
pub open spec fn delegate_step(v: DelegateView, e: Event) -> DelegateView {
    if !e.0 && (is_type(e.1, "ClassDeclaration"@) || is_type(e.1, "ClassExpression"@))
        && is_derived(e.1) {
        let members = members_of(e.1);
        DelegateView { edits: v.edits + ctor_rewrites(v.symbols, members, members.len()), ..v }
    } else {
        v
    }
}

/// The rewrites of the pass on a module whose bindings are `table`.
pub open spec fn delegate_rewrites(table: Seq<Symbol>, program: Json) -> Seq<EditV> {
    crate::walk::run::<DelegateCtorTransform>(
        DelegateView { symbols: table, edits: seq![] },
        crate::walk::events(program),
    ).edits
}

impl DelegateCtorTransform {
    /// A pass state with no bindings known yet.
    pub fn new() -> (r: Self)
        ensures
            r@.symbols.len() == 0,
            r@.edits.len() == 0,
    {
        DelegateCtorTransform { symbols: Vec::new(), edits: Vec::new() }
    }
}

/// See [`reference_count`].
fn get_reference_count(table: &Vec<Symbol>, decl: usize) -> (r: Option<usize>)
    ensures
        match r {
            Some(c) => reference_count(table@, decl as nat, table@.len()) == Some(c as nat),
            None => reference_count(table@, decl as nat, table@.len()) is None,
        },
{
    let mut i: usize = 0;
    while i < table.len()
        invariant
            i <= table@.len(),
            reference_count(table@, decl as nat, i as nat) is None,
        decreases table@.len() - i,
    {
        if table[i].decl == decl {
            proof {
                lemma_reference_count_stable(table@, decl as nat, (i + 1) as nat, table@.len());
            }
            return Some(table[i].refs.len());
        }
        i = i + 1;
    }
    None
}

/// Once found among the first `a` bindings, the same count is found among
/// the first `b >= a`.
proof fn lemma_reference_count_stable(table: Seq<Symbol>, decl: nat, a: nat, b: nat)
    requires
        a <= b <= table.len(),
        reference_count(table, decl, a) is Some,
    ensures
        reference_count(table, decl, b) == reference_count(table, decl, a),
    decreases b - a,
{
    if a < b {
        lemma_reference_count_stable(table, decl, a, (b - 1) as nat);
    }
}

/// See [`is_super_spread_of`]; returns the spread element.
fn get_super_spread<'a>(stmt: &'a Json, name: &String) -> (r: Option<&'a Json>)
    ensures
        match r {
            Some(sp) => is_super_spread_of(*stmt, name@) && *sp == super_spread(*stmt),
            None => !is_super_spread_of(*stmt, name@),
        },
{
    if !has_type(stmt, "ExpressionStatement") {
        return None;
    }
    let call = match get(stmt, "expression") {
        Some(c) => c,
        None => return None,
    };
    if !has_type(call, "CallExpression") {
        return None;
    }
    let callee_ok = match get(call, "callee") {
        Some(c) => has_type(c, "Super"),
        None => false,
    };
    if !callee_ok {
        return None;
    }
    let args = match get_arr(call, "arguments") {
        Some(a) => a,
        None => return None,
    };
    if args.len() != 1 || !has_type(&args[0], "SpreadElement") {
        return None;
    }
    match get(&args[0], "argument") {
        Some(a) => {
            let ok = has_type(a, "Identifier") && match get_str(a, "name") {
                Some(n) => *n == *name,
                None => false,
            };
            if ok {
                Some(&args[0])
            } else {
                None
            }
        },
        None => None,
    }
}

/// The first statement of a list that is not a directive.
fn get_first_statement<'a>(list: &'a Vec<Json>) -> (r: Option<&'a Json>)
    ensures
        match r {
            Some(s) => first_statement(list@, 0) == Some(*s),
            None => first_statement(list@, 0) is None,
        },
{
    let mut i: usize = 0;
    while i < list.len()
        invariant
            i <= list@.len(),
            first_statement(list@, 0) == first_statement(list@, i as int),
        decreases list@.len() - i,
    {
        if get_str(&list[i], "directive").is_none() {
            return Some(&list[i]);
        }
        i = i + 1;
    }
    None
}

impl DelegateCtorTransform {
    /// See [`ctor_rewrite`].
    fn ctor_rewrite(&self, m: &Json) -> (r: Vec<Edit>)
        ensures
            crate::text::edit_views(r@) == ctor_rewrite(self@.symbols, *m),
    {
        let none: Vec<Edit> = Vec::new();
        assert(crate::text::edit_views(none@) =~= seq![]);
        let is_ctor = (has_type(m, "MethodDefinition") || has_type(m, "TSAbstractMethodDefinition"))
            && match get_str(m, "kind") {
            Some(k) => is(k, "constructor"),
            None => false,
        };
        let empty: Vec<Json> = Vec::new();
        let params: &Vec<Json> = match get(m, "value") {
            Some(f) => match get_arr(f, "params") {
                Some(p) => p,
                None => &empty,
            },
            None => &empty,
        };
        assert(params@ == params_of(*m));
        if !is_ctor || params.len() != 1 || !has_type(&params[0], "RestElement") {
            return none;
        }
        let a = match get(&params[0], "argument") {
            Some(a) => a,
            None => return none,
        };
        let (name, at) = match (get_str(a, "name"), get_nat(a, "start")) {
            (Some(n), Some(s)) => (n, s),
            _ => {
                proof {
                    if let (Some(_n), Some(s)) = (str_field(*a, "name"@), start_of(*a)) {
                        assert(s > usize::MAX);
                        assert(reference_count(self@.symbols, s, self@.symbols.len()) is None) by {
                            lemma_reference_count_small(self@.symbols, s, self@.symbols.len());
                        }
                    }
                }
                return none;
            },
        };
        let empty2: Vec<Json> = Vec::new();
        let stmts: &Vec<Json> = match get(m, "value") {
            Some(f) => match get(f, "body") {
                Some(b) => match get_arr(b, "body") {
                    Some(s) => s,
                    None => &empty2,
                },
                None => &empty2,
            },
            None => &empty2,
        };
        assert(stmts@ == body_statements(*m));
        let first = match get_first_statement(stmts) {
            Some(f) => f,
            None => return none,
        };
        if !has_type(a, "Identifier") {
            return none;
        }
        let spread = match get_super_spread(first, name) {
            Some(sp) => sp,
            None => return none,
        };
        if get_reference_count(&self.symbols, at) != Some(1usize) {
            return none;
        }
        let mut out = removal_of_node(&params[0]);
        match crate::estree::get_span(spread) {
            Some((s, e)) => {
                let mut text: Vec<u8> = Vec::new();
                push_str(&mut text, "...arguments");
                let ed = Edit { start: s, end: e, text, origin: None };
                let ghost ev = ed@;
                let ghost before = crate::text::edit_views(out@);
                out.push(ed);
                assert(crate::text::edit_views(out@) =~= before + seq![ev]);
            },
            None => {
                let ghost before = crate::text::edit_views(out@);
                assert(before + seq![] =~= before);
            },
        }
        out
    }

    /// The rewrites of a derived class's members.
    fn rewrite_class(&mut self, class: &Json)
        ensures
            final(self)@ == (DelegateView {
                edits: old(self)@.edits + ctor_rewrites(
                    old(self)@.symbols,
                    members_of(*class),
                    members_of(*class).len(),
                ),
                ..old(self)@
            }),
    {
        let ghost v0 = self@;
        let empty: Vec<Json> = Vec::new();
        let members: &Vec<Json> = match get(class, "body") {
            Some(b) => match get_arr(b, "body") {
                Some(m) => m,
                None => &empty,
            },
            None => &empty,
        };
        assert(members@ == members_of(*class));
        let mut i: usize = 0;
        assert(v0.edits + ctor_rewrites(v0.symbols, members@, 0) =~= v0.edits);
        while i < members.len()
            invariant
                i <= members@.len(),
                self@ == (DelegateView {
                    edits: v0.edits + ctor_rewrites(v0.symbols, members@, i as nat),
                    ..v0
                }),
            decreases members@.len() - i,
        {
            let more = self.ctor_rewrite(&members[i]);
            let ghost mv = crate::text::edit_views(more@);
            append_edits(&mut self.edits, more);
            assert(v0.edits + ctor_rewrites(v0.symbols, members@, (i + 1) as nat) =~= v0.edits
                + ctor_rewrites(v0.symbols, members@, i as nat) + mv);
            i = i + 1;
        }
    }
}

/// No binding is declared past `usize::MAX`.
proof fn lemma_reference_count_small(table: Seq<Symbol>, decl: nat, n: nat)
    requires
        decl > usize::MAX,
        n <= table.len(),
    ensures
        reference_count(table, decl, n) is None,
    decreases n,
{
    if n > 0 {
        lemma_reference_count_small(table, decl, (n - 1) as nat);
    }
}

impl Visitor for DelegateCtorTransform {
    open spec fn step(s: DelegateView, e: Event) -> DelegateView {
        delegate_step(s, e)
    }

    fn visit(&mut self, exit: bool, node: &Json) {
        if !exit && (has_type(node, "ClassDeclaration") || has_type(node, "ClassExpression")) {
            let derived = match get(node, "superClass") {
                Some(s) => match s {
                    Json::Null => false,
                    _ => true,
                },
                None => false,
            };
            if derived {
                self.rewrite_class(node);
            }
        }
    }
}

/// The delegate-constructor pass over a parsed module (`program`) whose
/// bindings are `table`: the rewrites it makes (see [`delegate_rewrites`]).
pub fn delegate_edits(table: Vec<Symbol>, program: &Json) -> (r: Vec<Edit>)
    ensures
        crate::text::edit_views(r@) == delegate_rewrites(table@, *program),
{
    let mut d = DelegateCtorTransform::new();
    d.symbols = table;
    assert(d@.edits =~= seq![]);
    crate::walk::walk(&mut d, program);
    d.edits
}

} // verus!
