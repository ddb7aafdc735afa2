//! The coverage setup of instrumented code.
//!
//! The instrumenter puts its setup (the declaration of the counters'
//! object, and the helpers it needs) first in the module body, after the
//! directives. The transform takes it out of the module text before the
//! other passes, so that it is prepended to the generated code, ahead of
//! everything the passes add at the top of the module.

use vstd::prelude::*;

use crate::estree::is_directive;
use crate::json::{as_arr, field, get, get_arr, get_str, has_type, is_type, str_field, Json};
use crate::resources::{body_of, node_text, text_of, uspan};
use crate::text::{find_bytes, first_occurrence, EditV};

verus! {

/// The name a statement declares: a function declaration's, or the first
/// declarator's of a variable declaration.
pub open spec fn declared_name(stmt: Json) -> Option<Seq<char>> {
    if is_type(stmt, "FunctionDeclaration"@) {
        match field(stmt, "id"@) {
            Some(id) => str_field(id, "name"@),
            None => None,
        }
    } else if is_type(stmt, "VariableDeclaration"@) {
        match as_arr(field(stmt, "declarations"@)) {
            Some(ds) => if ds.len() > 0 {
                match field(ds[0], "id"@) {
                    Some(id) => str_field(id, "name"@),
                    None => None,
                }
            } else {
                None
            },
            None => None,
        }
    } else {
        None
    }
}

/// Whether `stmt` declares one of the helpers that follow the declaration
/// of the counters' object `name` in a setup (`<name>_temp`, `<name>_bt`,
/// `<name>_oc`).
pub open spec fn is_setup_helper(stmt: Json, name: Seq<char>) -> bool {
    match declared_name(stmt) {
        Some(n) => n == name + "_temp"@ || n == name + "_bt"@ || n == name + "_oc"@,
        None => false,
    }
}

/// The end of the run of setup helpers from `body[i]` on, `e` being the
/// end so far.
pub open spec fn helpers_end(body: Seq<Json>, i: nat, name: Seq<char>, e: nat) -> nat
    decreases body.len() - i,
{
    if i >= body.len() {
        e
    } else if is_setup_helper(body[i as int], name) {
        match uspan(body[i as int]) {
            Some((_s, e2)) => helpers_end(body, i + 1, name, e2),
            None => e,
        }
    } else {
        e
    }
}

/// The index of the first entry of `body[i..]` that is not a directive.
pub open spec fn first_statement_at(body: Seq<Json>, i: nat) -> Option<nat>
    decreases body.len() - i,
{
    if i >= body.len() {
        None
    } else if is_directive(body[i as int]) {
        first_statement_at(body, i + 1)
    } else {
        Some(i)
    }
}

/// The head of the counters' object in the setup text.
pub open spec fn data_head() -> Seq<u8> {
    crate::resources::enc(crate::COVERAGE_DATA_HEAD@)
}

/// The byte range of the coverage setup of instrumented code `src` whose
/// parse is `program`: its first statement after the directives, when that
/// is a variable declaration whose text holds `var coverageData = {`,
/// together with the helper declarations right after it.
pub open spec fn setup_range(src: Seq<u8>, program: Json) -> Option<(nat, nat)> {
    let body = body_of(program);
    match first_statement_at(body, 0) {
        Some(d) => {
            let stmt = body[d as int];
            match (declared_name(stmt), uspan(stmt)) {
                (Some(name), Some((s, e))) => if is_type(stmt, "VariableDeclaration"@) && first_occurrence(
                    text_of(src, stmt),
                    data_head(),
                    0,
                ) is Some {
                    let end = helpers_end(body, d + 1, name, e);
                    if s <= end {
                        Some((s, end))
                    } else {
                        None
                    }
                } else {
                    None
                },
                _ => None,
            }
        },
        None => None,
    }
}

/// The deletion of the bytes `s..e`.
pub open spec fn cut(s: nat, e: nat) -> EditV {
    EditV { start: s, end: e, text: seq![], origin: None }
}

/// See [`declared_name`].
fn declared_name_of(stmt: &Json) -> (r: Option<&String>)
    ensures
        match r {
            Some(n) => declared_name(*stmt) == Some(n@),
            None => declared_name(*stmt) is None,
        },
{
    if has_type(stmt, "FunctionDeclaration") {
        match get(stmt, "id") {
            Some(id) => get_str(id, "name"),
            None => None,
        }
    } else if has_type(stmt, "VariableDeclaration") {
        match get_arr(stmt, "declarations") {
            Some(ds) => {
                if ds.len() > 0 {
                    match get(&ds[0], "id") {
                        Some(id) => get_str(id, "name"),
                        None => None,
                    }
                } else {
                    None
                }
            },
            None => None,
        }
    } else {
        None
    }
}

/// `name` followed by `suffix`.
fn suffixed(name: &String, suffix: &str) -> (r: String)
    ensures
        r@ == name@ + suffix@,
{
    let mut t = name.clone();
    t.append(suffix);
    t
}

/// See [`is_setup_helper`].
fn setup_helper(stmt: &Json, name: &String) -> (r: bool)
    ensures
        r == is_setup_helper(*stmt, name@),
{
    match declared_name_of(stmt) {
        Some(n) => {
            let temp = suffixed(name, "_temp");
            let bt = suffixed(name, "_bt");
            let oc = suffixed(name, "_oc");
            crate::estree::is(n, temp.as_str()) || crate::estree::is(n, bt.as_str()) || crate::estree::is(
                n,
                oc.as_str(),
            )
        },
        None => false,
    }
}

/// See [`helpers_end`].
fn helpers_end_of(body: &Vec<Json>, i: usize, name: &String, e: usize) -> (r: usize)
    requires
        i <= body@.len(),
    ensures
        r as nat == helpers_end(body@, i as nat, name@, e as nat),
{
    let mut k = i;
    let mut end = e;
    while k < body.len()
        invariant
            i <= k <= body@.len(),
            helpers_end(body@, i as nat, name@, e as nat) == helpers_end(body@, k as nat, name@, end as nat),
        decreases body@.len() - k,
    {
        if !setup_helper(&body[k], name) {
            return end;
        }
        match crate::estree::get_span(&body[k]) {
            Some((_s, e2)) => {
                end = e2;
            },
            None => {
                return end;
            },
        }
        k = k + 1;
    }
    end
}

/// See [`first_statement_at`] (from the start).
fn first_statement_of(body: &Vec<Json>) -> (r: Option<usize>)
    ensures
        match r {
            Some(d) => first_statement_at(body@, 0) == Some(d as nat) && d < body@.len(),
            None => first_statement_at(body@, 0) is None,
        },
{
    let mut i: usize = 0;
    while i < body.len()
        invariant
            i <= body@.len(),
            first_statement_at(body@, 0) == first_statement_at(body@, i as nat),
        decreases body@.len() - i,
    {
        if get_str(&body[i], "directive").is_none() {
            return Some(i);
        }
        i = i + 1;
    }
    None
}

/// See [`setup_range`].
pub fn setup_range_of(src: &Vec<u8>, program: &Json) -> (r: Option<(usize, usize)>)
    ensures
        match r {
            Some((s, e)) => setup_range(src@, *program) == Some((s as nat, e as nat)),
            None => setup_range(src@, *program) is None,
        },
{
    let body: &Vec<Json> = match get_arr(program, "body") {
        Some(b) => b,
        None => {
            return None;
        },
    };
    assert(body@ == body_of(*program));
    let d = match first_statement_of(body) {
        Some(d) => d,
        None => {
            return None;
        },
    };
    let stmt = &body[d];
    let name = match declared_name_of(stmt) {
        Some(n) => n,
        None => {
            return None;
        },
    };
    let (s, e) = match crate::estree::get_span(stmt) {
        Some(span) => span,
        None => {
            return None;
        },
    };
    if !has_type(stmt, "VariableDeclaration") {
        return None;
    }
    let text = node_text(src, stmt);
    let mut head: Vec<u8> = Vec::new();
    crate::text::push_str(&mut head, crate::COVERAGE_DATA_HEAD);
    assert(head@ =~= data_head());
    if find_bytes(text.as_slice(), head.as_slice()).is_none() {
        return None;
    }
    let n = body.len();
    assert(d < n);
    let end = helpers_end_of(body, d + 1, name, e);
    if s <= end {
        Some((s, end))
    } else {
        None
    }
}

} // verus!
