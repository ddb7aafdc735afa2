//! Reading ESTree nodes: names of property keys and module export names,
//! static string values, import sources, spans.

use vstd::prelude::*;

use crate::json::{
    as_arr, end_of, field, get, get_arr, get_nat, get_str, has_type, is_type, start_of, str_field,
    Json,
};
use crate::text::str_eq;

verus! {

/// Whether the boolean field `key` of `j` is `true`.
pub open spec fn flag(j: Json, key: Seq<char>) -> bool {
    field(j, key) == Some(Json::Bool(true))
}

/// The name of an object-literal property key, when it is a plain
/// identifier (not computed) or a string literal.
pub open spec fn key_name(p: Json) -> Option<Seq<char>> {
    match field(p, "key"@) {
        Some(k) => if is_type(k, "Identifier"@) && !flag(p, "computed"@) {
            str_field(k, "name"@)
        } else if is_type(k, "Literal"@) {
            str_field(k, "value"@)
        } else {
            None
        },
        None => None,
    }
}

/// The static string value of an expression: a string literal, or a template
/// literal without substitutions (its cooked text).
pub open spec fn static_string(e: Json) -> Option<Seq<char>> {
    if is_type(e, "Literal"@) {
        str_field(e, "value"@)
    } else if is_type(e, "TemplateLiteral"@) {
        match (as_arr(field(e, "expressions"@)), as_arr(field(e, "quasis"@))) {
            (Some(exprs), Some(quasis)) => if exprs.len() == 0 && quasis.len() == 1 {
                match field(quasis[0], "value"@) {
                    Some(v) => str_field(v, "cooked"@),
                    None => None,
                }
            } else {
                None
            },
            _ => None,
        }
    } else {
        None
    }
}

/// The name in a module export name: an identifier's name or a string
/// literal's value.
pub open spec fn export_name(n: Json) -> Option<Seq<char>> {
    if is_type(n, "Identifier"@) {
        str_field(n, "name"@)
    } else if is_type(n, "Literal"@) {
        str_field(n, "value"@)
    } else {
        None
    }
}

/// The module specifier of an import declaration.
pub open spec fn import_source(stmt: Json) -> Option<Seq<char>> {
    if is_type(stmt, "ImportDeclaration"@) {
        match field(stmt, "source"@) {
            Some(s) => str_field(s, "value"@),
            None => None,
        }
    } else {
        None
    }
}

/// The byte span of a node.
pub open spec fn span_of(j: Json) -> Option<(nat, nat)> {
    match (start_of(j), end_of(j)) {
        (Some(s), Some(e)) => Some((s, e)),
        _ => None,
    }
}

/// Whether the boolean field `key` of `j` is `true`.
pub fn get_flag(j: &Json, key: &str) -> (r: bool)
    ensures
        r == flag(*j, key@),
{
    match get(j, key) {
        Some(Json::Bool(b)) => *b,
        _ => false,
    }
}

/// The name of an object-literal property key.
pub fn get_key_name<'a>(p: &'a Json) -> (r: Option<&'a String>)
    ensures
        match r {
            Some(s) => key_name(*p) == Some(s@),
            None => key_name(*p) is None,
        },
{
    match get(p, "key") {
        Some(k) => {
            if has_type(k, "Identifier") && !get_flag(p, "computed") {
                get_str(k, "name")
            } else if has_type(k, "Literal") {
                get_str(k, "value")
            } else {
                None
            }
        },
        None => None,
    }
}

/// The static string value of an expression.
pub fn get_static_string<'a>(e: &'a Json) -> (r: Option<&'a String>)
    ensures
        match r {
            Some(s) => static_string(*e) == Some(s@),
            None => static_string(*e) is None,
        },
{
    if has_type(e, "Literal") {
        get_str(e, "value")
    } else if has_type(e, "TemplateLiteral") {
        match (get_arr(e, "expressions"), get_arr(e, "quasis")) {
            (Some(exprs), Some(quasis)) => {
                if exprs.len() == 0 && quasis.len() == 1 {
                    match get(&quasis[0], "value") {
                        Some(v) => get_str(v, "cooked"),
                        None => None,
                    }
                } else {
                    None
                }
            },
            _ => None,
        }
    } else {
        None
    }
}

/// The name in a module export name.
pub fn get_export_name<'a>(n: &'a Json) -> (r: Option<&'a String>)
    ensures
        match r {
            Some(s) => export_name(*n) == Some(s@),
            None => export_name(*n) is None,
        },
{
    if has_type(n, "Identifier") {
        get_str(n, "name")
    } else if has_type(n, "Literal") {
        get_str(n, "value")
    } else {
        None
    }
}

/// The module specifier of an import declaration.
pub fn get_import_source<'a>(stmt: &'a Json) -> (r: Option<&'a String>)
    ensures
        match r {
            Some(s) => import_source(*stmt) == Some(s@),
            None => import_source(*stmt) is None,
        },
{
    if has_type(stmt, "ImportDeclaration") {
        match get(stmt, "source") {
            Some(s) => get_str(s, "value"),
            None => None,
        }
    } else {
        None
    }
}

/// The byte span of a node, when both ends fit in a `usize`.
pub fn get_span(j: &Json) -> (r: Option<(usize, usize)>)
    ensures
        r matches Some((s, e)) ==> span_of(*j) == Some((s as nat, e as nat)),
        span_of(*j) matches Some((s, e)) && s <= usize::MAX && e <= usize::MAX ==> r is Some,
{
    match (get_nat(j, "start"), get_nat(j, "end")) {
        (Some(s), Some(e)) => Some((s, e)),
        _ => None,
    }
}

/// Whether the string `s` equals the literal `lit`.
pub fn is(s: &String, lit: &str) -> (r: bool)
    ensures
        r == (s@ == lit@),
{
    str_eq(s.as_str(), lit)
}

/// Whether a program-body entry belongs to the directive prologue (such as
/// `"use strict";`).
pub open spec fn is_directive(stmt: Json) -> bool {
    str_field(stmt, "directive"@) is Some
}

/// The first entry of `body[i..]` that is not a directive.
pub open spec fn first_statement(body: Seq<Json>, i: int) -> Option<Json>
    decreases body.len() - i,
{
    if i < 0 || i >= body.len() {
        None
    } else if is_directive(body[i]) {
        first_statement(body, i + 1)
    } else {
        Some(body[i])
    }
}

/// Where statements hoisted to the top of a module go: the start of its
/// first statement after the directives; the end of the text (of length
/// `len`) when there is none.
pub open spec fn hoist_point(body: Seq<Json>, len: nat) -> nat {
    match first_statement(body, 0) {
        Some(s) => match start_of(s) {
            Some(p) => if p <= len {
                p
            } else {
                len
            },
            None => len,
        },
        None => len,
    }
}

/// See [`hoist_point`].
pub fn get_hoist_point(body: &Vec<Json>, len: usize) -> (r: usize)
    ensures
        r == hoist_point(body@, len as nat),
{
    let mut i: usize = 0;
    while i < body.len()
        invariant
            i <= body@.len(),
            first_statement(body@, 0) == first_statement(body@, i as int),
        decreases body@.len() - i,
    {
        if get_str(&body[i], "directive").is_none() {
            return match get_nat(&body[i], "start") {
                Some(p) => if p <= len {
                    p
                } else {
                    len
                },
                None => {
                    proof {
                        if let Some(p) = start_of(body@[i as int]) {
                            assert(p > usize::MAX);
                        }
                    }
                    len
                },
            };
        }
        i = i + 1;
    }
    len
}

} // verus!
