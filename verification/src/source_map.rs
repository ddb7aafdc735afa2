//! Shifting a source map down by the lines prepended to the generated code.
//!
//! `"use strict";` and the interop helpers are prepended as text after code
//! generation, so the generated code starts some lines lower than the map
//! (built against the code generator's output) assumes. The VLQ `mappings`
//! string encodes generated lines as `;`-separated groups, so prepending one
//! `;` per line inserts that many empty leading lines without disturbing the
//! file-relative source and name deltas, which only advance on real segments.

use vstd::prelude::*;

use crate::json::{json_parse, json_text, json_to_string, parse_json, Json};
use crate::text::str_eq;

verus! {

/// The position of the first field named `key`.
pub open spec fn key_index(fields: Seq<(String, Json)>, key: Seq<char>) -> Option<nat>
    decreases fields.len(),
{
    if fields.len() == 0 {
        None
    } else if fields[0].0@ == key {
        Some(0)
    } else {
        match key_index(fields.drop_first(), key) {
            Some(i) => Some(i + 1),
            None => None,
        }
    }
}

/// `n` semicolons.
pub open spec fn semicolons(n: nat) -> Seq<char> {
    Seq::new(n, |i: int| ';')
}

/// Whether `k` is the source map `j` with its `mappings` string (the first
/// field so named, when it holds a string) preceded by `lines` semicolons;
/// any other value is left as it is.
pub open spec fn shifted_map(j: Json, k: Json, lines: nat) -> bool {
    match j {
        Json::Obj(f) => match key_index(f@, "mappings"@) {
            Some(i) => match f@[i as int].1 {
                Json::Str(m) => match k {
                    Json::Obj(g) => {
                        &&& g@.len() == f@.len()
                        &&& g@[i as int].0@ == f@[i as int].0@
                        &&& (g@[i as int].1 matches Json::Str(t) && t@ == semicolons(lines) + m@)
                        &&& forall|x: int| 0 <= x < f@.len() && x != i ==> #[trigger] g@[x] == f@[x]
                    },
                    _ => false,
                },
                _ => k == j,
            },
            None => k == j,
        },
        _ => k == j,
    }
}

/// Fields with the same names in the same order find a key at the same
/// position.
proof fn lemma_key_index_same_names(f: Seq<(String, Json)>, g: Seq<(String, Json)>, key: Seq<char>)
    requires
        f.len() == g.len(),
        forall|x: int| 0 <= x < f.len() ==> (#[trigger] g[x]).0@ == f[x].0@,
    ensures
        key_index(f, key) == key_index(g, key),
    decreases f.len(),
{
    if f.len() > 0 {
        assert(g[0].0@ == f[0].0@);
        assert forall|x: int| 0 <= x < f.drop_first().len() implies (#[trigger] g.drop_first()[x]).0@
            == f.drop_first()[x].0@ by {
            assert(g.drop_first()[x] == g[x + 1]);
            assert(f.drop_first()[x] == f[x + 1]);
        }
        lemma_key_index_same_names(f.drop_first(), g.drop_first(), key);
    }
}

/// Shifts add up: shifting a source map by `a` lines and the result by `b`
/// lines shifts it by `a + b` lines.
pub proof fn lemma_shifts_compose(j: Json, k1: Json, k2: Json, a: nat, b: nat)
    requires
        shifted_map(j, k1, a),
        shifted_map(k1, k2, b),
    ensures
        shifted_map(j, k2, a + b),
{
    match j {
        Json::Obj(f) => match key_index(f@, "mappings"@) {
            Some(i) => match f@[i as int].1 {
                Json::Str(m) => {
                    let g = k1->Obj_0;
                    assert forall|x: int| 0 <= x < f@.len() implies (#[trigger] g@[x]).0@ == f@[x].0@ by {
                        if x != i {
                            assert(g@[x] == f@[x]);
                        }
                    }
                    lemma_key_index_same_names(f@, g@, "mappings"@);
                    let t = g@[i as int].1->Str_0;
                    let h = k2->Obj_0;
                    assert(semicolons(b) + t@ =~= semicolons(a + b) + m@);
                    assert forall|x: int| 0 <= x < f@.len() && x != i implies #[trigger] h@[x] == f@[x] by {
                        assert(h@[x] == g@[x]);
                    }
                },
                _ => {},
            },
            None => {},
        },
        _ => {},
    }
}

/// The position of the first field named `key`, found by a scan.
fn find_key(fields: &Vec<(String, Json)>, key: &str) -> (r: Option<usize>)
    ensures
        match r {
            Some(i) => key_index(fields@, key@) == Some(i as nat) && i < fields@.len(),
            None => key_index(fields@, key@) is None,
        },
{
    let mut i: usize = 0;
    assert(fields@.skip(0) =~= fields@);
    while i < fields.len()
        invariant
            i <= fields@.len(),
            key_index(fields@, key@) == match key_index(fields@.skip(i as int), key@) {
                Some(x) => Some((x + i) as nat),
                None => None,
            },
        decreases fields@.len() - i,
    {
        assert(fields@.skip(i as int).drop_first() =~= fields@.skip(i + 1 as int));
        assert(fields@.skip(i as int)[0] == fields@[i as int]);
        if str_eq(fields[i].0.as_str(), key) {
            return Some(i);
        }
        i = i + 1;
    }
    assert(fields@.skip(i as int).len() == 0);
    None
}

/// Precede the `mappings` string of a source map with `lines` semicolons.
fn shift_mappings(j: Json, lines: usize) -> (k: Json)
    ensures
        shifted_map(j, k, lines as nat),
{
    match j {
        Json::Obj(f) => {
            let ghost f0 = f@;
            match find_key(&f, "mappings") {
                Some(i) => {
                    let shifted: Option<String> = match &f[i].1 {
                        Json::Str(m) => {
                            let mut t = String::new();
                            let mut n: usize = 0;
                            while n < lines
                                invariant
                                    n <= lines,
                                    t@ == semicolons(n as nat),
                                decreases lines - n,
                            {
                                proof {
                                    reveal_strlit(";");
                                }
                                t.append(";");
                                assert(t@ =~= semicolons((n + 1) as nat));
                                n = n + 1;
                            }
                            t.append(m.as_str());
                            Some(t)
                        },
                        _ => None,
                    };
                    match shifted {
                        Some(t) => {
                            let mut g = f;
                            let name = g[i].0.clone();
                            g.set(i, (name, Json::Str(t)));
                            Json::Obj(g)
                        },
                        None => Json::Obj(f),
                    }
                },
                None => Json::Obj(f),
            }
        },
        other => other,
    }
}

/// Shift every mapping of the source map `map_json` down by `lines`
/// generated lines. Text that is not JSON, and a map without a `mappings`
/// string, are returned unchanged (the latter as re-serialized JSON).
pub fn offset_source_map(map_json: &str, lines: usize) -> (r: String)
    ensures
        lines == 0 ==> r@ == map_json@,
        lines > 0 && json_parse(map_json@) is None ==> r@ == map_json@,
        lines > 0 && json_parse(map_json@) is Some ==> exists|k: Json|
            shifted_map(json_parse(map_json@)->0, k, lines as nat) && r@ == json_text(k),
{
    if lines == 0 {
        return map_json.to_string();
    }
    match parse_json(map_json) {
        Some(j) => {
            let k = shift_mappings(j, lines);
            json_to_string(&k)
        },
        None => map_json.to_string(),
    }
}

} // verus!
