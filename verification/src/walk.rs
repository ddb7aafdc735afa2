//! Depth-first traversal of a syntax tree: every object node is entered
//! before its fields (in document order) and exited after them.

use vstd::prelude::*;

use crate::json::Json;

verus! {

/// A traversal event: a node being entered (`false`) or exited (`true`).
pub type Event = (bool, Json);

/// The traversal events of `j`, in order.
pub open spec fn events(j: Json) -> Seq<Event>
    decreases j, 0int,
{
    match j {
        Json::Obj(f) => {
            proof {
                assert(decreases_to!(j => f));
            }
            seq![(false, j)] + field_events(f@, 0) + seq![(true, j)]
        },
        Json::Arr(v) => {
            proof {
                assert(decreases_to!(j => v));
            }
            item_events(v@, 0)
        },
        _ => seq![],
    }
}

/// The events of the values of `f[i..]`.
pub open spec fn field_events(f: Seq<(String, Json)>, i: int) -> Seq<Event>
    decreases f, f.len() - i,
{
    if i < 0 || i >= f.len() {
        seq![]
    } else {
        proof {
            assert(decreases_to!(f => f[i]));
            assert(decreases_to!(f[i] => f[i].1));
        }
        events(f[i].1) + field_events(f, i + 1)
    }
}

/// The events of `v[i..]`.
pub open spec fn item_events(v: Seq<Json>, i: int) -> Seq<Event>
    decreases v, v.len() - i,
{
    if i < 0 || i >= v.len() {
        seq![]
    } else {
        proof {
            assert(decreases_to!(v => v[i]));
        }
        events(v[i]) + item_events(v, i + 1)
    }
}

/// A traversal state that takes one step per event.
pub trait Visitor: View + Sized {
    spec fn step(s: Self::V, e: Event) -> Self::V;

    fn visit(&mut self, exit: bool, node: &Json)
        ensures
            final(self)@ == Self::step(old(self)@, (exit, *node)),
    ;
}

/// The state after taking the steps of `es` from `s`.
pub open spec fn run<V: Visitor>(s: V::V, es: Seq<Event>) -> V::V
    decreases es.len(),
{
    if es.len() == 0 {
        s
    } else {
        run::<V>(V::step(s, es[0]), es.drop_first())
    }
}

/// Running two event sequences in turn is running their concatenation.
pub proof fn lemma_run_concat<V: Visitor>(s: V::V, a: Seq<Event>, b: Seq<Event>)
    ensures
        run::<V>(s, a + b) == run::<V>(run::<V>(s, a), b),
    decreases a.len(),
{
    if a.len() == 0 {
        assert(a + b =~= b);
    } else {
        assert((a + b).drop_first() =~= a.drop_first() + b);
        lemma_run_concat::<V>(V::step(s, a[0]), a.drop_first(), b);
    }
}

/// Running one event is taking one step.
pub proof fn lemma_run_one<V: Visitor>(s: V::V, e: Event)
    ensures
        run::<V>(s, seq![e]) == V::step(s, e),
{
    assert(seq![e].drop_first() =~= Seq::<Event>::empty());
    assert(run::<V>(V::step(s, e), Seq::<Event>::empty()) == V::step(s, e));
}

/// Visit the events of `j` in order.
pub fn walk<V: Visitor>(vis: &mut V, j: &Json)
    ensures
        final(vis)@ == run::<V>(old(vis)@, events(*j)),
    decreases j,
{
    let ghost s0 = vis@;
    match j {
        Json::Obj(f) => {
            vis.visit(false, j);
            proof {
                lemma_run_one::<V>(s0, (false, *j));
            }
            let ghost s1 = vis@;
            let mut i: usize = 0;
            while i < f.len()
                invariant
                    *j == Json::Obj(*f),
                    i <= f@.len(),
                    run::<V>(s1, field_events(f@, 0)) == run::<V>(vis@, field_events(f@, i as int)),
                decreases f@.len() - i,
            {
                assert(decreases_to!(*j => f[i as int].1)) by {
                    assert(decreases_to!(*j => (*j)->Obj_0));
                    assert((*j)->Obj_0 == *f);
                    assert(decreases_to!(*f => f@));
                    assert(decreases_to!(f@ => f@[i as int]));
                    assert(decreases_to!(f@[i as int] => f@[i as int].1));
                };
                let ghost before = vis@;
                walk(vis, &f[i].1);
                proof {
                    lemma_run_concat::<V>(before, events(f@[i as int].1), field_events(f@, i + 1));
                }
                i = i + 1;
            }
            let ghost s2 = vis@;
            vis.visit(true, j);
            proof {
                lemma_run_one::<V>(s2, (true, *j));
                lemma_run_concat::<V>(s0, seq![(false, *j)], field_events(f@, 0));
                lemma_run_concat::<V>(s0, seq![(false, *j)] + field_events(f@, 0), seq![(true, *j)]);
            }
        },
        Json::Arr(v) => {
            let mut i: usize = 0;
            while i < v.len()
                invariant
                    *j == Json::Arr(*v),
                    i <= v@.len(),
                    run::<V>(s0, item_events(v@, 0)) == run::<V>(vis@, item_events(v@, i as int)),
                decreases v@.len() - i,
            {
                assert(decreases_to!(*j => v[i as int])) by {
                    assert(decreases_to!(*j => (*j)->Arr_0));
                    assert((*j)->Arr_0 == *v);
                    assert(decreases_to!(*v => v@));
                    assert(decreases_to!(v@ => v@[i as int]));
                };
                let ghost before = vis@;
                walk(vis, &v[i]);
                proof {
                    lemma_run_concat::<V>(before, events(v@[i as int]), item_events(v@, i + 1));
                }
                i = i + 1;
            }
        },
        _ => {},
    }
}

} // verus!
