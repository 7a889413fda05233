use vstd::prelude::*;

use crate::event::Event;

verus! {

/// `out` is a run of `filter(f)` over the upstream trace `es`: each value for
/// which `f` answered true is forwarded in place, each value for which it
/// answered false is dropped silently, and errors and completion pass
/// through unchanged.
pub open spec fn filter_run<V, F: Fn(V) -> bool>(f: F, es: Seq<Event<V>>, out: Seq<Event<V>>) -> bool
    decreases es.len(),
{
    if es.len() == 0 {
        out.len() == 0
    } else {
        match es[0] {
            Event::Next(v) => (call_ensures(f, (v,), true) && out.len() > 0 && out[0] == es[0]
                && filter_run(f, es.drop_first(), out.drop_first())) || (call_ensures(
                f,
                (v,),
                false,
            ) && filter_run(f, es.drop_first(), out)),
            Event::Error(_) => out.len() > 0 && out[0] == es[0] && filter_run(
                f,
                es.drop_first(),
                out.drop_first(),
            ),
            Event::Complete => out.len() > 0 && out[0] == es[0] && filter_run(
                f,
                es.drop_first(),
                out.drop_first(),
            ),
        }
    }
}

fn filter_from<V: Copy, F: Fn(V) -> bool>(upstream: &Vec<Event<V>>, i: usize, f: &F) -> (out: Vec<
    Event<V>,
>)
    requires
        i <= upstream@.len(),
        forall|v: V| call_requires(*f, (v,)),
    ensures
        filter_run(*f, upstream@.skip(i as int), out@),
        out@.len() <= upstream@.len() - i,
    decreases upstream@.len() - i,
{
    let ghost tail = upstream@.skip(i as int);
    if i == upstream.len() {
        let out: Vec<Event<V>> = Vec::new();
        return out;
    }
    let e = upstream[i];
    proof {
        assert(e == tail[0]);
        assert(upstream@.skip(i + 1) =~= tail.drop_first());
    }
    match e {
        Event::Next(v) => {
            let keep = f(v);
            let mut rest = filter_from(upstream, i + 1, f);
            if keep {
                let ghost rest0 = rest@;
                let mut out: Vec<Event<V>> = Vec::new();
                out.push(Event::Next(v));
                out.append(&mut rest);
                proof {
                    assert(out@.drop_first() =~= rest0);
                }
                out
            } else {
                rest
            }
        },
        Event::Error(er) => {
            let mut rest = filter_from(upstream, i + 1, f);
            let ghost rest0 = rest@;
            let mut out: Vec<Event<V>> = Vec::new();
            out.push(Event::Error(er));
            out.append(&mut rest);
            proof {
                assert(out@.drop_first() =~= rest0);
            }
            out
        },
        Event::Complete => {
            let mut rest = filter_from(upstream, i + 1, f);
            let ghost rest0 = rest@;
            let mut out: Vec<Event<V>> = Vec::new();
            out.push(Event::Complete);
            out.append(&mut rest);
            proof {
                assert(out@.drop_first() =~= rest0);
            }
            out
        },
    }
}

/// Run `filter(f)` over everything the upstream would deliver.
pub fn filter_events<V: Copy, F: Fn(V) -> bool>(upstream: &Vec<Event<V>>, f: &F) -> (out: Vec<
    Event<V>,
>)
    requires
        forall|v: V| call_requires(*f, (v,)),
    ensures
        filter_run(*f, upstream@, out@),
        out@.len() <= upstream@.len(),
{
    proof {
        assert(upstream@.skip(0) =~= upstream@);
    }
    filter_from(upstream, 0, f)
}

} // verus!
