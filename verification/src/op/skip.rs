use vstd::prelude::*;

use crate::event::Event;

verus! {

/// What `skip(n)` sends downstream: the first `n` values are dropped
/// silently, every later value is forwarded unchanged, and an upstream
/// terminal is forwarded whenever it arrives, even inside the dropped window.
pub open spec fn skip_output<V>(es: Seq<Event<V>>, n: nat) -> Seq<Event<V>>
    decreases es.len(),
{
    if es.len() == 0 {
        Seq::empty()
    } else {
        match es[0] {
            Event::Next(v) => if n > 0 {
                skip_output(es.drop_first(), (n - 1) as nat)
            } else {
                seq![Event::Next(v)] + skip_output(es.drop_first(), 0)
            },
            Event::Error(e) => seq![Event::Error(e)],
            Event::Complete => seq![Event::Complete],
        }
    }
}

fn skip_from<V: Copy>(upstream: &Vec<Event<V>>, i: usize, n: usize) -> (out: Vec<Event<V>>)
    requires
        i <= upstream@.len(),
    ensures
        out@ == skip_output(upstream@.skip(i as int), n as nat),
    decreases upstream@.len() - i,
{
    let ghost tail = upstream@.skip(i as int);
    if i == upstream.len() {
        let out: Vec<Event<V>> = Vec::new();
        proof {
            assert(tail.len() == 0);
            assert(out@ =~= skip_output(tail, n as nat));
        }
        return out;
    }
    let e = upstream[i];
    proof {
        assert(e == tail[0]);
        assert(upstream@.skip(i + 1) =~= tail.drop_first());
    }
    match e {
        Event::Next(v) => {
            if n > 0 {
                skip_from(upstream, i + 1, n - 1)
            } else {
                let mut rest = skip_from(upstream, i + 1, 0);
                let mut out: Vec<Event<V>> = Vec::new();
                out.push(Event::Next(v));
                out.append(&mut rest);
                proof {
                    assert(out@ =~= skip_output(tail, 0));
                }
                out
            }
        },
        Event::Error(er) => {
            let mut out: Vec<Event<V>> = Vec::new();
            out.push(Event::Error(er));
            proof {
                assert(out@ =~= skip_output(tail, n as nat));
            }
            out
        },
        Event::Complete => {
            let mut out: Vec<Event<V>> = Vec::new();
            out.push(Event::Complete);
            proof {
                assert(out@ =~= skip_output(tail, n as nat));
            }
            out
        },
    }
}

/// Run `skip(n)` over everything the upstream would deliver.
pub fn skip_events<V: Copy>(upstream: &Vec<Event<V>>, n: usize) -> (out: Vec<Event<V>>)
    ensures
        out@ == skip_output(upstream@, n as nat),
{
    proof {
        assert(upstream@.skip(0) =~= upstream@);
    }
    skip_from(upstream, 0, n)
}

} // verus!
