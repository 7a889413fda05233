use vstd::prelude::*;

use crate::event::Event;

verus! {

/// What `take(n)` sends downstream, given what upstream would deliver in
/// order: the first `n` values, then one synthetic completion; an upstream
/// terminal inside that window is forwarded instead and ends the stream.
pub open spec fn take_output<V>(es: Seq<Event<V>>, n: nat) -> Seq<Event<V>>
    decreases es.len(),
{
    if n == 0 {
        seq![Event::Complete]
    } else if es.len() == 0 {
        Seq::empty()
    } else {
        match es[0] {
            Event::Next(v) => if n == 1 {
                seq![Event::Next(v), Event::Complete]
            } else {
                seq![Event::Next(v)] + take_output(es.drop_first(), (n - 1) as nat)
            },
            Event::Error(e) => seq![Event::Error(e)],
            Event::Complete => seq![Event::Complete],
        }
    }
}

/// How many upstream events `take(n)` consumes before it releases its
/// upstream subscription.
pub open spec fn take_consumed<V>(es: Seq<Event<V>>, n: nat) -> nat
    decreases es.len(),
{
    if n == 0 {
        0
    } else if es.len() == 0 {
        0
    } else {
        match es[0] {
            Event::Next(_) => if n == 1 {
                1
            } else {
                1 + take_consumed(es.drop_first(), (n - 1) as nat)
            },
            Event::Error(_) => 1,
            Event::Complete => 1,
        }
    }
}

fn take_from<V: Copy>(upstream: &Vec<Event<V>>, i: usize, n: usize) -> (r: (Vec<Event<V>>, usize))
    requires
        i <= upstream@.len(),
    ensures
        r.0@ == take_output(upstream@.skip(i as int), n as nat),
        r.1 == take_consumed(upstream@.skip(i as int), n as nat),
        i + r.1 <= upstream@.len(),
    decreases upstream@.len() - i,
{
    let ghost tail = upstream@.skip(i as int);
    if n == 0 {
        let mut out: Vec<Event<V>> = Vec::new();
        out.push(Event::Complete);
        proof {
            assert(out@ =~= take_output(tail, 0));
        }
        return (out, 0);
    }
    if i == upstream.len() {
        let out: Vec<Event<V>> = Vec::new();
        proof {
            assert(tail.len() == 0);
            assert(out@ =~= take_output(tail, n as nat));
        }
        return (out, 0);
    }
    let e = upstream[i];
    proof {
        assert(e == tail[0]);
    }
    match e {
        Event::Next(v) => {
            if n == 1 {
                let mut out: Vec<Event<V>> = Vec::new();
                out.push(Event::Next(v));
                out.push(Event::Complete);
                proof {
                    assert(out@ =~= take_output(tail, 1));
                }
                (out, 1)
            } else {
                let (mut rest, c) = take_from(upstream, i + 1, n - 1);
                let mut out: Vec<Event<V>> = Vec::new();
                out.push(Event::Next(v));
                out.append(&mut rest);
                proof {
                    assert(upstream@.skip(i + 1) =~= tail.drop_first());
                    assert(out@ =~= take_output(tail, n as nat));
                }
                (out, 1 + c)
            }
        },
        Event::Error(er) => {
            let mut out: Vec<Event<V>> = Vec::new();
            out.push(Event::Error(er));
            proof {
                assert(out@ =~= take_output(tail, n as nat));
            }
            (out, 1)
        },
        Event::Complete => {
            let mut out: Vec<Event<V>> = Vec::new();
            out.push(Event::Complete);
            proof {
                assert(out@ =~= take_output(tail, n as nat));
            }
            (out, 1)
        },
    }
}

/// Run `take(n)` over everything the upstream would deliver: the result is
/// what the downstream subscriber receives, and how many upstream events were
/// consumed before the upstream subscription was released.
pub fn take_events<V: Copy>(upstream: &Vec<Event<V>>, n: usize) -> (r: (Vec<Event<V>>, usize))
    ensures
        r.0@ == take_output(upstream@, n as nat),
        r.1 == take_consumed(upstream@, n as nat),
        r.1 <= upstream@.len(),
{
    proof {
        assert(upstream@.skip(0) =~= upstream@);
    }
    take_from(upstream, 0, n)
}

/// The upstream trace of a source that delivers exactly these values and
/// never terminates on its own.
pub open spec fn nexts_of<V>(vs: Seq<V>) -> Seq<Event<V>> {
    vs.map_values(|v: V| Event::Next(v))
}

/// Law: on an upstream that would deliver more than `n` values, `take(n)`
/// delivers exactly the first `n` of them, then one synthetic completion, and
/// has consumed exactly `n` upstream events when it lets the upstream go, so
/// nothing past the first `n` values is ever taken from it.
pub proof fn lemma_take_exact<V>(vs: Seq<V>, n: nat)
    requires
        n < vs.len(),
    ensures
        take_output(nexts_of(vs), n) == nexts_of(vs.take(n as int)).push(Event::Complete),
        take_consumed(nexts_of(vs), n) == n,
    decreases n,
{
    let es = nexts_of(vs);
    if n == 0 {
        assert(nexts_of(vs.take(0)).push(Event::Complete) =~= seq![Event::Complete]);
    } else {
        assert(es[0] == Event::Next(vs[0]));
        if n == 1 {
            assert(nexts_of(vs.take(1)).push(Event::Complete) =~= seq![
                Event::Next(vs[0]),
                Event::Complete,
            ]);
        } else {
            assert(es.drop_first() =~= nexts_of(vs.drop_first()));
            lemma_take_exact(vs.drop_first(), (n - 1) as nat);
            assert(take_output(es, n) == seq![Event::Next(vs[0])] + nexts_of(
                vs.drop_first().take(n - 1),
            ).push(Event::Complete));
            assert(nexts_of(vs.take(n as int)).push(Event::Complete) =~= seq![
                Event::Next(vs[0]),
            ] + nexts_of(vs.drop_first().take(n - 1)).push(Event::Complete));
        }
    }
}

} // verus!
