use vstd::prelude::*;

use crate::event::Event;

verus! {

/// One event as seen by `take_until`, which listens to two sources at once:
/// something the upstream would deliver, or any event at all from the
/// notifier, whose payload is irrelevant.
#[derive(Clone, Copy, PartialEq, Eq, Structural, Debug)]
pub enum SourceEvent<V> {
    Upstream(Event<V>),
    Notice,
}

/// What `take_until(notifier)` sends downstream, given the merged order in
/// which the two sources would deliver: upstream values are forwarded until
/// the notifier's first event, which ends the stream with one synthetic
/// completion; an upstream terminal arriving first is forwarded instead.
pub open spec fn take_until_output<V>(es: Seq<SourceEvent<V>>) -> Seq<Event<V>>
    decreases es.len(),
{
    if es.len() == 0 {
        Seq::empty()
    } else {
        match es[0] {
            SourceEvent::Upstream(e) => match e {
                Event::Next(v) => seq![Event::Next(v)] + take_until_output(es.drop_first()),
                Event::Error(er) => seq![Event::Error(er)],
                Event::Complete => seq![Event::Complete],
            },
            SourceEvent::Notice => seq![Event::Complete],
        }
    }
}

/// How many merged events `take_until` consumes before it releases both of
/// its subscriptions.
pub open spec fn take_until_consumed<V>(es: Seq<SourceEvent<V>>) -> nat
    decreases es.len(),
{
    if es.len() == 0 {
        0
    } else {
        match es[0] {
            SourceEvent::Upstream(e) => match e {
                Event::Next(_) => 1 + take_until_consumed(es.drop_first()),
                Event::Error(_) => 1,
                Event::Complete => 1,
            },
            SourceEvent::Notice => 1,
        }
    }
}

fn take_until_from<V: Copy>(merged: &Vec<SourceEvent<V>>, i: usize) -> (r: (
    Vec<Event<V>>,
    usize,
))
    requires
        i <= merged@.len(),
    ensures
        r.0@ == take_until_output(merged@.skip(i as int)),
        r.1 == take_until_consumed(merged@.skip(i as int)),
        i + r.1 <= merged@.len(),
    decreases merged@.len() - i,
{
    let ghost tail = merged@.skip(i as int);
    if i == merged.len() {
        let out: Vec<Event<V>> = Vec::new();
        proof {
            assert(tail.len() == 0);
            assert(out@ =~= take_until_output(tail));
        }
        return (out, 0);
    }
    let e = merged[i];
    proof {
        assert(e == tail[0]);
        assert(merged@.skip(i + 1) =~= tail.drop_first());
    }
    match e {
        SourceEvent::Upstream(Event::Next(v)) => {
            let (mut rest, c) = take_until_from(merged, i + 1);
            let mut out: Vec<Event<V>> = Vec::new();
            out.push(Event::Next(v));
            out.append(&mut rest);
            proof {
                assert(out@ =~= take_until_output(tail));
            }
            (out, 1 + c)
        },
        SourceEvent::Upstream(Event::Error(er)) => {
            let mut out: Vec<Event<V>> = Vec::new();
            out.push(Event::Error(er));
            proof {
                assert(out@ =~= take_until_output(tail));
            }
            (out, 1)
        },
        SourceEvent::Upstream(Event::Complete) => {
            let mut out: Vec<Event<V>> = Vec::new();
            out.push(Event::Complete);
            proof {
                assert(out@ =~= take_until_output(tail));
            }
            (out, 1)
        },
        SourceEvent::Notice => {
            let mut out: Vec<Event<V>> = Vec::new();
            out.push(Event::Complete);
            proof {
                assert(out@ =~= take_until_output(tail));
            }
            (out, 1)
        },
    }
}

/// Run `take_until` over the merged deliveries of upstream and notifier: the
/// result is what the downstream subscriber receives, and how many merged
/// events were consumed before both subscriptions were released.
pub fn take_until_events<V: Copy>(merged: &Vec<SourceEvent<V>>) -> (r: (Vec<Event<V>>, usize))
    ensures
        r.0@ == take_until_output(merged@),
        r.1 == take_until_consumed(merged@),
        r.1 <= merged@.len(),
{
    proof {
        assert(merged@.skip(0) =~= merged@);
    }
    take_until_from(merged, 0)
}

} // verus!
