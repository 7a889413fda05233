use vstd::prelude::*;

use crate::event::Event;

verus! {

/// Run `map(f)` over everything the upstream would deliver: every value is
/// replaced by what `f` returns for it, errors and completion pass through
/// unchanged, and nothing is reordered, dropped or added.
pub fn map_events<V: Copy, W, F: Fn(V) -> W>(upstream: &Vec<Event<V>>, f: &F) -> (out: Vec<
    Event<W>,
>)
    requires
        forall|v: V| call_requires(*f, (v,)),
    ensures
        out@.len() == upstream@.len(),
        forall|i: int|
            0 <= i < upstream@.len() ==> match #[trigger] upstream@[i] {
                Event::Next(v) => out@[i] matches Event::Next(w) && call_ensures(*f, (v,), w),
                Event::Error(e) => out@[i] == Event::<W>::Error(e),
                Event::Complete => out@[i] == Event::<W>::Complete,
            },
{
    let mut out: Vec<Event<W>> = Vec::new();
    let n = upstream.len();
    let mut i: usize = 0;
    while i < n
        invariant
            i <= n,
            n == upstream@.len(),
            out@.len() == i,
            forall|v: V| call_requires(*f, (v,)),
            forall|j: int|
                0 <= j < i ==> match #[trigger] upstream@[j] {
                    Event::Next(v) => out@[j] matches Event::Next(w) && call_ensures(*f, (v,), w),
                    Event::Error(e) => out@[j] == Event::<W>::Error(e),
                    Event::Complete => out@[j] == Event::<W>::Complete,
                },
        decreases n - i,
    {
        match upstream[i] {
            Event::Next(v) => {
                let w = f(v);
                out.push(Event::Next(w));
            },
            Event::Error(e) => out.push(Event::Error(e)),
            Event::Complete => out.push(Event::Complete),
        }
        i = i + 1;
    }
    out
}

} // verus!
