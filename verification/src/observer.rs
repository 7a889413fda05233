use vstd::prelude::*;

use crate::event::ErrValue;
use crate::event::Event;

verus! {

/// Ghost model of an observer: whether it is closed, and every event it has
/// received, in delivery order.
#[verifier::ext_equal]
pub ghost struct ObsModel<V> {
    pub closed: bool,
    pub inbox: Seq<Event<V>>,
}

impl<V> ObsModel<V> {
    /// How a sink reacts to one delivery: a closed observer ignores it; an
    /// open one records it, and a terminal event closes it.
    pub open spec fn accept(self, e: Event<V>) -> ObsModel<V> {
        if self.closed {
            self
        } else {
            ObsModel { closed: e.is_terminal(), inbox: self.inbox.push(e) }
        }
    }

    /// A freshly made sink: open, with nothing received yet.
    pub open spec fn fresh() -> ObsModel<V> {
        ObsModel { closed: false, inbox: Seq::empty() }
    }
}

/// A recording observer: the concrete sink that subjects register and deliver
/// to. It keeps every event it accepts; a terminal event closes it, and a
/// closed observer accepts nothing further.
pub struct Observer<V> {
    pub closed: bool,
    pub received: Vec<Event<V>>,
}

impl<V> View for Observer<V> {
    type V = ObsModel<V>;

    open spec fn view(&self) -> ObsModel<V> {
        ObsModel { closed: self.closed, inbox: self.received@ }
    }
}

impl<V> Observer<V> {
    /// An open observer that has received nothing.
    pub fn new() -> (o: Observer<V>)
        ensures
            o@ == ObsModel::<V>::fresh(),
    {
        let o = Observer { closed: false, received: Vec::new() };
        proof {
            assert(o@ =~= ObsModel::<V>::fresh());
        }
        o
    }

    /// An observer that is already closed; a subject asked to register it
    /// must refuse and hand back the empty handle.
    pub fn new_closed() -> (o: Observer<V>)
        ensures
            o@ == (ObsModel::<V> { closed: true, inbox: Seq::empty() }),
    {
        let o = Observer { closed: true, received: Vec::new() };
        proof {
            assert(o@ =~= (ObsModel::<V> { closed: true, inbox: Seq::empty() }));
        }
        o
    }

    pub fn is_closed(&self) -> (r: bool)
        ensures
            r == self@.closed,
    {
        self.closed
    }

    /// Deliver a value to this sink.
    pub fn next(&mut self, v: V)
        ensures
            final(self)@ == old(self)@.accept(Event::Next(v)),
    {
        if !self.closed {
            self.received.push(Event::Next(v));
        }
    }

    /// Deliver a terminal error to this sink, closing it.
    pub fn err(&mut self, e: ErrValue)
        ensures
            final(self)@ == old(self)@.accept(Event::Error(e)),
    {
        if !self.closed {
            self.received.push(Event::Error(e));
            self.closed = true;
        }
    }

    /// Deliver completion to this sink, closing it.
    pub fn complete(&mut self)
        ensures
            final(self)@ == old(self)@.accept(Event::Complete),
    {
        if !self.closed {
            self.received.push(Event::Complete);
            self.closed = true;
        }
    }

    /// Everything this observer has received, in delivery order.
    pub fn events(&self) -> (r: &Vec<Event<V>>)
        ensures
            r@ == self@.inbox,
    {
        &self.received
    }
}

} // verus!
