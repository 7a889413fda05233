use vstd::prelude::*;

verus! {

/// Opaque, shareable payload carried by a terminal `err` event. Producers that
/// have nothing structured to report use `Other`.
#[derive(Clone, Copy, PartialEq, Eq, Structural, Debug)]
pub enum ErrValue {
    Code(u64),
    Other,
}

/// One delivery made to an observer: a value, a terminal error, or completion.
#[derive(Clone, Copy, PartialEq, Eq, Structural, Debug)]
pub enum Event<V> {
    Next(V),
    Error(ErrValue),
    Complete,
}

impl<V> Event<V> {
    /// `err` and `complete` end a stream; `next` does not.
    pub open spec fn is_terminal(self) -> bool {
        !(self is Next)
    }
}

} // verus!
