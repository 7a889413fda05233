//! A reactive-stream core: a multicast `Subject`, a value-caching
//! `BehaviorSubject`, the `UnsubRef` subscription handle, and event-sequence
//! forms of the usual stream operators, all with machine-checked contracts.

pub mod behaviour_subject;
pub mod event;
pub mod observer;
pub mod op;
pub mod subject;
pub mod unsub_ref;
