//! Stream operators in event-sequence form: each operator maps what an
//! upstream source would deliver to one subscriber, in order, to what the
//! operator's own subscriber receives. An operator that detaches early also
//! reports how many upstream events it consumed before releasing its
//! upstream subscription.

pub mod filter;
pub mod map;
pub mod skip;
pub mod take;
pub mod take_until;
