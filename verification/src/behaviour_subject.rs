use vstd::prelude::*;

use crate::event::ErrValue;
use crate::event::Event;
use crate::observer::ObsModel;
use crate::observer::Observer;
use crate::subject::EntryModel;
use crate::subject::SubjModel;
use crate::subject::Subject;
use crate::unsub_ref::UnsubRef;

verus! {

/// Ghost model of a behavior subject: the cached last value, if any, and the
/// model of the delegated subject.
#[verifier::ext_equal]
pub ghost struct BsModel<V> {
    pub cache: Option<V>,
    pub subj: SubjModel<V>,
}

impl<V> BsModel<V> {
    pub open spec fn inv(self) -> bool {
        self.subj.inv()
    }

    /// A value arrives: a closed behavior subject drops it; an open one caches
    /// it and then fans it out through the delegated subject.
    pub open spec fn on_next(self, v: V) -> BsModel<V> {
        if self.subj.closed {
            self
        } else {
            BsModel { cache: Some(v), subj: self.subj.on_next(v) }
        }
    }

    /// A terminal error arrives: the cache is cleared, whatever the state, and
    /// the error is delegated to the subject, which closes.
    pub open spec fn on_err(self, e: ErrValue) -> BsModel<V> {
        BsModel { cache: None, subj: self.subj.on_err(e) }
    }

    /// Completion arrives: it is delegated to the subject; the cache stays, so
    /// the last value can still be read after completion.
    pub open spec fn on_complete(self) -> BsModel<V> {
        BsModel { cache: self.cache, subj: self.subj.on_complete() }
    }

    /// An explicit reset of the cache.
    pub open spec fn on_clear(self) -> BsModel<V> {
        BsModel { cache: None, subj: self.subj }
    }

    /// The sink as it stands after the cache replay: if a value is cached it
    /// is delivered to the sink first, before any registration.
    pub open spec fn replayed(self, o: ObsModel<V>) -> ObsModel<V> {
        match self.cache {
            Some(v) => o.accept(Event::Next(v)),
            None => o,
        }
    }

    /// Registration: a closed sink is refused outright. An open sink first
    /// receives the cached value, if one is present; registration with the
    /// delegated subject then happens only while that subject is open.
    pub open spec fn on_subscribe(self, o: ObsModel<V>) -> BsModel<V> {
        if o.closed {
            self
        } else {
            BsModel { cache: self.cache, subj: self.subj.on_subscribe(self.replayed(o)) }
        }
    }

    /// Release delegates to the subject's registry.
    pub open spec fn on_unsubscribe(self, id: u64) -> BsModel<V> {
        BsModel { cache: self.cache, subj: self.subj.on_unsubscribe(id) }
    }
}

/// A subject that additionally caches the most recently accepted value and
/// replays it, synchronously, to every new subscriber before registering it.
pub struct BehaviorSubject<V> {
    pub cache: Option<V>,
    pub subj: Subject<V>,
}

impl<V> View for BehaviorSubject<V> {
    type V = BsModel<V>;

    open spec fn view(&self) -> BsModel<V> {
        BsModel { cache: self.cache, subj: self.subj@ }
    }
}

impl<V: Copy> BehaviorSubject<V> {
    /// A fresh, open behavior subject, optionally pre-seeded with a value.
    pub fn new(value: Option<V>) -> (s: BehaviorSubject<V>)
        ensures
            s@ == (BsModel::<V> { cache: value, subj: SubjModel::fresh() }),
            s@.inv(),
    {
        let s = BehaviorSubject { cache: value, subj: Subject::new() };
        proof {
            assert(s@ =~= (BsModel::<V> { cache: value, subj: SubjModel::fresh() }));
        }
        s
    }

    /// A copy of the current cached value; no side effect.
    pub fn value(&self) -> (r: Option<V>)
        ensures
            r == self@.cache,
    {
        self.cache
    }

    /// Reset the cache to absent.
    pub fn clear_value(&mut self)
        ensures
            final(self)@ == old(self)@.on_clear(),
    {
        self.cache = None;
    }

    /// Delegates to the inner subject.
    pub fn is_closed(&self) -> (r: bool)
        ensures
            r == self@.subj.closed,
    {
        self.subj.is_closed()
    }

    /// How many sinks are currently registered with the inner subject.
    pub fn subscriber_count(&self) -> (r: usize)
        ensures
            r == self@.subj.entries.len(),
    {
        self.subj.subscriber_count()
    }

    /// Register a sink. A closed sink is refused and handed back untouched.
    /// An open sink first receives the cached value, if any; if the subject
    /// turns out closed, the sink is handed back after that replay, with the
    /// empty handle; otherwise it is registered with the delegated subject.
    pub fn subscribe(&mut self, obs: Observer<V>) -> (r: (UnsubRef, Option<Observer<V>>))
        requires
            old(self)@.inv(),
            old(self)@.subj.next_id < u64::MAX,
        ensures
            final(self)@ == old(self)@.on_subscribe(obs@),
            final(self)@.inv(),
            obs@.closed ==> r.0.id is None && r.1 == Some(obs),
            (!obs@.closed && old(self)@.subj.closed) ==> r.0.id is None && (r.1 matches Some(o)
                && o@ == old(self)@.replayed(obs@)),
            (!obs@.closed && !old(self)@.subj.closed) ==> r.0.id == Some(old(self)@.subj.next_id)
                && r.1 is None,
    {
        if obs.is_closed() {
            return (UnsubRef::empty(), Some(obs));
        }
        let mut obs = obs;
        if let Some(v) = self.cache {
            obs.next(v);
        }
        if obs.is_closed() || self.subj.is_closed() {
            return (UnsubRef::empty(), Some(obs));
        }
        self.subj.subscribe(obs)
    }

    /// A value arrives: dropped if closed; otherwise the cache takes it first,
    /// then the delegated subject fans it out.
    pub fn next(&mut self, v: V)
        requires
            old(self)@.inv(),
        ensures
            final(self)@ == old(self)@.on_next(v),
            final(self)@.inv(),
    {
        if self.subj.is_closed() {
            return ;
        }
        self.cache = Some(v);
        self.subj.next(v);
    }

    /// A terminal error arrives: the cache is cleared before the error is
    /// delegated, so a stale value can never be replayed afterwards.
    pub fn err(&mut self, e: ErrValue)
        requires
            old(self)@.inv(),
        ensures
            final(self)@ == old(self)@.on_err(e),
            final(self)@.inv(),
    {
        self.clear_value();
        self.subj.err(e);
    }

    /// Completion is delegated to the inner subject; the cache stays.
    pub fn complete(&mut self)
        requires
            old(self)@.inv(),
        ensures
            final(self)@ == old(self)@.on_complete(),
            final(self)@.inv(),
    {
        self.subj.complete();
    }

    /// Release a handle issued by `subscribe`; see `Subject::unsubscribe`.
    pub fn unsubscribe(&mut self, u: &mut UnsubRef) -> (r: Option<Observer<V>>)
        requires
            old(self)@.inv(),
        ensures
            final(self)@.inv(),
            final(u).id is None,
            final(self)@.cache == old(self)@.cache,
            old(u).id is None ==> final(self)@ == old(self)@ && r is None,
            old(u).id matches Some(id) ==> {
                &&& final(self)@ == old(self)@.on_unsubscribe(id)
                &&& old(self)@.subj.has_id(id) ==> (r matches Some(o) && o@ == old(
                    self,
                )@.subj.entries[old(self)@.subj.idx_of(id)].obs)
                &&& !old(self)@.subj.has_id(id) ==> r is None
            },
    {
        self.subj.unsubscribe(u)
    }
}

/// The cache after a whole run of values has been accepted, one `on_next` at
/// a time, left to right.
pub open spec fn next_all<V>(m: BsModel<V>, vs: Seq<V>) -> BsModel<V>
    decreases vs.len(),
{
    if vs.len() == 0 {
        m
    } else {
        next_all(m.on_next(vs[0]), vs.drop_first())
    }
}

/// Law: after any run of accepted values, the cached value is exactly the
/// last one emitted, and the subject is still open.
pub proof fn lemma_value_tracks_last_next<V>(m: BsModel<V>, vs: Seq<V>)
    requires
        !m.subj.closed,
        vs.len() > 0,
    ensures
        next_all(m, vs).cache == Some(vs.last()),
        !next_all(m, vs).subj.closed,
    decreases vs.len(),
{
    let m1 = m.on_next(vs[0]);
    if vs.len() == 1 {
        assert(next_all(m1, vs.drop_first()) == m1);
    } else {
        lemma_value_tracks_last_next(m1, vs.drop_first());
        assert(vs.drop_first().last() == vs.last());
    }
}

/// Law: an error clears the cache and closes the subject for good; a value
/// arriving afterwards changes nothing, so the cache stays absent.
pub proof fn lemma_err_clears_for_good<V>(m: BsModel<V>, e: ErrValue, v: V)
    ensures
        m.on_err(e).cache is None,
        m.on_err(e).subj.closed,
        m.on_err(e).on_next(v) == m.on_err(e),
        m.on_err(e).on_next(v).cache is None,
{
}

/// Law: a subscriber arriving while a value is cached receives exactly that
/// value, exactly once, before anything emitted later: its inbox grows by the
/// cached value at registration, and a later emission lands after it.
pub proof fn lemma_replay_once_before_live<V>(m: BsModel<V>, o: ObsModel<V>, v: V, w: V)
    requires
        !m.subj.closed,
        !o.closed,
        m.cache == Some(v),
    ensures
        m.on_subscribe(o).subj.entries.len() == m.subj.entries.len() + 1,
        m.on_subscribe(o).subj.entries.last() == (EntryModel {
            id: m.subj.next_id,
            obs: o.accept(Event::Next(v)),
        }),
        m.on_subscribe(o).subj.entries.last().obs.inbox == o.inbox.push(Event::Next(v)),
        m.on_subscribe(o).on_next(w).subj.entries.last().obs.inbox == o.inbox.push(
            Event::Next(v),
        ).push(Event::Next(w)),
{
    let m1 = m.on_subscribe(o);
    let n = m1.subj.entries.len();
    assert(m1.subj.entries.last() == (EntryModel {
        id: m.subj.next_id,
        obs: o.accept(Event::Next(v)),
    }));
    let m2 = m1.on_next(w);
    assert(m2.subj.entries[n - 1] == (EntryModel {
        id: m1.subj.entries[n - 1].id,
        obs: m1.subj.entries[n - 1].obs.accept(Event::Next(w)),
    }));
}

/// Law: a closed behavior subject with nothing cached neither registers a new
/// subscriber nor delivers anything to it: the state is unchanged, the sink
/// comes back exactly as it went in.
pub proof fn lemma_closed_behavior_rejects<V>(m: BsModel<V>, o: ObsModel<V>)
    requires
        m.subj.closed,
        m.cache is None,
    ensures
        m.on_subscribe(o) == m,
        m.replayed(o) == o,
{
}

/// A completed behavior subject still holds its last value, and spec'd
/// replay-before-registration delivers that value once to a late subscriber,
/// which is then refused: the registry is unchanged and the sink comes back
/// holding exactly the one replayed value.
pub proof fn lemma_completed_still_replays<V>(m: BsModel<V>, o: ObsModel<V>, v: V)
    requires
        m.subj.closed,
        m.cache == Some(v),
        !o.closed,
    ensures
        m.on_subscribe(o) == m,
        m.replayed(o).inbox == o.inbox.push(Event::Next(v)),
{
}

} // verus!
