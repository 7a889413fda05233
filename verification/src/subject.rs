use vstd::prelude::*;
use vstd::pervasive::VecAdditionalExecFns;

use crate::event::ErrValue;
use crate::event::Event;
use crate::observer::ObsModel;
use crate::observer::Observer;
use crate::unsub_ref::UnsubRef;

verus! {

/// Ghost model of one registry entry: the identity the subject issued for it
/// and the model of the registered sink.
#[verifier::ext_equal]
pub ghost struct EntryModel<V> {
    pub id: u64,
    pub obs: ObsModel<V>,
}

/// Ghost model of a multicast subject: its closed flag, the next identity it
/// will issue, and its registry in registration order.
#[verifier::ext_equal]
pub ghost struct SubjModel<V> {
    pub closed: bool,
    pub next_id: u64,
    pub entries: Seq<EntryModel<V>>,
}

impl<V> SubjModel<V> {
    /// A freshly made subject: open, empty, with no identity issued yet.
    pub open spec fn fresh() -> SubjModel<V> {
        SubjModel { closed: false, next_id: 0, entries: Seq::empty() }
    }

    /// Registry well-formedness: identities are distinct and below `next_id`.
    pub open spec fn inv(self) -> bool {
        &&& forall|i: int, j: int|
            0 <= i < j < self.entries.len() ==> (#[trigger] self.entries[i]).id != (
            #[trigger] self.entries[j]).id
        &&& forall|i: int|
            0 <= i < self.entries.len() ==> (#[trigger] self.entries[i]).id < self.next_id
    }

    /// Is some entry registered under this identity?
    pub open spec fn has_id(self, id: u64) -> bool {
        exists|i: int| 0 <= i < self.entries.len() && (#[trigger] self.entries[i]).id == id
    }

    /// The position of the entry registered under this identity.
    pub open spec fn idx_of(self, id: u64) -> int {
        choose|i: int| 0 <= i < self.entries.len() && (#[trigger] self.entries[i]).id == id
    }

    /// Every registered sink accepts the event; identities are untouched.
    pub open spec fn fan_out(self, e: Event<V>) -> Seq<EntryModel<V>> {
        self.entries.map_values(|en: EntryModel<V>| EntryModel { id: en.id, obs: en.obs.accept(e) })
    }

    /// A value arrives: a closed subject drops it; an open one forwards it to
    /// every registered sink.
    pub open spec fn on_next(self, v: V) -> SubjModel<V> {
        if self.closed {
            self
        } else {
            SubjModel {
                closed: false,
                next_id: self.next_id,
                entries: self.fan_out(Event::Next(v)),
            }
        }
    }

    /// A terminal error arrives: a closed subject drops it; an open one
    /// forwards it to every registered sink and closes for good.
    pub open spec fn on_err(self, e: ErrValue) -> SubjModel<V> {
        if self.closed {
            self
        } else {
            SubjModel {
                closed: true,
                next_id: self.next_id,
                entries: self.fan_out(Event::Error(e)),
            }
        }
    }

    /// Completion arrives: a closed subject drops it; an open one forwards it
    /// to every registered sink and closes for good.
    pub open spec fn on_complete(self) -> SubjModel<V> {
        if self.closed {
            self
        } else {
            SubjModel { closed: true, next_id: self.next_id, entries: self.fan_out(Event::Complete) }
        }
    }

    /// Registration: a closed subject, or a closed sink, changes nothing; an
    /// open subject appends the sink under a fresh identity.
    pub open spec fn on_subscribe(self, o: ObsModel<V>) -> SubjModel<V> {
        if o.closed || self.closed {
            self
        } else {
            SubjModel {
                closed: false,
                next_id: (self.next_id + 1) as u64,
                entries: self.entries.push(EntryModel { id: self.next_id, obs: o }),
            }
        }
    }

    /// Release: the entry under this identity, if any, leaves the registry;
    /// everything else is untouched.
    pub open spec fn on_unsubscribe(self, id: u64) -> SubjModel<V> {
        if self.has_id(id) {
            SubjModel {
                closed: self.closed,
                next_id: self.next_id,
                entries: self.entries.remove(self.idx_of(id)),
            }
        } else {
            self
        }
    }
}

/// In a well-formed registry an identity names at most one entry, so a found
/// position is the position `idx_of` speaks of.
pub proof fn lemma_idx_of_found<V>(m: SubjModel<V>, id: u64, i: int)
    requires
        m.inv(),
        0 <= i < m.entries.len(),
        m.entries[i].id == id,
    ensures
        m.has_id(id),
        m.idx_of(id) == i,
{
    assert(m.has_id(id));
    let j = m.idx_of(id);
    assert(0 <= j < m.entries.len() && m.entries[j].id == id);
    if i < j {
        assert(m.entries[i].id != m.entries[j].id);
    } else if j < i {
        assert(m.entries[j].id != m.entries[i].id);
    }
}

/// One registry entry as the subject holds it.
pub struct SubEntry<V> {
    pub id: u64,
    pub obs: Observer<V>,
}

impl<V> View for SubEntry<V> {
    type V = EntryModel<V>;

    open spec fn view(&self) -> EntryModel<V> {
        EntryModel { id: self.id, obs: self.obs@ }
    }
}

/// The multicast hub: subscribers register with it, and every value, error or
/// completion handed to it fans out to all currently registered sinks.
pub struct Subject<V> {
    pub closed: bool,
    pub next_id: u64,
    pub entries: Vec<SubEntry<V>>,
}

impl<V> View for Subject<V> {
    type V = SubjModel<V>;

    open spec fn view(&self) -> SubjModel<V> {
        SubjModel {
            closed: self.closed,
            next_id: self.next_id,
            entries: self.entries@.map_values(|en: SubEntry<V>| en@),
        }
    }
}

impl<V: Copy> Subject<V> {
    /// A fresh, open subject with an empty registry.
    pub fn new() -> (s: Subject<V>)
        ensures
            s@ == SubjModel::<V>::fresh(),
            s@.inv(),
    {
        let s = Subject { closed: false, next_id: 0, entries: Vec::new() };
        proof {
            assert(s@ =~= SubjModel::<V>::fresh());
        }
        s
    }

    /// True once `err` or `complete` has been accepted, permanently.
    pub fn is_closed(&self) -> (r: bool)
        ensures
            r == self@.closed,
    {
        self.closed
    }

    /// How many sinks are currently registered.
    pub fn subscriber_count(&self) -> (r: usize)
        ensures
            r == self@.entries.len(),
    {
        self.entries.len()
    }

    /// Deliver one event to every registered sink, touching nothing else.
    fn deliver_all(&mut self, e: Event<V>)
        ensures
            final(self)@.closed == old(self)@.closed,
            final(self)@.next_id == old(self)@.next_id,
            final(self)@.entries == old(self)@.fan_out(e),
    {
        let ghost m0: SubjModel<V> = self@;
        let n = self.entries.len();
        let mut i: usize = 0;
        while i < n
            invariant
                i <= n,
                n == self.entries@.len(),
                self.closed == m0.closed,
                self.next_id == m0.next_id,
                m0.entries.len() == n,
                forall|j: int|
                    0 <= j < i ==> #[trigger] self.entries@[j]@ =~= (EntryModel {
                        id: m0.entries[j].id,
                        obs: m0.entries[j].obs.accept(e),
                    }),
                forall|j: int| i <= j < n ==> #[trigger] self.entries@[j]@ =~= m0.entries[j],
            decreases n - i,
        {
            let mut ent: SubEntry<V> = SubEntry { id: 0, obs: Observer::new() };
            self.entries.set_and_swap(i, &mut ent);
            proof {
                assert(ent@ =~= m0.entries[i as int]);
            }
            match e {
                Event::Next(v) => ent.obs.next(v),
                Event::Error(er) => ent.obs.err(er),
                Event::Complete => ent.obs.complete(),
            }
            proof {
                assert(ent@ =~= (EntryModel {
                    id: m0.entries[i as int].id,
                    obs: m0.entries[i as int].obs.accept(e),
                }));
            }
            self.entries.set_and_swap(i, &mut ent);
            i = i + 1;
        }
        proof {
            assert(final(self)@.entries =~= m0.fan_out(e));
        }
    }

    /// A value arrives: dropped if the subject is closed, otherwise forwarded
    /// to every registered sink.
    pub fn next(&mut self, v: V)
        requires
            old(self)@.inv(),
        ensures
            final(self)@ == old(self)@.on_next(v),
            final(self)@.inv(),
    {
        if self.closed {
            return ;
        }
        self.deliver_all(Event::Next(v));
        proof {
            assert(final(self)@ =~= old(self)@.on_next(v));
        }
    }

    /// A terminal error arrives: dropped if the subject is already closed,
    /// otherwise forwarded to every registered sink; the subject closes.
    pub fn err(&mut self, e: ErrValue)
        requires
            old(self)@.inv(),
        ensures
            final(self)@ == old(self)@.on_err(e),
            final(self)@.inv(),
    {
        if self.closed {
            return ;
        }
        self.deliver_all(Event::Error(e));
        self.closed = true;
        proof {
            assert(final(self)@ =~= old(self)@.on_err(e));
        }
    }

    /// Completion arrives: dropped if the subject is already closed, otherwise
    /// forwarded to every registered sink; the subject closes.
    pub fn complete(&mut self)
        requires
            old(self)@.inv(),
        ensures
            final(self)@ == old(self)@.on_complete(),
            final(self)@.inv(),
    {
        if self.closed {
            return ;
        }
        self.deliver_all(Event::Complete);
        self.closed = true;
        proof {
            assert(final(self)@ =~= old(self)@.on_complete());
        }
    }

    /// Register a sink. A closed sink, and a closed subject, are refused: the
    /// registry is untouched, the sink comes back unchanged beside the empty
    /// handle. Otherwise the sink is appended under a fresh identity, and the
    /// returned handle releases exactly that entry.
    pub fn subscribe(&mut self, obs: Observer<V>) -> (r: (UnsubRef, Option<Observer<V>>))
        requires
            old(self)@.inv(),
            old(self)@.next_id < u64::MAX,
        ensures
            final(self)@ == old(self)@.on_subscribe(obs@),
            final(self)@.inv(),
            (obs@.closed || old(self)@.closed) ==> r.0.id is None && r.1 == Some(obs),
            (!obs@.closed && !old(self)@.closed) ==> r.0.id == Some(old(self)@.next_id) && r.1
                is None,
    {
        if obs.is_closed() || self.closed {
            return (UnsubRef::empty(), Some(obs));
        }
        let id = self.next_id;
        self.next_id = self.next_id + 1;
        self.entries.push(SubEntry { id, obs });
        proof {
            assert(final(self)@.entries =~= old(self)@.entries.push(
                final(self)@.entries.last(),
            ));
            assert(final(self)@ =~= old(self)@.on_subscribe(obs@));
        }
        (UnsubRef::active(id), None)
    }

    /// Release a handle. An empty handle finds nothing to do; an active one
    /// removes the entry it stands for, hands its sink back, and is left
    /// empty, so releasing it again changes nothing.
    pub fn unsubscribe(&mut self, u: &mut UnsubRef) -> (r: Option<Observer<V>>)
        requires
            old(self)@.inv(),
        ensures
            final(self)@.inv(),
            final(u).id is None,
            old(u).id is None ==> final(self)@ == old(self)@ && r is None,
            old(u).id matches Some(id) ==> {
                &&& final(self)@ == old(self)@.on_unsubscribe(id)
                &&& old(self)@.has_id(id) ==> (r matches Some(o) && o@ == old(
                    self,
                )@.entries[old(self)@.idx_of(id)].obs)
                &&& !old(self)@.has_id(id) ==> r is None
            },
    {
        let id = match u.id {
            Some(id) => id,
            None => {
                return None;
            },
        };
        u.id = None;
        let n = self.entries.len();
        let mut i: usize = 0;
        while i < n
            invariant
                i <= n,
                n == self.entries@.len(),
                self@ == old(self)@,
                self@.inv(),
                u.id is None,
                old(u).id == Some(id),
                forall|j: int| 0 <= j < i ==> (#[trigger] self.entries@[j]).id != id,
            decreases n - i,
        {
            if self.entries[i].id == id {
                proof {
                    assert(self@.entries[i as int].id == id);
                    lemma_idx_of_found(self@, id, i as int);
                }
                let ent = self.entries.remove(i);
                proof {
                    assert(ent@ == old(self)@.entries[old(self)@.idx_of(id)]);
                    assert(final(self)@.entries =~= old(self)@.entries.remove(
                        old(self)@.idx_of(id),
                    ));
                    assert(final(self)@ =~= old(self)@.on_unsubscribe(id));
                }
                return Some(ent.obs);
            }
            i = i + 1;
        }
        proof {
            assert(forall|j: int|
                0 <= j < self@.entries.len() ==> (#[trigger] self@.entries[j]).id != id);
            assert(!self@.has_id(id));
        }
        None
    }
}

/// Law: closure is permanent. Once a subject is closed, no later event,
/// registration or release reopens it, and events change nothing at all.
pub proof fn lemma_closed_is_permanent<V>(
    m: SubjModel<V>,
    v: V,
    e: ErrValue,
    o: ObsModel<V>,
    id: u64,
)
    requires
        m.closed,
    ensures
        m.on_next(v) == m,
        m.on_err(e) == m,
        m.on_complete() == m,
        m.on_subscribe(o).closed,
        m.on_unsubscribe(id).closed,
{
}

/// Law: an emission reaches every registered sink that is still open, each
/// under its own identity: the event lands at the end of that sink's inbox,
/// and a terminal event closes the sink.
pub proof fn lemma_fan_out_reaches_every_open_sink<V>(m: SubjModel<V>, e: Event<V>, j: int)
    requires
        0 <= j < m.entries.len(),
        !m.entries[j].obs.closed,
    ensures
        m.fan_out(e)[j].id == m.entries[j].id,
        m.fan_out(e)[j].obs.inbox == m.entries[j].obs.inbox.push(e),
        m.fan_out(e)[j].obs.closed == e.is_terminal(),
{
}

/// Law: a closed subject registers nobody. Subscribing to it changes nothing,
/// so the refused sink can never be delivered to.
pub proof fn lemma_closed_subject_rejects<V>(m: SubjModel<V>, o: ObsModel<V>)
    requires
        m.closed,
    ensures
        m.on_subscribe(o) == m,
{
}

/// After a release, nothing in the registry carries the released identity.
pub proof fn lemma_release_removes_id<V>(m: SubjModel<V>, id: u64)
    requires
        m.inv(),
    ensures
        !m.on_unsubscribe(id).has_id(id),
        m.on_unsubscribe(id).inv(),
{
    let m1 = m.on_unsubscribe(id);
    if m.has_id(id) {
        let i = m.idx_of(id);
        assert(0 <= i < m.entries.len() && m.entries[i].id == id);
        m.entries.remove_ensures(i);
        assert forall|j: int| 0 <= j < m1.entries.len() implies (#[trigger] m1.entries[j]).id
            != id by {
            if j < i {
                assert(m1.entries[j] == m.entries[j]);
                lemma_idx_of_found(m, id, i);
            } else {
                assert(m1.entries[j] == m.entries[j + 1]);
            }
        }
        assert forall|j: int, k: int|
            0 <= j < k < m1.entries.len() implies (#[trigger] m1.entries[j]).id != (
        #[trigger] m1.entries[k]).id by {
            assert(m1.entries[j] == if j < i {
                m.entries[j]
            } else {
                m.entries[j + 1]
            });
            assert(m1.entries[k] == if k < i {
                m.entries[k]
            } else {
                m.entries[k + 1]
            });
        }
        assert forall|j: int| 0 <= j < m1.entries.len() implies (#[trigger] m1.entries[j]).id
            < m1.next_id by {
            assert(m1.entries[j] == if j < i {
                m.entries[j]
            } else {
                m.entries[j + 1]
            });
        }
    }
}

/// Law: releasing a subscription twice has the same effect as releasing it
/// once; the second release finds no entry and changes nothing.
pub proof fn lemma_release_idempotent<V>(m: SubjModel<V>, id: u64)
    requires
        m.inv(),
    ensures
        m.on_unsubscribe(id).on_unsubscribe(id) == m.on_unsubscribe(id),
{
    lemma_release_removes_id(m, id);
}

/// Law: a released subscription receives nothing further. After the release,
/// no event delivered to the subject reaches an entry under that identity,
/// because no such entry remains.
pub proof fn lemma_release_stops_delivery<V>(m: SubjModel<V>, id: u64, v: V)
    requires
        m.inv(),
    ensures
        forall|j: int|
            0 <= j < m.on_unsubscribe(id).on_next(v).entries.len() ==> (
            #[trigger] m.on_unsubscribe(id).on_next(v).entries[j]).id != id,
{
    lemma_release_removes_id(m, id);
    let m1 = m.on_unsubscribe(id);
    let m2 = m1.on_next(v);
    assert forall|j: int| 0 <= j < m2.entries.len() implies (#[trigger] m2.entries[j]).id != id by {
        if !m1.closed {
            assert(m2.entries[j].id == m1.entries[j].id);
        }
        assert(!m1.has_id(id));
        assert(0 <= j < m1.entries.len() ==> m1.entries[j].id != id);
    }
}

} // verus!
