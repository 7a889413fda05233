use rxcore::event::ErrValue;
use rxcore::event::Event;
use rxcore::observer::Observer;
use rxcore::subject::Subject;
use rxcore::unsub_ref::UnsubRef;

#[test]
fn unsubscribe_stops_delivery() {
    let mut subj = Subject::<i32>::new();
    let (mut u, rejected) = subj.subscribe(Observer::new());
    assert!(rejected.is_none());
    subj.next(5);
    let a = subj.unsubscribe(&mut u).expect("the entry was registered");
    assert_eq!(*a.events(), vec![Event::Next(5)]);
    subj.next(6);
    // `a` left the registry with the release; nothing can reach it any more.
    assert_eq!(*a.events(), vec![Event::Next(5)]);
    assert_eq!(subj.subscriber_count(), 0);
}

#[test]
fn release_twice_is_a_noop() {
    let mut subj = Subject::<i32>::new();
    let (mut u, _) = subj.subscribe(Observer::new());
    let (mut u2, _) = subj.subscribe(Observer::new());
    assert_eq!(subj.subscriber_count(), 2);
    assert!(subj.unsubscribe(&mut u).is_some());
    assert!(!u.is_active());
    assert!(subj.unsubscribe(&mut u).is_none());
    assert_eq!(subj.subscriber_count(), 1);
    assert!(subj.unsubscribe(&mut u2).is_some());
    assert_eq!(subj.subscriber_count(), 0);
}

#[test]
fn multicast_reaches_every_subscriber() {
    let mut subj = Subject::<i32>::new();
    let (mut ua, _) = subj.subscribe(Observer::new());
    let (mut ub, _) = subj.subscribe(Observer::new());
    subj.next(1);
    subj.next(2);
    let a = subj.unsubscribe(&mut ua).expect("the entry was registered");
    let b = subj.unsubscribe(&mut ub).expect("the entry was registered");
    assert_eq!(*a.events(), vec![Event::Next(1), Event::Next(2)]);
    assert_eq!(*b.events(), vec![Event::Next(1), Event::Next(2)]);
}

#[test]
fn err_fans_out_and_closes() {
    let mut subj = Subject::<i32>::new();
    let (mut u, _) = subj.subscribe(Observer::new());
    subj.next(1);
    subj.err(ErrValue::Code(9));
    assert!(subj.is_closed());
    subj.next(2);
    let o = subj.unsubscribe(&mut u).expect("the entry was registered");
    assert_eq!(
        *o.events(),
        vec![Event::Next(1), Event::Error(ErrValue::Code(9))]
    );
}

#[test]
fn complete_fans_out_and_closes() {
    let mut subj = Subject::<i32>::new();
    let (mut u, _) = subj.subscribe(Observer::new());
    subj.complete();
    assert!(subj.is_closed());
    subj.complete();
    subj.err(ErrValue::Other);
    let o = subj.unsubscribe(&mut u).expect("the entry was registered");
    assert_eq!(*o.events(), vec![Event::Complete]);
}

#[test]
fn closed_subject_rejects_subscribers() {
    let mut subj = Subject::<i32>::new();
    subj.complete();
    let (u, rejected) = subj.subscribe(Observer::new());
    assert!(!u.is_active());
    let o = rejected.expect("the sink comes back");
    assert!(o.events().is_empty());
    assert_eq!(subj.subscriber_count(), 0);
}

#[test]
fn empty_handle_releases_nothing() {
    let mut subj = Subject::<i32>::new();
    let (_u, _) = subj.subscribe(Observer::new());
    let mut e = UnsubRef::empty();
    assert!(!e.is_active());
    assert!(subj.unsubscribe(&mut e).is_none());
    assert_eq!(subj.subscriber_count(), 1);
}

#[test]
fn subjects_are_independent() {
    let mut a = Subject::<i32>::new();
    let mut b = Subject::<i32>::new();
    let (mut ua, _) = a.subscribe(Observer::new());
    b.next(1);
    a.next(2);
    let o = a.unsubscribe(&mut ua).expect("the entry was registered");
    assert_eq!(*o.events(), vec![Event::Next(2)]);
}
