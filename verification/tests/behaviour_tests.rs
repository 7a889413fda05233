use rxcore::behaviour_subject::BehaviorSubject;
use rxcore::event::ErrValue;
use rxcore::event::Event;
use rxcore::observer::Observer;

#[test]
fn value() {
    let mut s = BehaviorSubject::<i32>::new(None);
    assert!(s.value().is_none());

    s.next(1);
    assert_eq!(s.value().unwrap(), 1);

    s.err(ErrValue::Other);
    s.next(2);
    assert!(s.value().is_none());
}

#[test]
fn last_emitted_value_wins() {
    let mut s = BehaviorSubject::<i32>::new(Some(10));
    s.next(1);
    s.next(2);
    s.next(3);
    assert_eq!(s.value(), Some(3));
}

#[test]
fn err_clears_a_seeded_value() {
    let mut s = BehaviorSubject::<i32>::new(Some(42));
    assert_eq!(s.value(), Some(42));
    s.err(ErrValue::Code(7));
    assert_eq!(s.value(), None);
    s.next(5);
    assert_eq!(s.value(), None);
    assert!(s.is_closed());
}

#[test]
fn cached_value_replays_once_before_live_values() {
    let mut s = BehaviorSubject::<i32>::new(Some(7));
    let (mut u, rejected) = s.subscribe(Observer::new());
    assert!(rejected.is_none());
    assert!(u.is_active());
    s.next(8);
    let o = s.unsubscribe(&mut u).expect("the entry was registered");
    assert_eq!(*o.events(), vec![Event::Next(7), Event::Next(8)]);
}

#[test]
fn subscribe_without_cache_sees_only_live_values() {
    let mut s = BehaviorSubject::<i32>::new(None);
    let (mut u, rejected) = s.subscribe(Observer::new());
    assert!(rejected.is_none());
    s.next(1);
    let o = s.unsubscribe(&mut u).expect("the entry was registered");
    assert_eq!(*o.events(), vec![Event::Next(1)]);
}

#[test]
fn errored_behavior_subject_rejects_subscribers() {
    let mut s = BehaviorSubject::<i32>::new(Some(1));
    s.err(ErrValue::Other);
    let (u, rejected) = s.subscribe(Observer::new());
    assert!(!u.is_active());
    let o = rejected.expect("the sink comes back");
    assert!(o.events().is_empty());
    assert_eq!(s.subscriber_count(), 0);
}

#[test]
fn closed_observer_is_refused() {
    let mut s = BehaviorSubject::<i32>::new(Some(1));
    let (u, rejected) = s.subscribe(Observer::new_closed());
    assert!(!u.is_active());
    let o = rejected.expect("the sink comes back");
    assert!(o.events().is_empty());
    assert_eq!(s.subscriber_count(), 0);
}

#[test]
fn completed_behavior_subject_keeps_value_and_replays_it() {
    let mut s = BehaviorSubject::<i32>::new(None);
    s.next(3);
    s.complete();
    assert_eq!(s.value(), Some(3));
    let (u, rejected) = s.subscribe(Observer::new());
    assert!(!u.is_active());
    let o = rejected.expect("the sink comes back");
    assert_eq!(*o.events(), vec![Event::Next(3)]);
    assert_eq!(s.subscriber_count(), 0);
}

#[test]
fn clear_value_resets_the_cache() {
    let mut s = BehaviorSubject::<i32>::new(Some(9));
    s.clear_value();
    assert_eq!(s.value(), None);
    s.next(4);
    assert_eq!(s.value(), Some(4));
}

#[test]
fn complete_fans_out_through_behavior_subject() {
    let mut s = BehaviorSubject::<i32>::new(None);
    let (mut u, _) = s.subscribe(Observer::new());
    s.next(1);
    s.complete();
    assert!(s.is_closed());
    let o = s.unsubscribe(&mut u).expect("the entry was registered");
    assert_eq!(*o.events(), vec![Event::Next(1), Event::Complete]);
}
