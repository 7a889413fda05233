use rxcore::event::ErrValue;
use rxcore::event::Event;
use rxcore::op::filter::filter_events;
use rxcore::op::map::map_events;
use rxcore::op::skip::skip_events;
use rxcore::op::take::take_events;
use rxcore::op::take_until::take_until_events;
use rxcore::op::take_until::SourceEvent;

#[test]
fn take_delivers_exactly_n_then_completes() {
    let upstream = vec![
        Event::Next(1),
        Event::Next(2),
        Event::Next(3),
        Event::Next(4),
        Event::Next(5),
    ];
    let (out, consumed) = take_events(&upstream, 3);
    assert_eq!(
        out,
        vec![
            Event::Next(1),
            Event::Next(2),
            Event::Next(3),
            Event::Complete
        ]
    );
    assert_eq!(consumed, 3);
}

#[test]
fn take_forwards_an_early_error() {
    let upstream = vec![Event::Next(1), Event::Error(ErrValue::Code(2)), Event::Next(3)];
    let (out, consumed) = take_events(&upstream, 5);
    assert_eq!(out, vec![Event::Next(1), Event::Error(ErrValue::Code(2))]);
    assert_eq!(consumed, 2);
}

#[test]
fn take_zero_completes_at_once() {
    let upstream = vec![Event::Next(1), Event::Next(2)];
    let (out, consumed) = take_events(&upstream, 0);
    assert_eq!(out, vec![Event::<i32>::Complete]);
    assert_eq!(consumed, 0);
}

#[test]
fn skip_drops_the_first_n_values() {
    let upstream = vec![
        Event::Next(1),
        Event::Next(2),
        Event::Next(3),
        Event::Complete,
    ];
    let out = skip_events(&upstream, 2);
    assert_eq!(out, vec![Event::Next(3), Event::Complete]);
}

#[test]
fn skip_forwards_a_terminal_inside_the_window() {
    let upstream = vec![Event::Next(1), Event::Error(ErrValue::Other)];
    let out = skip_events(&upstream, 5);
    assert_eq!(out, vec![Event::Error(ErrValue::Other)]);
}

#[test]
fn map_transforms_every_value() {
    let upstream = vec![Event::Next(1), Event::Next(2), Event::Complete];
    let out = map_events(&upstream, &|v: i32| v * 10);
    assert_eq!(out, vec![Event::Next(10), Event::Next(20), Event::Complete]);
}

#[test]
fn map_passes_errors_through() {
    let upstream = vec![Event::Next(4), Event::Error(ErrValue::Code(1))];
    let out = map_events(&upstream, &|v: i32| v + 1);
    assert_eq!(out, vec![Event::Next(5), Event::Error(ErrValue::Code(1))]);
}

#[test]
fn filter_keeps_only_matching_values() {
    let upstream = vec![
        Event::Next(1),
        Event::Next(2),
        Event::Next(3),
        Event::Next(4),
        Event::Complete,
    ];
    let out = filter_events(&upstream, &|v: i32| v % 2 == 0);
    assert_eq!(out, vec![Event::Next(2), Event::Next(4), Event::Complete]);
}

#[test]
fn take_until_completes_on_the_first_notice() {
    let merged = vec![
        SourceEvent::Upstream(Event::Next(1)),
        SourceEvent::Upstream(Event::Next(2)),
        SourceEvent::Notice,
        SourceEvent::Upstream(Event::Next(3)),
    ];
    let (out, consumed) = take_until_events(&merged);
    assert_eq!(out, vec![Event::Next(1), Event::Next(2), Event::Complete]);
    assert_eq!(consumed, 3);
}

#[test]
fn take_until_forwards_an_upstream_terminal_first() {
    let merged = vec![
        SourceEvent::Upstream(Event::Next(1)),
        SourceEvent::Upstream(Event::Complete),
        SourceEvent::Notice,
    ];
    let (out, consumed) = take_until_events(&merged);
    assert_eq!(out, vec![Event::Next(1), Event::Complete]);
    assert_eq!(consumed, 2);
}
