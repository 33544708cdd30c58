use cqrs_rust_lib::context::CqrsContext;
use cqrs_rust_lib::denormalizer::Dispatcher;
use cqrs_rust_lib::dispatchers::memory::InMemoryDispatcher;
use cqrs_rust_lib::event::EventEnvelope;
use cqrs_rust_lib::string_map::StringMap;
use cqrs_rust_lib::testing::{TestAggregate, TestEvent};

fn envelope(event_id: &str, aggregate_id: &str, version: usize, payload: TestEvent) -> EventEnvelope<TestEvent> {
    EventEnvelope {
        event_id: event_id.to_string(),
        aggregate_id: aggregate_id.to_string(),
        version,
        payload,
        metadata: StringMap::new(),
        at: 0,
    }
}

#[test]
fn test_in_memory_dispatcher() {
    let mut dispatcher = InMemoryDispatcher::<TestAggregate>::new();
    let context = CqrsContext::default();

    let events = vec![
        envelope(
            "event1",
            "agg1",
            1,
            TestEvent::Created {
                name: "toto".to_string(),
            },
        ),
        envelope(
            "event2",
            "agg1",
            2,
            TestEvent::Updated {
                name: "toto".to_string(),
            },
        ),
    ];

    dispatcher.dispatch("agg1", &events, &context).unwrap();

    let stored_events = dispatcher.get_events("agg1");
    assert_eq!(stored_events.len(), 2);
    assert_eq!(stored_events[0].event_id, "event1");
    assert_eq!(stored_events[1].event_id, "event2");

    let all_events = dispatcher.get_all_events();
    assert_eq!(all_events.len(), 1);
    assert!(all_events.contains_key(&"agg1".to_string()));

    dispatcher.clear();

    let stored_events = dispatcher.get_events("agg1");
    assert_eq!(stored_events.len(), 0);
}

#[test]
fn test_failing_dispatcher_records_nothing() {
    let mut dispatcher = InMemoryDispatcher::<TestAggregate>::failing();
    let context = CqrsContext::default();
    let events = vec![envelope("e", "agg1", 1, TestEvent::Incremented)];
    let r = dispatcher.dispatch("agg1", &events, &context);
    assert!(r.is_err());
    assert_eq!(dispatcher.get_events("agg1").len(), 0);
}

#[test]
fn test_dispatcher_keys_by_aggregate() {
    let mut dispatcher = InMemoryDispatcher::<TestAggregate>::new();
    let context = CqrsContext::default();
    dispatcher
        .dispatch(
            "a",
            &vec![envelope("e1", "a", 1, TestEvent::Incremented)],
            &context,
        )
        .unwrap();
    dispatcher
        .dispatch(
            "b",
            &vec![envelope("e2", "b", 1, TestEvent::Incremented)],
            &context,
        )
        .unwrap();
    assert_eq!(dispatcher.get_events("a").len(), 1);
    assert_eq!(dispatcher.get_events("b").len(), 1);
    assert_eq!(dispatcher.get_events("a")[0].event_id, "e1");
    assert_eq!(dispatcher.get_events("b")[0].event_id, "e2");
    let all_events = dispatcher.get_all_events();
    assert_eq!(all_events.len(), 2);
    assert!(all_events.contains_key(&"a".to_string()));
    assert!(all_events.contains_key(&"b".to_string()));
    assert_eq!(all_events.get(&"a".to_string()).unwrap()[0].event_id, "e1");
    assert_eq!(all_events.get(&"b".to_string()).unwrap()[0].event_id, "e2");
}
