use cqrs_rust_lib::context::CqrsContext;
use cqrs_rust_lib::event::EventEnvelope;
use cqrs_rust_lib::read::memory::InMemoryViewStore;
use cqrs_rust_lib::string_map::StringMap;
use cqrs_rust_lib::testing::{TestAggregate, TestEvent, TestView};

fn envelope(event_id: &str, aggregate_id: &str, version: usize, payload: TestEvent) -> EventEnvelope<TestEvent> {
    EventEnvelope {
        event_id: event_id.to_string(),
        aggregate_id: aggregate_id.to_string(),
        version,
        payload,
        metadata: StringMap::new(),
        at: 0,
    }
}

#[test]
fn test_in_memory_view_store() {
    let mut view_store = InMemoryViewStore::<TestAggregate, TestView>::new();

    let event = envelope(
        "event1",
        "agg1",
        1,
        TestEvent::Created {
            name: "Test 1".to_string(),
        },
    );

    view_store.update_view(&event).unwrap();

    let view = view_store.get_view("agg1").unwrap();
    assert_eq!(view.id, "agg1");
    assert_eq!(view.name, "Test 1");
    assert_eq!(view.version, 1);

    let event2 = envelope(
        "event2",
        "agg1",
        2,
        TestEvent::Updated {
            name: "Test 1 Updated".to_string(),
        },
    );

    view_store.update_view(&event2).unwrap();

    let updated_view = view_store.get_view("agg1").unwrap();
    assert_eq!(updated_view.id, "agg1");
    assert_eq!(updated_view.name, "Test 1 Updated");
    assert_eq!(updated_view.version, 2);

    let all_views = view_store.get_all_views();
    assert_eq!(all_views.len(), 1);
    assert!(all_views.contains_key(&"agg1".to_string()));

    view_store.clear();

    assert!(view_store.get_view("agg1").is_none());
}

#[test]
fn test_view_store_ignores_non_view_events() {
    let mut view_store = InMemoryViewStore::<TestAggregate, TestView>::new();
    let _ = CqrsContext::default();
    view_store
        .update_view(&envelope("e1", "agg1", 1, TestEvent::Incremented))
        .unwrap();
    assert!(view_store.get_view("agg1").is_none());
}
