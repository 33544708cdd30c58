use cqrs_rust_lib::context::CqrsContext;
use cqrs_rust_lib::string_map::StringMap;
use cqrs_rust_lib::dispatchers::memory::InMemoryDispatcher;
use cqrs_rust_lib::engine::{CountingErrorHandler, CqrsCommandEngine, NoopErrorHandler};
use cqrs_rust_lib::event_store::EventStoreImpl;
use cqrs_rust_lib::inmemory::InMemoryPersist;
use cqrs_rust_lib::testing::{CreateCommand, TestAggregate, TestEvent, UpdateCommand};

type TestEngine = CqrsCommandEngine<
    TestAggregate,
    InMemoryPersist<TestAggregate>,
    InMemoryDispatcher<TestAggregate>,
    NoopErrorHandler,
>;

fn engine() -> TestEngine {
    let persist = InMemoryPersist::<TestAggregate>::new();
    let store = EventStoreImpl::new(persist);
    CqrsCommandEngine::new(store, vec![], (), NoopErrorHandler {})
}

#[test]
fn test_create_aggregate() {
    let mut engine = engine();
    let context = CqrsContext::default();

    let aggregate_id = engine
        .execute_create(
            CreateCommand::Initialize {
                name: "toto".to_string(),
            },
            &context,
        )
        .expect("Creation should succeed");

    assert!(!aggregate_id.is_empty(), "Aggregate ID should not be empty");
}

#[test]
fn test_second_create_on_occupied_id_conflicts() {
    let mut engine = engine();
    // pinned bytes make both creates draw the same aggregate id
    let context = CqrsContext::default().with_rand_bytes([7; 16]);

    engine
        .execute_create(
            CreateCommand::Initialize {
                name: "first".to_string(),
            },
            &context,
        )
        .expect("first create must succeed");
    let err = engine
        .execute_create(
            CreateCommand::Initialize {
                name: "second".to_string(),
            },
            &context,
        )
        .expect_err("the id is occupied");
    assert_eq!(err.code, "AGGREGATE_ALREADY_EXISTS");
    assert_eq!(err.internal_code, 4002);
}

#[test]
fn test_update_aggregate() {
    let mut engine = engine();
    let context = CqrsContext::default();

    let aggregate_id = engine
        .execute_create(
            CreateCommand::Initialize {
                name: "toto".to_string(),
            },
            &context,
        )
        .expect("Creation should succeed");

    engine
        .execute_update(&aggregate_id, UpdateCommand::Increment, &context)
        .expect("Update should succeed");

    let events = engine
        .store()
        .load_events(&aggregate_id)
        .expect("Event loading should succeed");

    assert_eq!(events.len(), 2, "There should be two events");
    assert_eq!(
        events[0].payload,
        TestEvent::Created {
            name: "toto".to_string()
        }
    );
    assert!(matches!(events[1].payload, TestEvent::Incremented));
}

#[test]
fn test_multiple_updates() {
    let mut engine = engine();
    let context = CqrsContext::default();

    let aggregate_id = engine
        .execute_create(
            CreateCommand::Initialize {
                name: "toto".to_string(),
            },
            &context,
        )
        .expect("Creation should succeed");

    engine
        .execute_update(&aggregate_id, UpdateCommand::Increment, &context)
        .expect("First update should succeed");

    engine
        .execute_update(&aggregate_id, UpdateCommand::Increment, &context)
        .expect("Second update should succeed");

    let events = engine
        .store()
        .load_events(&aggregate_id)
        .expect("Event loading should succeed");

    assert_eq!(events.len(), 3, "There should be three events");
    assert_eq!(
        events[0].payload,
        TestEvent::Created {
            name: "toto".to_string()
        }
    );
    assert!(matches!(events[1].payload, TestEvent::Incremented));
    assert!(matches!(events[2].payload, TestEvent::Incremented));
}

#[test]
fn test_version_density_over_many_commits() {
    let mut engine = engine();
    let context = CqrsContext::default();
    let id = engine
        .execute_create(
            CreateCommand::Initialize {
                name: "d".to_string(),
            },
            &context,
        )
        .unwrap();
    for _ in 0..9 {
        engine
            .execute_update(&id, UpdateCommand::Increment, &context)
            .unwrap();
    }
    let events = engine.store().load_events(&id).unwrap();
    assert_eq!(events.len(), 10);
    for (i, e) in events.iter().enumerate() {
        assert_eq!(e.version, i + 1);
        assert_eq!(e.aggregate_id, id);
    }
}

#[test]
fn test_dispatcher_isolation() {
    // a failing dispatcher first, a recording one after it
    let persist = InMemoryPersist::<TestAggregate>::new();
    let store = EventStoreImpl::new(persist);
    let dispatchers = vec![
        InMemoryDispatcher::<TestAggregate>::failing(),
        InMemoryDispatcher::<TestAggregate>::new(),
    ];
    let mut engine: CqrsCommandEngine<
        TestAggregate,
        InMemoryPersist<TestAggregate>,
        InMemoryDispatcher<TestAggregate>,
        CountingErrorHandler,
    > = CqrsCommandEngine::new(store, dispatchers, (), CountingErrorHandler::new());
    let context = CqrsContext::default();

    let id = engine
        .execute_create(
            CreateCommand::Initialize {
                name: "iso".to_string(),
            },
            &context,
        )
        .expect("create must succeed though a dispatcher fails");
    engine
        .execute_update(&id, UpdateCommand::Increment, &context)
        .expect("update must succeed though a dispatcher fails");

    // (a) the committed envelopes are observable through the journal
    let events = engine.store().load_events(&id).unwrap();
    assert_eq!(events.len(), 2);

    // (b) the later dispatcher still received every envelope
    let recorded = engine.dispatchers()[1].get_events(&id);
    assert_eq!(recorded.len(), 2);
    assert_eq!(recorded[0].version, 1);
    assert_eq!(recorded[1].version, 2);

    // the failing dispatcher recorded nothing and was reported twice
    assert_eq!(engine.dispatchers()[0].get_events(&id).len(), 0);
    assert_eq!(engine.error_handler().count, 2);
}

#[test]
fn test_metadata_merge_caller_wins() {
    let mut engine = engine();
    let context = CqrsContext::new(Some("carol".to_string())).with_request_id("req-7".to_string());
    let id = engine
        .execute_create(
            CreateCommand::Initialize {
                name: "m".to_string(),
            },
            &context,
        )
        .unwrap();

    let mut caller = StringMap::new();
    caller.insert("user_id".to_string(), "override".to_string());
    caller.insert("trace".to_string(), "t-1".to_string());
    engine
        .execute_update_with_metadata(&id, UpdateCommand::Increment, caller, &context)
        .unwrap();

    let events = engine.store().load_events(&id).unwrap();
    let last = &events[1];
    assert_eq!(
        last.metadata.get(&"user_id".to_string()),
        Some(&"override".to_string())
    );
    assert_eq!(
        last.metadata.get(&"request_id".to_string()),
        Some(&"req-7".to_string())
    );
    assert_eq!(
        last.metadata.get(&"trace".to_string()),
        Some(&"t-1".to_string())
    );

    // without caller metadata the engine injects the context's identity
    let first = &events[0];
    assert_eq!(
        first.metadata.get(&"user_id".to_string()),
        Some(&"carol".to_string())
    );
    assert_eq!(
        first.metadata.get(&"request_id".to_string()),
        Some(&"req-7".to_string())
    );
}
