use cqrs_rust_lib::account::{Account, CreateCommands, Events, UpdateCommands};
use cqrs_rust_lib::aggregate::Aggregate;
use cqrs_rust_lib::context::CqrsContext;
use cqrs_rust_lib::dispatchers::memory::InMemoryDispatcher;
use cqrs_rust_lib::engine::{CqrsCommandEngine, NoopErrorHandler};
use cqrs_rust_lib::event::EventEnvelope;
use cqrs_rust_lib::event_store::EventStoreImpl;
use cqrs_rust_lib::inmemory::InMemoryPersist;
use cqrs_rust_lib::read::paged::{default_page_size, AuditLogQuery};
use cqrs_rust_lib::store::EventStoreStorage;
use cqrs_rust_lib::string_map::StringMap;

type AccountEngine = CqrsCommandEngine<
    Account,
    InMemoryPersist<Account>,
    InMemoryDispatcher<Account>,
    NoopErrorHandler,
>;

fn account_engine() -> AccountEngine {
    let persist = InMemoryPersist::<Account>::new();
    let store = EventStoreImpl::new(persist);
    CqrsCommandEngine::new(store, vec![], (), NoopErrorHandler {})
}

#[test]
fn test_inmemory_event_store() {
    let mut engine = account_engine();
    let context = CqrsContext::default();

    let uuid = engine
        .execute_create(
            CreateCommands::Create {
                owner: "owner".to_string(),
            },
            &context,
        )
        .expect("create should succeed");

    for _ in 0..4 {
        engine
            .execute_update(&uuid, UpdateCommands::Deposit { amount: 50 }, &context)
            .expect("deposit should succeed");
    }

    let (state, version) = engine.store().load_aggregate(&uuid).unwrap();
    assert_eq!(version, 5);
    assert_eq!(state.amount, 200);
}

#[test]
fn test_concurrent_deposit_conflict() {
    // two commits race after a successful create, both observing version 1
    let mut store = EventStoreImpl::new(InMemoryPersist::<Account>::new());
    let context = CqrsContext::default();
    let id = "acc-race".to_string();

    let (state0, v0) = store.initialize_aggregate(&id).unwrap();
    let mut created = state0;
    created
        .apply(Events::AccountCreated {
            owner: "bob".to_string(),
        })
        .unwrap();
    store
        .commit(
            vec![Events::AccountCreated {
                owner: "bob".to_string(),
            }],
            &created,
            StringMap::new(),
            v0,
            &context,
        )
        .expect("create commit should succeed");

    // both racers load the same state at version 1
    let (loaded, v1) = store.load_aggregate(&id).unwrap();
    assert_eq!(v1, 1);
    let mut racer_a = Account {
        id: loaded.id.clone(),
        owner: loaded.owner.clone(),
        amount: loaded.amount,
    };
    racer_a.apply(Events::Deposited { amount: 1 }).unwrap();
    let mut racer_b = Account {
        id: loaded.id.clone(),
        owner: loaded.owner.clone(),
        amount: loaded.amount,
    };
    racer_b.apply(Events::Deposited { amount: 1 }).unwrap();

    let first = store.commit(
        vec![Events::Deposited { amount: 1 }],
        &racer_a,
        StringMap::new(),
        v1,
        &context,
    );
    assert!(first.is_ok(), "the first racer wins");

    let second = store.commit(
        vec![Events::Deposited { amount: 1 }],
        &racer_b,
        StringMap::new(),
        v1,
        &context,
    );
    let err = second.expect_err("the second racer must conflict");
    assert_eq!(err.code, "CONCURRENCY_ERROR");

    // the journal and the snapshot are exactly as the winner left them
    let events = store.load_events(&id).unwrap();
    assert_eq!(events.len(), 2);
    let snap = store.load_snapshot(&id).unwrap().unwrap();
    assert_eq!(snap.version, 2);

    // retrying at the fresh version makes both succeed
    let (reloaded, v2) = store.load_aggregate(&id).unwrap();
    assert_eq!(v2, 2);
    let mut retry = Account {
        id: reloaded.id.clone(),
        owner: reloaded.owner.clone(),
        amount: reloaded.amount,
    };
    retry.apply(Events::Deposited { amount: 1 }).unwrap();
    store
        .commit(
            vec![Events::Deposited { amount: 1 }],
            &retry,
            StringMap::new(),
            v2,
            &context,
        )
        .expect("the retry succeeds");
    assert_eq!(store.load_events(&id).unwrap().len(), 3);
}

#[test]
fn test_create_conflict_on_journal_without_snapshot() {
    // an id whose journal holds one envelope but has no snapshot
    let persist = InMemoryPersist::<Account>::new();
    let context = CqrsContext::default();
    let session = persist.start_session().unwrap();
    let envelope = EventEnvelope {
        event_id: context.next_uuid(),
        aggregate_id: "ghost".to_string(),
        version: 1,
        payload: Events::AccountCreated {
            owner: "bob".to_string(),
        },
        metadata: StringMap::new(),
        at: context.now(),
    };
    let session = persist.save_events(vec![envelope], session).unwrap();
    let mut persist = persist;
    persist.close_session(session).unwrap();

    let store = EventStoreImpl::new(persist);
    let err = store
        .initialize_aggregate("ghost")
        .expect_err("a journaled id cannot be created again");
    assert_eq!(err.code, "AGGREGATE_ALREADY_EXISTS");
}

#[test]
fn test_audit_paging() {
    // N = 25 events on one aggregate: page 2 of size 10 holds versions 11..=20
    let mut engine = account_engine();
    let context = CqrsContext::default();
    let id = engine
        .execute_create(
            CreateCommands::Create {
                owner: "p".to_string(),
            },
            &context,
        )
        .unwrap();
    for _ in 0..24 {
        engine
            .execute_update(&id, UpdateCommands::Deposit { amount: 1 }, &context)
            .unwrap();
    }

    let (items, total) = engine.store().load_events_paged(&id, 2, 10).unwrap();
    assert_eq!(total, 25);
    assert_eq!(items.len(), 10);
    for (i, e) in items.iter().enumerate() {
        assert_eq!(e.version, 11 + i);
    }

    let (items, total) = engine.store().load_events_paged(&id, 3, 10).unwrap();
    assert_eq!(total, 25);
    assert_eq!(items.len(), 5);
    assert_eq!(items[0].version, 21);
}

#[test]
fn test_timestamp_coherence() {
    // every envelope of one commit carries the context's clock value
    let mut store = EventStoreImpl::new(InMemoryPersist::<Account>::new());
    let context = CqrsContext::default();
    let id = "acc-ts".to_string();
    let (state0, v0) = store.initialize_aggregate(&id).unwrap();
    let mut state = state0;
    state
        .apply(Events::AccountCreated {
            owner: "t".to_string(),
        })
        .unwrap();
    state.apply(Events::Deposited { amount: 3 }).unwrap();
    state.apply(Events::Deposited { amount: 4 }).unwrap();
    let committed = store
        .commit(
            vec![
                Events::AccountCreated {
                    owner: "t".to_string(),
                },
                Events::Deposited { amount: 3 },
                Events::Deposited { amount: 4 },
            ],
            &state,
            StringMap::new(),
            v0,
            &context,
        )
        .unwrap();
    assert_eq!(committed.len(), 3);
    assert!(committed.iter().all(|e| e.at == context.now()));
    assert_eq!(committed[0].version, 1);
    assert_eq!(committed[1].version, 2);
    assert_eq!(committed[2].version, 3);
}

#[test]
fn test_cross_aggregate_independence() {
    let mut engine = account_engine();
    let context = CqrsContext::default();
    let a = engine
        .execute_create(
            CreateCommands::Create {
                owner: "a".to_string(),
            },
            &context,
        )
        .unwrap();
    let b = engine
        .execute_create(
            CreateCommands::Create {
                owner: "b".to_string(),
            },
            &context,
        )
        .unwrap();
    engine
        .execute_update(&a, UpdateCommands::Deposit { amount: 5 }, &context)
        .unwrap();
    engine
        .execute_update(&b, UpdateCommands::Deposit { amount: 7 }, &context)
        .unwrap();
    assert_eq!(engine.store().load_events(&a).unwrap().len(), 2);
    assert_eq!(engine.store().load_events(&b).unwrap().len(), 2);
    let (sa, _) = engine.store().load_aggregate(&a).unwrap();
    let (sb, _) = engine.store().load_aggregate(&b).unwrap();
    assert_eq!(sa.amount, 5);
    assert_eq!(sb.amount, 7);
}

#[test]
fn test_load_missing_aggregate() {
    let store = EventStoreImpl::new(InMemoryPersist::<Account>::new());
    let err = store.load_aggregate("nowhere").expect_err("absent id");
    assert_eq!(err.code, "AGGREGATE_NOT_FOUND");
    assert_eq!(err.http_status, 404);
}

#[test]
fn test_audit_query_defaults() {
    let mut engine = account_engine();
    let context = CqrsContext::default();
    let id = engine
        .execute_create(
            CreateCommands::Create {
                owner: "audit".to_string(),
            },
            &context,
        )
        .unwrap();
    for _ in 0..11 {
        engine
            .execute_update(&id, UpdateCommands::Deposit { amount: 1 }, &context)
            .unwrap();
    }
    let query = AuditLogQuery {
        page: 1,
        page_size: default_page_size(),
    };
    let (items, total) = engine
        .store()
        .load_events_paged(&id, query.page, query.page_size)
        .unwrap();
    assert_eq!(total, 12);
    assert_eq!(items.len(), 10);
    assert_eq!(items[0].version, 1);
    assert_eq!(items[9].version, 10);
}
